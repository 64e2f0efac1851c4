//! Copying text to the system clipboard by piping it to the first clipboard
//! program that accepts it. Running a program is the caller's part; this
//! module decides which program comes next and when to stop.
use vstd::prelude::*;
use crate::text::{string_of, strs_view};

verus! {

/// A clipboard program and its arguments; the text goes to its standard
/// input.
pub struct ClipboardCommand {
    pub program: String,
    pub args: Vec<String>,
}

/// What to do next while copying.
pub enum ClipboardStep {
    /// Pipe the text to this program and report whether it succeeded.
    Run(ClipboardCommand),
    /// Stop: the text was copied, or no program took it.
    Done(bool),
}

/// How many clipboard programs are tried.
pub open spec fn candidate_count() -> int {
    5
}

/// The program tried in turn `i`: Wayland, X11 (twice), macOS, then
/// Windows from WSL.
pub open spec fn candidate_program(i: int) -> Seq<char> {
    if i == 0 {
        "wl-copy"@
    } else if i == 1 {
        "xclip"@
    } else if i == 2 {
        "xsel"@
    } else if i == 3 {
        "pbcopy"@
    } else {
        "clip.exe"@
    }
}

/// The arguments of the program tried in turn `i`.
pub open spec fn candidate_args(i: int) -> Seq<Seq<char>> {
    if i == 1 {
        seq!["-selection"@, "clipboard"@]
    } else if i == 2 {
        seq!["--clipboard"@, "--input"@]
    } else {
        Seq::empty()
    }
}

/// The step after `tried` programs were run, the last of them with the
/// outcome `last_succeeded` (false before the first): done once one
/// succeeded, else the next program, else done without success.
pub open spec fn clipboard_step(tried: int, last_succeeded: bool) -> Option<(Seq<char>, Seq<Seq<char>>)> {
    if last_succeeded || tried >= candidate_count() {
        None
    } else {
        Some((candidate_program(tried), candidate_args(tried)))
    }
}

fn strings_of(a: &str, b: &str) -> (r: Vec<String>)
    ensures
        strs_view(r@) == seq![a@, b@],
{
    let mut v: Vec<String> = Vec::new();
    v.push(string_of(a));
    v.push(string_of(b));
    assert(strs_view(v@) =~= seq![a@, b@]);
    v
}

/// Decides the next step of copying to the clipboard after `tried`
/// programs were run, the last one with the outcome `last_succeeded`.
/// The caller starts with `(0, false)`, runs each program it is given and
/// reports back, until it gets `Done`, which says whether the text was
/// copied.
pub fn copy_to_clipboard(tried: usize, last_succeeded: bool) -> (r: ClipboardStep)
    ensures
        last_succeeded ==> r == ClipboardStep::Done(true),
        !last_succeeded && tried >= candidate_count() ==> r == ClipboardStep::Done(false),
        clipboard_step(tried as int, last_succeeded) matches Some((p, a)) ==> (r matches ClipboardStep::Run(c)
            && c.program@ == p && strs_view(c.args@) == a),
{
    if last_succeeded {
        return ClipboardStep::Done(true);
    }
    let (program, args) = if tried == 0 {
        (string_of("wl-copy"), Vec::new())
    } else if tried == 1 {
        (string_of("xclip"), strings_of("-selection", "clipboard"))
    } else if tried == 2 {
        (string_of("xsel"), strings_of("--clipboard", "--input"))
    } else if tried == 3 {
        (string_of("pbcopy"), Vec::new())
    } else if tried == 4 {
        (string_of("clip.exe"), Vec::new())
    } else {
        return ClipboardStep::Done(false);
    };
    assert(tried == 0 || tried == 3 || tried == 4 ==> strs_view(args@) =~= Seq::<Seq<char>>::empty());
    ClipboardStep::Run(ClipboardCommand { program, args })
}

} // verus!
