//! The external players the reader can hand a recording to, and the command
//! line each one is started with.
use crate::text::{strs_view, 
    decimal, decimal_chars, has_prefix, push_chars, push_str, starts_with_str, string_of, to_chars,
};
use vstd::prelude::*;

verus! {

/// An installed command-line audio player.
#[derive(Clone, Copy, Debug, PartialEq, Eq, Structural)]
pub enum AudioBackend {
    Mpv,
    Ffplay,
    Cvlc,
    Vlc,
    Afplay,
}

/// Where playback stands.
#[derive(Clone, Copy, Debug, PartialEq, Eq, Structural)]
pub enum PlaybackState {
    Stopped,
    Playing,
    Paused,
}

/// The first installed player in the order of preference mpv, ffplay, cvlc,
/// vlc, afplay.
pub open spec fn preferred_backend(mpv: bool, ffplay: bool, cvlc: bool, vlc: bool, afplay: bool) -> Option<
    AudioBackend,
> {
    if mpv {
        Some(AudioBackend::Mpv)
    } else if ffplay {
        Some(AudioBackend::Ffplay)
    } else if cvlc {
        Some(AudioBackend::Cvlc)
    } else if vlc {
        Some(AudioBackend::Vlc)
    } else if afplay {
        Some(AudioBackend::Afplay)
    } else {
        None
    }
}

/// Picks the player to use, given which of the five are installed.
pub fn detect_backend(has_mpv: bool, has_ffplay: bool, has_cvlc: bool, has_vlc: bool, has_afplay: bool) -> (r:
    Option<AudioBackend>)
    ensures
        r == preferred_backend(has_mpv, has_ffplay, has_cvlc, has_vlc, has_afplay),
{
    if has_mpv {
        Some(AudioBackend::Mpv)
    } else if has_ffplay {
        Some(AudioBackend::Ffplay)
    } else if has_cvlc {
        Some(AudioBackend::Cvlc)
    } else if has_vlc {
        Some(AudioBackend::Vlc)
    } else if has_afplay {
        Some(AudioBackend::Afplay)
    } else {
        None
    }
}

/// The program name of a player.
pub open spec fn backend_program(b: AudioBackend) -> Seq<char> {
    match b {
        AudioBackend::Mpv => "mpv"@,
        AudioBackend::Ffplay => "ffplay"@,
        AudioBackend::Cvlc => "cvlc"@,
        AudioBackend::Vlc => "vlc"@,
        AudioBackend::Afplay => "afplay"@,
    }
}

/// How to start a player on a recording.
pub struct PlayerCommand {
    pub program: String,
    pub args: Vec<String>,
    /// mpv is driven through its standard input.
    pub pipe_stdin: bool,
    /// ffplay's progress report is read from its standard error.
    pub pipe_stderr: bool,
}

/// `tail` only when `cond` holds.
pub open spec fn opt_args(cond: bool, tail: Seq<Seq<char>>) -> Seq<Seq<char>> {
    if cond {
        tail
    } else {
        seq![]
    }
}

/// The arguments each player is started with: quiet, no video, the user
/// agent for HTTP(S) sources, a start offset when it is not zero, the source.
pub open spec fn player_args(b: AudioBackend, url: Seq<char>, start: nat, ua: Seq<char>) -> Seq<Seq<char>> {
    let http = has_prefix(url, "http://"@) || has_prefix(url, "https://"@);
    match b {
        AudioBackend::Mpv => seq!["--no-video"@, "--really-quiet"@] + opt_args(http, seq!["--user-agent="@ + ua])
            + opt_args(start > 0, seq!["--start="@ + decimal(start)]) + seq![url],
        AudioBackend::Ffplay => seq!["-nodisp"@, "-autoexit"@, "-stats"@, "-loglevel"@, "info"@] + opt_args(
            http,
            seq!["-user_agent"@, ua],
        ) + opt_args(start > 0, seq!["-ss"@, decimal(start)]) + seq![url],
        AudioBackend::Cvlc | AudioBackend::Vlc => seq!["--play-and-exit"@, "--no-video"@, "-I"@, "dummy"@]
            + opt_args(http, seq!["--http-user-agent="@ + ua]) + opt_args(
            start > 0,
            seq!["--start-time="@ + decimal(start)],
        ) + seq![url, "vlc://quit"@],
        AudioBackend::Afplay => opt_args(start > 0, seq!["-t"@, decimal(start)]) + seq![url],
    }
}

fn push_arg(args: &mut Vec<String>, a: String)
    ensures
        strs_view(final(args)@) == strs_view(old(args)@).push(a@),
{
    let ghost before = args@;
    args.push(a);
    assert(strs_view(args@) =~= strs_view(before).push(a@));
}

fn lit_arg(lit: &str) -> (r: String)
    ensures
        r@ == lit@,
{
    string_of(lit)
}

fn joined_arg(head: &str, tail: &Vec<char>) -> (r: String)
    ensures
        r@ == head@ + tail@,
{
    let mut s = string_of(head);
    push_chars(&mut s, tail);
    s
}

/// The command that starts `backend` on `url` at `start_secs`.
pub fn spawn_player_command(backend: AudioBackend, url: &str, start_secs: u64, user_agent: &str) -> (r:
    PlayerCommand)
    ensures
        r.program@ == backend_program(backend),
        strs_view(r.args@) == player_args(backend, url@, start_secs as nat, user_agent@),
        r.pipe_stdin == (backend == AudioBackend::Mpv),
        r.pipe_stderr == (backend == AudioBackend::Ffplay),
{
    let u = to_chars(url);
    let is_http = starts_with_str(&u, "http://") || starts_with_str(&u, "https://");
    let ua = to_chars(user_agent);
    let start = decimal_chars(start_secs);
    let mut args: Vec<String> = Vec::new();
    let ghost http = is_http;
    let program;
    match backend {
        AudioBackend::Mpv => {
            program = lit_arg("mpv");
            push_arg(&mut args, lit_arg("--no-video"));
            push_arg(&mut args, lit_arg("--really-quiet"));
            if is_http {
                push_arg(&mut args, joined_arg("--user-agent=", &ua));
            }
            if start_secs > 0 {
                push_arg(&mut args, joined_arg("--start=", &start));
            }
            push_arg(&mut args, string_of(url));
        },
        AudioBackend::Ffplay => {
            program = lit_arg("ffplay");
            push_arg(&mut args, lit_arg("-nodisp"));
            push_arg(&mut args, lit_arg("-autoexit"));
            push_arg(&mut args, lit_arg("-stats"));
            push_arg(&mut args, lit_arg("-loglevel"));
            push_arg(&mut args, lit_arg("info"));
            if is_http {
                push_arg(&mut args, lit_arg("-user_agent"));
                push_arg(&mut args, string_of(user_agent));
            }
            if start_secs > 0 {
                push_arg(&mut args, lit_arg("-ss"));
                push_arg(&mut args, joined_arg("", &start));
            }
            push_arg(&mut args, string_of(url));
        },
        AudioBackend::Cvlc | AudioBackend::Vlc => {
            program = if backend == AudioBackend::Cvlc { lit_arg("cvlc") } else { lit_arg("vlc") };
            push_arg(&mut args, lit_arg("--play-and-exit"));
            push_arg(&mut args, lit_arg("--no-video"));
            push_arg(&mut args, lit_arg("-I"));
            push_arg(&mut args, lit_arg("dummy"));
            if is_http {
                push_arg(&mut args, joined_arg("--http-user-agent=", &ua));
            }
            if start_secs > 0 {
                push_arg(&mut args, joined_arg("--start-time=", &start));
            }
            push_arg(&mut args, string_of(url));
            push_arg(&mut args, lit_arg("vlc://quit"));
        },
        AudioBackend::Afplay => {
            program = lit_arg("afplay");
            if start_secs > 0 {
                push_arg(&mut args, lit_arg("-t"));
                push_arg(&mut args, joined_arg("", &start));
            }
            push_arg(&mut args, string_of(url));
        },
    }
    proof {
        reveal_strlit("");
        assert(strs_view(args@) =~= player_args(backend, url@, start_secs as nat, user_agent@));
    }
    PlayerCommand {
        program,
        args,
        pipe_stdin: backend == AudioBackend::Mpv,
        pipe_stderr: backend == AudioBackend::Ffplay,
    }
}

/// Where a seek by `delta_secs` lands: the elapsed time moved by the delta,
/// stopping at zero and, when the length is known, at the length.
pub open spec fn seek_offset(elapsed: int, delta: int, total: Option<u64>) -> int {
    let moved = if elapsed + delta < 0 {
        0
    } else if elapsed + delta > u64::MAX {
        u64::MAX as int
    } else {
        elapsed + delta
    };
    match total {
        Some(t) => if moved < t { moved } else { t as int },
        None => moved,
    }
}

/// The playback position a seek by `delta_secs` moves to.
pub fn seek_target(elapsed_secs: u64, delta_secs: i64, total_duration_secs: Option<u64>) -> (r: u64)
    requires
        delta_secs > i64::MIN,
    ensures
        r as int == seek_offset(elapsed_secs as int, delta_secs as int, total_duration_secs),
{
    let new_offset = if delta_secs >= 0 {
        elapsed_secs.saturating_add(delta_secs as u64)
    } else {
        elapsed_secs.saturating_sub((-delta_secs) as u64)
    };
    match total_duration_secs {
        Some(total) => if new_offset < total { new_offset } else { total },
        None => new_offset,
    }
}

} // verus!
