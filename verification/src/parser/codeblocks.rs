//! Code listings: the highlighter's class names, the language a block names,
//! the text of a `<pre>` split into lines, and the framed listing the reader
//! shows (optionally numbered, long lines continued on marked rows).
use super::entities::{decode_entities, decode_html_entities};
use super::html::{node_at, HtmlDom, HtmlNode};
use super::types::{line_view, lines_view, ParsedDocument};
use super::blocks::same_marks;
use crate::text::{
    char_display_width, char_width, opt_view, chars_eq_str, decimal, decimal_chars, display_width,
    has_prefix, is_all_whitespace, push_chars, push_str, repeat_char, repeated, skip_chars,
    space_pad, split_on, split_on_char, split_whitespace_spans, slice_chars, starts_with_str,
    str_width, string_from_chars, strs_view, to_chars, trim_seq, utf8_len, byte_len, word_spans,
    words,
};
use vstd::prelude::*;

verus! {

/// What a highlighter class marks a piece of code as.
#[derive(Debug, Clone, Copy, PartialEq, Eq, Structural)]
pub enum CodeStyle {
    Plain,
    Keyword,
    Str,
    Comment,
    Name,
    Builtin,
    Number,
    Punctuation,
}

/// The category one Pygments class name stands for, if it is one the reader
/// distinguishes.
pub open spec fn class_style(w: Seq<char>) -> Option<CodeStyle> {
    if w == "k"@ || w == "kd"@ || w == "kn"@ || w == "kr"@ || w == "kc"@ || w == "ow"@ {
        Some(CodeStyle::Keyword)
    } else if w == "s"@ || w == "s1"@ || w == "s2"@ || w == "sb"@ || w == "sc"@ || w == "sd"@
        || w == "se"@ || w == "sh"@ || w == "si"@ || w == "sx"@ || w == "sr"@ || w == "ss"@ {
        Some(CodeStyle::Str)
    } else if w == "c"@ || w == "c1"@ || w == "cm"@ || w == "cs"@ || w == "cp"@ || w == "cpf"@
        || w == "ch"@ {
        Some(CodeStyle::Comment)
    } else if w == "nf"@ || w == "fm"@ || w == "nc"@ || w == "nn"@ || w == "ne"@ || w == "na"@ {
        Some(CodeStyle::Name)
    } else if w == "nb"@ || w == "no"@ || w == "nv"@ || w == "vc"@ || w == "vg"@ || w == "vi"@
        || w == "vm"@ {
        Some(CodeStyle::Builtin)
    } else if w == "m"@ || w == "mi"@ || w == "mf"@ || w == "mh"@ || w == "mo"@ || w == "il"@
        || w == "mb"@ {
        Some(CodeStyle::Number)
    } else if w == "o"@ || w == "p"@ {
        Some(CodeStyle::Punctuation)
    } else {
        None
    }
}

/// The category of the first of `ws[k..]` that names one, else `Plain`.
pub open spec fn first_class_style(ws: Seq<Seq<char>>, k: int) -> CodeStyle
    decreases ws.len() - k,
{
    if k < 0 || k >= ws.len() {
        CodeStyle::Plain
    } else {
        match class_style(ws[k]) {
            Some(s) => s,
            None => first_class_style(ws, k + 1),
        }
    }
}

/// The category a `class` attribute gives code: that of its first
/// whitespace-separated class name the reader distinguishes.
pub open spec fn pygments_style(class: Seq<char>) -> CodeStyle {
    first_class_style(words(class), 0)
}

fn class_style_exec(w: &Vec<char>) -> (r: Option<CodeStyle>)
    ensures
        r == class_style(w@),
{
    if chars_eq_str(w, "k") || chars_eq_str(w, "kd") || chars_eq_str(w, "kn") || chars_eq_str(w, "kr")
        || chars_eq_str(w, "kc") || chars_eq_str(w, "ow") {
        Some(CodeStyle::Keyword)
    } else if chars_eq_str(w, "s") || chars_eq_str(w, "s1") || chars_eq_str(w, "s2") || chars_eq_str(
        w,
        "sb",
    ) || chars_eq_str(w, "sc") || chars_eq_str(w, "sd") || chars_eq_str(w, "se") || chars_eq_str(
        w,
        "sh",
    ) || chars_eq_str(w, "si") || chars_eq_str(w, "sx") || chars_eq_str(w, "sr") || chars_eq_str(
        w,
        "ss",
    ) {
        Some(CodeStyle::Str)
    } else if chars_eq_str(w, "c") || chars_eq_str(w, "c1") || chars_eq_str(w, "cm") || chars_eq_str(
        w,
        "cs",
    ) || chars_eq_str(w, "cp") || chars_eq_str(w, "cpf") || chars_eq_str(w, "ch") {
        Some(CodeStyle::Comment)
    } else if chars_eq_str(w, "nf") || chars_eq_str(w, "fm") || chars_eq_str(w, "nc") || chars_eq_str(
        w,
        "nn",
    ) || chars_eq_str(w, "ne") || chars_eq_str(w, "na") {
        Some(CodeStyle::Name)
    } else if chars_eq_str(w, "nb") || chars_eq_str(w, "no") || chars_eq_str(w, "nv") || chars_eq_str(
        w,
        "vc",
    ) || chars_eq_str(w, "vg") || chars_eq_str(w, "vi") || chars_eq_str(w, "vm") {
        Some(CodeStyle::Builtin)
    } else if chars_eq_str(w, "m") || chars_eq_str(w, "mi") || chars_eq_str(w, "mf") || chars_eq_str(
        w,
        "mh",
    ) || chars_eq_str(w, "mo") || chars_eq_str(w, "il") || chars_eq_str(w, "mb") {
        Some(CodeStyle::Number)
    } else if chars_eq_str(w, "o") || chars_eq_str(w, "p") {
        Some(CodeStyle::Punctuation)
    } else {
        None
    }
}

/// The category a highlighter `class` attribute gives a piece of code.
pub fn pygments_class_style(class_str: &str) -> (r: CodeStyle)
    ensures
        r == pygments_style(class_str@),
{
    let s = to_chars(class_str);
    let spans = split_whitespace_spans(&s);
    let ghost ws = words(s@);
    let mut k: usize = 0;
    while k < spans.len()
        invariant
            k <= spans.len(),
            spans@.len() == word_spans(s@).len(),
            ws == words(s@),
            forall|j: int| 0 <= j < spans@.len() ==> (#[trigger] spans@[j]).0 as int == word_spans(s@)[j].0
                && spans@[j].1 as int == word_spans(s@)[j].1,
            crate::text::spans_well_formed(s@, word_spans(s@)),
            first_class_style(ws, 0) == first_class_style(ws, k as int),
            s@ == class_str@,
        decreases spans.len() - k,
    {
        let (a, b) = spans[k];
        let w = slice_chars(&s, a, b);
        assert(w@ == ws[k as int]);
        assert(ws.len() == spans@.len());
        match class_style_exec(&w) {
            Some(st) => {
                assert(first_class_style(ws, k as int) == st);
                return st;
            },
            None => {},
        }
        k += 1;
    }
    CodeStyle::Plain
}

/// The language a class name names (`mw-highlight-lang-…`, `lang-…`,
/// `language-…`).
pub open spec fn word_language(w: Seq<char>) -> Option<Seq<char>> {
    if has_prefix(w, "mw-highlight-lang-"@) {
        Some(w.skip("mw-highlight-lang-"@.len() as int))
    } else if has_prefix(w, "lang-"@) {
        Some(w.skip("lang-"@.len() as int))
    } else if has_prefix(w, "language-"@) {
        Some(w.skip("language-"@.len() as int))
    } else {
        None
    }
}

/// The language named by the first of `ws[k..]` that names one.
pub open spec fn first_language(ws: Seq<Seq<char>>, k: int) -> Option<Seq<char>>
    decreases ws.len() - k,
{
    if k < 0 || k >= ws.len() {
        None
    } else {
        match word_language(ws[k]) {
            Some(l) => Some(l),
            None => first_language(ws, k + 1),
        }
    }
}

/// The language a `class` attribute names, if any.
pub open spec fn class_language(class: Option<Seq<char>>) -> Option<Seq<char>> {
    match class {
        Some(c) => first_language(words(c), 0),
        None => None,
    }
}

/// The language a code block's `class` attribute names.
pub fn extract_language(class: &Option<String>) -> (r: Option<String>)
    ensures
        r matches Some(l) ==> class_language(opt_view(*class)) == Some(l@),
        r is None ==> class_language(opt_view(*class)) is None,
{
    let c = match class {
        Some(c) => c,
        None => {
            return None;
        },
    };
    let s = to_chars(c.as_str());
    assert(opt_view(*class) == Some(s@));
    let spans = split_whitespace_spans(&s);
    let ghost ws = words(s@);
    proof {
        reveal_strlit("mw-highlight-lang-");
        reveal_strlit("lang-");
        reveal_strlit("language-");
    }
    let mut k: usize = 0;
    while k < spans.len()
        invariant
            k <= spans.len(),
            spans@.len() == word_spans(s@).len(),
            ws == words(s@),
            forall|j: int| 0 <= j < spans@.len() ==> (#[trigger] spans@[j]).0 as int == word_spans(s@)[j].0
                && spans@[j].1 as int == word_spans(s@)[j].1,
            crate::text::spans_well_formed(s@, word_spans(s@)),
            first_language(ws, 0) == first_language(ws, k as int),
            opt_view(*class) == Some(s@),
            "mw-highlight-lang-"@.len() == 18,
            "lang-"@.len() == 5,
            "language-"@.len() == 9,
        decreases spans.len() - k,
    {
        let (a, b) = spans[k];
        let w = slice_chars(&s, a, b);
        assert(w@ == ws[k as int]);
        assert(ws.len() == spans@.len());
        if starts_with_str(&w, "mw-highlight-lang-") {
            return Some(string_from_chars(&skip_chars(&w, 18)));
        }
        if starts_with_str(&w, "lang-") {
            return Some(string_from_chars(&skip_chars(&w, 5)));
        }
        if starts_with_str(&w, "language-") {
            return Some(string_from_chars(&skip_chars(&w, 9)));
        }
        k += 1;
    }
    None
}

// ---------------------------------------------------------------------------
// The text of a listing, line by line
// ---------------------------------------------------------------------------

/// Adds part `first`-or-not of a text run: every part after the first starts
/// a new line, and a non-empty part goes on the last line as a piece.
pub open spec fn add_code_part(lines: Seq<Seq<Seq<char>>>, part: Seq<char>, first: bool) -> Seq<Seq<Seq<char>>> {
    let l1 = if !first { lines.push(Seq::empty()) } else { lines };
    if part.len() > 0 {
        let l2 = if l1.len() == 0 { l1.push(Seq::empty()) } else { l1 };
        l2.update(l2.len() - 1, l2[l2.len() - 1].push(part))
    } else {
        l1
    }
}

/// The first `n` parts added.
pub open spec fn add_code_parts(lines: Seq<Seq<Seq<char>>>, parts: Seq<Seq<char>>, n: int) -> Seq<Seq<Seq<char>>>
    decreases n,
{
    if n <= 0 {
        lines
    } else {
        add_code_part(add_code_parts(lines, parts, n - 1), parts[n - 1], n - 1 == 0)
    }
}

/// A text run added: entities decoded, split at line feeds.
pub open spec fn add_code_text(lines: Seq<Seq<Seq<char>>>, raw: Seq<char>) -> Seq<Seq<Seq<char>>> {
    let parts = split_on(decode_entities(raw), '\n');
    add_code_parts(lines, parts, parts.len() as int)
}

/// The lines after the text under node `i` (down to `depth` levels of tags)
/// is added.
pub open spec fn code_node(d: HtmlDom, i: int, depth: nat, lines: Seq<Seq<Seq<char>>>) -> Seq<Seq<Seq<char>>>
    decreases depth, 0int,
{
    match node_at(d, i) {
        Some(HtmlNode::Text(t)) => add_code_text(lines, t@),
        Some(HtmlNode::Tag { children, .. }) => if depth == 0 {
            lines
        } else {
            code_children(d, children@, children@.len() as int, (depth - 1) as nat, lines)
        },
        _ => lines,
    }
}

/// The lines after the first `n` of `kids` are added.
pub open spec fn code_children(
    d: HtmlDom,
    kids: Seq<usize>,
    n: int,
    depth: nat,
    lines: Seq<Seq<Seq<char>>>,
) -> Seq<Seq<Seq<char>>>
    decreases depth, n,
{
    if n <= 0 || n > kids.len() {
        lines
    } else {
        code_node(d, kids[n - 1] as int, depth, code_children(d, kids, n - 1, depth, lines))
    }
}

/// The lines of the listing under node `i`.
pub open spec fn code_lines(d: HtmlDom, i: int) -> Seq<Seq<Seq<char>>> {
    code_node(d, i, d.nodes@.len(), Seq::empty())
}

proof fn lemma_set_last(ls: Seq<Vec<String>>, l: Vec<String>)
    requires
        ls.len() > 0,
    ensures
        lines_view(ls.drop_last().push(l)) == lines_view(ls).update(ls.len() - 1, line_view(l)),
{
    assert(lines_view(ls.drop_last().push(l)) =~= lines_view(ls).update(ls.len() - 1, line_view(l)));
}

proof fn lemma_push_row(ls: Seq<Vec<String>>, l: Vec<String>)
    ensures
        lines_view(ls.push(l)) == lines_view(ls).push(line_view(l)),
{
    assert(lines_view(ls.push(l)) =~= lines_view(ls).push(line_view(l)));
}

fn add_code_part_exec(lines: &mut Vec<Vec<String>>, part: &Vec<char>, first: bool)
    ensures
        lines_view(final(lines)@) == add_code_part(lines_view(old(lines)@), part@, first),
{
    if !first {
        let empty: Vec<String> = Vec::new();
        proof {
            lemma_push_row(lines@, empty);
            assert(line_view(empty) =~= Seq::<Seq<char>>::empty());
        }
        lines.push(empty);
    }
    if part.len() > 0 {
        if lines.len() == 0 {
            let empty: Vec<String> = Vec::new();
            proof {
                lemma_push_row(lines@, empty);
                assert(line_view(empty) =~= Seq::<Seq<char>>::empty());
            }
            lines.push(empty);
        }
        let ghost before = lines@;
        assert(lines_view(before).len() == before.len());
        let mut last = lines.pop().unwrap();
        assert(lines@ == before.drop_last());
        let ghost lv = line_view(last);
        last.push(string_from_chars(part));
        assert(line_view(last) =~= lv.push(part@));
        proof {
            lemma_set_last(before, last);
        }
        lines.push(last);
    }
}

fn add_code_text_exec(lines: &mut Vec<Vec<String>>, raw: &str)
    ensures
        lines_view(final(lines)@) == add_code_text(lines_view(old(lines)@), raw@),
{
    let decoded = decode_html_entities(raw);
    let chars = to_chars(decoded.as_str());
    let parts = split_on_char(&chars, '\n');
    let ghost pv = parts@.map_values(|p: Vec<char>| p@);
    let ghost start = lines_view(lines@);
    let mut k: usize = 0;
    while k < parts.len()
        invariant
            k <= parts.len(),
            pv == parts@.map_values(|p: Vec<char>| p@),
            pv == split_on(decode_entities(raw@), '\n'),
            lines_view(lines@) == add_code_parts(start, pv, k as int),
        decreases parts.len() - k,
    {
        add_code_part_exec(lines, &parts[k], k == 0);
        k += 1;
    }
}

fn code_node_exec(d: &HtmlDom, i: usize, depth: usize, lines: &mut Vec<Vec<String>>)
    ensures
        lines_view(final(lines)@) == code_node(*d, i as int, depth as nat, lines_view(old(lines)@)),
    decreases depth, 0usize,
{
    if i >= d.nodes.len() {
        return;
    }
    match &d.nodes[i] {
        HtmlNode::Text(t) => {
            add_code_text_exec(lines, t.as_str());
        },
        HtmlNode::Tag { children, .. } => {
            if depth == 0 {
                return;
            }
            let ghost start = lines_view(lines@);
            let mut k: usize = 0;
            while k < children.len()
                invariant
                    k <= children.len(),
                    d.nodes@[i as int] == (HtmlNode::Tag { name: d.nodes@[i as int]->name, attrs: d.nodes@[i as int]->attrs, children: *children }),
                    depth > 0,
                    lines_view(lines@) == code_children(*d, children@, k as int, (depth - 1) as nat, start),
                decreases children.len() - k,
            {
                code_node_exec(d, children[k], depth - 1, lines);
                k += 1;
            }
        },
        HtmlNode::Comment => {},
    }
}

// ---------------------------------------------------------------------------
// The framed listing
// ---------------------------------------------------------------------------

/// Every piece of the line is blank.
pub open spec fn blank_line(l: Seq<Seq<char>>) -> bool {
    forall|k: int| 0 <= k < l.len() ==> trim_seq(#[trigger] l[k]).len() == 0
}

/// `ls` without its trailing blank lines.
pub open spec fn drop_blank_tail(ls: Seq<Seq<Seq<char>>>) -> Seq<Seq<Seq<char>>>
    decreases ls.len(),
{
    if ls.len() > 0 && blank_line(ls.last()) {
        drop_blank_tail(ls.drop_last())
    } else {
        ls
    }
}

/// The display width of a line's pieces, summed.
pub open spec fn pieces_width(l: Seq<Seq<char>>) -> nat
    decreases l.len(),
{
    if l.len() == 0 {
        0
    } else {
        pieces_width(l.drop_last()) + display_width(l.last())
    }
}

/// The pieces that open row `k` of a listing: the frame, and the row number
/// right-aligned in `digits` columns when rows are numbered.
pub open spec fn row_prefix(digits: Option<nat>, k: int) -> Seq<Seq<char>> {
    match digits {
        Some(w) => seq!["│ "@, space_pad(decimal((k + 1) as nat), w) + " "@],
        None => seq!["│ "@],
    }
}

/// The pieces that open a continued row.
pub open spec fn continuation_prefix(digits: Option<nat>) -> Seq<Seq<char>> {
    match digits {
        Some(w) => seq!["│ "@, repeated(' ', if w >= 1 { (w - 1) as nat } else { 0 }) + "↪ "@],
        None => seq!["│ "@],
    }
}

/// A row being filled: finished rows, the current row's pieces and the
/// width of the code on it.
pub type RowState = (Seq<Seq<Seq<char>>>, Seq<Seq<char>>, nat);

/// The columns a character takes (one where `unicode-width` gives none).
pub open spec fn code_char_width(c: char) -> nat {
    match char_display_width(c) {
        Some(w) => w,
        None => 1,
    }
}

/// Adds one character, starting a continued row when it would pass `cw`.
pub open spec fn place_code_char(st: RowState, c: char, digits: Option<nat>, cw: nat) -> RowState {
    let w = code_char_width(c);
    let st1 = if st.2 + w > cw && st.2 > 0 {
        (st.0.push(st.1), continuation_prefix(digits), 0nat)
    } else {
        st
    };
    (st1.0, st1.1.push(seq![c]), st1.2 + w)
}

/// The first `n` characters of `piece` added one by one.
pub open spec fn place_code_chars(st: RowState, piece: Seq<char>, n: int, digits: Option<nat>, cw: nat) -> RowState
    decreases n,
{
    if n <= 0 {
        st
    } else {
        place_code_char(place_code_chars(st, piece, n - 1, digits, cw), piece[n - 1], digits, cw)
    }
}

/// Adds a piece whole where it fits, else character by character.
pub open spec fn place_code_piece(st: RowState, piece: Seq<char>, digits: Option<nat>, cw: nat) -> RowState {
    let w = display_width(piece);
    if st.2 + w <= cw {
        (st.0, st.1.push(piece), st.2 + w)
    } else {
        place_code_chars(st, piece, piece.len() as int, digits, cw)
    }
}

/// The first `n` pieces of a line added.
pub open spec fn place_code_pieces(st: RowState, l: Seq<Seq<char>>, n: int, digits: Option<nat>, cw: nat) -> RowState
    decreases n,
{
    if n <= 0 {
        st
    } else {
        place_code_piece(place_code_pieces(st, l, n - 1, digits, cw), l[n - 1], digits, cw)
    }
}

/// The rows line `k` of a listing takes: one when its code fits in `cw`
/// columns, else as many as wrapping it takes.
pub open spec fn code_line_rows(l: Seq<Seq<char>>, k: int, digits: Option<nat>, cw: nat) -> Seq<Seq<Seq<char>>> {
    if pieces_width(l) <= cw {
        seq![row_prefix(digits, k) + l]
    } else {
        let st = place_code_pieces((Seq::empty(), row_prefix(digits, k), 0), l, l.len() as int, digits, cw);
        st.0.push(st.1)
    }
}

/// The rows of the first `n` lines.
pub open spec fn code_rows(ls: Seq<Seq<Seq<char>>>, n: int, digits: Option<nat>, cw: nat) -> Seq<Seq<Seq<char>>>
    decreases n,
{
    if n <= 0 {
        Seq::empty()
    } else {
        code_rows(ls, n - 1, digits, cw) + code_line_rows(ls[n - 1], n - 1, digits, cw)
    }
}

/// The width of the row-number column for a listing of `n` lines.
pub open spec fn gutter_digits(n: nat) -> nat {
    if n < 100 {
        2
    } else {
        decimal(n).len()
    }
}

/// `a - b`, or zero.
pub open spec fn sub0(a: int, b: int) -> nat {
    if a > b {
        (a - b) as nat
    } else {
        0
    }
}

pub open spec fn at_least(a: nat, b: nat) -> nat {
    if a >= b {
        a
    } else {
        b
    }
}

/// The top of the frame: a tab with the language when there is one.
pub open spec fn code_header(eff: nat, lang: Option<Seq<char>>) -> Seq<Seq<char>> {
    match lang {
        Some(l) => {
            let tag = " "@ + l + " "@;
            seq!["┌─"@, tag, repeated('─', at_least(sub0(eff as int, (utf8_len(tag) + 4) as int), 2))]
        },
        None => seq!["┌"@, repeated('─', at_least(sub0(eff as int, 2), 2))],
    }
}

/// The bottom of the frame.
pub open spec fn code_footer(eff: nat) -> Seq<Seq<char>> {
    seq!["└"@, repeated('─', at_least(sub0(eff as int, 2), 2))]
}

/// The lines a listing with these text lines takes at `max_width` columns:
/// nothing when all its lines are blank; else the frame's top, the rows, the
/// frame's bottom and an empty line. Trailing blank lines are left out.
pub open spec fn code_block_lines(
    raw: Seq<Seq<Seq<char>>>,
    max_width: nat,
    lang: Option<Seq<char>>,
    numbers: bool,
) -> Seq<Seq<Seq<char>>> {
    let ls = drop_blank_tail(raw);
    if ls.len() == 0 {
        Seq::empty()
    } else {
        let eff = at_least(max_width, 20);
        let digits: Option<nat> = if numbers { Some(gutter_digits(ls.len())) } else { None };
        let prefix: nat = match digits {
            Some(w) => 2 + w + 1,
            None => 2,
        };
        let cw = sub0(eff as int, prefix as int);
        seq![code_header(eff, lang)] + code_rows(ls, ls.len() as int, digits, cw) + seq![
            code_footer(eff),
            Seq::empty(),
        ]
    }
}

fn is_blank_line(l: &Vec<String>) -> (r: bool)
    ensures
        r == blank_line(line_view(*l)),
{
    let mut k: usize = 0;
    while k < l.len()
        invariant
            k <= l.len(),
            forall|j: int| 0 <= j < k ==> trim_seq(#[trigger] line_view(*l)[j]).len() == 0,
        decreases l.len() - k,
    {
        let c = to_chars(l[k].as_str());
        if !is_all_whitespace(&c) {
            assert(trim_seq(line_view(*l)[k as int]).len() != 0);
            return false;
        }
        k += 1;
    }
    true
}

/// Whether the pieces of `l` fit in `cw` columns.
fn fits_in(l: &Vec<String>, cw: usize) -> (r: bool)
    ensures
        r == (pieces_width(line_view(*l)) <= cw),
{
    let mut total: usize = 0;
    let mut k: usize = 0;
    while k < l.len()
        invariant
            k <= l.len(),
            total == pieces_width(line_view(*l).take(k as int)),
            total <= cw,
        decreases l.len() - k,
    {
        let w = str_width(l[k].as_str());
        assert(line_view(*l).take(k + 1).drop_last() =~= line_view(*l).take(k as int));
        if w > cw - total {
            proof {
                lemma_pieces_width_prefix(line_view(*l), k + 1);
            }
            return false;
        }
        total = total + w;
        k += 1;
    }
    assert(line_view(*l).take(l.len() as int) =~= line_view(*l));
    true
}

proof fn lemma_pieces_width_prefix(l: Seq<Seq<char>>, k: int)
    requires
        0 <= k <= l.len(),
    ensures
        pieces_width(l.take(k)) <= pieces_width(l),
    decreases l.len() - k,
{
    if k < l.len() {
        lemma_pieces_width_prefix(l, k + 1);
        assert(l.take(k + 1).drop_last() =~= l.take(k));
    } else {
        assert(l.take(k) =~= l);
    }
}

fn row_prefix_exec(digits: Option<usize>, k: usize) -> (r: Vec<String>)
    requires
        k < usize::MAX,
    ensures
        line_view(r) == row_prefix(
            match digits {
                Some(w) => Some(w as nat),
                None => None,
            },
            k as int,
        ),
{
    let mut r: Vec<String> = Vec::new();
    r.push(crate::text::string_of("│ "));
    match digits {
        Some(w) => {
            let num = decimal_chars((k + 1) as u64);
            let mut g = String::new();
            if num.len() < w {
                push_str(&mut g, repeat_char(' ', w - num.len()).as_str());
            }
            push_chars(&mut g, &num);
            push_str(&mut g, " ");
            assert(g@ =~= space_pad(decimal((k + 1) as nat), w as nat) + " "@);
            r.push(g);
        },
        None => {},
    }
    assert(line_view(r) =~= row_prefix(
        match digits {
            Some(w) => Some(w as nat),
            None => None,
        },
        k as int,
    ));
    r
}

fn continuation_prefix_exec(digits: Option<usize>) -> (r: Vec<String>)
    ensures
        line_view(r) == continuation_prefix(
            match digits {
                Some(w) => Some(w as nat),
                None => None,
            },
        ),
{
    let mut r: Vec<String> = Vec::new();
    r.push(crate::text::string_of("│ "));
    match digits {
        Some(w) => {
            let pad = if w >= 1 { w - 1 } else { 0 };
            let mut g = repeat_char(' ', pad);
            push_str(&mut g, "↪ ");
            r.push(g);
        },
        None => {},
    }
    assert(line_view(r) =~= continuation_prefix(
        match digits {
            Some(w) => Some(w as nat),
            None => None,
        },
    ));
    r
}

/// Appends to `out` the rows of line `k` of a listing.
fn push_code_line_rows(
    out: &mut Vec<Vec<String>>,
    l: &Vec<String>,
    k: usize,
    digits: Option<usize>,
    cw: usize,
)
    requires
        k < usize::MAX,
    ensures
        lines_view(final(out)@) == lines_view(old(out)@) + code_line_rows(
            line_view(*l),
            k as int,
            match digits {
                Some(w) => Some(w as nat),
                None => None,
            },
            cw as nat,
        ),
{
    let ghost dg: Option<nat> = match digits {
        Some(w) => Some(w as nat),
        None => None,
    };
    let ghost lv = line_view(*l);
    let mut cur = row_prefix_exec(digits, k);
    if fits_in(l, cw) {
        let mut j: usize = 0;
        let ghost p = line_view(cur);
        while j < l.len()
            invariant
                j <= l.len(),
                line_view(cur) == p + lv.take(j as int),
                lv == line_view(*l),
            decreases l.len() - j,
        {
            let ghost before = line_view(cur);
            cur.push(l[j].clone());
            assert(line_view(cur) =~= before.push(lv[j as int]));
            assert(lv.take(j + 1) =~= lv.take(j as int).push(lv[j as int]));
            assert(line_view(cur) =~= p + lv.take(j + 1));
            j += 1;
        }
        assert(lv.take(l.len() as int) =~= lv);
        proof {
            lemma_push_row(out@, cur);
        }
        out.push(cur);
        assert(lines_view(old(out)@).push(p + lv) =~= lines_view(old(out)@) + seq![p + lv]);
        return;
    }
    let ghost start_rows = lines_view(out@);
    let ghost init: RowState = (Seq::empty(), line_view(cur), 0);
    let mut cur_len: usize = 0;
    let mut j: usize = 0;
    assert(lines_view(out@) =~= start_rows + init.0);
    while j < l.len()
        invariant
            j <= l.len(),
            lv == line_view(*l),
            dg == (match digits {
                Some(w) => Some(w as nat),
                None => None,
            }),
            ({
                let st = place_code_pieces(init, lv, j as int, dg, cw as nat);
                &&& lines_view(out@) == start_rows + st.0
                &&& line_view(cur) == st.1
                &&& cur_len == st.2
            }),
        decreases l.len() - j,
    {
        let piece = &l[j];
        let w = str_width(piece.as_str());
        if w <= cw && cur_len <= cw - w {
            let ghost before = line_view(cur);
            cur.push(piece.clone());
            assert(line_view(cur) =~= before.push(lv[j as int]));
            cur_len = cur_len + w;
        } else {
            let chars = to_chars(piece.as_str());
            let ghost st0 = place_code_pieces(init, lv, j as int, dg, cw as nat);
            let mut m: usize = 0;
            while m < chars.len()
                invariant
                    m <= chars.len(),
                    chars@ == lv[j as int],
                    dg == (match digits {
                        Some(w) => Some(w as nat),
                        None => None,
                    }),
                    ({
                        let st = place_code_chars(st0, chars@, m as int, dg, cw as nat);
                        &&& lines_view(out@) == start_rows + st.0
                        &&& line_view(cur) == st.1
                        &&& cur_len == st.2
                    }),
                decreases chars.len() - m,
            {
                let c = chars[m];
                let cwid: usize = match char_width(c) {
                    Some(x) => x,
                    None => 1,
                };
                let ghost stm = place_code_chars(st0, chars@, m as int, dg, cw as nat);
                assert(c == chars@[m as int]);
                if cur_len > 0 && (cwid > cw || cur_len > cw - cwid) {
                    let mut row: Vec<String> = Vec::new();
                    std::mem::swap(&mut row, &mut cur);
                    proof {
                        lemma_push_row(out@, row);
                        assert((start_rows + stm.0).push(stm.1) =~= start_rows + stm.0.push(stm.1));
                    }
                    out.push(row);
                    cur = continuation_prefix_exec(digits);
                    cur_len = 0;
                }
                let mut one = String::new();
                crate::text::push_char(&mut one, c);
                assert(one@ =~= seq![c]);
                let ghost before = line_view(cur);
                cur.push(one);
                assert(line_view(cur) =~= before.push(seq![c]));
                cur_len = cur_len + cwid;
                m += 1;
            }
            assert(chars@.len() == lv[j as int].len());
        }
        j += 1;
    }
    proof {
        lemma_push_row(out@, cur);
    }
    out.push(cur);
    let ghost st = place_code_pieces(init, lv, lv.len() as int, dg, cw as nat);
    assert(start_rows + st.0.push(st.1) =~= (start_rows + st.0).push(st.1));
}

/// Renders the listing under node `node` of `dom` as a framed block after
/// the lines `doc` has: a top line with the language tab (`lang`), one row
/// per line of code (numbered when `code_line_numbers`), long lines carried
/// on marked continuation rows, a bottom line and an empty line. A listing
/// with nothing but blank lines adds nothing.
#[verifier::rlimit(40)]
#[verifier::spinoff_prover]
pub fn render_code_block(
    dom: &HtmlDom,
    node: usize,
    doc: &mut ParsedDocument,
    max_width: usize,
    lang: Option<String>,
    code_line_numbers: bool,
)
    ensures
        lines_view(final(doc).lines@) == lines_view(old(doc).lines@) + code_block_lines(
            code_lines(*dom, node as int),
            max_width as nat,
            opt_view(lang),
            code_line_numbers,
        ),
        final(doc).links@ == old(doc).links@,
        same_marks(*old(doc), *final(doc)),
{
    let mut raw: Vec<Vec<String>> = Vec::new();
    assert(lines_view(raw@) =~= Seq::<Seq<Seq<char>>>::empty());
    code_node_exec(dom, node, dom.nodes.len(), &mut raw);
    let ghost rv = code_lines(*dom, node as int);
    assert(lines_view(raw@) == rv);
    while raw.len() > 0 && is_blank_line(&raw[raw.len() - 1])
        invariant
            drop_blank_tail(rv) == drop_blank_tail(lines_view(raw@)),
        decreases raw.len(),
    {
        let ghost before = raw@;
        assert(lines_view(before).last() == line_view(before.last()));
        raw.pop();
        assert(lines_view(raw@) =~= lines_view(before).drop_last());
    }
    assert(!(lines_view(raw@).len() > 0 && blank_line(lines_view(raw@).last())));
    let ghost ls = lines_view(raw@);
    assert(drop_blank_tail(rv) == ls);
    let ghost lang_v: Option<Seq<char>> = opt_view(lang);
    if raw.len() == 0 {
        assert(lines_view(doc.lines@) =~= lines_view(doc.lines@) + Seq::<Seq<Seq<char>>>::empty());
        return;
    }
    let eff: usize = if max_width >= 20 { max_width } else { 20 };
    let n = raw.len();
    let digits: Option<usize> = if code_line_numbers {
        if n < 100 {
            Some(2)
        } else {
            let ds = decimal_chars(n as u64);
            Some(ds.len())
        }
    } else {
        None
    };
    proof {
        reveal_strlit("│ ");
        reveal_strlit(" ");
        reveal_strlit("┌─");
        reveal_strlit("┌");
        reveal_strlit("└");
        if n >= 100 {
            lemma_decimal_len_le((n / 10) as nat);
            assert(decimal(n as nat).len() == decimal((n / 10) as nat).len() + 1);
        }
    }
    let prefix: usize = match digits {
        Some(w) => w + 3,
        None => 2,
    };
    let ghost dg: Option<nat> = match digits {
        Some(w) => Some(w as nat),
        None => None,
    };
    let cw: usize = if eff > prefix { eff - prefix } else { 0 };
    let ghost spec_digits: Option<nat> = if code_line_numbers { Some(gutter_digits(ls.len())) } else { None };
    assert(dg == spec_digits);
    let ghost spec_prefix: nat = match spec_digits {
        Some(w) => 2 + w + 1,
        None => 2,
    };
    assert(cw as nat == sub0(at_least(max_width as nat, 20) as int, spec_prefix as int));
    let mut header: Vec<String> = Vec::new();
    match &lang {
        Some(l) => {
            header.push(crate::text::string_of("┌─"));
            let mut tag = crate::text::string_of(" ");
            push_str(&mut tag, l.as_str());
            push_str(&mut tag, " ");
            let tag_len = byte_len(tag.as_str());
            let room: usize = if tag_len >= eff { 0 } else if eff - tag_len > 4 { eff - tag_len - 4 } else { 0 };
            let bar = if room >= 2 { room } else { 2 };
            header.push(tag);
            header.push(repeat_char('─', bar));
        },
        None => {
            header.push(crate::text::string_of("┌"));
            let bar = if eff - 2 >= 2 { eff - 2 } else { 2 };
            header.push(repeat_char('─', bar));
        },
    }
    assert(line_view(header) =~= code_header(eff as nat, lang_v));
    proof {
        lemma_push_row(doc.lines@, header);
    }
    let ghost base = lines_view(doc.lines@);
    doc.lines.push(header);
    let mut k: usize = 0;
    while k < raw.len()
        invariant
            k <= raw.len(),
            n == raw.len(),
            ls == lines_view(raw@),
            dg == (match digits {
                Some(w) => Some(w as nat),
                None => None,
            }),
            lines_view(doc.lines@) == base.push(code_header(eff as nat, lang_v)) + code_rows(ls, k as int, dg, cw as nat),
            doc.links@ == old(doc).links@,
            same_marks(*old(doc), *doc),
        decreases raw.len() - k,
    {
        let ghost before = lines_view(doc.lines@);
        push_code_line_rows(&mut doc.lines, &raw[k], k, digits, cw);
        assert(ls[k as int] == line_view(raw@[k as int]));
        assert(code_rows(ls, k + 1, dg, cw as nat) == code_rows(ls, k as int, dg, cw as nat) + code_line_rows(
            ls[k as int],
            k as int,
            dg,
            cw as nat,
        ));
        assert(base.push(code_header(eff as nat, lang_v)) + code_rows(ls, k + 1, dg, cw as nat) =~= before
            + code_line_rows(ls[k as int], k as int, dg, cw as nat));
        k += 1;
    }
    let mut footer: Vec<String> = Vec::new();
    footer.push(crate::text::string_of("└"));
    let bar = if eff - 2 >= 2 { eff - 2 } else { 2 };
    footer.push(repeat_char('─', bar));
    assert(line_view(footer) =~= code_footer(eff as nat));
    proof {
        lemma_push_row(doc.lines@, footer);
    }
    doc.lines.push(footer);
    let empty: Vec<String> = Vec::new();
    proof {
        lemma_push_row(doc.lines@, empty);
        assert(line_view(empty) =~= Seq::<Seq<char>>::empty());
    }
    doc.lines.push(empty);
    assert(lines_view(doc.lines@) =~= base + code_block_lines(rv, max_width as nat, lang_v, code_line_numbers));
}

/// A positive number has no more decimal digits than its value.
proof fn lemma_decimal_len_le(m: nat)
    requires
        m >= 1,
    ensures
        decimal(m).len() <= m,
    decreases m,
{
    if m >= 10 {
        lemma_decimal_len_le(m / 10);
    }
}

} // verus!
