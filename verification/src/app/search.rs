//! The search box (a line of text with a cursor) and the in-page search.
use vstd::prelude::*;
use super::navigation::{clamped_focus, in_range};
use super::pane::{minus, viewport_rows, LocalMatch, Pane, PaneContent};
use crate::parser::types::Link;
use crate::text::{
    all_ws, byte_len, char_byte_width, char_is_whitespace, is_all_whitespace, lemma_utf8_len_prefix_monotone,
    matches_at, occurs_at, push_str, str_to_lowercase, string_from_chars, string_of, to_chars,
    trim_chars, trim_seq, lowercase, unicode_whitespace, utf8_len, utf8_width,
};

verus! {

/// The text typed in the search box and the cursor, counted in characters.
#[derive(Debug, Clone)]
pub struct SearchInput {
    pub text: String,
    pub cursor: usize,
}

/// The cursor is within the text.
pub open spec fn input_ok(s: Seq<char>, cursor: int) -> bool {
    0 <= cursor <= s.len()
}

/// Typing `c`: it goes in at the cursor, which moves past it.
pub open spec fn typed(s: Seq<char>, cursor: int, c: char) -> (Seq<char>, int) {
    if cursor >= s.len() {
        (s.push(c), cursor + 1)
    } else {
        (s.insert(cursor, c), cursor + 1)
    }
}

/// `Backspace`: the character before the cursor goes.
pub open spec fn backspaced(s: Seq<char>, cursor: int) -> (Seq<char>, int) {
    if cursor > 0 {
        (s.remove(cursor - 1), cursor - 1)
    } else {
        (s, cursor)
    }
}

/// `Delete`: the character at the cursor goes.
pub open spec fn deleted(s: Seq<char>, cursor: int) -> (Seq<char>, int) {
    if cursor < s.len() {
        (s.remove(cursor), cursor)
    } else {
        (s, cursor)
    }
}

/// Back from `i` over whitespace.
pub open spec fn skip_space_back(s: Seq<char>, i: int) -> int
    decreases i,
{
    if i > 0 && i <= s.len() && unicode_whitespace(s[i - 1]) {
        skip_space_back(s, i - 1)
    } else {
        i
    }
}

/// Back from `i` over a word.
pub open spec fn skip_word_back(s: Seq<char>, i: int) -> int
    decreases i,
{
    if i > 0 && i <= s.len() && !unicode_whitespace(s[i - 1]) {
        skip_word_back(s, i - 1)
    } else {
        i
    }
}

/// Where the word before the cursor starts (spaces before the cursor are
/// taken with it).
pub open spec fn word_start(s: Seq<char>, cursor: int) -> int {
    skip_word_back(s, skip_space_back(s, cursor))
}

/// `Ctrl-W`: the word before the cursor goes.
pub open spec fn word_deleted(s: Seq<char>, cursor: int) -> (Seq<char>, int) {
    if cursor > 0 {
        (s.take(word_start(s, cursor)) + s.skip(cursor), word_start(s, cursor))
    } else {
        (s, cursor)
    }
}

proof fn lemma_skip_back_bounds(s: Seq<char>, i: int)
    requires
        0 <= i <= s.len(),
    ensures
        0 <= skip_space_back(s, i) <= i,
        0 <= skip_word_back(s, i) <= i,
    decreases i,
{
    if i > 0 {
        lemma_skip_back_bounds(s, i - 1);
    }
}

impl SearchInput {
    /// An empty box (a new search).
    pub fn new() -> (r: Self)
        ensures
            r.text@ == Seq::<char>::empty(),
            r.cursor == 0,
    {
        SearchInput { text: String::new(), cursor: 0 }
    }

    /// The box holding `query` with the cursor at its end (editing a search).
    pub fn editing(query: &str) -> (r: Self)
        ensures
            r.text@ == query@,
            r.cursor == query@.len(),
    {
        let cs = to_chars(query);
        SearchInput { text: string_of(query), cursor: cs.len() }
    }

    /// Types a character at the cursor.
    pub fn type_char(&mut self, c: char)
        requires
            old(self).cursor < usize::MAX,
        ensures
            (final(self).text@, final(self).cursor as int) == typed(old(self).text@, old(self).cursor as int, c),
    {
        let mut cs = to_chars(self.text.as_str());
        if self.cursor >= cs.len() {
            cs.push(c);
        } else {
            cs.insert(self.cursor, c);
        }
        self.text = string_from_chars(&cs);
        self.cursor = self.cursor + 1;
    }

    /// Deletes the character before the cursor.
    pub fn backspace(&mut self)
        requires
            input_ok(old(self).text@, old(self).cursor as int),
        ensures
            (final(self).text@, final(self).cursor as int) == backspaced(old(self).text@, old(self).cursor as int),
    {
        if self.cursor > 0 {
            let mut cs = to_chars(self.text.as_str());
            cs.remove(self.cursor - 1);
            self.text = string_from_chars(&cs);
            self.cursor = self.cursor - 1;
        }
    }

    /// Deletes the character at the cursor.
    pub fn delete_char(&mut self)
        ensures
            (final(self).text@, final(self).cursor as int) == deleted(old(self).text@, old(self).cursor as int),
    {
        let mut cs = to_chars(self.text.as_str());
        if self.cursor < cs.len() {
            cs.remove(self.cursor);
            self.text = string_from_chars(&cs);
        }
    }

    /// Deletes the word before the cursor.
    pub fn delete_word_left(&mut self)
        requires
            input_ok(old(self).text@, old(self).cursor as int),
        ensures
            (final(self).text@, final(self).cursor as int) == word_deleted(old(self).text@, old(self).cursor as int),
    {
        if self.cursor == 0 {
            return;
        }
        let cs = to_chars(self.text.as_str());
        let mut end = self.cursor;
        while end > 0 && char_is_whitespace(cs[end - 1])
            invariant
                end <= self.cursor <= cs@.len(),
                cs@ == self.text@,
                skip_space_back(cs@, self.cursor as int) == skip_space_back(cs@, end as int),
            decreases end,
        {
            end -= 1;
        }
        let ghost mid = end;
        while end > 0 && !char_is_whitespace(cs[end - 1])
            invariant
                end <= mid <= cs@.len(),
                mid == skip_space_back(cs@, self.cursor as int),
                skip_word_back(cs@, mid as int) == skip_word_back(cs@, end as int),
            decreases end,
        {
            end -= 1;
        }
        let mut out: Vec<char> = Vec::new();
        let mut i: usize = 0;
        while i < end
            invariant
                i <= end <= cs@.len(),
                out@ == cs@.take(i as int),
            decreases end - i,
        {
            out.push(cs[i]);
            assert(cs@.take(i + 1) == cs@.take(i as int).push(cs@[i as int]));
            i += 1;
        }
        let mut j: usize = self.cursor;
        while j < cs.len()
            invariant
                end <= self.cursor <= j <= cs@.len(),
                out@ == cs@.take(end as int) + cs@.subrange(self.cursor as int, j as int),
            decreases cs.len() - j,
        {
            out.push(cs[j]);
            assert(cs@.subrange(self.cursor as int, j + 1) == cs@.subrange(self.cursor as int, j as int).push(
                cs@[j as int],
            ));
            j += 1;
        }
        assert(cs@.subrange(self.cursor as int, cs@.len() as int) =~= cs@.skip(self.cursor as int));
        self.text = string_from_chars(&out);
        self.cursor = end;
    }

    /// Moves the cursor one character left.
    pub fn move_left(&mut self)
        ensures
            final(self).text == old(self).text,
            final(self).cursor == if old(self).cursor > 0 { old(self).cursor - 1 } else { 0 },
    {
        if self.cursor > 0 {
            self.cursor = self.cursor - 1;
        }
    }

    /// Moves the cursor one character right, up to the end.
    pub fn move_right(&mut self)
        ensures
            final(self).text == old(self).text,
            final(self).cursor == if (old(self).cursor as int) < old(self).text@.len() {
                old(self).cursor + 1
            } else {
                old(self).cursor as int
            },
    {
        let n = to_chars(self.text.as_str()).len();
        if self.cursor < n {
            self.cursor = self.cursor + 1;
        }
    }

    /// Moves the cursor to the start.
    pub fn move_home(&mut self)
        ensures
            final(self).text == old(self).text,
            final(self).cursor == 0,
    {
        self.cursor = 0;
    }

    /// Moves the cursor to the end.
    pub fn move_end(&mut self)
        ensures
            final(self).text == old(self).text,
            final(self).cursor == old(self).text@.len(),
    {
        self.cursor = to_chars(self.text.as_str()).len();
    }

    /// The query a submitted search asks for: the text trimmed.
    pub fn submitted_query(&self) -> (r: String)
        ensures
            r@ == trim_seq(self.text@),
    {
        let cs = to_chars(self.text.as_str());
        let t = trim_chars(&cs);
        string_from_chars(&t)
    }
}

/// Every edit keeps the cursor within the text.
pub proof fn edits_keep_cursor_in_text(s: Seq<char>, cursor: int, c: char)
    requires
        input_ok(s, cursor),
    ensures
        input_ok(typed(s, cursor, c).0, typed(s, cursor, c).1),
        input_ok(backspaced(s, cursor).0, backspaced(s, cursor).1),
        input_ok(deleted(s, cursor).0, deleted(s, cursor).1),
        input_ok(word_deleted(s, cursor).0, word_deleted(s, cursor).1),
        typed(s, cursor, c).0.len() == s.len() + 1,
        backspaced(s, cursor).0.len() <= s.len(),
        deleted(s, cursor).0.len() <= s.len(),
        word_deleted(s, cursor).0.len() <= s.len(),
{
    lemma_skip_back_bounds(s, cursor);
    lemma_skip_back_bounds(s, skip_space_back(s, cursor));
}

/// Typing a character and then deleting it with `Backspace` gives back the
/// text and cursor before.
pub proof fn type_then_backspace_restores(s: Seq<char>, cursor: int, c: char)
    requires
        input_ok(s, cursor),
    ensures
        backspaced(typed(s, cursor, c).0, typed(s, cursor, c).1) == (s, cursor),
{
    if cursor >= s.len() {
        assert(s.push(c).remove(cursor) =~= s);
    } else {
        assert(s.insert(cursor, c).remove(cursor) =~= s);
    }
}

// ---------------------------------------------------------------------------
// In-page search
// ---------------------------------------------------------------------------

/// The text of a line: its pieces one after the other.
pub open spec fn joined(spans: Seq<String>) -> Seq<char>
    decreases spans.len(),
{
    if spans.len() == 0 {
        Seq::empty()
    } else {
        joined(spans.drop_last()) + spans.last()@
    }
}

/// The piece of a line holding byte `b`: the first piece from `k` on whose
/// bytes reach past `b`, counting from byte `acc`; 0 if none does.
pub open spec fn span_at(spans: Seq<String>, b: int, k: int, acc: int) -> int
    decreases spans.len() - k,
{
    if k < 0 || k >= spans.len() {
        0
    } else if acc + utf8_len(spans[k]@) > b {
        k
    } else {
        span_at(spans, b, k + 1, acc + utf8_len(spans[k]@))
    }
}

/// The occurrences of `q` in the lower-cased line `l` from position `i` on,
/// left to right and without overlap, each with its byte offset in `l` and
/// the piece (span) of the displayed line that byte offset falls in.
pub open spec fn matches_from(line_idx: int, spans: Seq<String>, l: Seq<char>, q: Seq<char>, i: int) -> Seq<
    LocalMatch,
>
    decreases l.len() - i,
{
    if q.len() == 0 || i < 0 || i + q.len() > l.len() {
        Seq::empty()
    } else if occurs_at(l, q, i) {
        seq![
            LocalMatch {
                line_idx: line_idx as usize,
                span_idx: span_at(spans, utf8_len(l.take(i)) as int, 0, 0) as usize,
                char_offset: utf8_len(l.take(i)) as usize,
            },
        ] + matches_from(line_idx, spans, l, q, i + q.len())
    } else {
        matches_from(line_idx, spans, l, q, i + 1)
    }
}

/// The occurrences of `q` in the first `n` lines.
pub open spec fn matches_in_lines(lines: Seq<Vec<String>>, q: Seq<char>, n: int) -> Seq<LocalMatch>
    decreases n,
{
    if n <= 0 || n > lines.len() {
        Seq::empty()
    } else {
        matches_in_lines(lines, q, n - 1) + matches_from(
            n - 1,
            lines[n - 1]@,
            lowercase(joined(lines[n - 1]@)),
            q,
            0,
        )
    }
}

/// The in-page matches of `query`: case does not matter; a blank query
/// matches nothing.
pub open spec fn local_matches_for(lines: Seq<Vec<String>>, query: Seq<char>) -> Seq<LocalMatch> {
    let q = lowercase(query);
    if all_ws(q) {
        Seq::empty()
    } else {
        matches_in_lines(lines, q, lines.len() as int)
    }
}

/// The text of a line: its pieces one after the other.
pub fn joined_text(spans: &Vec<String>) -> (r: String)
    ensures
        r@ == joined(spans@),
{
    let mut out = String::new();
    let mut k: usize = 0;
    while k < spans.len()
        invariant
            k <= spans@.len(),
            out@ == joined(spans@.take(k as int)),
        decreases spans.len() - k,
    {
        push_str(&mut out, spans[k].as_str());
        assert(spans@.take(k + 1).drop_last() =~= spans@.take(k as int));
        k += 1;
    }
    assert(spans@.take(spans@.len() as int) =~= spans@);
    out
}

fn span_at_exec(spans: &Vec<String>, b: usize) -> (r: usize)
    ensures
        r == span_at(spans@, b as int, 0, 0),
{
    let mut acc: u128 = 0;
    let mut k: usize = 0;
    while k < spans.len()
        invariant
            k <= spans@.len(),
            acc <= k * (usize::MAX as int),
            span_at(spans@, b as int, 0, 0) == span_at(spans@, b as int, k as int, acc as int),
        decreases spans.len() - k,
    {
        let len = byte_len(spans[k].as_str());
        assert(acc + len <= (k + 1) * (usize::MAX as int)) by (nonlinear_arith)
            requires
                acc <= k * (usize::MAX as int),
                len <= usize::MAX,
        ;
        assert((k + 1) * (usize::MAX as int) <= (usize::MAX as int) * (usize::MAX as int)) by (nonlinear_arith)
            requires
                k < usize::MAX,
        ;
        if acc + (len as u128) > b as u128 {
            return k;
        }
        acc = acc + (len as u128);
        k += 1;
    }
    0
}

/// The matches of the lower-cased query `q` (non-empty) in one line.
fn line_matches(line_idx: usize, spans: &Vec<String>, q: &Vec<char>) -> (r: Vec<LocalMatch>)
    requires
        q@.len() > 0,
    ensures
        r@ == matches_from(line_idx as int, spans@, lowercase(joined(spans@)), q@, 0),
{
    let full = joined_text(spans);
    let lower = str_to_lowercase(full.as_str());
    let l = to_chars(lower.as_str());
    let total = byte_len(lower.as_str());
    let mut out: Vec<LocalMatch> = Vec::new();
    let mut i: usize = 0;
    let mut byte: usize = 0;
    while i < l.len() && q.len() <= l.len() - i
        invariant
            i <= l@.len(),
            l@ == lowercase(joined(spans@)),
            q@.len() > 0,
            total == utf8_len(l@),
            byte == utf8_len(l@.take(i as int)),
            out@ + matches_from(line_idx as int, spans@, l@, q@, i as int) == matches_from(
                line_idx as int,
                spans@,
                l@,
                q@,
                0,
            ),
        decreases l.len() - i,
    {
        let ghost before = out@;
        if matches_at(&l, q, i) {
            let span_idx = span_at_exec(spans, byte);
            out.push(LocalMatch { line_idx, span_idx, char_offset: byte });
            let stop = i + q.len();
            while i < stop
                invariant
                    i <= stop <= l@.len(),
                    total == utf8_len(l@),
                    byte == utf8_len(l@.take(i as int)),
                decreases stop - i,
            {
                assert(l@.take(i + 1).drop_last() =~= l@.take(i as int));
                proof {
                    lemma_utf8_len_prefix_monotone(l@, i + 1);
                }
                byte = byte + char_byte_width(l[i]);
                i += 1;
            }
            assert(before + (seq![out@.last()] + matches_from(line_idx as int, spans@, l@, q@, i as int))
                =~= out@ + matches_from(line_idx as int, spans@, l@, q@, i as int));
        } else {
            assert(l@.take(i + 1).drop_last() =~= l@.take(i as int));
            proof {
                lemma_utf8_len_prefix_monotone(l@, i + 1);
            }
            byte = byte + char_byte_width(l[i]);
            i += 1;
        }
    }
    assert(out@ + Seq::<LocalMatch>::empty() =~= out@);
    out
}

/// The in-page matches of `query` in the lines of an article.
pub fn find_local_matches(lines: &Vec<Vec<String>>, query: &str) -> (r: Vec<LocalMatch>)
    ensures
        r@ == local_matches_for(lines@, query@),
{
    let lower = str_to_lowercase(query);
    let q = to_chars(lower.as_str());
    if is_all_whitespace(&q) {
        return Vec::new();
    }
    let mut out: Vec<LocalMatch> = Vec::new();
    let mut n: usize = 0;
    while n < lines.len()
        invariant
            n <= lines@.len(),
            q@ == lowercase(query@),
            !all_ws(q@),
            out@ == matches_in_lines(lines@, q@, n as int),
        decreases lines.len() - n,
    {
        proof {
            if q@.len() == 0 {
                assert(all_ws(q@));
            }
        }
        let mut m = line_matches(n, &lines[n], &q);
        out.append(&mut m);
        n += 1;
    }
    out
}

/// The line of the current match, if there is one.
pub open spec fn current_match_line(p: Pane) -> Option<int> {
    match p.selected_match_idx {
        Some(i) => if p.local_matches@.len() > 0 && i < p.local_matches@.len() {
            Some(p.local_matches@[i as int].line_idx as int)
        } else {
            None
        },
        None => None,
    }
}

/// The scroll offset that shows line `target` with a margin of up to eight
/// lines (less in a short view) above and below it.
pub open spec fn scroll_with_margin(scroll: int, target: int, rows: int) -> int {
    let margin = if minus(rows, 1) / 2 < 8 { minus(rows, 1) / 2 } else { 8 };
    if target < scroll + margin {
        minus(target, margin)
    } else if target >= minus(scroll + rows, margin) {
        minus(target + margin + 1, rows)
    } else {
        scroll
    }
}

/// The scroll offset once the current match is brought into view.
pub open spec fn match_scroll(p: Pane, term_height: u16) -> usize {
    match current_match_line(p) {
        Some(line) => scroll_with_margin(
            p.scroll_offset as int,
            line,
            viewport_rows(p.viewport_height, term_height),
        ) as usize,
        None => p.scroll_offset,
    }
}

/// The first link from `i` on with the piece `(line, span)`.
pub open spec fn link_with_piece(links: Seq<Link>, piece: (usize, usize), i: int) -> Option<int>
    decreases links.len() - i,
{
    if i < 0 || i >= links.len() {
        None
    } else if links[i].span_indices@.contains(piece) {
        Some(i)
    } else {
        link_with_piece(links, piece, i + 1)
    }
}

/// The focus once it follows the current match: the link holding the piece
/// the match starts in, if any; else unchanged.
pub open spec fn match_focus(p: Pane) -> Option<usize> {
    match (p.content, p.selected_match_idx) {
        (PaneContent::ArticleText { parsed_doc, .. }, Some(i)) => if i < p.local_matches@.len() {
            let m = p.local_matches@[i as int];
            match link_with_piece(parsed_doc.links@, (m.line_idx, m.span_idx), 0) {
                Some(k) => Some(k as usize),
                None => p.selected_link_idx,
            }
        } else {
            p.selected_link_idx
        },
        _ => p.selected_link_idx,
    }
}

/// `p` with the current match in view and the focus on it.
pub open spec fn shown_match(p: Pane, term_height: u16) -> Pane {
    Pane { scroll_offset: match_scroll(p, term_height), selected_link_idx: match_focus(p), ..p }
}

/// The match after `n` (next, wrapping) among `len` matches.
pub open spec fn next_match(sel: Option<usize>, len: int) -> int {
    match sel {
        Some(i) => (i + 1) % len,
        None => 0,
    }
}

/// The match before (wrapping).
pub open spec fn prev_match(sel: Option<usize>, len: int) -> int {
    match sel {
        Some(i) => if i == 0 { len - 1 } else { i - 1 },
        None => len - 1,
    }
}

/// Jumping to the next in-page match and then to the previous one comes
/// back to the match left, wrapping at either end.
pub proof fn next_then_prev_match(i: usize, len: int)
    requires
        (i as int) < len,
        len < usize::MAX,
    ensures
        prev_match(Some(next_match(Some(i), len) as usize), len) == i,
{
    if i + 1 < len {
        vstd::arithmetic::div_mod::lemma_small_mod((i + 1) as nat, len as nat);
    } else {
        vstd::arithmetic::div_mod::lemma_mod_self_0(len);
    }
}

/// Jumping to the previous in-page match and then to the next one comes
/// back to the match left.
pub proof fn prev_then_next_match(i: usize, len: int)
    requires
        (i as int) < len,
        len < usize::MAX,
    ensures
        next_match(Some(prev_match(Some(i), len) as usize), len) == i,
{
    if i == 0 {
        vstd::arithmetic::div_mod::lemma_mod_self_0(len);
    } else {
        vstd::arithmetic::div_mod::lemma_small_mod(i as nat, len as nat);
    }
}

/// The current match, if any, is one of the matches, and every match is on
/// a line far below `usize::MAX`.
pub open spec fn matches_in_range(p: Pane) -> bool {
    &&& in_range(p)
    &&& forall|i: int| 0 <= i < p.local_matches@.len() ==> (#[trigger] p.local_matches@[i]).line_idx
        < usize::MAX / 4
    &&& (p.selected_match_idx matches Some(i) ==> i < p.local_matches@.len())
}

proof fn lemma_matches_from_line(line_idx: int, spans: Seq<String>, l: Seq<char>, q: Seq<char>, i: int)
    ensures
        forall|k: int|
            0 <= k < matches_from(line_idx, spans, l, q, i).len() ==> (#[trigger] matches_from(
                line_idx,
                spans,
                l,
                q,
                i,
            )[k]).line_idx == line_idx as usize,
    decreases l.len() - i,
{
    let all = matches_from(line_idx, spans, l, q, i);
    if q.len() == 0 || i < 0 || i + q.len() > l.len() {
        assert(all.len() == 0);
    } else if occurs_at(l, q, i) {
        lemma_matches_from_line(line_idx, spans, l, q, i + q.len());
        let rest = matches_from(line_idx, spans, l, q, i + q.len());
        let m = LocalMatch {
            line_idx: line_idx as usize,
            span_idx: span_at(spans, utf8_len(l.take(i)) as int, 0, 0) as usize,
            char_offset: utf8_len(l.take(i)) as usize,
        };
        assert(all == seq![m] + rest);
        assert forall|k: int| 0 <= k < all.len() implies (#[trigger] all[k]).line_idx == line_idx as usize by {
            if k > 0 {
                assert(all[k] == rest[k - 1]);
            } else {
                assert(all[0] == m);
            }
        }
    } else {
        lemma_matches_from_line(line_idx, spans, l, q, i + 1);
        assert(all == matches_from(line_idx, spans, l, q, i + 1));
    }
}

proof fn lemma_matches_in_lines_bound(lines: Seq<Vec<String>>, q: Seq<char>, n: int)
    requires
        0 <= n <= lines.len(),
        lines.len() < usize::MAX / 4,
    ensures
        forall|k: int|
            0 <= k < matches_in_lines(lines, q, n).len() ==> (#[trigger] matches_in_lines(lines, q, n)[k]).line_idx
                < n,
    decreases n,
{
    if n > 0 {
        lemma_matches_in_lines_bound(lines, q, n - 1);
        let a = matches_in_lines(lines, q, n - 1);
        let b = matches_from(n - 1, lines[n - 1]@, lowercase(joined(lines[n - 1]@)), q, 0);
        lemma_matches_from_line(n - 1, lines[n - 1]@, lowercase(joined(lines[n - 1]@)), q, 0);
        assert forall|k: int| 0 <= k < (a + b).len() implies (#[trigger] (a + b)[k]).line_idx < n by {
            if k < a.len() {
                assert((a + b)[k] == a[k]);
            } else {
                assert((a + b)[k] == b[k - a.len()]);
            }
        }
    }
}

fn piece_in(spans: &Vec<(usize, usize)>, piece: (usize, usize)) -> (r: bool)
    ensures
        r == spans@.contains(piece),
{
    let mut k: usize = 0;
    while k < spans.len()
        invariant
            k <= spans@.len(),
            forall|j: int| 0 <= j < k ==> spans@[j] != piece,
        decreases spans.len() - k,
    {
        if spans[k].0 == piece.0 && spans[k].1 == piece.1 {
            assert(spans@[k as int] == piece);
            return true;
        }
        k += 1;
    }
    false
}

fn link_with_piece_exec(links: &Vec<Link>, piece: (usize, usize)) -> (r: Option<usize>)
    ensures
        match r {
            Some(i) => link_with_piece(links@, piece, 0) == Some(i as int) && i < links@.len(),
            None => link_with_piece(links@, piece, 0) is None,
        },
{
    let mut i: usize = 0;
    while i < links.len()
        invariant
            i <= links@.len(),
            link_with_piece(links@, piece, 0) == link_with_piece(links@, piece, i as int),
        decreases links.len() - i,
    {
        if piece_in(&links[i].span_indices, piece) {
            return Some(i);
        }
        i += 1;
    }
    None
}

/// `b` is `a` after its in-page search was run again: the matches of the
/// query, the first of them current and in view.
pub open spec fn searched_in_page(a: Pane, b: Pane, term_height: u16) -> bool {
    &&& b.local_matches@ == match a.content {
        PaneContent::ArticleText { parsed_doc, .. } => local_matches_for(parsed_doc.lines@, a.local_search_query@),
        _ => Seq::empty(),
    }
    &&& ({
        let q = Pane {
            local_matches: b.local_matches,
            selected_match_idx: if b.local_matches@.len() > 0 { Some(0usize) } else { None },
            ..a
        };
        b == if b.local_matches@.len() > 0 {
            shown_match(q, term_height)
        } else {
            q
        }
    })
}

impl Pane {
    /// Brings the current match into view and moves the focus to its link.
    fn show_current_match(&mut self, term_height: u16)
        requires
            matches_in_range(*old(self)),
        ensures
            *final(self) == shown_match(*old(self), term_height),
            matches_in_range(*final(self)),
    {
        let rows = self.effective_viewport_height(term_height);
        let target = match self.selected_match_idx {
            Some(i) => if self.local_matches.len() > 0 && i < self.local_matches.len() {
                Some(self.local_matches[i].line_idx)
            } else {
                None
            },
            None => None,
        };
        let new_scroll = match target {
            Some(line) => {
                let half = if rows > 1 { (rows - 1) / 2 } else { 0 };
                let margin = if half < 8 { half } else { 8 };
                let bottom = if self.scroll_offset + rows > margin { self.scroll_offset + rows - margin } else { 0 };
                if line < self.scroll_offset + margin {
                    if line > margin { line - margin } else { 0 }
                } else if line >= bottom {
                    if line + margin + 1 > rows { line + margin + 1 - rows } else { 0 }
                } else {
                    self.scroll_offset
                }
            },
            None => self.scroll_offset,
        };
        let new_focus = match &self.content {
            PaneContent::ArticleText { parsed_doc, .. } => match self.selected_match_idx {
                Some(i) => if i < self.local_matches.len() {
                    let m = self.local_matches[i];
                    match link_with_piece_exec(&parsed_doc.links, (m.line_idx, m.span_idx)) {
                        Some(k) => Some(k),
                        None => self.selected_link_idx,
                    }
                } else {
                    self.selected_link_idx
                },
                None => self.selected_link_idx,
            },
            _ => self.selected_link_idx,
        };
        self.scroll_offset = new_scroll;
        self.selected_link_idx = new_focus;
    }

    /// Searches the article for the typed query (`/`): the matches are
    /// recomputed, the first becomes current and is brought into view.
    pub fn update_local_search(&mut self, term_height: u16)
        requires
            in_range(*old(self)),
        ensures
            searched_in_page(*old(self), *final(self), term_height),
            matches_in_range(*final(self)),
    {
        self.local_matches.clear();
        self.selected_match_idx = None;
        let found = match &self.content {
            PaneContent::ArticleText { parsed_doc, .. } => {
                let ms = find_local_matches(&parsed_doc.lines, self.local_search_query.as_str());
                proof {
                    let q = lowercase(self.local_search_query@);
                    if !all_ws(q) {
                        lemma_matches_in_lines_bound(parsed_doc.lines@, q, parsed_doc.lines@.len() as int);
                    }
                }
                Some(ms)
            },
            _ => None,
        };
        if let Some(ms) = found {
            self.local_matches = ms;
            if self.local_matches.len() > 0 {
                self.selected_match_idx = Some(0);
                self.show_current_match(term_height);
            }
        }
    }

    /// The next match (`n`), wrapping, brought into view.
    pub fn next_local_match(&mut self, term_height: u16)
        requires
            matches_in_range(*old(self)),
        ensures
            old(self).local_matches@.len() == 0 ==> *final(self) == *old(self),
            old(self).local_matches@.len() > 0 ==> *final(self) == shown_match(
                Pane {
                    selected_match_idx: Some(
                        next_match(old(self).selected_match_idx, old(self).local_matches@.len() as int) as usize,
                    ),
                    ..*old(self)
                },
                term_height,
            ),
            matches_in_range(*final(self)),
    {
        let n = self.local_matches.len();
        if n == 0 {
            return;
        }
        let next = match self.selected_match_idx {
            Some(i) => (i + 1) % n,
            None => 0,
        };
        self.selected_match_idx = Some(next);
        self.show_current_match(term_height);
    }

    /// The previous match (`N`), wrapping, brought into view.
    pub fn prev_local_match(&mut self, term_height: u16)
        requires
            matches_in_range(*old(self)),
        ensures
            old(self).local_matches@.len() == 0 ==> *final(self) == *old(self),
            old(self).local_matches@.len() > 0 ==> *final(self) == shown_match(
                Pane {
                    selected_match_idx: Some(
                        prev_match(old(self).selected_match_idx, old(self).local_matches@.len() as int) as usize,
                    ),
                    ..*old(self)
                },
                term_height,
            ),
            matches_in_range(*final(self)),
    {
        let n = self.local_matches.len();
        if n == 0 {
            return;
        }
        let prev = match self.selected_match_idx {
            Some(i) => if i == 0 { n - 1 } else { i - 1 },
            None => n - 1,
        };
        self.selected_match_idx = Some(prev);
        self.show_current_match(term_height);
    }
}


/// The selection of `b` after the in-page matches of `a` are found again.
pub open spec fn reselected(a: Pane, ms: Seq<LocalMatch>) -> Option<usize> {
    if all_ws(lowercase(a.local_search_query@)) {
        None
    } else if a.content is ArticleText {
        if ms.len() > 0 {
            Some(
                match a.selected_match_idx {
                    Some(s) => if (s as int) < ms.len() - 1 { s } else { (ms.len() - 1) as usize },
                    None => 0usize,
                },
            )
        } else {
            None
        }
    } else {
        a.selected_match_idx
    }
}

/// `b` is `a` with its in-page matches found again in its article (none for
/// a blank query or a pane without an article); a current match stays
/// current as far as there are matches.
pub open spec fn recomputed(a: Pane, b: Pane) -> bool {
    let ms = match a.content {
        PaneContent::ArticleText { parsed_doc, .. } => local_matches_for(parsed_doc.lines@, a.local_search_query@),
        _ => Seq::empty(),
    };
    &&& b.local_matches@ == ms
    &&& b == Pane { local_matches: b.local_matches, selected_match_idx: reselected(a, ms), ..a }
}

impl Pane {
    /// Finds the in-page matches of the search query again (after the
    /// article was laid out anew).
    pub fn recompute_local_matches(&mut self)
        requires
            in_range(*old(self)),
        ensures
            recomputed(*old(self), *final(self)),
            final(self).content is ArticleText ==> matches_in_range(*final(self)),
            in_range(*final(self)),
    {
        self.local_matches.clear();
        let lower = str_to_lowercase(self.local_search_query.as_str());
        if is_all_whitespace(&to_chars(lower.as_str())) {
            self.selected_match_idx = None;
            return;
        }
        let found = match &self.content {
            PaneContent::ArticleText { parsed_doc, .. } => {
                let ms = find_local_matches(&parsed_doc.lines, self.local_search_query.as_str());
                proof {
                    lemma_matches_in_lines_bound(parsed_doc.lines@, lowercase(self.local_search_query@), parsed_doc.lines@.len() as int);
                }
                Some(ms)
            },
            _ => None,
        };
        if let Some(ms) = found {
            self.local_matches = ms;
            let n = self.local_matches.len();
            if n > 0 {
                self.selected_match_idx = match self.selected_match_idx {
                    Some(s) => if s < n - 1 { Some(s) } else { Some(n - 1) },
                    None => Some(0),
                };
            } else {
                self.selected_match_idx = None;
            }
        }
    }
}

} // verus!
