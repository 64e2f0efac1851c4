//! Laying a block of text out in lines no wider than the page: words move to
//! the next line when they would overflow it, and each link records the
//! positions of the pieces that carry it.
use super::types::{line_view, lines_view, link_view, links_view, Link, ParsedDocument};
use crate::text::{
    display_width, inclusive_pieces, split_inclusive_ws, str_width, string_from_chars, strs_view,
    to_chars, trim_chars, trim_seq,
};
use vstd::prelude::*;

verus! {

/// A run of text waiting to be laid out, and the link target it carries.
#[derive(Debug, Clone)]
pub struct TextToken {
    pub text: String,
    pub link_target: Option<String>,
}

/// The layout of a word run in progress: finished lines, the pieces of the
/// current line and their width, the line the run's link is on, and the
/// `(line, piece)` positions of the run's pieces so far.
pub type WordState = (Seq<Seq<Seq<char>>>, Seq<Seq<char>>, nat, int, Seq<(usize, usize)>);

/// The layout of a block in progress: finished lines, links, the pieces of
/// the current line and its width.
pub type BlockState = (
    Seq<Seq<Seq<char>>>,
    Seq<(Seq<char>, Seq<char>, Seq<(usize, usize)>)>,
    Seq<Seq<char>>,
    nat,
);

/// Places one word: it starts a new line when the current line is not empty
/// and the word would take it past `max` columns. `base` is the number of
/// lines that came before the block.
pub open spec fn place_word(st: WordState, word: Seq<char>, is_link: bool, max: nat, base: int) -> WordState {
    let (lines, cur, len, link_line, pieces) = st;
    let w = display_width(word);
    let brk = len + w > max && len > 0;
    let lines2 = if brk { lines.push(cur) } else { lines };
    let cur2 = if brk { Seq::<Seq<char>>::empty() } else { cur };
    let len2: nat = if brk { 0 } else { len };
    let line2 = if brk { base + lines2.len() } else { link_line };
    let pieces2 = if is_link { pieces.push((line2 as usize, cur2.len() as usize)) } else { pieces };
    (lines2, cur2.push(word), len2 + w, line2, pieces2)
}

/// The first `n` words placed one after another.
pub open spec fn place_words(
    st: WordState,
    words: Seq<Seq<char>>,
    n: int,
    is_link: bool,
    max: nat,
    base: int,
) -> WordState
    decreases n,
{
    if n <= 0 {
        st
    } else {
        place_word(place_words(st, words, n - 1, is_link, max, base), words[n - 1], is_link, max, base)
    }
}

/// Places the words of one token; a token with a link target and at least
/// one piece adds a link with its trimmed text.
pub open spec fn place_token(st: BlockState, text: Seq<char>, link: Option<Seq<char>>, max: nat, base: int) -> BlockState {
    let words = inclusive_pieces(text);
    let inner = place_words(
        (st.0, st.2, st.3, base + st.0.len(), Seq::empty()),
        words,
        words.len() as int,
        link is Some,
        max,
        base,
    );
    let links = if link is Some && inner.4.len() > 0 {
        st.1.push((link->0, trim_seq(text), inner.4))
    } else {
        st.1
    };
    (inner.0, links, inner.1, inner.2)
}

/// The text and link target of a token.
pub open spec fn token_view(t: TextToken) -> (Seq<char>, Option<Seq<char>>) {
    (
        t.text@,
        match t.link_target {
            Some(l) => Some(l@),
            None => None,
        },
    )
}

/// Tokens as plain values.
pub open spec fn tokens_view(toks: Seq<TextToken>) -> Seq<(Seq<char>, Option<Seq<char>>)> {
    toks.map_values(|t: TextToken| token_view(t))
}

/// The first `n` tokens placed.
pub open spec fn place_tokens(toks: Seq<(Seq<char>, Option<Seq<char>>)>, n: int, max: nat, base: int) -> BlockState
    decreases n,
{
    if n <= 0 {
        (Seq::empty(), Seq::empty(), Seq::empty(), 0)
    } else {
        let t = toks[n - 1];
        place_token(place_tokens(toks, n - 1, max, base), t.0, t.1, max, base)
    }
}

/// The lines and links a block of tokens adds after `base` lines: a block
/// that ends with pieces on its last line is followed by an empty line.
pub open spec fn block_layout(toks: Seq<(Seq<char>, Option<Seq<char>>)>, max: nat, base: int) -> (
    Seq<Seq<Seq<char>>>,
    Seq<(Seq<char>, Seq<char>, Seq<(usize, usize)>)>,
) {
    let st = place_tokens(toks, toks.len() as int, max, base);
    if st.2.len() > 0 {
        (st.0.push(st.2).push(Seq::empty()), st.1)
    } else {
        (st.0, st.1)
    }
}

/// A document whose headings and footnote anchors are those of `a`.
pub open spec fn same_marks(a: ParsedDocument, b: ParsedDocument) -> bool {
    &&& b.headings@ == a.headings@
    &&& b.reference_targets@ == a.reference_targets@
}

proof fn lemma_push_line(ls: Seq<Vec<String>>, l: Vec<String>)
    ensures
        lines_view(ls.push(l)) == lines_view(ls).push(line_view(l)),
{
    assert(lines_view(ls.push(l)) =~= lines_view(ls).push(line_view(l)));
}

proof fn lemma_push_link(ls: Seq<Link>, l: Link)
    ensures
        links_view(ls.push(l)) == links_view(ls).push(link_view(l)),
{
    assert(links_view(ls.push(l)) =~= links_view(ls).push(link_view(l)));
}

/// Appends the pieces of one token to the layout held in `lines`, `links`
/// and `cur`.
pub fn place_token_exec(
    token: &TextToken,
    lines: &mut Vec<Vec<String>>,
    links: &mut Vec<Link>,
    cur: &mut Vec<String>,
    cur_len: &mut usize,
    max_width: usize,
    Ghost(base): Ghost<int>,
    Ghost(lbase): Ghost<int>,
    Ghost(st): Ghost<BlockState>,
)
    requires
        0 <= base <= old(lines)@.len(),
        lines_view(old(lines)@) == lines_view(old(lines)@.take(base)) + st.0,
        0 <= lbase <= old(links)@.len(),
        links_view(old(links)@) == links_view(old(links)@.take(lbase)) + st.1,
        strs_view(old(cur)@) == st.2,
        *old(cur_len) == st.3,
    ensures
        ({
            let st2 = place_token(st, token_view(*token).0, token_view(*token).1, max_width as nat, base);
            &&& lines_view(final(lines)@) == lines_view(old(lines)@.take(base)) + st2.0
            &&& final(lines)@.take(base) == old(lines)@.take(base)
            &&& links_view(final(links)@) == links_view(old(links)@.take(lbase)) + st2.1
            &&& final(links)@.take(lbase) == old(links)@.take(lbase)
            &&& strs_view(final(cur)@) == st2.2
            &&& *final(cur_len) == st2.3
        }),
{
    let ghost lines0 = lines_view(old(lines)@.take(base));
    let ghost links0 = links_view(old(links)@.take(lbase));
    let chars = to_chars(token.text.as_str());
    let words = split_inclusive_ws(&chars);
    let ghost wv = words@.map_values(|p: Vec<char>| p@);
    let is_link = token.link_target.is_some();
    let mut pieces: Vec<(usize, usize)> = Vec::new();
    let mut link_line: usize = lines.len();
    let ghost start: WordState = (st.0, st.2, st.3, base + st.0.len(), Seq::empty());
    assert(lines_view(lines@).len() == lines@.len());
    assert(lines0.len() == base);
    let mut k: usize = 0;
    while k < words.len()
        invariant
            k <= words.len(),
            wv == inclusive_pieces(token.text@),
            wv == words@.map_values(|p: Vec<char>| p@),
            is_link == token.link_target is Some,
            base <= lines@.len(),
            lines0.len() == base,
            lines@.take(base) == old(lines)@.take(base),
            lines0 == lines_view(old(lines)@.take(base)),
            links@ == old(links)@,
            ({
                let ws = place_words(start, wv, k as int, is_link, max_width as nat, base);
                &&& lines_view(lines@) == lines0 + ws.0
                &&& strs_view(cur@) == ws.1
                &&& *cur_len == ws.2
                &&& link_line == ws.3
                &&& pieces@ == ws.4
            }),
        decreases words.len() - k,
    {
        let word = string_from_chars(&words[k]);
        assert(word@ == wv[k as int]);
        let w = str_width(word.as_str());
        let brk = *cur_len > 0 && (*cur_len > max_width || w > max_width - *cur_len);
        if brk {
            let mut line: Vec<String> = Vec::new();
            std::mem::swap(&mut line, cur);
            proof {
                lemma_push_line(lines@, line);
            }
            lines.push(line);
            assert(lines@.take(base) =~= old(lines)@.take(base));
            *cur_len = 0;
            link_line = lines.len();
            assert(lines_view(lines@).len() == lines@.len());
        }
        if is_link {
            pieces.push((link_line, cur.len()));
        }
        let ghost prev_cur = cur@;
        cur.push(word);
        assert(strs_view(cur@) =~= strs_view(prev_cur).push(word@));
        *cur_len = *cur_len + w;
        k += 1;
    }
    assert(wv.len() == words@.len());
    if is_link && pieces.len() > 0 {
        let target = match &token.link_target {
            Some(t) => t.clone(),
            None => String::new(),
        };
        let text = string_from_chars(&trim_chars(&chars));
        let link = Link { title: target, text, span_indices: pieces };
        proof {
            lemma_push_link(links@, link);
        }
        links.push(link);
    }
    assert(links@.take(lbase) =~= old(links)@.take(lbase));
}

/// Lays `tokens` out in lines of at most `max_width` columns (a word wider
/// than that gets a line of its own) after the lines `doc` already has, adds
/// an empty line after a block that put anything on its last line, and adds
/// a link for each token with a target, pointing at its pieces.
pub fn wrap_and_append_block(tokens: &Vec<TextToken>, doc: &mut ParsedDocument, max_width: usize)
    ensures
        ({
            let lay = block_layout(tokens_view(tokens@), max_width as nat, old(doc).lines@.len() as int);
            &&& lines_view(final(doc).lines@) == lines_view(old(doc).lines@) + lay.0
            &&& links_view(final(doc).links@) == links_view(old(doc).links@) + lay.1
        }),
        same_marks(*old(doc), *final(doc)),
{
    let ghost base = doc.lines@.len() as int;
    let ghost old_lines = doc.lines@;
    let ghost old_links = doc.links@;
    let mut cur: Vec<String> = Vec::new();
    let mut cur_len: usize = 0;
    let mut i: usize = 0;
    assert(doc.lines@.take(base) =~= old_lines);
    assert(lines_view(doc.lines@) =~= lines_view(old_lines) + Seq::<Seq<Seq<char>>>::empty());
    assert(doc.links@.take(old_links.len() as int) =~= old_links);
    assert(links_view(doc.links@) =~= links_view(old_links) + Seq::<(Seq<char>, Seq<char>, Seq<(usize, usize)>)>::empty());
    assert(strs_view(cur@) =~= Seq::<Seq<char>>::empty());
    while i < tokens.len()
        invariant
            i <= tokens.len(),
            base == old_lines.len(),
            doc.lines@.take(base) == old_lines,
            doc.links@.take(old_links.len() as int) == old_links,
            old_links.len() <= doc.links@.len(),
            ({
                let st = place_tokens(tokens_view(tokens@), i as int, max_width as nat, base);
                &&& lines_view(doc.lines@) == lines_view(old_lines) + st.0
                &&& links_view(doc.links@) == links_view(old_links) + st.1
                &&& doc.links@.len() == old_links.len() + st.1.len()
                &&& strs_view(cur@) == st.2
                &&& cur_len == st.3
            }),
            same_marks(*old(doc), *doc),
        decreases tokens.len() - i,
    {
        let ghost st = place_tokens(tokens_view(tokens@), i as int, max_width as nat, base);
        assert(lines_view(doc.lines@).len() == doc.lines@.len());
        assert(links_view(doc.links@).len() == doc.links@.len());
        place_token_exec(
            &tokens[i],
            &mut doc.lines,
            &mut doc.links,
            &mut cur,
            &mut cur_len,
            max_width,
            Ghost(base),
            Ghost(old_links.len() as int),
            Ghost(st),
        );
        assert(links_view(doc.links@).len() == doc.links@.len());
        i += 1;
    }
    let ghost st = place_tokens(tokens_view(tokens@), tokens@.len() as int, max_width as nat, base);
    if cur.len() > 0 {
        proof {
            lemma_push_line(doc.lines@, cur);
        }
        let ghost cv = strs_view(cur@);
        doc.lines.push(cur);
        let empty: Vec<String> = Vec::new();
        proof {
            lemma_push_line(doc.lines@, empty);
            assert(line_view(empty) =~= Seq::<Seq<char>>::empty());
        }
        doc.lines.push(empty);
        assert(lines_view(old_lines) + st.0.push(cv).push(Seq::empty()) =~= lines_view(old_lines)
            + st.0.push(cv).push(Seq::empty()));
    }
}

/// The columns a line of pieces takes.
pub open spec fn pieces_width(l: Seq<Seq<char>>) -> nat
    decreases l.len(),
{
    if l.len() == 0 {
        0
    } else {
        pieces_width(l.drop_last()) + display_width(l.last())
    }
}

/// A line fits in `max` columns, or only its last piece takes any room: a
/// word wider than the page gets a line to itself.
pub open spec fn fits(l: Seq<Seq<char>>, max: nat) -> bool {
    pieces_width(l) <= max || (l.len() > 0 && pieces_width(l.drop_last()) == 0)
}

/// Every finished line fits, and the current line fits and has the width
/// the state records.
pub open spec fn word_state_fits(st: WordState, max: nat) -> bool {
    &&& forall|i: int| 0 <= i < st.0.len() ==> fits(#[trigger] st.0[i], max)
    &&& st.2 == pieces_width(st.1)
    &&& fits(st.1, max)
}

proof fn lemma_width_push(l: Seq<Seq<char>>, w: Seq<char>)
    ensures
        pieces_width(l.push(w)) == pieces_width(l) + display_width(w),
        l.push(w).drop_last() == l,
{
    assert(l.push(w).drop_last() =~= l);
}

proof fn lemma_place_word_fits(st: WordState, word: Seq<char>, is_link: bool, max: nat, base: int)
    requires
        word_state_fits(st, max),
    ensures
        word_state_fits(place_word(st, word, is_link, max, base), max),
{
    let r = place_word(st, word, is_link, max, base);
    let (lines, cur, len, link_line, pieces) = st;
    let brk = len + display_width(word) > max && len > 0;
    if brk {
        lemma_width_push(Seq::<Seq<char>>::empty(), word);
        assert(pieces_width(Seq::<Seq<char>>::empty()) == 0);
        assert forall|i: int| 0 <= i < r.0.len() implies fits(#[trigger] r.0[i], max) by {
            if i < lines.len() {
                assert(r.0[i] == lines[i]);
            } else {
                assert(r.0[i] == cur);
            }
        }
    } else {
        lemma_width_push(cur, word);
        assert(r.0 == lines);
    }
}

proof fn lemma_place_words_fits(
    st: WordState,
    words: Seq<Seq<char>>,
    n: int,
    is_link: bool,
    max: nat,
    base: int,
)
    requires
        word_state_fits(st, max),
    ensures
        word_state_fits(place_words(st, words, n, is_link, max, base), max),
    decreases n,
{
    if n > 0 {
        lemma_place_words_fits(st, words, n - 1, is_link, max, base);
        lemma_place_word_fits(place_words(st, words, n - 1, is_link, max, base), words[n - 1], is_link, max, base);
    }
}

/// Every finished line of a block in progress fits, and so does its
/// current line, whose width the state records.
pub open spec fn block_state_fits(st: BlockState, max: nat) -> bool {
    &&& forall|i: int| 0 <= i < st.0.len() ==> fits(#[trigger] st.0[i], max)
    &&& st.3 == pieces_width(st.2)
    &&& fits(st.2, max)
}

proof fn lemma_place_tokens_fits(toks: Seq<(Seq<char>, Option<Seq<char>>)>, n: int, max: nat, base: int)
    ensures
        block_state_fits(place_tokens(toks, n, max, base), max),
    decreases n,
{
    if n > 0 {
        lemma_place_tokens_fits(toks, n - 1, max, base);
        let st = place_tokens(toks, n - 1, max, base);
        let t = toks[n - 1];
        let words = inclusive_pieces(t.0);
        let inner0: WordState = (st.0, st.2, st.3, base + st.0.len(), Seq::empty());
        lemma_place_words_fits(inner0, words, words.len() as int, t.1 is Some, max, base);
    }
}

/// Wrapping a block keeps every line within the page: each line it adds
/// takes at most `max` columns, unless all its room is taken by its last
/// piece, a single word wider than the page.
pub proof fn wrapped_lines_fit(toks: Seq<(Seq<char>, Option<Seq<char>>)>, max: nat, base: int)
    ensures
        forall|i: int| 0 <= i < block_layout(toks, max, base).0.len() ==> fits(#[trigger] block_layout(toks, max, base).0[i], max),
{
    let st = place_tokens(toks, toks.len() as int, max, base);
    lemma_place_tokens_fits(toks, toks.len() as int, max, base);
    let out = block_layout(toks, max, base).0;
    if st.2.len() > 0 {
        assert(pieces_width(Seq::<Seq<char>>::empty()) == 0);
        assert forall|i: int| 0 <= i < out.len() implies fits(#[trigger] out[i], max) by {
            if i < st.0.len() {
                assert(out[i] == st.0[i]);
            } else if i == st.0.len() {
                assert(out[i] == st.2);
            } else {
                assert(out[i] == Seq::<Seq<char>>::empty());
            }
        }
    }
}

} // verus!
