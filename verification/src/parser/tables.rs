//! Tables: the cells of a `<table>` placed on a grid (spans included), and
//! the framed rendering the reader shows.
use super::blocks::{place_token, place_token_exec, token_view, tokens_view, BlockState, TextToken};
use super::types::{line_view, lines_view, link_view, links_view, Link, ParsedDocument};
use super::document::{cleaned_text, is_skipped_name, tag_link};
use super::entities::{decode_entities, decode_html_entities};
use super::html::{inner_text, node_at, HtmlDom, HtmlNode, TagAttrs};
use super::utils::extract_title_from_href;
use crate::audio::duration::{parse_u64, parse_u64_chars};
use crate::text::{
    chars_eq_str, contains_seq, contains_str, is_all_whitespace, opt_view, replace_char,
    repeat_char, repeated, skip_chars, slice_chars, split_whitespace_spans, str_width, string_from_chars, string_of, strs_view, to_chars, trim_chars, trim_seq, word_spans, words, display_width,
};
use vstd::prelude::*;

verus! {

// ---------------------------------------------------------------------------
// The tokens of a cell
// ---------------------------------------------------------------------------

/// Tokens as plain values.
pub type TokV = (Seq<char>, Option<Seq<char>>);

/// A text run joins a cell's tokens unless it is blank (a single space
/// counts).
pub open spec fn cell_text(toks: Seq<TokV>, t: Seq<char>, link: Option<Seq<char>>) -> Seq<TokV> {
    let c = cleaned_text(t);
    if trim_seq(c).len() > 0 || c == " "@ {
        toks.push((c, link))
    } else {
        toks
    }
}

/// An element left out of a cell: scripts and styles, and footnote markers
/// unless they are shown.
pub open spec fn cell_skips(n: Seq<char>, a: TagAttrs, show_footnotes: bool) -> bool {
    is_skipped_name(n) || (!show_footnotes && (a.class matches Some(c) && contains_seq(c@, "reference"@)))
}

/// The tokens after element `i` of a cell is read inside link `link`.
pub open spec fn cell_node(
    d: HtmlDom,
    i: int,
    link: Option<Seq<char>>,
    show: bool,
    depth: nat,
    toks: Seq<TokV>,
) -> Seq<TokV>
    decreases depth, 0int,
{
    match node_at(d, i) {
        Some(HtmlNode::Tag { name, attrs, children }) => {
            if cell_skips(name@, attrs, show) {
                toks
            } else {
                let t1 = if name@ == "br"@ { toks.push(("\n"@, None)) } else { toks };
                if depth == 0 {
                    t1
                } else {
                    cell_children(
                        d,
                        children@,
                        children@.len() as int,
                        tag_link(name@, attrs, link),
                        show,
                        (depth - 1) as nat,
                        t1,
                    )
                }
            }
        },
        _ => toks,
    }
}

/// The tokens after the first `n` of `kids` are read.
pub open spec fn cell_children(
    d: HtmlDom,
    kids: Seq<usize>,
    n: int,
    link: Option<Seq<char>>,
    show: bool,
    depth: nat,
    toks: Seq<TokV>,
) -> Seq<TokV>
    decreases depth, n,
{
    if n <= 0 || n > kids.len() {
        toks
    } else {
        let t = cell_children(d, kids, n - 1, link, show, depth, toks);
        match node_at(d, kids[n - 1] as int) {
            Some(HtmlNode::Text(s)) => cell_text(t, s@, link),
            Some(HtmlNode::Tag { .. }) => cell_node(d, kids[n - 1] as int, link, show, depth, t),
            _ => t,
        }
    }
}

/// The tokens of the cell at node `i`.
pub open spec fn cell_tokens(d: HtmlDom, i: int, show: bool) -> Seq<TokV> {
    cell_node(d, i, None, show, d.nodes@.len(), Seq::empty())
}

fn push_tok(tokens: &mut Vec<TextToken>, t: TextToken)
    ensures
        tokens_view(final(tokens)@) == tokens_view(old(tokens)@).push(token_view(t)),
{
    let ghost before = tokens@;
    tokens.push(t);
    assert(tokens_view(tokens@) =~= tokens_view(before).push(token_view(t)));
}

fn cell_text_exec(tokens: &mut Vec<TextToken>, t: &str, link: &Option<String>)
    ensures
        tokens_view(final(tokens)@) == cell_text(tokens_view(old(tokens)@), t@, opt_view(*link)),
{
    let dec = decode_html_entities(t);
    let c = replace_char(&replace_char(&replace_char(&to_chars(dec.as_str()), '\r', ' '), '\t', ' '), '\n', ' ');
    let single_space = c.len() == 1 && c[0] == ' ';
    proof {
        reveal_strlit(" ");
        if c@ == " "@ {
            assert(c@[0] == ' ');
        }
        if single_space {
            assert(c@ =~= " "@);
        }
    }
    if !is_all_whitespace(&c) || single_space {
        push_tok(tokens, TextToken { text: string_from_chars(&c), link_target: link.clone() });
    }
}

fn link_inside(n: &Vec<char>, a: &TagAttrs, link: &Option<String>) -> (r: Option<String>)
    ensures
        opt_view(r) == tag_link(n@, *a, opt_view(*link)),
{
    if chars_eq_str(n, "a") {
        match &a.href {
            Some(h) => match extract_title_from_href(h.as_str()) {
                Some(t) => Some(t),
                None => link.clone(),
            },
            None => match &a.title {
                Some(t) => Some(t.clone()),
                None => link.clone(),
            },
        }
    } else {
        link.clone()
    }
}

fn cell_node_exec(
    d: &HtmlDom,
    i: usize,
    link: &Option<String>,
    show: bool,
    depth: usize,
    tokens: &mut Vec<TextToken>,
)
    ensures
        tokens_view(final(tokens)@) == cell_node(*d, i as int, opt_view(*link), show, depth as nat, tokens_view(old(tokens)@)),
    decreases depth, 0usize,
{
    if i >= d.nodes.len() {
        return;
    }
    match &d.nodes[i] {
        HtmlNode::Tag { name, attrs, children } => {
            let n = to_chars(name.as_str());
            if chars_eq_str(&n, "style") || chars_eq_str(&n, "script") || chars_eq_str(&n, "noscript") {
                return;
            }
            if !show {
                match &attrs.class {
                    Some(c) => {
                        if contains_str(&to_chars(c.as_str()), "reference") {
                            return;
                        }
                    },
                    None => {},
                }
            }
            if chars_eq_str(&n, "br") {
                push_tok(tokens, TextToken { text: string_of("\n"), link_target: None });
            }
            if depth == 0 {
                return;
            }
            let inner = link_inside(&n, attrs, link);
            let ghost t1 = tokens_view(tokens@);
            let mut k: usize = 0;
            while k < children.len()
                invariant
                    k <= children.len(),
                    d.nodes@[i as int] == (HtmlNode::Tag { name: *name, attrs: *attrs, children: *children }),
                    depth > 0,
                    tokens_view(tokens@) == cell_children(*d, children@, k as int, opt_view(inner), show, (depth - 1) as nat, t1),
                decreases children.len() - k,
            {
                let kid = children[k];
                if kid < d.nodes.len() {
                    match &d.nodes[kid] {
                        HtmlNode::Text(s) => {
                            cell_text_exec(tokens, s.as_str(), &inner);
                        },
                        HtmlNode::Tag { .. } => {
                            cell_node_exec(d, kid, &inner, show, depth - 1, tokens);
                        },
                        HtmlNode::Comment => {},
                    }
                }
                k += 1;
            }
        },
        _ => {},
    }
}

/// The tokens of the table cell at node `cell`: its text runs (blank ones
/// left out), line breaks as `"\n"`, each with the link it lies in.
pub fn collect_cell_tokens(dom: &HtmlDom, cell: usize, show_footnotes: bool) -> (r: Vec<TextToken>)
    ensures
        tokens_view(r@) == cell_tokens(*dom, cell as int, show_footnotes),
{
    let mut tokens: Vec<TextToken> = Vec::new();
    let none: Option<String> = None;
    assert(tokens_view(tokens@) =~= Seq::<TokV>::empty());
    cell_node_exec(dom, cell, &none, show_footnotes, dom.nodes.len(), &mut tokens);
    tokens
}

// ---------------------------------------------------------------------------
// Row and column spans
// ---------------------------------------------------------------------------

/// `str::parse::<usize>`: an optional `+`, then one or more ASCII digits
/// whose value fits in a `usize`.
pub open spec fn usize_value(s: Seq<char>) -> Option<int> {
    let digits = if s.len() > 0 && s[0] == '+' { s.skip(1) } else { s };
    match parse_u64(digits) {
        Some(v) => if v <= usize::MAX { Some(v) } else { None },
        None => None,
    }
}

/// The span an attribute gives: its number, at least 1; 1 when it is
/// missing or not a number.
pub open spec fn span_value(a: Option<Seq<char>>) -> int {
    match a {
        Some(s) => match usize_value(s) {
            Some(v) => if v >= 1 { v } else { 1 },
            None => 1,
        },
        None => 1,
    }
}

fn span_value_exec(a: &Option<String>) -> (r: usize)
    ensures
        r as int == span_value(opt_view(*a)),
        r >= 1,
{
    match a {
        Some(s) => {
            let c = to_chars(s.as_str());
            let digits = if c.len() > 0 && c[0] == '+' { skip_chars(&c, 1) } else { c };
            match parse_u64_chars(&digits) {
                Some(v) => {
                    if v <= usize::MAX as u64 {
                        let u = v as usize;
                        if u >= 1 { u } else { 1 }
                    } else {
                        1
                    }
                },
                None => 1,
            }
        },
        None => 1,
    }
}


// ---------------------------------------------------------------------------
// The rows and caption of a table
// ---------------------------------------------------------------------------

/// The element name of node `i`, if it is an element.
pub open spec fn tag_name_of(d: HtmlDom, i: int) -> Option<Seq<char>> {
    match node_at(d, i) {
        Some(HtmlNode::Tag { name, .. }) => Some(name@),
        _ => None,
    }
}

/// The child indices of node `i` (none for a text run).
pub open spec fn children_of(d: HtmlDom, i: int) -> Seq<usize> {
    match node_at(d, i) {
        Some(HtmlNode::Tag { children, .. }) => children@,
        _ => Seq::empty(),
    }
}

/// The `tr` elements among the first `n` of `kids`.
pub open spec fn trs_among(d: HtmlDom, kids: Seq<usize>, n: int) -> Seq<usize>
    decreases n,
{
    if n <= 0 || n > kids.len() {
        Seq::empty()
    } else if tag_name_of(d, kids[n - 1] as int) == Some("tr"@) {
        trs_among(d, kids, n - 1).push(kids[n - 1])
    } else {
        trs_among(d, kids, n - 1)
    }
}

/// The rows among the first `n` children of a table: its `tr` elements and
/// those of its `thead`, `tbody` and `tfoot` sections, in order.
pub open spec fn rows_among(d: HtmlDom, kids: Seq<usize>, n: int) -> Seq<usize>
    decreases n,
{
    if n <= 0 || n > kids.len() {
        Seq::empty()
    } else {
        let prev = rows_among(d, kids, n - 1);
        let k = kids[n - 1] as int;
        match tag_name_of(d, k) {
            Some(name) => if name == "tr"@ {
                prev.push(kids[n - 1])
            } else if name == "thead"@ || name == "tbody"@ || name == "tfoot"@ {
                let sub = children_of(d, k);
                prev + trs_among(d, sub, sub.len() as int)
            } else {
                prev
            },
            None => prev,
        }
    }
}

/// The rows of table `t`.
pub open spec fn table_rows(d: HtmlDom, t: int) -> Seq<usize> {
    let kids = children_of(d, t);
    rows_among(d, kids, kids.len() as int)
}

/// The caption among the first `n` children: the decoded, trimmed text of
/// the last `caption` element whose text is not blank.
pub open spec fn caption_among(d: HtmlDom, kids: Seq<usize>, n: int) -> Option<Seq<char>>
    decreases n,
{
    if n <= 0 || n > kids.len() {
        None
    } else {
        let prev = caption_among(d, kids, n - 1);
        let k = kids[n - 1] as int;
        if tag_name_of(d, k) == Some("caption"@) {
            let t = trim_seq(decode_entities(inner_text(d, k, d.nodes@.len())));
            if t.len() > 0 { Some(t) } else { prev }
        } else {
            prev
        }
    }
}

/// The caption of table `t`.
pub open spec fn table_caption(d: HtmlDom, t: int) -> Option<Seq<char>> {
    let kids = children_of(d, t);
    caption_among(d, kids, kids.len() as int)
}

fn tag_name_is(d: &HtmlDom, i: usize, lit: &str) -> (r: bool)
    ensures
        r == (tag_name_of(*d, i as int) == Some(lit@)),
{
    if i >= d.nodes.len() {
        return false;
    }
    match &d.nodes[i] {
        HtmlNode::Tag { name, .. } => chars_eq_str(&to_chars(name.as_str()), lit),
        _ => false,
    }
}

fn copy_indices(v: &Vec<usize>) -> (r: Vec<usize>)
    ensures
        r@ == v@,
{
    let mut out: Vec<usize> = Vec::new();
    let mut k: usize = 0;
    while k < v.len()
        invariant
            k <= v.len(),
            out@ == v@.take(k as int),
        decreases v.len() - k,
    {
        out.push(v[k]);
        assert(v@.take(k + 1) =~= v@.take(k as int).push(v@[k as int]));
        k += 1;
    }
    assert(v@.take(v.len() as int) =~= v@);
    out
}

fn children_exec(d: &HtmlDom, i: usize) -> (r: Vec<usize>)
    ensures
        r@ == children_of(*d, i as int),
{
    if i < d.nodes.len() {
        match &d.nodes[i] {
            HtmlNode::Tag { children, .. } => {
                return copy_indices(children);
            },
            _ => {},
        }
    }
    Vec::new()
}

/// The rows and the caption of table `t`.
fn rows_and_caption(d: &HtmlDom, t: usize) -> (r: (Vec<usize>, Option<String>))
    ensures
        r.0@ == table_rows(*d, t as int),
        opt_view(r.1) == table_caption(*d, t as int),
{
    let kids = children_exec(d, t);
    let mut rows: Vec<usize> = Vec::new();
    let mut caption: Option<String> = None;
    let mut k: usize = 0;
    while k < kids.len()
        invariant
            k <= kids.len(),
            kids@ == children_of(*d, t as int),
            rows@ == rows_among(*d, kids@, k as int),
            opt_view(caption) == caption_among(*d, kids@, k as int),
        decreases kids.len() - k,
    {
        let kid = kids[k];
        if tag_name_is(d, kid, "caption") {
            let text = d.inner_text(kid);
            let clean = trim_chars(&to_chars(decode_html_entities(text.as_str()).as_str()));
            if clean.len() > 0 {
                caption = Some(string_from_chars(&clean));
            }
        }
        if tag_name_is(d, kid, "tr") {
            rows.push(kid);
        } else if tag_name_is(d, kid, "thead") || tag_name_is(d, kid, "tbody") || tag_name_is(d, kid, "tfoot") {
            let sub = children_exec(d, kid);
            let ghost before = rows@;
            let mut m: usize = 0;
            while m < sub.len()
                invariant
                    m <= sub.len(),
                    rows@ == before + trs_among(*d, sub@, m as int),
                decreases sub.len() - m,
            {
                if tag_name_is(d, sub[m], "tr") {
                    rows.push(sub[m]);
                }
                m += 1;
            }
        } else {
            assert(tag_name_of(*d, kid as int) is Some ==> {
                let name = tag_name_of(*d, kid as int)->0;
                !(name == "tr"@ || name == "thead"@ || name == "tbody"@ || name == "tfoot"@)
            });
        }
        k += 1;
    }
    (rows, caption)
}


// ---------------------------------------------------------------------------
// The grid
// ---------------------------------------------------------------------------

/// A grid position: the cell that starts there, or a position a cell
/// starting at `(origin_r, origin_c)` spans over.
#[derive(Debug, Clone)]
pub enum CellEntry {
    Origin { tokens: Vec<TextToken>, colspan: usize, rowspan: usize, is_header: bool },
    Covered { origin_r: usize, origin_c: usize },
}

/// A table's cells on a grid of `num_rows` by `num_cols` positions, and its
/// caption.
#[derive(Debug)]
pub struct TableGrid {
    pub num_rows: usize,
    pub num_cols: usize,
    pub cells: Vec<Vec<CellEntry>>,
    pub caption: Option<String>,
}

/// A grid position as plain values.
pub enum CellV {
    Origin { tokens: Seq<TokV>, colspan: int, rowspan: int, is_header: bool },
    Covered { r: int, c: int },
}

pub open spec fn cell_view(e: CellEntry) -> CellV {
    match e {
        CellEntry::Origin { tokens, colspan, rowspan, is_header } => CellV::Origin {
            tokens: tokens_view(tokens@),
            colspan: colspan as int,
            rowspan: rowspan as int,
            is_header,
        },
        CellEntry::Covered { origin_r, origin_c } => CellV::Covered { r: origin_r as int, c: origin_c as int },
    }
}

pub open spec fn opt_cell_view(o: Option<CellEntry>) -> Option<CellV> {
    match o {
        Some(e) => Some(cell_view(e)),
        None => None,
    }
}

/// What may stand at position `(x, y)`: a cell spanning at least one row
/// and column (its span within `usize`), or a position covered by a cell
/// above or to the left.
pub open spec fn pos_ok(e: CellV, x: int, y: int) -> bool {
    match e {
        CellV::Origin { colspan, rowspan, .. } => colspan >= 1 && rowspan >= 1 && y + colspan <= usize::MAX
            && x + rowspan <= usize::MAX,
        CellV::Covered { r, c } => 0 <= r <= x && 0 <= c <= y,
    }
}

/// Every position of a finished grid holds what may stand there.
pub open spec fn cells_ok(cv: Seq<Seq<CellV>>) -> bool {
    forall|x: int, y: int| 0 <= x < cv.len() && 0 <= y < cv[x].len() ==> pos_ok(#[trigger] cv[x][y], x, y)
}

/// A grid under construction as plain values.
pub type GridV = Seq<Seq<Option<CellV>>>;

pub open spec fn row_view(row: Vec<Option<CellEntry>>) -> Seq<Option<CellV>> {
    row@.map_values(|o: Option<CellEntry>| opt_cell_view(o))
}

pub open spec fn grid_view(g: Seq<Vec<Option<CellEntry>>>) -> GridV {
    g.map_values(|row: Vec<Option<CellEntry>>| row_view(row))
}

/// `k` free positions.
pub open spec fn free_positions(k: nat) -> Seq<Option<CellV>> {
    Seq::new(k, |y: int| None::<CellV>)
}

/// `k` rows without positions.
pub open spec fn empty_rows(k: nat) -> GridV {
    Seq::new(k, |x: int| Seq::<Option<CellV>>::empty())
}

/// `g` with at least `n` rows.
pub open spec fn grow_rows(g: GridV, n: int) -> GridV {
    if g.len() >= n {
        g
    } else {
        g + empty_rows((n - g.len()) as nat)
    }
}

/// `row` with at least `n` positions.
pub open spec fn grow_row(row: Seq<Option<CellV>>, n: int) -> Seq<Option<CellV>> {
    if row.len() >= n {
        row
    } else {
        row + free_positions((n - row.len()) as nat)
    }
}

/// The first free position of `row` at or after `c`.
pub open spec fn first_free(row: Seq<Option<CellV>>, c: int) -> int
    decreases row.len() - c,
{
    if 0 <= c < row.len() && row[c] is Some {
        first_free(row, c + 1)
    } else {
        c
    }
}

proof fn lemma_first_free_ge(row: Seq<Option<CellV>>, c: int)
    ensures
        first_free(row, c) >= c,
    decreases row.len() - c,
{
    if 0 <= c < row.len() && row[c] is Some {
        lemma_first_free_ge(row, c + 1);
    }
}

/// The grid after the rows `r..r+rs` are grown to `c + cs` positions.
pub open spec fn widened(g: GridV, r: int, c: int, rs: int, cs: int) -> GridV {
    let g1 = grow_rows(g, r + rs);
    Seq::new(g1.len(), |x: int| if r <= x < r + rs { grow_row(g1[x], c + cs) } else { g1[x] })
}

/// The grid after the rectangle of a cell starting at `(r, c)` is written up
/// to (not including) position `(r + ro, c + co)`, row by row: the cell at
/// its own position, covered positions elsewhere.
pub open spec fn written(g: GridV, r: int, c: int, rs: int, cs: int, e: CellV, ro: int, co: int) -> GridV {
    Seq::new(
        g.len(),
        |x: int|
            Seq::new(
                g[x].len(),
                |y: int|
                    if r <= x < r + rs && c <= y < c + cs && (x < r + ro || (x == r + ro && y < c + co)) {
                        if x == r && y == c {
                            Some(e)
                        } else {
                            Some(CellV::Covered { r, c })
                        }
                    } else {
                        g[x][y]
                    },
            ),
    )
}

/// Every filled position holds what may stand there.
pub open spec fn grid_inv(g: GridV) -> bool {
    forall|x: int, y: int| 0 <= x < g.len() && 0 <= y < g[x].len() && (#[trigger] g[x][y]) is Some ==> pos_ok(
        g[x][y]->0,
        x,
        y,
    )
}

/// A cell to place: its tokens, column span, row span, and whether it is a
/// header cell.
pub type CellInfo = (Seq<TokV>, int, int, bool);

/// Places a cell in row `r` at the first free position from `c0`: the grid
/// grows to hold its span, and the column after it is where the next cell of
/// the row is looked for. `None` when the span reaches past `usize::MAX`.
pub open spec fn place_cell(g: GridV, r: int, c0: int, cell: CellInfo) -> Option<(GridV, int)> {
    let c = first_free(g[r], c0);
    let (toks, cs, rs, h) = cell;
    if r + rs > usize::MAX || c + cs > usize::MAX {
        None
    } else {
        let e = CellV::Origin { tokens: toks, colspan: cs, rowspan: rs, is_header: h };
        Some((written(widened(g, r, c, rs, cs), r, c, rs, cs, e, rs, 0), c + cs))
    }
}



proof fn lemma_set_row(g: Seq<Vec<Option<CellEntry>>>, x: int, row: Vec<Option<CellEntry>>)
    requires
        0 <= x < g.len(),
    ensures
        grid_view(g.update(x, row)) == grid_view(g).update(x, row_view(row)),
{
    assert(grid_view(g.update(x, row)) =~= grid_view(g).update(x, row_view(row)));
}

/// Writes `v` at position `(x, y)`.
fn set_cell(grid: &mut Vec<Vec<Option<CellEntry>>>, x: usize, y: usize, v: Option<CellEntry>)
    requires
        x < old(grid)@.len(),
        y < old(grid)@[x as int]@.len(),
    ensures
        grid_view(final(grid)@) == grid_view(old(grid)@).update(
            x as int,
            grid_view(old(grid)@)[x as int].update(y as int, opt_cell_view(v)),
        ),
        final(grid)@.len() == old(grid)@.len(),
        forall|i: int| 0 <= i < old(grid)@.len() ==> #[trigger] final(grid)@[i]@.len() == old(grid)@[i]@.len(),
{
    let ghost g0 = grid@;
    let ghost vv = opt_cell_view(v);
    grid[x][y] = v;
    proof {
        let row = grid@[x as int];
        assert(row@ == g0[x as int]@.update(y as int, v));
        assert(row_view(row) =~= row_view(g0[x as int]).update(y as int, vv));
        assert(grid@ == g0.update(x as int, row));
        lemma_set_row(g0, x as int, row);
    }
}

/// Adds an empty position at the end of row `x`.
fn push_free(grid: &mut Vec<Vec<Option<CellEntry>>>, x: usize)
    requires
        x < old(grid)@.len(),
    ensures
        grid_view(final(grid)@) == grid_view(old(grid)@).update(
            x as int,
            grid_view(old(grid)@)[x as int].push(None),
        ),
        final(grid)@.len() == old(grid)@.len(),
        final(grid)@[x as int]@.len() == old(grid)@[x as int]@.len() + 1,
{
    let ghost g0 = grid@;
    grid[x].push(None);
    proof {
        let row = grid@[x as int];
        assert(row@ == g0[x as int]@.push(None));
        assert(row_view(row) =~= row_view(g0[x as int]).push(None));
        assert(grid@ == g0.update(x as int, row));
        lemma_set_row(g0, x as int, row);
    }
}

fn place_cell_exec(
    grid: &mut Vec<Vec<Option<CellEntry>>>,
    r: usize,
    c0: usize,
    tokens: Vec<TextToken>,
    cs: usize,
    rs: usize,
    h: bool,
) -> (res: Option<usize>)
    requires
        r < old(grid)@.len(),
        cs >= 1,
        rs >= 1,
    ensures
        match place_cell(grid_view(old(grid)@), r as int, c0 as int, (tokens_view(tokens@), cs as int, rs as int, h)) {
            Some((g, c)) => res == Some(c as usize) && grid_view(final(grid)@) == g,
            None => res is None,
        },
{
    let ghost g0 = grid_view(grid@);
    let ghost row0 = g0[r as int];
    let mut c = c0;
    assert(row_view(grid@[r as int]) == row0);
    while c < grid[r].len() && grid[r][c].is_some()
        invariant
            r < grid@.len(),
            grid_view(grid@) == g0,
            row0 == g0[r as int],
            first_free(row0, c0 as int) == first_free(row0, c as int),
        decreases grid@[r as int]@.len() - c,
    {
        assert(row_view(grid@[r as int])[c as int] == opt_cell_view(grid@[r as int]@[c as int]));
        c += 1;
    }
    proof {
        if c < grid@[r as int]@.len() {
            assert(row_view(grid@[r as int])[c as int] == opt_cell_view(grid@[r as int]@[c as int]));
        }
    }
    assert(first_free(row0, c as int) == c);
    if rs > usize::MAX - r || cs > usize::MAX - c {
        return None;
    }
    let ghost e = CellV::Origin { tokens: tokens_view(tokens@), colspan: cs as int, rowspan: rs as int, is_header: h };
    // grow the rows
    let ghost n0 = grid@.len();
    while grid.len() < r + rs
        invariant
            r + rs <= usize::MAX,
            c + cs <= usize::MAX,
            grid@.len() >= n0,
            grid@.len() == n0 || grid@.len() <= r + rs,
            n0 == g0.len(),
            grid_view(grid@) == g0 + empty_rows((grid@.len() - n0) as nat),
        decreases r + rs - grid@.len(),
    {
        let ghost before = grid@;
        grid.push(Vec::new());
        assert(row_view(grid@[grid@.len() - 1]) =~= Seq::<Option<CellV>>::empty());
        assert(grid_view(grid@) =~= grid_view(before).push(Seq::<Option<CellV>>::empty()));
        assert(g0 + empty_rows((grid@.len() - n0) as nat) =~= (g0
            + empty_rows((before.len() - n0) as nat)).push(
            Seq::<Option<CellV>>::empty(),
        ));
    }
    let ghost g1 = grow_rows(g0, r + rs);
    assert(grid_view(grid@) =~= g1);
    // widen the rows of the span
    let mut x = r;
    while x < r + rs
        invariant
            r + rs <= usize::MAX,
            c + cs <= usize::MAX,
            r <= x <= r + rs,
            grid@.len() == g1.len(),
            g1.len() >= r + rs,
            grid_view(grid@) == Seq::new(g1.len(), |i: int| if r <= i < x { grow_row(g1[i], c + cs) } else { g1[i] }),
        decreases r + rs - x,
    {
        let ghost before = grid_view(grid@);
        let ghost rowx = g1[x as int];
        assert(before[x as int] == rowx);
        assert(grid@[x as int]@.len() == rowx.len());
        let ghost mut k: nat = 0;
        assert(before.update(x as int, rowx + free_positions(0)) =~= before);
        while grid[x].len() < c + cs
            invariant
                c + cs <= usize::MAX,
                x < grid@.len(),
                grid@.len() == g1.len(),
                grid@[x as int]@.len() == rowx.len() + k,
                k == 0 || rowx.len() + k <= c + cs,
                before.len() == g1.len(),
                grid_view(grid@) == before.update(x as int, rowx + free_positions(k)),
            decreases c + cs - grid@[x as int]@.len(),
        {
            let ghost cur = grid_view(grid@);
            assert(cur[x as int] == rowx + free_positions(k));
            push_free(grid, x);
            let ghost longer = rowx + free_positions(k + 1);
            assert(longer =~= cur[x as int].push(None));
            assert(grid_view(grid@) =~= before.update(x as int, longer));
            proof {
                k = k + 1;
            }
        }
        assert(rowx + free_positions(k) =~= grow_row(rowx, c + cs));
        assert(grid_view(grid@) =~= Seq::new(g1.len(), |i: int| if r <= i < x + 1 { grow_row(g1[i], c + cs) } else { g1[i] }));
        x += 1;
    }
    let ghost g2 = widened(g0, r as int, c as int, rs as int, cs as int);
    assert(grid_view(grid@) =~= g2);
    // the cell at its own position
    assert(grid_view(grid@)[r as int].len() >= c + cs);
    assert(grid@[r as int]@.len() == grid_view(grid@)[r as int].len());
    set_cell(grid, r, c, Some(CellEntry::Origin { tokens, colspan: cs, rowspan: rs, is_header: h }));
    assert forall|i: int| 0 <= i < g2.len() implies #[trigger] grid_view(grid@)[i] =~= written(g2, r as int, c as int, rs as int, cs as int, e, 0, 1)[i] by {
    }
    assert(grid_view(grid@) =~= written(g2, r as int, c as int, rs as int, cs as int, e, 0, 1));
    assert forall|i: int| 0 <= i < g2.len() implies #[trigger] grid@[i]@.len() == g2[i].len() by {
        assert(grid_view(grid@)[i] == row_view(grid@[i]));
    }
    // the positions it spans over
    let mut ro: usize = 0;
    let mut co: usize = 1;
    while ro < rs
        invariant
            r + rs <= usize::MAX,
            c + cs <= usize::MAX,
            ro <= rs,
            ro < rs ==> co <= cs,
            ro == rs ==> co == 0,
            ro == 0 && ro < rs ==> co >= 1,
            grid@.len() == g2.len(),
            g2.len() >= r + rs,
            forall|i: int| r <= i < r + rs ==> #[trigger] g2[i].len() >= c + cs,
            forall|i: int| 0 <= i < g2.len() ==> #[trigger] grid@[i]@.len() == g2[i].len(),
            grid_view(grid@) == written(g2, r as int, c as int, rs as int, cs as int, e, ro as int, co as int),
        decreases rs - ro, cs - co,
    {
        if co < cs {
            assert(grid@[(r + ro) as int]@.len() == g2[(r + ro) as int].len());
            set_cell(grid, r + ro, c + co, Some(CellEntry::Covered { origin_r: r, origin_c: c }));
            assert forall|i: int| 0 <= i < g2.len() implies #[trigger] grid_view(grid@)[i] =~= written(
                g2,
                r as int,
                c as int,
                rs as int,
                cs as int,
                e,
                ro as int,
                co + 1,
            )[i] by {}
            assert(grid_view(grid@) =~= written(g2, r as int, c as int, rs as int, cs as int, e, ro as int, co + 1));
            assert forall|i: int| 0 <= i < g2.len() implies #[trigger] grid@[i]@.len() == g2[i].len() by {
                assert(grid_view(grid@)[i] == row_view(grid@[i]));
            }
            co += 1;
        } else {
            assert forall|i: int| 0 <= i < g2.len() implies #[trigger] written(g2, r as int, c as int, rs as int, cs as int, e, ro as int, co as int)[i] =~= written(
                g2,
                r as int,
                c as int,
                rs as int,
                cs as int,
                e,
                ro + 1,
                0,
            )[i] by {}
            assert(written(g2, r as int, c as int, rs as int, cs as int, e, ro as int, co as int) =~= written(
                g2,
                r as int,
                c as int,
                rs as int,
                cs as int,
                e,
                ro + 1,
                0,
            ));
            ro += 1;
            co = 0;
        }
    }
    Some(c + cs)
}


/// The cells of a row among the first `n` of `kids`: its `th` and `td`
/// elements.
pub open spec fn cells_among(d: HtmlDom, kids: Seq<usize>, n: int) -> Seq<usize>
    decreases n,
{
    if n <= 0 || n > kids.len() {
        Seq::empty()
    } else {
        let k = kids[n - 1] as int;
        if tag_name_of(d, k) == Some("th"@) || tag_name_of(d, k) == Some("td"@) {
            cells_among(d, kids, n - 1).push(kids[n - 1])
        } else {
            cells_among(d, kids, n - 1)
        }
    }
}

/// The cells of row `tr`.
pub open spec fn row_cells(d: HtmlDom, tr: int) -> Seq<usize> {
    let kids = children_of(d, tr);
    cells_among(d, kids, kids.len() as int)
}

/// The span attribute `which` (`true`: `colspan`, `false`: `rowspan`) of
/// element `i`.
pub open spec fn cell_span(d: HtmlDom, i: int, colspan: bool) -> int {
    match node_at(d, i) {
        Some(HtmlNode::Tag { attrs, .. }) => span_value(opt_view(if colspan { attrs.colspan } else { attrs.rowspan })),
        _ => 1,
    }
}

/// What is placed for the cell at node `i`.
pub open spec fn cell_info(d: HtmlDom, i: int, show: bool) -> CellInfo {
    (cell_tokens(d, i, show), cell_span(d, i, true), cell_span(d, i, false), tag_name_of(d, i) == Some("th"@))
}

/// The first `n` cells of row `r` placed.
pub open spec fn place_cells(g: GridV, d: HtmlDom, cells: Seq<usize>, n: int, r: int, show: bool) -> Option<(GridV, int)>
    decreases n,
{
    if n <= 0 || n > cells.len() {
        Some((g, 0))
    } else {
        match place_cells(g, d, cells, n - 1, r, show) {
            Some((g1, c)) => place_cell(g1, r, c, cell_info(d, cells[n - 1] as int, show)),
            None => None,
        }
    }
}

/// The grid after the first `n` rows are placed.
pub open spec fn place_rows(d: HtmlDom, rows: Seq<usize>, n: int, show: bool) -> Option<GridV>
    decreases n,
{
    if n <= 0 || n > rows.len() {
        Some(Seq::empty())
    } else {
        match place_rows(d, rows, n - 1, show) {
            Some(g) => {
                let g1 = grow_rows(g, n);
                let cells = row_cells(d, rows[n - 1] as int);
                match place_cells(g1, d, cells, cells.len() as int, n - 1, show) {
                    Some((g2, c)) => Some(g2),
                    None => None,
                }
            },
            None => None,
        }
    }
}

/// The number of positions of the longest of the first `n` rows.
pub open spec fn max_row_len(g: GridV, n: int) -> int
    decreases n,
{
    if n <= 0 {
        0
    } else {
        let m = max_row_len(g, n - 1);
        if g[n - 1].len() > m { g[n - 1].len() as int } else { m }
    }
}

/// An empty cell.
pub open spec fn empty_cell() -> CellV {
    CellV::Origin { tokens: Seq::empty(), colspan: 1, rowspan: 1, is_header: false }
}

/// A finished row: `nc` positions, free ones empty cells.
pub open spec fn finished_row(row: Seq<Option<CellV>>, nc: int) -> Seq<CellV> {
    Seq::new(
        nc as nat,
        |y: int|
            if y < row.len() && row[y] is Some {
                row[y]->0
            } else {
                empty_cell()
            },
    )
}

/// The finished grid: every row `nc` positions long, free positions empty
/// cells.
pub open spec fn finished(g: GridV, nc: int) -> Seq<Seq<CellV>> {
    Seq::new(g.len(), |x: int| finished_row(g[x], nc))
}

/// The grid of table `t`: rows, columns, cells and caption; `None` for a
/// table without rows or cells (or one whose spans reach past
/// `usize::MAX`).
pub open spec fn table_grid(d: HtmlDom, t: int, show: bool) -> Option<(int, int, Seq<Seq<CellV>>, Option<Seq<char>>)> {
    let rows = table_rows(d, t);
    if rows.len() == 0 {
        None
    } else {
        match place_rows(d, rows, rows.len() as int, show) {
            Some(g) => {
                let nc = max_row_len(g, g.len() as int);
                if g.len() == 0 || nc == 0 {
                    None
                } else {
                    Some((g.len() as int, nc, finished(g, nc), table_caption(d, t)))
                }
            },
            None => None,
        }
    }
}

/// A row of a finished grid as plain values.
pub open spec fn cell_row_view(row: Seq<CellEntry>) -> Seq<CellV> {
    row.map_values(|e: CellEntry| cell_view(e))
}

/// The cells of a finished grid as plain values.
pub open spec fn cells_view(cells: Seq<Vec<CellEntry>>) -> Seq<Seq<CellV>> {
    cells.map_values(|row: Vec<CellEntry>| cell_row_view(row@))
}

fn tag_attrs_of(d: &HtmlDom, i: usize) -> (r: Option<&TagAttrs>)
    ensures
        r matches Some(a) ==> node_at(*d, i as int) matches Some(HtmlNode::Tag { attrs, .. }) && attrs == *a,
        r is None ==> !(node_at(*d, i as int) is Some && node_at(*d, i as int)->0 is Tag),
{
    if i < d.nodes.len() {
        match &d.nodes[i] {
            HtmlNode::Tag { attrs, .. } => Some(attrs),
            _ => None,
        }
    } else {
        None
    }
}

fn place_row_cells(grid: &mut Vec<Vec<Option<CellEntry>>>, d: &HtmlDom, tr: usize, r: usize, show: bool) -> (ok: bool)
    requires
        r < old(grid)@.len(),
    ensures
        ({
            let cells = row_cells(*d, tr as int);
            match place_cells(grid_view(old(grid)@), *d, cells, cells.len() as int, r as int, show) {
                Some((g, c)) => ok && grid_view(final(grid)@) == g,
                None => !ok,
            }
        }),
{
    let kids = children_exec(d, tr);
    let ghost g0 = grid_view(grid@);
    let ghost cells = row_cells(*d, tr as int);
    let mut c: usize = 0;
    let mut k: usize = 0;
    while k < kids.len()
        invariant
            k <= kids.len(),
            kids@ == children_of(*d, tr as int),
            cells == cells_among(*d, kids@, kids@.len() as int),
            cells == row_cells(*d, tr as int),
            g0 == grid_view(old(grid)@),
            r < grid@.len(),
            place_cells(g0, *d, cells, cells_among(*d, kids@, k as int).len() as int, r as int, show) == Some((grid_view(grid@), c as int)),
        decreases kids.len() - k,
    {
        let kid = kids[k];
        proof {
            lemma_cells_prefix(*d, kids@, k as int + 1, kids@.len() as int);
        }
        let is_cell = tag_name_is(d, kid, "th") || tag_name_is(d, kid, "td");
        if !is_cell {
            assert(cells_among(*d, kids@, k + 1) == cells_among(*d, kids@, k as int));
        }
        if is_cell {
            let header = tag_name_is(d, kid, "th");
            let (cs, rs) = match tag_attrs_of(d, kid) {
                Some(a) => (span_value_exec(&a.colspan), span_value_exec(&a.rowspan)),
                None => (1, 1),
            };
            let tokens = collect_cell_tokens(d, kid, show);
            let ghost n = cells_among(*d, kids@, k as int).len();
            assert(cells_among(*d, kids@, k + 1) == cells_among(*d, kids@, k as int).push(kid));
            assert(cells_among(*d, kids@, k + 1)[n as int] == kid);
            assert(cells[n as int] == kid);
            assert(cell_info(*d, kid as int, show) == (tokens_view(tokens@), cs as int, rs as int, header));
            let ghost gv = grid_view(grid@);
            let ghost info = cell_info(*d, kid as int, show);
            assert(place_cells(g0, *d, cells, n as int, r as int, show) == Some((gv, c as int)));
            assert(n + 1 <= cells.len());
            let res = place_cell_exec(grid, r, c, tokens, cs, rs, header);
            assert(grid_view(grid@).len() == grid@.len());
            match res {
                Some(next) => {
                    let ghost pc = place_cell(gv, r as int, c as int, info);
                    assert(pc is Some);
                    let ghost next_c = pc.unwrap().1;
                    proof {
                        lemma_first_free_ge(gv[r as int], c as int);
                    }
                    assert(next_c <= usize::MAX && next_c >= 0);
                    assert(next_c == next as int);
                    assert(place_cells(g0, *d, cells, (n + 1) as int, r as int, show) == pc);
                    assert(cells_among(*d, kids@, k + 1).len() == n + 1);
                    assert(grid_view(grid@).len() >= gv.len());
                    c = next;
                },
                None => {
                    assert(place_cell(gv, r as int, c as int, info) is None);
                    assert(place_cells(g0, *d, cells, (n + 1) as int, r as int, show) is None);
                    proof {
                        lemma_place_cells_none(g0, *d, cells, (n + 1) as int, cells.len() as int, r as int, show);
                    }
                    return false;
                },
            }
        }
        k += 1;
    }
    true
}

proof fn lemma_cells_prefix(d: HtmlDom, kids: Seq<usize>, k: int, n: int)
    requires
        0 <= k <= n <= kids.len(),
    ensures
        cells_among(d, kids, k).len() <= cells_among(d, kids, n).len(),
        forall|j: int| 0 <= j < cells_among(d, kids, k).len() ==> #[trigger] cells_among(d, kids, k)[j] == cells_among(d, kids, n)[j],
    decreases n - k,
{
    if k < n {
        lemma_cells_prefix(d, kids, k, n - 1);
    }
}

proof fn lemma_place_cells_none(g: GridV, d: HtmlDom, cells: Seq<usize>, k: int, n: int, r: int, show: bool)
    requires
        0 <= k <= n <= cells.len(),
        place_cells(g, d, cells, k, r, show) is None,
    ensures
        place_cells(g, d, cells, n, r, show) is None,
    decreases n - k,
{
    if k < n {
        lemma_place_cells_none(g, d, cells, k, n - 1, r, show);
    }
}


fn empty_cell_exec() -> (r: CellEntry)
    ensures
        cell_view(r) == empty_cell(),
{
    let tokens: Vec<TextToken> = Vec::new();
    assert(tokens_view(tokens@) =~= Seq::<TokV>::empty());
    CellEntry::Origin { tokens, colspan: 1, rowspan: 1, is_header: false }
}

/// A grid row, finished to `nc` positions.
fn finish_row(row: Vec<Option<CellEntry>>, nc: usize) -> (r: Vec<CellEntry>)
    ensures
        cell_row_view(r@) == finished_row(row_view(row), nc as int),
{
    let ghost rv = row_view(row);
    let mut row = row;
    let mut out: Vec<CellEntry> = Vec::new();
    let mut y: usize = 0;
    assert(cell_row_view(out@) =~= finished_row(rv, nc as int).take(0));
    while y < nc
        invariant
            y <= nc,
            row@.len() == rv.len(),
            forall|j: int| y <= j < rv.len() ==> opt_cell_view(#[trigger] row@[j]) == rv[j],
            cell_row_view(out@) == finished_row(rv, nc as int).take(y as int),
        decreases nc - y,
    {
        let ghost before = out@;
        let e = if y < row.len() {
            let mut o: Option<CellEntry> = None;
            assert(opt_cell_view(row@[y as int]) == rv[y as int]);
            std::mem::swap(&mut o, &mut row[y]);
            match o {
                Some(e) => e,
                None => empty_cell_exec(),
            }
        } else {
            empty_cell_exec()
        };
        assert(cell_view(e) == finished_row(rv, nc as int)[y as int]);
        out.push(e);
        assert(cell_row_view(out@) =~= cell_row_view(before).push(cell_view(e)));
        assert(cell_row_view(out@) =~= finished_row(rv, nc as int).take(y + 1));
        y += 1;
    }
    assert(finished_row(rv, nc as int).take(nc as int) =~= finished_row(rv, nc as int));
    out
}

/// Places the cells of table `table` on a grid: rows are the table's `tr`
/// elements (also those inside `thead`, `tbody` and `tfoot`), each cell at
/// the first free position of its row, spanning `colspan` columns and
/// `rowspan` rows; positions no cell reaches hold empty cells. `None` for a
/// table without rows or cells.
pub fn parse_table_into_grid(dom: &HtmlDom, table: usize, show_footnotes: bool) -> (r: Option<TableGrid>)
    ensures
        match table_grid(*dom, table as int, show_footnotes) {
            Some((nr, nc, cells, cap)) => r matches Some(g) && g.num_rows as int == nr && g.num_cols as int == nc
                && cells_view(g.cells@) == cells && opt_view(g.caption) == cap,
            None => r is None,
        },
        r matches Some(g) ==> grid_ok(g),
{
    let (rows, caption) = rows_and_caption(dom, table);
    if rows.len() == 0 {
        return None;
    }
    let mut grid: Vec<Vec<Option<CellEntry>>> = Vec::new();
    let mut r: usize = 0;
    assert(grid_view(grid@) =~= Seq::<Seq<Option<CellV>>>::empty());
    while r < rows.len()
        invariant
            r <= rows.len(),
            rows@ == table_rows(*dom, table as int),
            place_rows(*dom, rows@, r as int, show_footnotes) == Some(grid_view(grid@)),
        decreases rows.len() - r,
    {
        let ghost g = grid_view(grid@);
        let ghost n0 = grid@.len();
        while grid.len() < r + 1
            invariant
                r < rows.len(),
                grid@.len() >= n0,
                grid@.len() == n0 || grid@.len() <= r + 1,
                n0 == g.len(),
                grid_view(grid@) == g + empty_rows((grid@.len() - n0) as nat),
            decreases r + 1 - grid@.len(),
        {
            let ghost before = grid@;
            grid.push(Vec::new());
            assert(row_view(grid@[grid@.len() - 1]) =~= Seq::<Option<CellV>>::empty());
            assert(grid_view(grid@) =~= grid_view(before).push(Seq::<Option<CellV>>::empty()));
            assert(g + empty_rows((grid@.len() - n0) as nat) =~= (g + empty_rows((before.len() - n0) as nat)).push(
                Seq::<Option<CellV>>::empty(),
            ));
        }
        assert(grid_view(grid@) =~= grow_rows(g, r + 1));
        if !place_row_cells(&mut grid, dom, rows[r], r, show_footnotes) {
            proof {
                lemma_place_rows_none(*dom, rows@, r + 1, rows@.len() as int, show_footnotes);
            }
            return None;
        }
        r += 1;
    }
    let ghost gv = grid_view(grid@);
    let mut nc: usize = 0;
    let mut x: usize = 0;
    while x < grid.len()
        invariant
            x <= grid@.len(),
            gv == grid_view(grid@),
            nc as int == max_row_len(gv, x as int),
        decreases grid@.len() - x,
    {
        assert(gv[x as int].len() == grid@[x as int]@.len());
        if grid[x].len() > nc {
            nc = grid[x].len();
        }
        x += 1;
    }
    let nr = grid.len();
    if nr == 0 || nc == 0 {
        return None;
    }
    let mut cells: Vec<Vec<CellEntry>> = Vec::new();
    let mut x: usize = 0;
    while x < nr
        invariant
            x <= nr,
            nr == grid@.len(),
            nr == gv.len(),
            forall|i: int| x <= i < nr ==> row_view(#[trigger] grid@[i]) == gv[i],
            cells_view(cells@) == finished(gv, nc as int).take(x as int),
        decreases nr - x,
    {
        let mut row: Vec<Option<CellEntry>> = Vec::new();
        assert(row_view(grid@[x as int]) == gv[x as int]);
        std::mem::swap(&mut row, &mut grid[x]);
        let fr = finish_row(row, nc);
        let ghost before = cells@;
        cells.push(fr);
        assert(cells_view(cells@) =~= cells_view(before).push(cell_row_view(fr@)));
        assert(cells_view(cells@) =~= finished(gv, nc as int).take(x + 1));
        x += 1;
    }
    assert(finished(gv, nc as int).take(nr as int) =~= finished(gv, nc as int));
    proof {
        lemma_place_rows_inv(*dom, rows@, rows@.len() as int, show_footnotes);
        lemma_finished_ok(gv, nc as int);
        assert forall|x: int| 0 <= x < nr implies (#[trigger] cells@[x])@.len() == nc by {
            assert(cells_view(cells@)[x] == cell_row_view(cells@[x]@));
        }
    }
    Some(TableGrid { num_rows: nr, num_cols: nc, cells, caption })
}

proof fn lemma_place_rows_none(d: HtmlDom, rows: Seq<usize>, k: int, n: int, show: bool)
    requires
        0 <= k <= n <= rows.len(),
        place_rows(d, rows, k, show) is None,
    ensures
        place_rows(d, rows, n, show) is None,
    decreases n - k,
{
    if k < n {
        lemma_place_rows_none(d, rows, k, n - 1, show);
    }
}


// ---------------------------------------------------------------------------
// The text of a cell in lines
// ---------------------------------------------------------------------------

/// The layout of a cell after its first `n` tokens: a `"\n"` token ends the
/// current line, other tokens are laid out word by word.
pub open spec fn cell_layout_state(toks: Seq<TokV>, n: int, max: nat) -> BlockState
    decreases n,
{
    if n <= 0 {
        (Seq::empty(), Seq::empty(), Seq::empty(), 0)
    } else {
        let st = cell_layout_state(toks, n - 1, max);
        let t = toks[n - 1];
        if t.0 == "\n"@ {
            (st.0.push(st.2), st.1, Seq::empty(), 0)
        } else {
            place_token(st, t.0, t.1, max, 0)
        }
    }
}

/// The lines and links of a cell laid out in `max` columns; a cell has at
/// least one line.
pub open spec fn cell_wrap(toks: Seq<TokV>, max: nat) -> (Seq<Seq<Seq<char>>>, Seq<(Seq<char>, Seq<char>, Seq<(usize, usize)>)>) {
    let st = cell_layout_state(toks, toks.len() as int, max);
    if st.2.len() > 0 || st.0.len() == 0 {
        (st.0.push(st.2), st.1)
    } else {
        (st.0, st.1)
    }
}

/// Lays the tokens of a cell out in lines of at most `max_width` columns;
/// the links are those of the cell, at `(line, piece)` positions within it.
pub fn wrap_cell_tokens(tokens: &Vec<TextToken>, max_width: usize) -> (r: (Vec<Vec<String>>, Vec<Link>))
    ensures
        lines_view(r.0@) == cell_wrap(tokens_view(tokens@), max_width as nat).0,
        links_view(r.1@) == cell_wrap(tokens_view(tokens@), max_width as nat).1,
{
    let ghost tv = tokens_view(tokens@);
    let mut lines: Vec<Vec<String>> = Vec::new();
    let mut links: Vec<Link> = Vec::new();
    let mut cur: Vec<String> = Vec::new();
    let mut cur_len: usize = 0;
    let mut i: usize = 0;
    assert(lines_view(lines@) =~= Seq::<Seq<Seq<char>>>::empty());
    assert(links_view(links@) =~= Seq::<(Seq<char>, Seq<char>, Seq<(usize, usize)>)>::empty());
    assert(strs_view(cur@) =~= Seq::<Seq<char>>::empty());
    while i < tokens.len()
        invariant
            i <= tokens.len(),
            tv == tokens_view(tokens@),
            ({
                let st = cell_layout_state(tv, i as int, max_width as nat);
                &&& lines_view(lines@) == st.0
                &&& links_view(links@) == st.1
                &&& strs_view(cur@) == st.2
                &&& cur_len == st.3
            }),
        decreases tokens.len() - i,
    {
        let ghost st = cell_layout_state(tv, i as int, max_width as nat);
        let t = &tokens[i];
        assert(tv[i as int] == token_view(*t));
        if chars_eq_str(&to_chars(t.text.as_str()), "\n") {
            let mut line: Vec<String> = Vec::new();
            std::mem::swap(&mut line, &mut cur);
            let ghost before = lines@;
            lines.push(line);
            assert(lines_view(lines@) =~= lines_view(before).push(line_view(line)));
            cur_len = 0;
            assert(strs_view(cur@) =~= Seq::<Seq<char>>::empty());
        } else {
            assert(lines@.take(0) =~= Seq::<Vec<String>>::empty());
            assert(lines_view(lines@.take(0)) =~= Seq::<Seq<Seq<char>>>::empty());
            assert(lines_view(lines@) =~= lines_view(lines@.take(0)) + st.0);
            assert(links@.take(0) =~= Seq::<Link>::empty());
            assert(links_view(links@.take(0)) =~= Seq::<(Seq<char>, Seq<char>, Seq<(usize, usize)>)>::empty());
            assert(links_view(links@) =~= links_view(links@.take(0)) + st.1);
            place_token_exec(t, &mut lines, &mut links, &mut cur, &mut cur_len, max_width, Ghost(0), Ghost(0), Ghost(st));
            assert(lines_view(lines@) =~= lines_view(lines@.take(0)) + lines_view(lines@));
            assert(links_view(links@) =~= links_view(links@.take(0)) + links_view(links@));
        }
        i += 1;
    }
    if cur.len() > 0 || lines.len() == 0 {
        let ghost before = lines@;
        let ghost cv = strs_view(cur@);
        lines.push(cur);
        assert(lines_view(lines@) =~= lines_view(before).push(cv));
    }
    (lines, links)
}


// ---------------------------------------------------------------------------
// Column widths
// ---------------------------------------------------------------------------

/// Numbers as integers.
pub open spec fn ints(v: Seq<usize>) -> Seq<int> {
    v.map_values(|x: usize| x as int)
}

pub open spec fn max_int(a: int, b: int) -> int {
    if a >= b { a } else { b }
}

pub open spec fn min_int(a: int, b: int) -> int {
    if a <= b { a } else { b }
}

/// `x`, capped at `usize::MAX`.
pub open spec fn sat(x: int) -> int {
    if x > usize::MAX { usize::MAX as int } else { x }
}

/// The text of the first `n` tokens, one after another.
pub open spec fn tokens_text(toks: Seq<TokV>, n: int) -> Seq<char>
    decreases n,
{
    if n <= 0 {
        Seq::empty()
    } else {
        tokens_text(toks, n - 1) + toks[n - 1].0
    }
}

/// The widest of the first `n` words.
pub open spec fn widest(ws: Seq<Seq<char>>, n: int) -> int
    decreases n,
{
    if n <= 0 {
        0
    } else {
        max_int(widest(ws, n - 1), display_width(ws[n - 1]) as int)
    }
}

/// The width of the widest word of a cell: what it needs at least.
pub open spec fn cell_min_width(toks: Seq<TokV>) -> int {
    let ws = words(tokens_text(toks, toks.len() as int));
    widest(ws, ws.len() as int)
}

/// The width of a cell's whole text, trimmed: what it would take on one line.
pub open spec fn cell_max_width(toks: Seq<TokV>) -> int {
    display_width(trim_seq(tokens_text(toks, toks.len() as int))) as int
}

/// `v` with the positions `c..c+cs` raised to at least `x`.
pub open spec fn raise(v: Seq<int>, c: int, cs: int, x: int) -> Seq<int> {
    Seq::new(v.len(), |j: int| if c <= j < c + cs { max_int(v[j], x) } else { v[j] })
}

/// The column bounds `(least, most)` after the cell at column `c` is
/// counted: a one-column cell raises its column to its own widths (at least
/// 3), a wider cell raises each of its columns to its share (at least 3).
pub open spec fn count_cell(b: (Seq<int>, Seq<int>), cell: CellV, c: int) -> (Seq<int>, Seq<int>) {
    match cell {
        CellV::Origin { tokens, colspan, .. } => {
            let lw = cell_min_width(tokens);
            let tw = cell_max_width(tokens);
            let lo = if colspan == 1 { max_int(lw, 3) } else { max_int(lw / colspan, 3) };
            let hi = if colspan == 1 { max_int(tw, 3) } else { max_int(tw / colspan, 3) };
            (raise(b.0, c, colspan, lo), raise(b.1, c, colspan, hi))
        },
        CellV::Covered { .. } => b,
    }
}

/// The bounds after the first `n` positions of a row are counted.
pub open spec fn count_row(b: (Seq<int>, Seq<int>), row: Seq<CellV>, n: int) -> (Seq<int>, Seq<int>)
    decreases n,
{
    if n <= 0 {
        b
    } else {
        count_cell(count_row(b, row, n - 1), row[n - 1], n - 1)
    }
}

/// The bounds of `nc` columns after the first `n` rows are counted; every
/// column needs at least 3.
pub open spec fn count_rows(cells: Seq<Seq<CellV>>, nc: int, n: int) -> (Seq<int>, Seq<int>)
    decreases n,
{
    if n <= 0 {
        (Seq::new(nc as nat, |j: int| 3int), Seq::new(nc as nat, |j: int| 3int))
    } else {
        count_row(count_rows(cells, nc, n - 1), cells[n - 1], cells[n - 1].len() as int)
    }
}

/// Each bound in `a` is at least the one in `b`, and they count the same
/// columns.
pub open spec fn at_least_all(a: Seq<int>, b: Seq<int>) -> bool {
    &&& a.len() == b.len()
    &&& forall|j: int| 0 <= j < b.len() ==> #[trigger] a[j] >= b[j]
}

proof fn lemma_count_row_grows(b: (Seq<int>, Seq<int>), row: Seq<CellV>, m: int, n: int)
    requires
        0 <= m <= n,
    ensures
        at_least_all(count_row(b, row, n).0, count_row(b, row, m).0),
        at_least_all(count_row(b, row, n).1, count_row(b, row, m).1),
    decreases n - m,
{
    if m < n {
        lemma_count_row_grows(b, row, m, n - 1);
    }
}

proof fn lemma_count_rows_grow(cells: Seq<Seq<CellV>>, nc: int, m: int, n: int)
    requires
        0 <= m <= n,
    ensures
        at_least_all(count_rows(cells, nc, n).0, count_rows(cells, nc, m).0),
        at_least_all(count_rows(cells, nc, n).1, count_rows(cells, nc, m).1),
    decreases n - m,
{
    if m < n {
        lemma_count_rows_grow(cells, nc, m, n - 1);
        let before = count_rows(cells, nc, n - 1);
        lemma_count_row_grows(before, cells[n - 1], 0, cells[n - 1].len() as int);
    }
}

/// Column widths honour every cell: after the rows are counted, each column
/// that a cell covers is allowed at least the cell's share of the cell's
/// widths (all of them for a one-column cell, an equal share of them for a
/// cell spanning `cs` columns), and never less than 3, both for the least
/// and for the most width.
pub proof fn every_spanned_column_gets_its_share(cells: Seq<Seq<CellV>>, nc: int, n: int, x: int, c: int, j: int)
    requires
        0 <= x < n,
        0 <= c < cells[x].len(),
        nc >= 0,
        cells[x][c] is Origin,
        c <= j < c + cells[x][c]->colspan,
        j < nc,
        cells[x][c]->colspan >= 1,
    ensures
        ({
            let cs = cells[x][c]->colspan;
            let lw = cell_min_width(cells[x][c]->tokens);
            let tw = cell_max_width(cells[x][c]->tokens);
            let b = count_rows(cells, nc, n);
            &&& b.0.len() == nc
            &&& b.1.len() == nc
            &&& b.0[j] >= 3 && b.1[j] >= 3
            &&& b.0[j] >= lw / cs
            &&& b.1[j] >= tw / cs
        }),
{
    let cs = cells[x][c]->colspan;
    let lw = cell_min_width(cells[x][c]->tokens);
    let tw = cell_max_width(cells[x][c]->tokens);
    let base = count_rows(cells, nc, 0);
    lemma_count_rows_grow(cells, nc, 0, n);
    lemma_count_rows_grow(cells, nc, x + 1, n);
    let before = count_rows(cells, nc, x);
    let row = cells[x];
    lemma_count_rows_grow(cells, nc, 0, x);
    lemma_count_row_grows(before, row, c + 1, row.len() as int);
    let at = count_row(before, row, c + 1);
    assert(count_row(before, row, c + 1) == count_cell(count_row(before, row, c), row[c], c));
    lemma_count_row_grows(before, row, 0, c);
    assert(base.0[j] == 3 && base.1[j] == 3);
    assert(at.0[j] >= 3);
    if cs == 1 {
        assert(lw / cs == lw) by (nonlinear_arith) requires cs == 1;
        assert(tw / cs == tw) by (nonlinear_arith) requires cs == 1;
    }
    assert(at.0[j] >= cell_min_width(row[c]->tokens) / cs);
    assert(at.1[j] >= cell_max_width(row[c]->tokens) / cs);
}

/// A grid as `parse_table_into_grid` leaves it: `num_rows` rows of
/// `num_cols` positions each, spans of at least one, and covered positions
/// pointing up and left.
pub open spec fn grid_ok(g: TableGrid) -> bool {
    &&& g.num_rows > 0
    &&& g.num_cols > 0
    &&& g.cells@.len() == g.num_rows
    &&& forall|x: int| 0 <= x < g.num_rows ==> (#[trigger] g.cells@[x])@.len() == g.num_cols
    &&& cells_ok(cells_view(g.cells@))
}

fn tokens_text_exec(tokens: &Vec<TextToken>) -> (r: String)
    ensures
        r@ == tokens_text(tokens_view(tokens@), tokens@.len() as int),
{
    let mut out = String::new();
    let mut i: usize = 0;
    while i < tokens.len()
        invariant
            i <= tokens.len(),
            out@ == tokens_text(tokens_view(tokens@), i as int),
        decreases tokens.len() - i,
    {
        crate::text::push_str(&mut out, tokens[i].text.as_str());
        i += 1;
    }
    out
}

fn cell_widths_exec(tokens: &Vec<TextToken>) -> (r: (usize, usize))
    ensures
        r.0 as int == cell_min_width(tokens_view(tokens@)),
        r.1 as int == cell_max_width(tokens_view(tokens@)),
{
    let text = tokens_text_exec(tokens);
    let chars = to_chars(text.as_str());
    let spans = split_whitespace_spans(&chars);
    let ghost ws = words(chars@);
    let mut longest: usize = 0;
    let mut k: usize = 0;
    while k < spans.len()
        invariant
            k <= spans.len(),
            spans@.len() == word_spans(chars@).len(),
            ws == words(chars@),
            forall|j: int| 0 <= j < spans@.len() ==> (#[trigger] spans@[j]).0 as int == word_spans(chars@)[j].0
                && spans@[j].1 as int == word_spans(chars@)[j].1,
            crate::text::spans_well_formed(chars@, word_spans(chars@)),
            longest as int == widest(ws, k as int),
        decreases spans.len() - k,
    {
        let (a, b) = spans[k];
        let w = string_from_chars(&slice_chars(&chars, a, b));
        assert(w@ == ws[k as int]);
        let x = str_width(w.as_str());
        if x > longest {
            longest = x;
        }
        k += 1;
    }
    assert(ws.len() == spans@.len());
    let total = str_width(string_from_chars(&trim_chars(&chars)).as_str());
    (longest, total)
}

/// Raises `v[c..c+cs]` (those below `v.len()`) to at least `x`.
fn raise_exec(v: &mut Vec<usize>, c: usize, cs: usize, x: usize)
    requires
        c < old(v)@.len(),
    ensures
        ints(final(v)@) == raise(ints(old(v)@), c as int, cs as int, x as int),
        final(v)@.len() == old(v)@.len(),
{
    let n = v.len();
    let end = if cs > n - c { n } else { c + cs };
    let ghost v0 = ints(v@);
    let mut j = c;
    while j < end
        invariant
            c <= j <= end <= n,
            v@.len() == n,
            n == v0.len(),
            end as int == (if cs > n - c { n as int } else { c + cs }),
            ints(v@) == Seq::new(n as nat, |i: int| if c <= i < j { max_int(v0[i], x as int) } else { v0[i] }),
        decreases end - j,
    {
        let ghost before = ints(v@);
        assert(before[j as int] == v0[j as int]);
        if v[j] < x {
            v[j] = x;
            assert(ints(v@) =~= before.update(j as int, x as int));
        }
        assert(ints(v@) =~= Seq::new(n as nat, |i: int| if c <= i < j + 1 { max_int(v0[i], x as int) } else { v0[i] }));
        j += 1;
    }
    assert(ints(v@) =~= raise(v0, c as int, cs as int, x as int));
}

/// The least and most widths of each column of a grid.
pub fn column_bounds(grid: &TableGrid) -> (r: (Vec<usize>, Vec<usize>))
    requires
        grid_ok(*grid),
    ensures
        ints(r.0@) == count_rows(cells_view(grid.cells@), grid.num_cols as int, grid.num_rows as int).0,
        ints(r.1@) == count_rows(cells_view(grid.cells@), grid.num_cols as int, grid.num_rows as int).1,
        r.0@.len() == grid.num_cols,
        r.1@.len() == grid.num_cols,
{
    let nc = grid.num_cols;
    let ghost cv = cells_view(grid.cells@);
    let mut lo: Vec<usize> = Vec::new();
    let mut hi: Vec<usize> = Vec::new();
    let mut j: usize = 0;
    while j < nc
        invariant
            j <= nc,
            ints(lo@) == Seq::new(j as nat, |i: int| 3int),
            ints(hi@) == Seq::new(j as nat, |i: int| 3int),
        decreases nc - j,
    {
        let ghost l0 = lo@;
        let ghost h0 = hi@;
        lo.push(3);
        hi.push(3);
        assert(ints(lo@) =~= ints(l0).push(3));
        assert(ints(hi@) =~= ints(h0).push(3));
        assert(ints(lo@) =~= Seq::new((j + 1) as nat, |i: int| 3int));
        assert(ints(hi@) =~= Seq::new((j + 1) as nat, |i: int| 3int));
        j += 1;
    }
    let mut r: usize = 0;
    while r < grid.num_rows
        invariant
            grid_ok(*grid),
            nc == grid.num_cols,
            cv == cells_view(grid.cells@),
            r <= grid.num_rows,
            lo@.len() == nc,
            hi@.len() == nc,
            (ints(lo@), ints(hi@)) == count_rows(cv, nc as int, r as int),
        decreases grid.num_rows - r,
    {
        let row = &grid.cells[r];
        assert(cv[r as int] == cell_row_view(row@));
        let ghost b0 = (ints(lo@), ints(hi@));
        let mut c: usize = 0;
        while c < row.len()
            invariant
                c <= row@.len(),
                row@.len() == nc,
                lo@.len() == nc,
                hi@.len() == nc,
                (ints(lo@), ints(hi@)) == count_row(b0, cell_row_view(row@), c as int),
            cells_ok(cv),
            r < cv.len(),
            cv[r as int] == cell_row_view(row@),
            decreases row@.len() - c,
        {
            assert(pos_ok(cv[r as int][c as int], r as int, c as int));
            match &row[c] {
                CellEntry::Origin { tokens, colspan, .. } => {
                    let (lw, tw) = cell_widths_exec(tokens);
                    let a: usize = if *colspan == 1 { lw } else { lw / *colspan };
                    let b: usize = if *colspan == 1 { tw } else { tw / *colspan };
                    let a3 = if a >= 3 { a } else { 3 };
                    let b3 = if b >= 3 { b } else { 3 };
                    raise_exec(&mut lo, c, *colspan, a3);
                    raise_exec(&mut hi, c, *colspan, b3);
                },
                CellEntry::Covered { .. } => {},
            }
            c += 1;
        }
        r += 1;
    }
    (lo, hi)
}


proof fn lemma_place_cell_inv(g: GridV, r: int, c0: int, cell: CellInfo)
    requires
        grid_inv(g),
        0 <= r < g.len(),
        0 <= c0,
        cell.1 >= 1,
        cell.2 >= 1,
        place_cell(g, r, c0, cell) is Some,
    ensures
        grid_inv(place_cell(g, r, c0, cell).unwrap().0),
        place_cell(g, r, c0, cell).unwrap().0.len() >= g.len(),
{
    lemma_first_free_ge(g[r], c0);
    let c = first_free(g[r], c0);
    let (toks, cs, rs, h) = cell;
    let g2 = widened(g, r, c, rs, cs);
    let e = CellV::Origin { tokens: toks, colspan: cs, rowspan: rs, is_header: h };
    let g3 = written(g2, r, c, rs, cs, e, rs, 0);
    let g1 = grow_rows(g, r + rs);
    assert forall|x: int, y: int| 0 <= x < g2.len() && 0 <= y < g2[x].len() && (#[trigger] g2[x][y]) is Some implies pos_ok(g2[x][y]->0, x, y) by {
        assert(x < g.len());
        if r <= x < r + rs {
            assert(y < g1[x].len());
        }
        assert(g2[x][y] == g[x][y]);
    }
    assert forall|x: int, y: int| 0 <= x < g3.len() && 0 <= y < g3[x].len() && (#[trigger] g3[x][y]) is Some implies pos_ok(g3[x][y]->0, x, y) by {
    }
}

proof fn lemma_place_cells_inv(g: GridV, d: HtmlDom, cells: Seq<usize>, n: int, r: int, show: bool)
    requires
        grid_inv(g),
        0 <= r < g.len(),
        place_cells(g, d, cells, n, r, show) is Some,
    ensures
        grid_inv(place_cells(g, d, cells, n, r, show).unwrap().0),
        place_cells(g, d, cells, n, r, show).unwrap().0.len() >= g.len(),
        place_cells(g, d, cells, n, r, show).unwrap().1 >= 0,
    decreases n,
{
    if n <= 0 || n > cells.len() {
    } else {
        lemma_place_cells_inv(g, d, cells, n - 1, r, show);
        let (g1, c) = place_cells(g, d, cells, n - 1, r, show)->0;
        let info = cell_info(d, cells[n - 1] as int, show);
        assert(info.1 >= 1 && info.2 >= 1);
        lemma_place_cell_inv(g1, r, c, info);
        lemma_first_free_ge(g1[r], c);
    }
}

proof fn lemma_place_rows_inv(d: HtmlDom, rows: Seq<usize>, n: int, show: bool)
    requires
        place_rows(d, rows, n, show) is Some,
    ensures
        grid_inv(place_rows(d, rows, n, show)->0),
        n <= rows.len() ==> place_rows(d, rows, n, show)->0.len() >= n,
    decreases n,
{
    if n <= 0 || n > rows.len() {
    } else {
        lemma_place_rows_inv(d, rows, n - 1, show);
        let g = place_rows(d, rows, n - 1, show)->0;
        let g1 = grow_rows(g, n);
        assert forall|x: int, y: int| 0 <= x < g1.len() && 0 <= y < g1[x].len() && (#[trigger] g1[x][y]) is Some implies pos_ok(g1[x][y]->0, x, y) by {
            assert(x < g.len());
        }
        let cells = row_cells(d, rows[n - 1] as int);
        lemma_place_cells_inv(g1, d, cells, cells.len() as int, n - 1, show);
    }
}

proof fn lemma_finished_ok(g: GridV, nc: int)
    requires
        grid_inv(g),
        0 <= nc <= usize::MAX,
        g.len() <= usize::MAX,
    ensures
        cells_ok(finished(g, nc)),
{
    let f = finished(g, nc);
    assert forall|x: int, y: int| 0 <= x < f.len() && 0 <= y < f[x].len() implies pos_ok(#[trigger] f[x][y], x, y) by {
        if y < g[x].len() && g[x][y] is Some {
        }
    }
}


/// The first `n` of `v` summed, the sum capped at `usize::MAX` at each step.
pub open spec fn sat_sum(v: Seq<int>, n: int) -> int
    decreases n,
{
    if n <= 0 {
        0
    } else {
        sat(sat_sum(v, n - 1) + v[n - 1])
    }
}

/// `v[a..b]` summed, capped at `usize::MAX` at each step.
pub open spec fn sat_range(v: Seq<int>, a: int, b: int) -> int
    decreases b - a,
{
    if b <= a {
        0
    } else {
        sat(sat_range(v, a, b - 1) + v[b - 1])
    }
}

/// `m / t` of `a`, rounded to the nearest whole number (halves up).
pub open spec fn proportional(m: int, t: int, a: int) -> int {
    (m * a) / t + (if 2 * ((m * a) % t) >= t { 1int } else { 0int })
}

/// Takes the excess `diff` off the first `i` columns, last column first,
/// none below 3.
pub open spec fn shrink_cols(w: Seq<int>, diff: int, i: int) -> Seq<int>
    decreases i,
{
    if i <= 0 {
        w
    } else {
        let j = i - 1;
        if w[j] > 3 {
            let sh = min_int(w[j] - 3, diff);
            shrink_cols(w.update(j, w[j] - sh), diff - sh, j)
        } else {
            shrink_cols(w, diff, j)
        }
    }
}

/// The room a table of `nc` columns has for text in `max_width` columns:
/// the width less the frame (`3 * nc + 1`), but at least 3 per column.
pub open spec fn table_room(nc: int, max_width: int) -> int {
    let overhead = sat(sat(3 * nc) + 1);
    max_int(if max_width > overhead { max_width - overhead } else { 0 }, sat(nc * 3))
}

/// The widths the columns get: their most where all fit; else shares of the
/// room in proportion to their most (no less than their least, up to 15,
/// and no less than 3), taken back from the last columns while they exceed
/// the room.
pub open spec fn allocate_widths(lo: Seq<int>, hi: Seq<int>, max_width: int) -> Seq<int> {
    let nc = hi.len() as int;
    let room = table_room(nc, max_width);
    let total = sat_sum(hi, nc);
    if total <= room {
        Seq::new(nc as nat, |i: int| max_int(hi[i], 3))
    } else {
        let w0 = Seq::new(
            nc as nat,
            |i: int| max_int(max_int(sat(proportional(hi[i], total, room)), min_int(lo[i], 15)), 3),
        );
        let alloc = sat_sum(w0, nc);
        if alloc > room {
            shrink_cols(w0, alloc - room, nc)
        } else {
            w0
        }
    }
}

/// The width a cell spanning `cs` columns from column `c` has: their widths
/// and the frame between them.
pub open spec fn span_width(w: Seq<int>, c: int, cs: int) -> int {
    sat(sat_range(w, c, min_int(c + cs, w.len() as int)) + sat((cs - 1) * 3))
}

fn sat_add(a: usize, b: usize) -> (r: usize)
    ensures
        r as int == sat(a + b),
{
    a.saturating_add(b)
}

fn sat_sum_exec(v: &Vec<usize>) -> (r: usize)
    ensures
        r as int == sat_sum(ints(v@), v@.len() as int),
{
    let mut t: usize = 0;
    let mut i: usize = 0;
    while i < v.len()
        invariant
            i <= v.len(),
            t as int == sat_sum(ints(v@), i as int),
        decreases v.len() - i,
    {
        t = sat_add(t, v[i]);
        i += 1;
    }
    t
}

fn proportional_exec(m: usize, t: usize, a: usize) -> (r: usize)
    requires
        t > 0,
    ensures
        r as int == sat(proportional(m as int, t as int, a as int)),
{
    assert((m as int) * (a as int) <= u128::MAX) by (nonlinear_arith)
        requires
            m <= 0xffff_ffff_ffff_ffffu64 as int,
            a <= 0xffff_ffff_ffff_ffffu64 as int,
    ;
    let p: u128 = (m as u128) * (a as u128);
    assert(p == m * a);
    let q = p / (t as u128);
    let rem = p % (t as u128);
    let up: u128 = if rem >= (t as u128) - rem { 1 } else { 0 };
    assert(q <= p) by (nonlinear_arith)
        requires
            q == p / (t as u128),
            t > 0,
    ;
    let v = if q >= u128::MAX { u128::MAX } else { q + up };
    assert(q < u128::MAX) by (nonlinear_arith)
        requires
            q <= p,
            p == m * a,
            m <= usize::MAX,
            a <= usize::MAX,
    ;
    if v > usize::MAX as u128 {
        usize::MAX
    } else {
        v as usize
    }
}

/// The widths the columns of a table get in `max_width` columns, from their
/// least (`lo`) and most (`hi`) widths.
pub fn allocate_column_widths(lo: &Vec<usize>, hi: &Vec<usize>, max_width: usize) -> (r: Vec<usize>)
    requires
        lo@.len() == hi@.len(),
    ensures
        ints(r@) == allocate_widths(ints(lo@), ints(hi@), max_width as int),
        r@.len() == hi@.len(),
{
    let nc = hi.len();
    let ghost lov = ints(lo@);
    let ghost hiv = ints(hi@);
    let three_nc = match nc.checked_mul(3) {
        Some(x) => x,
        None => usize::MAX,
    };
    let overhead = sat_add(three_nc, 1);
    let room0 = if max_width > overhead { max_width - overhead } else { 0 };
    let room = if room0 >= three_nc { room0 } else { three_nc };
    assert(room as int == table_room(nc as int, max_width as int));
    let total = sat_sum_exec(hi);
    let mut w: Vec<usize> = Vec::new();
    if total <= room {
        let mut i: usize = 0;
        while i < nc
            invariant
                i <= nc,
                nc == hi@.len(),
                hiv == ints(hi@),
                ints(w@) == Seq::new(i as nat, |j: int| max_int(hiv[j], 3)),
            decreases nc - i,
        {
            let ghost before = w@;
            let x = if hi[i] >= 3 { hi[i] } else { 3 };
            w.push(x);
            assert(ints(w@) =~= ints(before).push(x as int));
            assert(ints(w@) =~= Seq::new((i + 1) as nat, |j: int| max_int(hiv[j], 3)));
            i += 1;
        }
        return w;
    }
    let ghost w0 = Seq::new(
        nc as nat,
        |i: int| max_int(max_int(sat(proportional(hiv[i], total as int, room as int)), min_int(lov[i], 15)), 3),
    );
    let mut i: usize = 0;
    while i < nc
        invariant
            i <= nc,
            nc == hi@.len(),
            nc == lo@.len(),
            hiv == ints(hi@),
            lov == ints(lo@),
            total > room,
            w0 == Seq::new(
                nc as nat,
                |i: int| max_int(max_int(sat(proportional(hiv[i], total as int, room as int)), min_int(lov[i], 15)), 3),
            ),
            ints(w@) == w0.take(i as int),
        decreases nc - i,
    {
        let p = proportional_exec(hi[i], total, room);
        let l15 = if lo[i] <= 15 { lo[i] } else { 15 };
        let a = if p >= l15 { p } else { l15 };
        let b = if a >= 3 { a } else { 3 };
        let ghost before = w@;
        w.push(b);
        assert(ints(w@) =~= ints(before).push(b as int));
        assert(ints(w@) =~= w0.take(i + 1));
        i += 1;
    }
    assert(w0.take(nc as int) =~= w0);
    let alloc = sat_sum_exec(&w);
    if alloc > room {
        let mut diff = alloc - room;
        let mut j = nc;
        while j > 0
            invariant
                j <= nc,
                w@.len() == nc,
                shrink_cols(ints(w@), diff as int, j as int) == shrink_cols(w0, alloc - room, nc as int),
            decreases j,
        {
            let k = j - 1;
            if w[k] > 3 {
                let avail = w[k] - 3;
                let sh = if avail <= diff { avail } else { diff };
                let ghost before = ints(w@);
                w[k] = w[k] - sh;
                assert(ints(w@) =~= before.update(k as int, before[k as int] - sh));
                diff = diff - sh;
            }
            j -= 1;
        }
    }
    w
}

fn span_width_exec(w: &Vec<usize>, c: usize, cs: usize) -> (r: usize)
    requires
        cs >= 1,
    ensures
        r as int == span_width(ints(w@), c as int, cs as int),
{
    let n = w.len();
    let end: usize = if c >= n { c } else if cs > n - c { n } else { c + cs };
    assert(min_int(c + cs, n as int) <= c ==> end as int <= c);
    let mut t: usize = 0;
    let mut i = c;
    while i < end
        invariant
            c <= i <= end,
            end <= n || end == c,
            n == w@.len(),
            t as int == sat_range(ints(w@), c as int, i as int),
        decreases end - i,
    {
        t = sat_add(t, w[i]);
        i += 1;
    }
    proof {
        if end == c && min_int(c + cs, n as int) < c {
            lemma_sat_range_empty(ints(w@), c as int, min_int(c + cs, n as int));
        }
    }
    let extra = match (cs - 1).checked_mul(3) {
        Some(x) => x,
        None => usize::MAX,
    };
    sat_add(t, extra)
}

proof fn lemma_sat_range_empty(v: Seq<int>, a: int, b: int)
    requires
        b <= a,
    ensures
        sat_range(v, a, b) == 0,
{
}


// ---------------------------------------------------------------------------
// Row heights and the content of each position
// ---------------------------------------------------------------------------

/// Lines and links of a cell as plain values.
pub type CellLayout = (Seq<Seq<Seq<char>>>, Seq<(Seq<char>, Seq<char>, Seq<(usize, usize)>)>);

/// The layout of the position `(r, c)`: an origin's tokens laid out in the
/// width of its span; nothing for a covered position.
pub open spec fn origin_wrap(cells: Seq<Seq<CellV>>, w: Seq<int>, r: int, c: int) -> CellLayout {
    match cells[r][c] {
        CellV::Origin { tokens, colspan, .. } => cell_wrap(tokens, span_width(w, c, colspan) as nat),
        _ => (Seq::empty(), Seq::empty()),
    }
}

/// The layouts of all positions.
pub open spec fn all_wraps(cells: Seq<Seq<CellV>>, w: Seq<int>) -> Seq<Seq<CellLayout>> {
    Seq::new(cells.len(), |r: int| Seq::new(cells[r].len(), |c: int| origin_wrap(cells, w, r, c)))
}

/// The height of row `r` from its first `n` positions before spans are
/// fitted: its tallest one-row cell, at least 1.
pub open spec fn base_height(cells: Seq<Seq<CellV>>, w: Seq<int>, r: int, n: int) -> int
    decreases n,
{
    if n <= 0 {
        1
    } else {
        let h = base_height(cells, w, r, n - 1);
        match cells[r][n - 1] {
            CellV::Origin { rowspan, .. } => if rowspan == 1 {
                max_int(h, origin_wrap(cells, w, r, n - 1).0.len() as int)
            } else {
                h
            },
            _ => h,
        }
    }
}

/// Heights after a cell spanning rows gets room: when its lines need more
/// than the rows it spans have, the last of those rows grows by the
/// difference.
pub open spec fn stretch_cell(h: Seq<int>, cells: Seq<Seq<CellV>>, w: Seq<int>, r: int, c: int) -> Seq<int> {
    match cells[r][c] {
        CellV::Origin { rowspan, .. } => if rowspan > 1 {
            let needed = origin_wrap(cells, w, r, c).0.len() as int;
            let nr = h.len() as int;
            let cur = sat_range(h, r, min_int(r + rowspan, nr));
            if needed > cur {
                let end = min_int(r + rowspan - 1, nr - 1);
                h.update(end, sat(h[end] + needed - cur))
            } else {
                h
            }
        } else {
            h
        },
        _ => h,
    }
}

pub open spec fn stretch_row(h: Seq<int>, cells: Seq<Seq<CellV>>, w: Seq<int>, r: int, n: int) -> Seq<int>
    decreases n,
{
    if n <= 0 {
        h
    } else {
        stretch_cell(stretch_row(h, cells, w, r, n - 1), cells, w, r, n - 1)
    }
}

pub open spec fn stretch_rows(h: Seq<int>, cells: Seq<Seq<CellV>>, w: Seq<int>, n: int) -> Seq<int>
    decreases n,
{
    if n <= 0 {
        h
    } else {
        let h1 = stretch_rows(h, cells, w, n - 1);
        stretch_row(h1, cells, w, n - 1, cells[n - 1].len() as int)
    }
}

/// The height of each row: its tallest one-row cell (at least 1), then
/// room for the cells spanning rows, in reading order.
pub open spec fn row_heights(cells: Seq<Seq<CellV>>, w: Seq<int>) -> Seq<int> {
    let h0 = Seq::new(cells.len(), |r: int| base_height(cells, w, r, cells[r].len() as int));
    stretch_rows(h0, cells, w, cells.len() as int)
}

/// A layout as plain values.
pub open spec fn layout_view(l: (Vec<Vec<String>>, Vec<Link>)) -> CellLayout {
    (lines_view(l.0@), links_view(l.1@))
}

/// A grid of layouts as plain values.
pub open spec fn layouts_view(g: Seq<Vec<(Vec<Vec<String>>, Vec<Link>)>>) -> Seq<Seq<CellLayout>> {
    g.map_values(|row: Vec<(Vec<Vec<String>>, Vec<Link>)>| row@.map_values(|l: (Vec<Vec<String>>, Vec<Link>)| layout_view(l)))
}

fn all_wraps_exec(grid: &TableGrid, w: &Vec<usize>) -> (r: Vec<Vec<(Vec<Vec<String>>, Vec<Link>)>>)
    requires
        grid_ok(*grid),
    ensures
        layouts_view(r@) == all_wraps(cells_view(grid.cells@), ints(w@)),
{
    let ghost cv = cells_view(grid.cells@);
    let ghost target = all_wraps(cv, ints(w@));
    let mut out: Vec<Vec<(Vec<Vec<String>>, Vec<Link>)>> = Vec::new();
    let mut r: usize = 0;
    while r < grid.cells.len()
        invariant
            r <= grid.cells@.len(),
            grid_ok(*grid),
            cv == cells_view(grid.cells@),
            target == all_wraps(cv, ints(w@)),
            layouts_view(out@) == target.take(r as int),
        decreases grid.cells@.len() - r,
    {
        let row = &grid.cells[r];
        assert(cv[r as int] == cell_row_view(row@));
        let mut lay: Vec<(Vec<Vec<String>>, Vec<Link>)> = Vec::new();
        let mut c: usize = 0;
        while c < row.len()
            invariant
                c <= row@.len(),
                grid_ok(*grid),
                r < cv.len(),
                cv == cells_view(grid.cells@),
                cv[r as int] == cell_row_view(row@),
                target == all_wraps(cv, ints(w@)),
                lay@.map_values(|l: (Vec<Vec<String>>, Vec<Link>)| layout_view(l)) == target[r as int].take(c as int),
            decreases row@.len() - c,
        {
            assert(pos_ok(cv[r as int][c as int], r as int, c as int));
            let item = match &row[c] {
                CellEntry::Origin { tokens, colspan, .. } => {
                    let sw = span_width_exec(w, c, *colspan);
                    wrap_cell_tokens(tokens, sw)
                },
                CellEntry::Covered { .. } => {
                    let a: Vec<Vec<String>> = Vec::new();
                    let b: Vec<Link> = Vec::new();
                    assert(lines_view(a@) =~= Seq::<Seq<Seq<char>>>::empty());
                    assert(links_view(b@) =~= Seq::<(Seq<char>, Seq<char>, Seq<(usize, usize)>)>::empty());
                    (a, b)
                },
            };
            assert(layout_view(item) == origin_wrap(cv, ints(w@), r as int, c as int));
            let ghost before = lay@;
            lay.push(item);
            assert(lay@.map_values(|l: (Vec<Vec<String>>, Vec<Link>)| layout_view(l)) =~= before.map_values(
                |l: (Vec<Vec<String>>, Vec<Link>)| layout_view(l),
            ).push(layout_view(item)));
            assert(lay@.map_values(|l: (Vec<Vec<String>>, Vec<Link>)| layout_view(l)) =~= target[r as int].take(c + 1));
            c += 1;
        }
        assert(target[r as int].take(row@.len() as int) =~= target[r as int]);
        let ghost before = out@;
        out.push(lay);
        assert(layouts_view(out@) =~= layouts_view(before).push(target[r as int]));
        assert(layouts_view(out@) =~= target.take(r + 1));
        r += 1;
    }
    assert(target.take(grid.cells@.len() as int) =~= target);
    out
}


proof fn lemma_layouts_shape(g: Seq<Vec<(Vec<Vec<String>>, Vec<Link>)>>, t: Seq<Seq<CellLayout>>)
    requires
        layouts_view(g) == t,
    ensures
        g.len() == t.len(),
        forall|r: int| 0 <= r < g.len() ==> (#[trigger] g[r])@.len() == t[r].len(),
        forall|r: int, c: int| 0 <= r < g.len() && 0 <= c < g[r]@.len() ==> #[trigger] layout_view(g[r]@[c]) == t[r][c],
{
    assert forall|r: int| 0 <= r < g.len() implies (#[trigger] g[r])@.len() == t[r].len() by {
        assert(layouts_view(g)[r] == g[r]@.map_values(|l: (Vec<Vec<String>>, Vec<Link>)| layout_view(l)));
    }
    assert forall|r: int, c: int| 0 <= r < g.len() && 0 <= c < g[r]@.len() implies #[trigger] layout_view(g[r]@[c]) == t[r][c] by {
        assert(layouts_view(g)[r] == g[r]@.map_values(|l: (Vec<Vec<String>>, Vec<Link>)| layout_view(l)));
    }
}

fn sat_range_exec(v: &Vec<usize>, a: usize, b: usize) -> (r: usize)
    requires
        b <= v@.len(),
    ensures
        r as int == sat_range(ints(v@), a as int, b as int),
{
    let mut t: usize = 0;
    if b <= a {
        return 0;
    }
    let mut i = a;
    while i < b
        invariant
            a <= i <= b,
            b <= v@.len(),
            t as int == sat_range(ints(v@), a as int, i as int),
        decreases b - i,
    {
        t = sat_add(t, v[i]);
        i += 1;
    }
    t
}

/// The heights of the rows of a grid whose columns have widths `w`, given
/// the layouts of its positions.
fn row_heights_exec(
    grid: &TableGrid,
    w: &Vec<usize>,
    wraps: &Vec<Vec<(Vec<Vec<String>>, Vec<Link>)>>,
) -> (r: Vec<usize>)
    requires
        grid_ok(*grid),
        layouts_view(wraps@) == all_wraps(cells_view(grid.cells@), ints(w@)),
    ensures
        ints(r@) == row_heights(cells_view(grid.cells@), ints(w@)),
        r@.len() == grid.num_rows,
{
    let ghost cv = cells_view(grid.cells@);
    let ghost wv = ints(w@);
    let nr = grid.num_rows;
    let ghost h0 = Seq::new(cv.len(), |r: int| base_height(cv, wv, r, cv[r].len() as int));
    proof {
        lemma_layouts_shape(wraps@, all_wraps(cv, wv));
    }
    let mut h: Vec<usize> = Vec::new();
    let mut r: usize = 0;
    while r < nr
        invariant
            r <= nr,
            nr == grid.num_rows,
            grid_ok(*grid),
            cv == cells_view(grid.cells@),
            wv == ints(w@),
            layouts_view(wraps@) == all_wraps(cv, wv),
            wraps@.len() == cv.len(),
            forall|r: int| 0 <= r < wraps@.len() ==> (#[trigger] wraps@[r])@.len() == cv[r].len(),
            forall|r: int, c: int| 0 <= r < wraps@.len() && 0 <= c < wraps@[r]@.len() ==> #[trigger] layout_view(wraps@[r]@[c]) == all_wraps(cv, wv)[r][c],
            h0 == Seq::new(cv.len(), |r: int| base_height(cv, wv, r, cv[r].len() as int)),
            ints(h@) == h0.take(r as int),
        decreases nr - r,
    {
        let row = &grid.cells[r];
        assert(cv[r as int] == cell_row_view(row@));
        assert(layouts_view(wraps@)[r as int] == all_wraps(cv, wv)[r as int]);
        let mut best: usize = 1;
        let mut c: usize = 0;
        while c < row.len()
            invariant
                c <= row@.len(),
                grid_ok(*grid),
                r < cv.len(),
                r < wraps@.len(),
                cv == cells_view(grid.cells@),
                cv[r as int] == cell_row_view(row@),
                layouts_view(wraps@) == all_wraps(cv, wv),
                wraps@.len() == cv.len(),
                wraps@[r as int]@.len() == cv[r as int].len(),
                forall|r: int, c: int| 0 <= r < wraps@.len() && 0 <= c < wraps@[r]@.len() ==> #[trigger] layout_view(wraps@[r]@[c]) == all_wraps(cv, wv)[r][c],
                best as int == base_height(cv, wv, r as int, c as int),
            decreases row@.len() - c,
        {
            match &row[c] {
                CellEntry::Origin { rowspan, .. } => {
                    if *rowspan == 1 {
                        assert(cv[r as int].len() == row@.len());
                        let n = wraps[r][c].0.len();
                        assert(layout_view(wraps@[r as int]@[c as int]) == all_wraps(cv, wv)[r as int][c as int]);
                        assert(n as int == origin_wrap(cv, wv, r as int, c as int).0.len());
                        if n > best {
                            best = n;
                        }
                    }
                },
                CellEntry::Covered { .. } => {},
            }
            c += 1;
        }
        let ghost before = h@;
        h.push(best);
        assert(ints(h@) =~= ints(before).push(best as int));
        assert(ints(h@) =~= h0.take(r + 1));
        r += 1;
    }
    assert(h0.take(nr as int) =~= h0);
    let mut r: usize = 0;
    while r < nr
        invariant
            r <= nr,
            nr == grid.num_rows,
            grid_ok(*grid),
            cv == cells_view(grid.cells@),
            wv == ints(w@),
            layouts_view(wraps@) == all_wraps(cv, wv),
            wraps@.len() == cv.len(),
            forall|r: int| 0 <= r < wraps@.len() ==> (#[trigger] wraps@[r])@.len() == cv[r].len(),
            forall|r: int, c: int| 0 <= r < wraps@.len() && 0 <= c < wraps@[r]@.len() ==> #[trigger] layout_view(wraps@[r]@[c]) == all_wraps(cv, wv)[r][c],
            h@.len() == nr,
            ints(h@) == stretch_rows(h0, cv, wv, r as int),
        decreases nr - r,
    {
        let row = &grid.cells[r];
        assert(cv[r as int] == cell_row_view(row@));
        let ghost hr = ints(h@);
        let mut c: usize = 0;
        while c < row.len()
            invariant
                c <= row@.len(),
                grid_ok(*grid),
                r < nr,
                nr == cv.len(),
                h@.len() == nr,
                r < wraps@.len(),
                cv == cells_view(grid.cells@),
                cv[r as int] == cell_row_view(row@),
                layouts_view(wraps@) == all_wraps(cv, wv),
                wraps@.len() == cv.len(),
                wraps@[r as int]@.len() == cv[r as int].len(),
                forall|r: int, c: int| 0 <= r < wraps@.len() && 0 <= c < wraps@[r]@.len() ==> #[trigger] layout_view(wraps@[r]@[c]) == all_wraps(cv, wv)[r][c],
                ints(h@) == stretch_row(hr, cv, wv, r as int, c as int),
            decreases row@.len() - c,
        {
            assert(pos_ok(cv[r as int][c as int], r as int, c as int));
            match &row[c] {
                CellEntry::Origin { rowspan, .. } => {
                    if *rowspan > 1 {
                        assert(cv[r as int].len() == row@.len());
                        let needed = wraps[r][c].0.len();
                        assert(layout_view(wraps@[r as int]@[c as int]) == all_wraps(cv, wv)[r as int][c as int]);
                        assert(needed as int == origin_wrap(cv, wv, r as int, c as int).0.len());
                        let stop = if *rowspan > nr - r { nr } else { r + *rowspan };
                        let cur = sat_range_exec(&h, r, stop);
                        if needed > cur {
                            let end = if r + *rowspan - 1 <= nr - 1 { r + *rowspan - 1 } else { nr - 1 };
                            let ghost before = ints(h@);
                            let v = sat_add(h[end], needed - cur);
                            h[end] = v;
                            assert(ints(h@) =~= before.update(end as int, v as int));
                        }
                    }
                },
                CellEntry::Covered { .. } => {},
            }
            c += 1;
        }
        r += 1;
    }
    h
}


/// The slot that local line `l` of row `r + dr` is for a cell spanning from
/// row `r`.
pub open spec fn slot_of(h: Seq<int>, r: int, dr: int, l: int) -> int {
    sat(sat_range(h, r, r + dr) + l)
}

/// The lines of row `r + dr` of a cell spanning from row `r` whose lines
/// start at slot `top`: each slot shows the cell's line for it, if any.
pub open spec fn chunk_lines(lay: CellLayout, h: Seq<int>, r: int, dr: int, top: int) -> Seq<Seq<Seq<char>>> {
    Seq::new(
        h[r + dr] as nat,
        |l: int|
            {
                let s = slot_of(h, r, dr, l);
                if top <= s && s - top < lay.0.len() {
                    lay.0[s - top]
                } else {
                    Seq::empty()
                }
            },
    )
}

/// The first `n` positions among `coords` on cell line `idx`, moved to
/// local line `l`.
pub open spec fn coords_on(coords: Seq<(usize, usize)>, idx: int, l: int, n: int) -> Seq<(usize, usize)>
    decreases n,
{
    if n <= 0 {
        Seq::empty()
    } else if coords[n - 1].0 == idx {
        coords_on(coords, idx, l, n - 1).push((l as usize, coords[n - 1].1))
    } else {
        coords_on(coords, idx, l, n - 1)
    }
}

/// The first `n` links with pieces on cell line `idx`, those pieces moved to
/// local line `l`.
pub open spec fn links_on(links: Seq<(Seq<char>, Seq<char>, Seq<(usize, usize)>)>, idx: int, l: int, n: int) -> Seq<(Seq<char>, Seq<char>, Seq<(usize, usize)>)>
    decreases n,
{
    if n <= 0 {
        Seq::empty()
    } else {
        let prev = links_on(links, idx, l, n - 1);
        let m = coords_on(links[n - 1].2, idx, l, links[n - 1].2.len() as int);
        if m.len() > 0 {
            prev.push((links[n - 1].0, links[n - 1].1, m))
        } else {
            prev
        }
    }
}

/// The links of the first `n` local lines of row `r + dr` of a spanning
/// cell.
pub open spec fn chunk_links(lay: CellLayout, h: Seq<int>, r: int, dr: int, top: int, n: int) -> Seq<(Seq<char>, Seq<char>, Seq<(usize, usize)>)>
    decreases n,
{
    if n <= 0 {
        Seq::empty()
    } else {
        let prev = chunk_links(lay, h, r, dr, top, n - 1);
        let s = slot_of(h, r, dr, n - 1);
        if top <= s && s - top < lay.0.len() {
            prev + links_on(lay.1, s - top, n - 1, lay.1.len() as int)
        } else {
            prev
        }
    }
}

/// The contents after the cell at `(r, c)` is put in place: a one-row cell
/// at its position; a cell spanning rows spread over them, centred.
pub open spec fn place_content(rd: Seq<Seq<CellLayout>>, cells: Seq<Seq<CellV>>, w: Seq<int>, h: Seq<int>, r: int, c: int) -> Seq<Seq<CellLayout>> {
    match cells[r][c] {
        CellV::Origin { rowspan, .. } => {
            let lay = origin_wrap(cells, w, r, c);
            if rowspan == 1 {
                rd.update(r, rd[r].update(c, lay))
            } else {
                let stop = min_int(r + rowspan, h.len() as int);
                let total = sat_range(h, r, stop);
                let top = (if total > lay.0.len() { total - lay.0.len() } else { 0 }) / 2;
                Seq::new(
                    rd.len(),
                    |x: int|
                        if r <= x < stop {
                            rd[x].update(c, (chunk_lines(lay, h, r, x - r, top), chunk_links(lay, h, r, x - r, top, h[x])))
                        } else {
                            rd[x]
                        },
                )
            }
        },
        _ => rd,
    }
}

pub open spec fn content_row(rd: Seq<Seq<CellLayout>>, cells: Seq<Seq<CellV>>, w: Seq<int>, h: Seq<int>, r: int, n: int) -> Seq<Seq<CellLayout>>
    decreases n,
{
    if n <= 0 {
        rd
    } else {
        place_content(content_row(rd, cells, w, h, r, n - 1), cells, w, h, r, n - 1)
    }
}

pub open spec fn content_rows(rd: Seq<Seq<CellLayout>>, cells: Seq<Seq<CellV>>, w: Seq<int>, h: Seq<int>, n: int) -> Seq<Seq<CellLayout>>
    decreases n,
{
    if n <= 0 {
        rd
    } else {
        let rd1 = content_rows(rd, cells, w, h, n - 1);
        content_row(rd1, cells, w, h, n - 1, cells[n - 1].len() as int)
    }
}

/// What each position of the table shows, line by line.
pub open spec fn cell_contents(cells: Seq<Seq<CellV>>, w: Seq<int>, h: Seq<int>) -> Seq<Seq<CellLayout>> {
    let rd0 = Seq::new(cells.len(), |x: int| Seq::new(cells[x].len(), |y: int| (Seq::<Seq<Seq<char>>>::empty(), Seq::<(Seq<char>, Seq<char>, Seq<(usize, usize)>)>::empty())));
    content_rows(rd0, cells, w, h, cells.len() as int)
}

fn copy_line(l: &Vec<String>) -> (r: Vec<String>)
    ensures
        line_view(r) == line_view(*l),
{
    let mut out: Vec<String> = Vec::new();
    let mut k: usize = 0;
    while k < l.len()
        invariant
            k <= l.len(),
            line_view(out) == line_view(*l).take(k as int),
        decreases l.len() - k,
    {
        let ghost before = out@;
        let x = l[k].clone();
        assert(x@ == l@[k as int]@);
        out.push(x);
        assert(strs_view(out@) =~= strs_view(before).push(x@));
        assert(line_view(*l).take(k + 1) =~= line_view(*l).take(k as int).push(l@[k as int]@));
        assert(line_view(out) =~= line_view(*l).take(k + 1));
        k += 1;
    }
    assert(line_view(*l).take(l.len() as int) =~= line_view(*l));
    out
}

fn copy_lines(ls: &Vec<Vec<String>>) -> (r: Vec<Vec<String>>)
    ensures
        lines_view(r@) == lines_view(ls@),
{
    let mut out: Vec<Vec<String>> = Vec::new();
    let mut k: usize = 0;
    while k < ls.len()
        invariant
            k <= ls.len(),
            lines_view(out@) == lines_view(ls@).take(k as int),
        decreases ls.len() - k,
    {
        let c = copy_line(&ls[k]);
        let ghost before = out@;
        out.push(c);
        assert(lines_view(out@) =~= lines_view(before).push(line_view(c)));
        assert(lines_view(out@) =~= lines_view(ls@).take(k + 1));
        k += 1;
    }
    assert(lines_view(ls@).take(ls.len() as int) =~= lines_view(ls@));
    out
}

fn copy_links(ls: &Vec<Link>) -> (r: Vec<Link>)
    ensures
        links_view(r@) == links_view(ls@),
{
    let mut out: Vec<Link> = Vec::new();
    let mut k: usize = 0;
    while k < ls.len()
        invariant
            k <= ls.len(),
            links_view(out@) == links_view(ls@).take(k as int),
        decreases ls.len() - k,
    {
        let c = super::document::copy_link(&ls[k]);
        let ghost before = out@;
        out.push(c);
        assert(links_view(out@) =~= links_view(before).push(link_view(c)));
        assert(links_view(out@) =~= links_view(ls@).take(k + 1));
        k += 1;
    }
    assert(links_view(ls@).take(ls.len() as int) =~= links_view(ls@));
    out
}

/// Adds the links with pieces on cell line `idx`, moved to local line `l`.
fn push_links_on(links: &Vec<Link>, idx: usize, l: usize, out: &mut Vec<Link>)
    ensures
        links_view(final(out)@) == links_view(old(out)@) + links_on(links_view(links@), idx as int, l as int, links@.len() as int),
{
    let ghost lv = links_view(links@);
    let ghost start = links_view(out@);
    let mut k: usize = 0;
    assert(start + links_on(lv, idx as int, l as int, 0) =~= start);
    while k < links.len()
        invariant
            k <= links.len(),
            lv == links_view(links@),
            links_view(out@) == start + links_on(lv, idx as int, l as int, k as int),
        decreases links.len() - k,
    {
        let lk = &links[k];
        assert(lv[k as int] == link_view(*lk));
        let mut m: Vec<(usize, usize)> = Vec::new();
        let mut j: usize = 0;
        while j < lk.span_indices.len()
            invariant
                j <= lk.span_indices.len(),
                m@ == coords_on(lk.span_indices@, idx as int, l as int, j as int),
            decreases lk.span_indices.len() - j,
        {
            let (a, b) = lk.span_indices[j];
            if a == idx {
                m.push((l, b));
            }
            j += 1;
        }
        if m.len() > 0 {
            let nl = Link { title: lk.title.clone(), text: lk.text.clone(), span_indices: m };
            let ghost before = out@;
            out.push(nl);
            assert(links_view(out@) =~= links_view(before).push(link_view(nl)));
        }
        assert(start + links_on(lv, idx as int, l as int, k + 1) =~= links_view(out@));
        k += 1;
    }
}

proof fn lemma_set_layout_row(g: Seq<Vec<(Vec<Vec<String>>, Vec<Link>)>>, x: int, row: Vec<(Vec<Vec<String>>, Vec<Link>)>)
    requires
        0 <= x < g.len(),
    ensures
        layouts_view(g.update(x, row)) == layouts_view(g).update(
            x,
            row@.map_values(|l: (Vec<Vec<String>>, Vec<Link>)| layout_view(l)),
        ),
{
    assert(layouts_view(g.update(x, row)) =~= layouts_view(g).update(
        x,
        row@.map_values(|l: (Vec<Vec<String>>, Vec<Link>)| layout_view(l)),
    ));
}

/// Puts `v` at position `(x, y)`.
fn set_layout(rd: &mut Vec<Vec<(Vec<Vec<String>>, Vec<Link>)>>, x: usize, y: usize, v: (Vec<Vec<String>>, Vec<Link>))
    requires
        x < old(rd)@.len(),
        y < old(rd)@[x as int]@.len(),
    ensures
        layouts_view(final(rd)@) == layouts_view(old(rd)@).update(
            x as int,
            layouts_view(old(rd)@)[x as int].update(y as int, layout_view(v)),
        ),
        final(rd)@.len() == old(rd)@.len(),
        forall|i: int| 0 <= i < old(rd)@.len() ==> #[trigger] final(rd)@[i]@.len() == old(rd)@[i]@.len(),
{
    let ghost g0 = rd@;
    let ghost vv = layout_view(v);
    rd[x][y] = v;
    proof {
        let row = rd@[x as int];
        assert(row@ == g0[x as int]@.update(y as int, v));
        assert(row@.map_values(|l: (Vec<Vec<String>>, Vec<Link>)| layout_view(l)) =~= g0[x as int]@.map_values(
            |l: (Vec<Vec<String>>, Vec<Link>)| layout_view(l),
        ).update(y as int, vv));
        assert(rd@ == g0.update(x as int, row));
        lemma_set_layout_row(g0, x as int, row);
    }
}


/// The lines and links row `r + dr` shows of a cell spanning from row `r`.
fn chunk_exec(
    lay: &(Vec<Vec<String>>, Vec<Link>),
    h: &Vec<usize>,
    r: usize,
    dr: usize,
    top: usize,
    base: usize,
) -> (res: (Vec<Vec<String>>, Vec<Link>))
    requires
        r + dr < h.len(),
        base as int == sat_range(ints(h@), r as int, (r + dr) as int),
    ensures
        layout_view(res) == (
            chunk_lines(layout_view(*lay), ints(h@), r as int, dr as int, top as int),
            chunk_links(layout_view(*lay), ints(h@), r as int, dr as int, top as int, h@[(r + dr) as int] as int),
        ),
{
    let ghost lv = layout_view(*lay);
    let ghost hv = ints(h@);
    let x = r + dr;
    let n = h[x];
    let len = lay.0.len();
    let mut cl: Vec<Vec<String>> = Vec::new();
    let mut ck: Vec<Link> = Vec::new();
    let mut l: usize = 0;
    assert(lines_view(cl@) =~= chunk_lines(lv, hv, r as int, dr as int, top as int).take(0));
    assert(links_view(ck@) =~= chunk_links(lv, hv, r as int, dr as int, top as int, 0));
    while l < n
        invariant
            l <= n,
            n == h@[x as int],
            x == r + dr,
            x < h@.len(),
            len == lay.0@.len(),
            lv == layout_view(*lay),
            hv == ints(h@),
            base as int == sat_range(hv, r as int, x as int),
            lines_view(cl@) == chunk_lines(lv, hv, r as int, dr as int, top as int).take(l as int),
            links_view(ck@) == chunk_links(lv, hv, r as int, dr as int, top as int, l as int),
        decreases n - l,
    {
        let s = sat_add(base, l);
        assert(s as int == slot_of(hv, r as int, dr as int, l as int));
        let ghost before = cl@;
        if s >= top && s - top < len {
            let line = copy_line(&lay.0[s - top]);
            assert(lv.0[(s - top) as int] == line_view(lay.0@[(s - top) as int]));
            cl.push(line);
            assert(lines_view(cl@) =~= lines_view(before).push(line_view(line)));
            push_links_on(&lay.1, s - top, l, &mut ck);
        } else {
            let empty: Vec<String> = Vec::new();
            cl.push(empty);
            assert(line_view(empty) =~= Seq::<Seq<char>>::empty());
            assert(lines_view(cl@) =~= lines_view(before).push(line_view(empty)));
        }
        assert(lines_view(cl@) =~= chunk_lines(lv, hv, r as int, dr as int, top as int).take(l + 1));
        l += 1;
    }
    assert(chunk_lines(lv, hv, r as int, dr as int, top as int).take(n as int) =~= chunk_lines(lv, hv, r as int, dr as int, top as int));
    (cl, ck)
}

/// What each position of a table shows, given its column widths, row
/// heights and the layouts of its cells.
fn cell_contents_exec(
    grid: &TableGrid,
    w: &Vec<usize>,
    h: &Vec<usize>,
    wraps: &Vec<Vec<(Vec<Vec<String>>, Vec<Link>)>>,
) -> (res: Vec<Vec<(Vec<Vec<String>>, Vec<Link>)>>)
    requires
        grid_ok(*grid),
        layouts_view(wraps@) == all_wraps(cells_view(grid.cells@), ints(w@)),
        h@.len() == grid.num_rows,
    ensures
        layouts_view(res@) == cell_contents(cells_view(grid.cells@), ints(w@), ints(h@)),
        res@.len() == grid.num_rows,
        forall|i: int| 0 <= i < res@.len() ==> (#[trigger] res@[i])@.len() == grid.num_cols,
{
    let ghost cv = cells_view(grid.cells@);
    let ghost wv = ints(w@);
    let ghost hv = ints(h@);
    let nr = grid.num_rows;
    let nc = grid.num_cols;
    proof {
        lemma_layouts_shape(wraps@, all_wraps(cv, wv));
    }
    let ghost rd0 = Seq::new(cv.len(), |x: int| Seq::new(cv[x].len(), |y: int| (Seq::<Seq<Seq<char>>>::empty(), Seq::<(Seq<char>, Seq<char>, Seq<(usize, usize)>)>::empty())));
    let mut rd: Vec<Vec<(Vec<Vec<String>>, Vec<Link>)>> = Vec::new();
    let mut x: usize = 0;
    while x < nr
        invariant
            x <= nr,
            nr == grid.num_rows,
            nc == grid.num_cols,
            grid_ok(*grid),
            cv == cells_view(grid.cells@),
            cv.len() == nr,
            rd0 == Seq::new(cv.len(), |x: int| Seq::new(cv[x].len(), |y: int| (Seq::<Seq<Seq<char>>>::empty(), Seq::<(Seq<char>, Seq<char>, Seq<(usize, usize)>)>::empty()))),
            layouts_view(rd@) == rd0.take(x as int),
            rd@.len() == x,
            forall|i: int| 0 <= i < x ==> (#[trigger] rd@[i])@.len() == nc,
        decreases nr - x,
    {
        let mut row: Vec<(Vec<Vec<String>>, Vec<Link>)> = Vec::new();
        let mut y: usize = 0;
        assert(cv[x as int] == cell_row_view(grid.cells@[x as int]@));
        while y < nc
            invariant
                y <= nc,
                x < nr,
                nc == grid.num_cols,
                grid_ok(*grid),
                cv == cells_view(grid.cells@),
                cv[x as int].len() == nc,
                cv.len() == nr,
                rd0 == Seq::new(cv.len(), |x: int| Seq::new(cv[x].len(), |y: int| (Seq::<Seq<Seq<char>>>::empty(), Seq::<(Seq<char>, Seq<char>, Seq<(usize, usize)>)>::empty()))),
                row@.len() == y,
                row@.map_values(|l: (Vec<Vec<String>>, Vec<Link>)| layout_view(l)) == rd0[x as int].take(y as int),
            decreases nc - y,
        {
            let a: Vec<Vec<String>> = Vec::new();
            let b: Vec<Link> = Vec::new();
            assert(layout_view((a, b)) =~= (Seq::<Seq<Seq<char>>>::empty(), Seq::<(Seq<char>, Seq<char>, Seq<(usize, usize)>)>::empty()));
            let ghost before = row@;
            row.push((a, b));
            assert(row@.map_values(|l: (Vec<Vec<String>>, Vec<Link>)| layout_view(l)) =~= before.map_values(
                |l: (Vec<Vec<String>>, Vec<Link>)| layout_view(l),
            ).push(layout_view((a, b))));
            assert(row@.map_values(|l: (Vec<Vec<String>>, Vec<Link>)| layout_view(l)) =~= rd0[x as int].take(y + 1));
            y += 1;
        }
        assert(rd0[x as int].take(nc as int) =~= rd0[x as int]);
        let ghost before = rd@;
        rd.push(row);
        assert(layouts_view(rd@) =~= layouts_view(before).push(rd0[x as int]));
        assert(layouts_view(rd@) =~= rd0.take(x + 1));
        x += 1;
    }
    assert(rd0.take(nr as int) =~= rd0);
    let mut r: usize = 0;
    while r < nr
        invariant
            r <= nr,
            nr == grid.num_rows,
            nc == grid.num_cols,
            grid_ok(*grid),
            cv == cells_view(grid.cells@),
            wv == ints(w@),
            hv == ints(h@),
            h@.len() == nr,
            layouts_view(wraps@) == all_wraps(cv, wv),
            wraps@.len() == cv.len(),
            forall|r: int| 0 <= r < wraps@.len() ==> (#[trigger] wraps@[r])@.len() == cv[r].len(),
            forall|r: int, c: int| 0 <= r < wraps@.len() && 0 <= c < wraps@[r]@.len() ==> #[trigger] layout_view(wraps@[r]@[c]) == all_wraps(cv, wv)[r][c],
            rd@.len() == nr,
            forall|i: int| 0 <= i < nr ==> (#[trigger] rd@[i])@.len() == nc,
            layouts_view(rd@) == content_rows(rd0, cv, wv, hv, r as int),
        decreases nr - r,
    {
        let row = &grid.cells[r];
        assert(cv[r as int] == cell_row_view(row@));
        let ghost rdr = layouts_view(rd@);
        let mut c: usize = 0;
        while c < row.len()
            invariant
                c <= row@.len(),
                r < nr,
                nr == grid.num_rows,
                nc == grid.num_cols,
                row@.len() == nc,
                grid_ok(*grid),
                cv == cells_view(grid.cells@),
                cv[r as int] == cell_row_view(row@),
                wv == ints(w@),
                hv == ints(h@),
                h@.len() == nr,
                layouts_view(wraps@) == all_wraps(cv, wv),
                wraps@.len() == cv.len(),
                forall|r: int| 0 <= r < wraps@.len() ==> (#[trigger] wraps@[r])@.len() == cv[r].len(),
                forall|r: int, c: int| 0 <= r < wraps@.len() && 0 <= c < wraps@[r]@.len() ==> #[trigger] layout_view(wraps@[r]@[c]) == all_wraps(cv, wv)[r][c],
                rd@.len() == nr,
                forall|i: int| 0 <= i < nr ==> (#[trigger] rd@[i])@.len() == nc,
                layouts_view(rd@) == content_row(rdr, cv, wv, hv, r as int, c as int),
            decreases row@.len() - c,
        {
            assert(pos_ok(cv[r as int][c as int], r as int, c as int));
            assert(wraps@[r as int]@.len() == nc);
            let ghost lay = all_wraps(cv, wv)[r as int][c as int];
            match &row[c] {
                CellEntry::Origin { rowspan, .. } => {
                    let wr = &wraps[r][c];
                    assert(layout_view(*wr) == lay);
                    if *rowspan == 1 {
                        let item = (copy_lines(&wr.0), copy_links(&wr.1));
                        set_layout(&mut rd, r, c, item);
                    } else {
                        let stop = if *rowspan > nr - r { nr } else { r + *rowspan };
                        let total = sat_range_exec(h, r, stop);
                        let len = wr.0.len();
                        let top = (if total > len { total - len } else { 0 }) / 2;
                        let ghost rdc = layouts_view(rd@);
                        let mut base: usize = 0;
                        let mut xx = r;
                        assert(layouts_view(rd@) =~= Seq::new(rdc.len(), |i: int| if r <= i < r { rdc[i].update(c as int, (chunk_lines(lay, hv, r as int, i - r, top as int), chunk_links(lay, hv, r as int, i - r, top as int, hv[i]))) } else { rdc[i] }));
                        while xx < stop
                            invariant
                                r <= xx <= stop,
                                stop <= nr,
                                c < nc,
                                h@.len() == nr,
                                hv == ints(h@),
                                rd@.len() == nr,
                                rdc.len() == nr,
                                forall|i: int| 0 <= i < nr ==> (#[trigger] rd@[i])@.len() == nc,
                                layout_view(*wr) == lay,
                                base as int == sat_range(hv, r as int, xx as int),
                                layouts_view(rd@) == Seq::new(rdc.len(), |i: int| if r <= i < xx { rdc[i].update(c as int, (chunk_lines(lay, hv, r as int, i - r, top as int), chunk_links(lay, hv, r as int, i - r, top as int, hv[i]))) } else { rdc[i] }),
                            decreases stop - xx,
                        {
                            let item = chunk_exec(wr, h, r, xx - r, top, base);
                            let ghost before = layouts_view(rd@);
                            set_layout(&mut rd, xx, c, item);
                            assert(layouts_view(rd@) =~= Seq::new(rdc.len(), |i: int| if r <= i < xx + 1 { rdc[i].update(c as int, (chunk_lines(lay, hv, r as int, i - r, top as int), chunk_links(lay, hv, r as int, i - r, top as int, hv[i]))) } else { rdc[i] }));
                            base = sat_add(base, h[xx]);
                            xx += 1;
                        }
                    }
                },
                CellEntry::Covered { .. } => {},
            }
            c += 1;
        }
        r += 1;
    }
    rd
}


// ---------------------------------------------------------------------------
// The framed table
// ---------------------------------------------------------------------------

/// The columns a position's cell spans: an origin's span, else 1.
pub open spec fn origin_span(e: CellV) -> int {
    match e {
        CellV::Origin { colspan, .. } => colspan,
        _ => 1,
    }
}

/// How far a step from position `c` of a row goes: the span of the cell
/// there, or of the cell a covered position belongs to.
pub open spec fn step_span(row: Seq<CellV>, c: int) -> int {
    let s = match row[c] {
        CellV::Origin { colspan, .. } => colspan,
        CellV::Covered { c: oc, .. } => origin_span(row[oc]),
    };
    max_int(s, 1)
}

/// The column whose content position `c` of a row shows.
pub open spec fn shown_column(row: Seq<CellV>, c: int) -> int {
    match row[c] {
        CellV::Origin { .. } => c,
        CellV::Covered { c: oc, .. } => oc,
    }
}

/// The pieces of a top or bottom border from position `c`: a bar over each
/// cell of `row`, `mid` between cells.
pub open spec fn border_pieces(row: Seq<CellV>, w: Seq<int>, c: int, mid: Seq<char>) -> Seq<Seq<char>>
    decreases row.len() - c,
{
    if c < 0 || c >= row.len() {
        Seq::empty()
    } else {
        let cs = max_int(origin_span(row[c]), 1);
        let bar = repeated('─', sat(span_width(w, c, cs) + 2) as nat);
        if c + cs < row.len() {
            seq![bar, mid] + border_pieces(row, w, c + cs, mid)
        } else {
            seq![bar]
        }
    }
}

/// The display width of a line's pieces, summed (capped at `usize::MAX`).
pub open spec fn pieces_width(l: Seq<Seq<char>>, n: int) -> int
    decreases n,
{
    if n <= 0 {
        0
    } else {
        sat(pieces_width(l, n - 1) + display_width(l[n - 1]))
    }
}

/// Line `li` of the content a layout holds, if it has one.
pub open spec fn layout_line(lay: Seq<CellLayout>, oc: int, li: int) -> Seq<Seq<char>> {
    if 0 <= oc < lay.len() && 0 <= li < lay[oc].0.len() {
        lay[oc].0[li]
    } else {
        Seq::empty()
    }
}

/// The pieces of line `li` of a table row from position `c`: each cell's
/// line, padded to its width, then a frame.
pub open spec fn content_pieces(row: Seq<CellV>, lay: Seq<CellLayout>, w: Seq<int>, li: int, c: int) -> Seq<Seq<char>>
    decreases (if c < row.len() { row.len() - c } else { 0 }),
{
    if c < 0 || c >= row.len() {
        Seq::empty()
    } else {
        let cs = step_span(row, c);
        proof {
            lemma_step_span_pos(row, c);
        }
        let sw = span_width(w, c, cs);
        let sp = layout_line(lay, shown_column(row, c), li);
        let used = pieces_width(sp, sp.len() as int);
        let pad = if sw > used { sw - used } else { 0 };
        let padding = if pad > 0 { seq![repeated(' ', pad as nat)] } else { Seq::empty() };
        let sep = if c + cs < row.len() { " │ "@ } else { " │"@ };
        sp + padding + seq![sep] + content_pieces(row, lay, w, li, c + cs)
    }
}

/// Line `li` of a table row.
pub open spec fn row_line(row: Seq<CellV>, lay: Seq<CellLayout>, w: Seq<int>, li: int) -> Seq<Seq<char>> {
    seq!["│ "@] + content_pieces(row, lay, w, li, 0)
}

/// How far the piece count steps from position `c`: an origin's span, one
/// for a covered position.
pub open spec fn offset_step(row: Seq<CellV>, c: int) -> int {
    match row[c] {
        CellV::Origin { colspan, .. } => max_int(colspan, 1),
        CellV::Covered { .. } => 1,
    }
}

pub proof fn lemma_offset_step_pos(row: Seq<CellV>, c: int)
    ensures
        offset_step(row, c) >= 1,
{
}

pub proof fn lemma_step_span_pos(row: Seq<CellV>, c: int)
    ensures
        step_span(row, c) >= 1,
{
}

/// The piece index where the content of position `col` starts on local line
/// `li`, counting from position `c` with `acc` pieces before it.
pub open spec fn piece_offset(row: Seq<CellV>, lay: Seq<CellLayout>, li: int, col: int, c: int, acc: int) -> int
    decreases (if c < col { col - c } else { 0 }),
{
    if c < 0 || c >= col || c >= row.len() {
        acc
    } else {
        let oc = shown_column(row, c);
        let step = offset_step(row, c);
        proof {
            lemma_offset_step_pos(row, c);
        }
        let n = layout_line(lay, oc, li).len() as int;
        piece_offset(row, lay, li, col, c + step, sat(sat(acc + n) + 2))
    }
}

/// The first `n` piece positions of a cell's link moved into the table: to
/// the row's lines from `start`, after the pieces before the cell.
pub open spec fn moved_coords(coords: Seq<(usize, usize)>, row: Seq<CellV>, lay: Seq<CellLayout>, col: int, start: int, n: int) -> Seq<(usize, usize)>
    decreases n,
{
    if n <= 0 {
        Seq::empty()
    } else {
        let (l, sp) = coords[n - 1];
        let off = piece_offset(row, lay, l as int, col, 0, 1);
        moved_coords(coords, row, lay, col, start, n - 1).push((sat(start + l) as usize, sat(off + sp) as usize))
    }
}

/// The first `n` links of the cell at position `col`, moved into the table.
pub open spec fn col_links(links: Seq<(Seq<char>, Seq<char>, Seq<(usize, usize)>)>, row: Seq<CellV>, lay: Seq<CellLayout>, col: int, start: int, n: int) -> Seq<(Seq<char>, Seq<char>, Seq<(usize, usize)>)>
    decreases n,
{
    if n <= 0 {
        Seq::empty()
    } else {
        let prev = col_links(links, row, lay, col, start, n - 1);
        let k = links[n - 1];
        if k.2.len() > 0 {
            prev.push((k.0, k.1, moved_coords(k.2, row, lay, col, start, k.2.len() as int)))
        } else {
            prev
        }
    }
}

/// The links of the first `n` positions of a table row whose lines start at
/// line `start`.
pub open spec fn row_links(row: Seq<CellV>, lay: Seq<CellLayout>, start: int, n: int) -> Seq<(Seq<char>, Seq<char>, Seq<(usize, usize)>)>
    decreases n,
{
    if n <= 0 {
        Seq::empty()
    } else {
        let prev = row_links(row, lay, start, n - 1);
        let col = n - 1;
        let links = if 0 <= col < lay.len() { lay[col].1 } else { Seq::empty() };
        prev + col_links(links, row, lay, col, start, links.len() as int)
    }
}

/// Position `col` of the row below continues a cell from this row or above.
pub open spec fn continues(next: Seq<CellV>, col: int, r: int) -> bool {
    0 <= col < next.len() && (match next[col] {
        CellV::Covered { r: orr, .. } => orr <= r,
        _ => false,
    })
}

/// The joint between two cells of a separator.
pub open spec fn joint(left: bool, right: bool) -> Seq<char> {
    if left && right {
        "│"@
    } else if left {
        "┤"@
    } else if right {
        "├"@
    } else {
        "┼"@
    }
}

/// The pieces of the separator below row `r` from position `col`: a line
/// under each cell (blank where the cell goes on below), joints between.
pub open spec fn sep_pieces(row: Seq<CellV>, next: Seq<CellV>, w: Seq<int>, r: int, fill: char, col: int) -> Seq<Seq<char>>
    decreases row.len() - col,
{
    if col < 0 || col >= row.len() {
        Seq::empty()
    } else {
        let cs = step_span(row, col);
        proof {
            lemma_step_span_pos(row, col);
        }
        let width = sat(span_width(w, col, cs) + 2) as nat;
        let cont = continues(next, col, r);
        let piece = if cont { repeated(' ', width) } else { repeated(fill, width) };
        if col + cs < row.len() {
            seq![piece, joint(cont, continues(next, col + cs, r))] + sep_pieces(row, next, w, r, fill, col + cs)
        } else {
            seq![piece]
        }
    }
}

/// The row holds a header cell.
pub open spec fn has_header(row: Seq<CellV>) -> bool {
    exists|c: int| 0 <= c < row.len() && (#[trigger] row[c] matches CellV::Origin { is_header, .. } && is_header)
}

/// The separator below row `r`: double under a row with a header cell.
pub open spec fn separator(cells: Seq<Seq<CellV>>, w: Seq<int>, r: int) -> Seq<Seq<char>> {
    let fill = if has_header(cells[r]) { '═' } else { '─' };
    seq!["├"@] + sep_pieces(cells[r], cells[r + 1], w, r, fill, 0) + seq!["┤"@]
}

/// The lines and links of the first `n` rows, the first line of the table
/// body being line `first`.
pub open spec fn rows_block(cells: Seq<Seq<CellV>>, w: Seq<int>, h: Seq<int>, rd: Seq<Seq<CellLayout>>, first: int, n: int) -> (Seq<Seq<Seq<char>>>, Seq<(Seq<char>, Seq<char>, Seq<(usize, usize)>)>)
    decreases n,
{
    if n <= 0 {
        (Seq::empty(), Seq::empty())
    } else {
        let (ls, lk) = rows_block(cells, w, h, rd, first, n - 1);
        let r = n - 1;
        let start = first + ls.len();
        let body = Seq::new(h[r] as nat, |li: int| row_line(cells[r], rd[r], w, li));
        let sep = if r + 1 < cells.len() { seq![separator(cells, w, r)] } else { Seq::empty() };
        (ls + body + sep, lk + row_links(cells[r], rd[r], start, cells[r].len() as int))
    }
}

/// The lines and links a table adds after `base` lines in `max_width`
/// columns: caption, top border, rows with separators, bottom border and an
/// empty line; nothing for a table without cells.
pub open spec fn table_block(d: HtmlDom, t: int, show: bool, max_width: int, base: int) -> (Seq<Seq<Seq<char>>>, Seq<(Seq<char>, Seq<char>, Seq<(usize, usize)>)>) {
    match table_grid(d, t, show) {
        Some((nr, nc, cells, cap)) => {
            let cap_lines = match cap {
                Some(c) => seq![seq![" 📋 "@, c]],
                None => Seq::empty(),
            };
            let b = count_rows(cells, nc, nr);
            let w = allocate_widths(b.0, b.1, max_width);
            let h = row_heights(cells, w);
            let rd = cell_contents(cells, w, h);
            let top = seq!["┌"@] + border_pieces(cells[0], w, 0, "┬"@) + seq!["┐"@];
            let bottom = seq!["└"@] + border_pieces(cells[nr - 1], w, 0, "┴"@) + seq!["┘"@];
            let body = rows_block(cells, w, h, rd, base + cap_lines.len() + 1, nr);
            (cap_lines + seq![top] + body.0 + seq![bottom, Seq::empty()], body.1)
        },
        None => (Seq::empty(), Seq::empty()),
    }
}


/// A row whose positions hold what may stand there.
pub open spec fn row_ok(rv: Seq<CellV>) -> bool {
    forall|c: int| 0 <= c < rv.len() ==> (match #[trigger] rv[c] {
        CellV::Origin { colspan, .. } => colspan >= 1 && c + colspan <= usize::MAX,
        CellV::Covered { c: oc, .. } => 0 <= oc <= c,
    })
}

proof fn lemma_rows_ok(cv: Seq<Seq<CellV>>, r: int)
    requires
        cells_ok(cv),
        0 <= r < cv.len(),
    ensures
        row_ok(cv[r]),
{
    assert forall|c: int| 0 <= c < cv[r].len() implies (match #[trigger] cv[r][c] {
        CellV::Origin { colspan, .. } => colspan >= 1 && c + colspan <= usize::MAX,
        CellV::Covered { c: oc, .. } => 0 <= oc <= c,
    }) by {
        assert(pos_ok(cv[r][c], r, c));
    }
}

/// `(shown column, step)` of position `c` of a row.
fn step_exec(row: &Vec<CellEntry>, c: usize) -> (res: (usize, usize))
    requires
        c < row@.len(),
        row_ok(cell_row_view(row@)),
    ensures
        res.0 as int == shown_column(cell_row_view(row@), c as int),
        res.1 as int == step_span(cell_row_view(row@), c as int),
        res.0 <= c,
        res.1 >= 1,
{
    let ghost rv = cell_row_view(row@);
    assert(rv[c as int] == cell_view(row@[c as int]));
    match &row[c] {
        CellEntry::Origin { colspan, .. } => (c, *colspan),
        CellEntry::Covered { origin_c, .. } => {
            let oc = *origin_c;
            assert(rv[oc as int] == cell_view(row@[oc as int]));
            let s = match &row[oc] {
                CellEntry::Origin { colspan, .. } => *colspan,
                CellEntry::Covered { .. } => 1,
            };
            let s1 = if s >= 1 { s } else { 1 };
            (oc, s1)
        },
    }
}

fn push_piece(out: &mut Vec<String>, p: String)
    ensures
        line_view(*final(out)) == line_view(*old(out)).push(p@),
{
    let ghost before = out@;
    out.push(p);
    assert(line_view(*out) =~= line_view_of(before).push(p@));
}

pub open spec fn line_view_of(v: Seq<String>) -> Seq<Seq<char>> {
    strs_view(v)
}

/// A top or bottom border over the cells of `row`.
fn border_line_exec(row: &Vec<CellEntry>, w: &Vec<usize>, left: &str, mid: &str, right: &str) -> (res: Vec<String>)
    requires
        row_ok(cell_row_view(row@)),
    ensures
        line_view(res) == seq![left@] + border_pieces(cell_row_view(row@), ints(w@), 0, mid@) + seq![right@],
{
    let ghost rv = cell_row_view(row@);
    let ghost wv = ints(w@);
    let mut out: Vec<String> = Vec::new();
    push_piece(&mut out, string_of(left));
    let mut c: usize = 0;
    assert(line_view(out) =~= seq![left@]);
    while c < row.len()
        invariant
            c <= row@.len(),
            rv == cell_row_view(row@),
            wv == ints(w@),
            row_ok(rv),
            line_view(out) + border_pieces(rv, wv, c as int, mid@) == seq![left@] + border_pieces(rv, wv, 0, mid@),
        decreases row@.len() - c,
    {
        assert(rv[c as int] == cell_view(row@[c as int]));
        let cs = match &row[c] {
            CellEntry::Origin { colspan, .. } => *colspan,
            CellEntry::Covered { .. } => 1,
        };
        assert(cs as int == max_int(origin_span(rv[c as int]), 1));
        let sw = span_width_exec(w, c, cs);
        let bar = repeat_char('─', sat_add(sw, 2));
        let ghost before = line_view(out);
        push_piece(&mut out, bar);
        if c + cs < row.len() {
            push_piece(&mut out, string_of(mid));
            assert(before + border_pieces(rv, wv, c as int, mid@) =~= line_view(out) + border_pieces(rv, wv, c + cs, mid@));
            c = c + cs;
        } else {
            assert(before + border_pieces(rv, wv, c as int, mid@) =~= line_view(out) + border_pieces(rv, wv, row@.len() as int, mid@));
            c = row.len();
        }
    }
    assert(border_pieces(rv, wv, c as int, mid@) =~= Seq::<Seq<char>>::empty());
    assert(line_view(out) =~= seq![left@] + border_pieces(rv, wv, 0, mid@));
    push_piece(&mut out, string_of(right));
    out
}

/// Line `li` of the layout at position `oc` of a row's layouts, copied.
fn layout_line_exec(lay: &Vec<(Vec<Vec<String>>, Vec<Link>)>, oc: usize, li: usize) -> (res: Vec<String>)
    ensures
        line_view(res) == layout_line(lay@.map_values(|l: (Vec<Vec<String>>, Vec<Link>)| layout_view(l)), oc as int, li as int),
{
    let ghost lv = lay@.map_values(|l: (Vec<Vec<String>>, Vec<Link>)| layout_view(l));
    if oc < lay.len() && li < lay[oc].0.len() {
        assert(lv[oc as int] == layout_view(lay@[oc as int]));
        let r = copy_line(&lay[oc].0[li]);
        r
    } else {
        proof {
            if 0 <= oc < lv.len() {
                assert(lv[oc as int] == layout_view(lay@[oc as int]));
            }
        }
        let r: Vec<String> = Vec::new();
        assert(line_view(r) =~= Seq::<Seq<char>>::empty());
        r
    }
}

fn pieces_width_exec(l: &Vec<String>) -> (res: usize)
    ensures
        res as int == pieces_width(line_view(*l), l@.len() as int),
{
    let mut t: usize = 0;
    let mut k: usize = 0;
    while k < l.len()
        invariant
            k <= l.len(),
            t as int == pieces_width(line_view(*l), k as int),
        decreases l.len() - k,
    {
        t = sat_add(t, str_width(l[k].as_str()));
        k += 1;
    }
    t
}

/// Line `li` of a table row.
fn row_line_exec(row: &Vec<CellEntry>, lay: &Vec<(Vec<Vec<String>>, Vec<Link>)>, w: &Vec<usize>, li: usize) -> (res: Vec<String>)
    requires
        row_ok(cell_row_view(row@)),
    ensures
        line_view(res) == row_line(cell_row_view(row@), lay@.map_values(|l: (Vec<Vec<String>>, Vec<Link>)| layout_view(l)), ints(w@), li as int),
{
    let ghost rv = cell_row_view(row@);
    let ghost lv = lay@.map_values(|l: (Vec<Vec<String>>, Vec<Link>)| layout_view(l));
    let ghost wv = ints(w@);
    let mut out: Vec<String> = Vec::new();
    push_piece(&mut out, string_of("│ "));
    assert(line_view(out) =~= seq!["│ "@]);
    let mut c: usize = 0;
    while c < row.len()
        invariant
            c <= row@.len(),
            rv == cell_row_view(row@),
            lv == lay@.map_values(|l: (Vec<Vec<String>>, Vec<Link>)| layout_view(l)),
            wv == ints(w@),
            row_ok(rv),
            line_view(out) + content_pieces(rv, lv, wv, li as int, c as int) == row_line(rv, lv, wv, li as int),
        decreases row@.len() - c,
    {
        let (oc, cs) = step_exec(row, c);
        let sw = span_width_exec(w, c, cs);
        let sp = layout_line_exec(lay, oc, li);
        let used = pieces_width_exec(&sp);
        let ghost before = line_view(out);
        let mut k: usize = 0;
        while k < sp.len()
            invariant
                k <= sp.len(),
                line_view(out) == before + line_view(sp).take(k as int),
            decreases sp.len() - k,
        {
            push_piece(&mut out, sp[k].clone());
            assert(line_view(sp).take(k + 1) =~= line_view(sp).take(k as int).push(sp@[k as int]@));
            assert(line_view(out) =~= before + line_view(sp).take(k + 1));
            k += 1;
        }
        assert(line_view(sp).take(sp.len() as int) =~= line_view(sp));
        let ghost mid = line_view(out);
        let pad = if sw > used { sw - used } else { 0 };
        if pad > 0 {
            push_piece(&mut out, repeat_char(' ', pad));
        }
        let ghost padding: Seq<Seq<char>> = if pad > 0 { seq![repeated(' ', pad as nat)] } else { Seq::empty() };
        assert(line_view(out) =~= mid + padding);
        let last = !(cs < row.len() - c);
        if last {
            push_piece(&mut out, string_of(" │"));
        } else {
            push_piece(&mut out, string_of(" │ "));
        }
        let next = if last { row.len() } else { c + cs };
        proof {
            let sep = if c + cs < rv.len() { " │ "@ } else { " │"@ };
            assert(line_view(out) =~= before + line_view(sp) + padding + seq![sep]);
            if last {
                assert(content_pieces(rv, lv, wv, li as int, c + cs) =~= Seq::<Seq<char>>::empty());
                assert(content_pieces(rv, lv, wv, li as int, next as int) =~= Seq::<Seq<char>>::empty());
            }
            assert(before + content_pieces(rv, lv, wv, li as int, c as int) =~= line_view(out) + content_pieces(rv, lv, wv, li as int, next as int));
        }
        c = next;
    }
    assert(content_pieces(rv, lv, wv, li as int, c as int) =~= Seq::<Seq<char>>::empty());
    assert(line_view(out) =~= row_line(rv, lv, wv, li as int));
    out
}


/// The piece index where position `col`'s content starts on local line `li`.
fn piece_offset_exec(row: &Vec<CellEntry>, lay: &Vec<(Vec<Vec<String>>, Vec<Link>)>, li: usize, col: usize) -> (res: usize)
    requires
        row_ok(cell_row_view(row@)),
    ensures
        res as int == piece_offset(cell_row_view(row@), lay@.map_values(|l: (Vec<Vec<String>>, Vec<Link>)| layout_view(l)), li as int, col as int, 0, 1),
{
    let ghost rv = cell_row_view(row@);
    let ghost lv = lay@.map_values(|l: (Vec<Vec<String>>, Vec<Link>)| layout_view(l));
    let mut acc: usize = 1;
    let mut c: usize = 0;
    while c < col && c < row.len()
        invariant
            rv == cell_row_view(row@),
            lv == lay@.map_values(|l: (Vec<Vec<String>>, Vec<Link>)| layout_view(l)),
            row_ok(rv),
            piece_offset(rv, lv, li as int, col as int, c as int, acc as int) == piece_offset(rv, lv, li as int, col as int, 0, 1),
        decreases row@.len() - c,
    {
        assert(rv[c as int] == cell_view(row@[c as int]));
        let (oc, step) = match &row[c] {
            CellEntry::Origin { colspan, .. } => (c, if *colspan >= 1 { *colspan } else { 1 }),
            CellEntry::Covered { origin_c, .. } => (*origin_c, 1),
        };
        assert(oc as int == shown_column(rv, c as int));
        assert(step as int == offset_step(rv, c as int));
        let sp = layout_line_exec(lay, oc, li);
        acc = sat_add(sat_add(acc, sp.len()), 2);
        if step >= row.len() - c {
            assert(piece_offset(rv, lv, li as int, col as int, c + step, acc as int) == acc);
            assert(piece_offset(rv, lv, li as int, col as int, row@.len() as int, acc as int) == acc);
            c = row.len();
        } else {
            c = c + step;
        }
    }
    acc
}

/// Adds the links of a table row whose lines start at line `start`.
fn push_row_links(row: &Vec<CellEntry>, lay: &Vec<(Vec<Vec<String>>, Vec<Link>)>, start: usize, out: &mut Vec<Link>)
    requires
        row_ok(cell_row_view(row@)),
    ensures
        links_view(final(out)@) == links_view(old(out)@) + row_links(
            cell_row_view(row@),
            lay@.map_values(|l: (Vec<Vec<String>>, Vec<Link>)| layout_view(l)),
            start as int,
            row@.len() as int,
        ),
{
    let ghost rv = cell_row_view(row@);
    let ghost lv = lay@.map_values(|l: (Vec<Vec<String>>, Vec<Link>)| layout_view(l));
    let ghost base = links_view(out@);
    let mut col: usize = 0;
    while col < row.len()
        invariant
            col <= row@.len(),
            rv == cell_row_view(row@),
            lv == lay@.map_values(|l: (Vec<Vec<String>>, Vec<Link>)| layout_view(l)),
            row_ok(rv),
            links_view(out@) == base + row_links(rv, lv, start as int, col as int),
        decreases row@.len() - col,
    {
        let ghost mid = links_view(out@);
        let ghost cl: Seq<(Seq<char>, Seq<char>, Seq<(usize, usize)>)> = if (col as int) < lv.len() { lv[col as int].1 } else { Seq::empty() };
        if col < lay.len() {
            assert(lv[col as int] == layout_view(lay@[col as int]));
            let links = &lay[col].1;
            assert(links_view(links@) == cl);
            let mut k: usize = 0;
            while k < links.len()
                invariant
                    k <= links.len(),
                    rv == cell_row_view(row@),
                    lv == lay@.map_values(|l: (Vec<Vec<String>>, Vec<Link>)| layout_view(l)),
                    row_ok(rv),
                    links_view(links@) == cl,
                    links_view(out@) == mid + col_links(cl, rv, lv, col as int, start as int, k as int),
                decreases links.len() - k,
            {
                let lk = &links[k];
                assert(cl[k as int] == link_view(*lk));
                if lk.span_indices.len() > 0 {
                    let mut m: Vec<(usize, usize)> = Vec::new();
                    let mut j: usize = 0;
                    while j < lk.span_indices.len()
                        invariant
                            j <= lk.span_indices.len(),
                            rv == cell_row_view(row@),
                            lv == lay@.map_values(|l: (Vec<Vec<String>>, Vec<Link>)| layout_view(l)),
                            row_ok(rv),
                            m@ == moved_coords(lk.span_indices@, rv, lv, col as int, start as int, j as int),
                        decreases lk.span_indices.len() - j,
                    {
                        let (l, sp) = lk.span_indices[j];
                        let off = piece_offset_exec(row, lay, l, col);
                        m.push((sat_add(start, l), sat_add(off, sp)));
                        j += 1;
                    }
                    let nl = Link { title: lk.title.clone(), text: lk.text.clone(), span_indices: m };
                    let ghost before = out@;
                    out.push(nl);
                    assert(links_view(out@) =~= links_view(before).push(link_view(nl)));
                }
                assert(links_view(out@) =~= mid + col_links(cl, rv, lv, col as int, start as int, k + 1));
                k += 1;
            }
        } else {
            assert(col_links(cl, rv, lv, col as int, start as int, 0) =~= Seq::<(Seq<char>, Seq<char>, Seq<(usize, usize)>)>::empty());
            assert(links_view(out@) =~= mid + col_links(cl, rv, lv, col as int, start as int, cl.len() as int));
        }
        assert(links_view(out@) =~= base + row_links(rv, lv, start as int, col + 1));
        col += 1;
    }
}

fn continues_exec(next: &Vec<CellEntry>, col: usize, r: usize) -> (res: bool)
    ensures
        res == continues(cell_row_view(next@), col as int, r as int),
{
    if col < next.len() {
        assert(cell_row_view(next@)[col as int] == cell_view(next@[col as int]));
        match &next[col] {
            CellEntry::Covered { origin_r, .. } => *origin_r <= r,
            _ => false,
        }
    } else {
        false
    }
}

/// The separator below row `r` (whose next row is `next`).
fn separator_exec(row: &Vec<CellEntry>, next: &Vec<CellEntry>, w: &Vec<usize>, r: usize) -> (res: Vec<String>)
    requires
        row_ok(cell_row_view(row@)),
    ensures
        line_view(res) == seq!["├"@] + sep_pieces(
            cell_row_view(row@),
            cell_row_view(next@),
            ints(w@),
            r as int,
            if has_header(cell_row_view(row@)) { '═' } else { '─' },
            0,
        ) + seq!["┤"@],
{
    let ghost rv = cell_row_view(row@);
    let ghost nv = cell_row_view(next@);
    let ghost wv = ints(w@);
    let mut header = false;
    let mut c: usize = 0;
    while c < row.len()
        invariant
            c <= row@.len(),
            rv == cell_row_view(row@),
            header == exists|j: int| 0 <= j < c && (#[trigger] rv[j] matches CellV::Origin { is_header, .. } && is_header),
        decreases row@.len() - c,
    {
        assert(rv[c as int] == cell_view(row@[c as int]));
        match &row[c] {
            CellEntry::Origin { is_header, .. } => {
                if *is_header {
                    header = true;
                }
            },
            _ => {},
        }
        c += 1;
    }
    assert(header == has_header(rv));
    let fill = if header { '═' } else { '─' };
    let mut out: Vec<String> = Vec::new();
    push_piece(&mut out, string_of("├"));
    assert(line_view(out) =~= seq!["├"@]);
    let mut col: usize = 0;
    while col < row.len()
        invariant
            col <= row@.len(),
            rv == cell_row_view(row@),
            nv == cell_row_view(next@),
            wv == ints(w@),
            row_ok(rv),
            line_view(out) + sep_pieces(rv, nv, wv, r as int, fill, col as int) == seq!["├"@] + sep_pieces(rv, nv, wv, r as int, fill, 0),
        decreases row@.len() - col,
    {
        let (oc, cs) = step_exec(row, col);
        let sw = span_width_exec(w, col, cs);
        let width = sat_add(sw, 2);
        let cont = continues_exec(next, col, r);
        let ghost before = line_view(out);
        if cont {
            push_piece(&mut out, repeat_char(' ', width));
        } else {
            push_piece(&mut out, repeat_char(fill, width));
        }
        if cs < row.len() - col {
            let right = continues_exec(next, col + cs, r);
            let j = if cont && right {
                string_of("│")
            } else if cont {
                string_of("┤")
            } else if right {
                string_of("├")
            } else {
                string_of("┼")
            };
            push_piece(&mut out, j);
            assert(before + sep_pieces(rv, nv, wv, r as int, fill, col as int) =~= line_view(out) + sep_pieces(rv, nv, wv, r as int, fill, col + cs));
            col = col + cs;
        } else {
            assert(sep_pieces(rv, nv, wv, r as int, fill, row@.len() as int) =~= Seq::<Seq<char>>::empty());
            assert(before + sep_pieces(rv, nv, wv, r as int, fill, col as int) =~= line_view(out) + sep_pieces(rv, nv, wv, r as int, fill, row@.len() as int));
            col = row.len();
        }
    }
    assert(sep_pieces(rv, nv, wv, r as int, fill, col as int) =~= Seq::<Seq<char>>::empty());
    assert(line_view(out) =~= seq!["├"@] + sep_pieces(rv, nv, wv, r as int, fill, 0));
    push_piece(&mut out, string_of("┤"));
    out
}


fn push_doc_line(lines: &mut Vec<Vec<String>>, l: Vec<String>)
    ensures
        lines_view(final(lines)@) == lines_view(old(lines)@).push(line_view(l)),
{
    let ghost before = lines@;
    lines.push(l);
    assert(lines_view(lines@) =~= lines_view(before).push(line_view(l)));
}

/// The lines of row `r` of a table (and the separator below it, unless it
/// is the last row) with its links.
fn push_table_row(
    grid: &TableGrid,
    r: usize,
    w: &Vec<usize>,
    h: &Vec<usize>,
    rd: &Vec<Vec<(Vec<Vec<String>>, Vec<Link>)>>,
    doc: &mut ParsedDocument,
)
    requires
        grid_ok(*grid),
        r < grid.num_rows,
        h@.len() == grid.num_rows,
        rd@.len() == grid.num_rows,
    ensures
        ({
            let cv = cells_view(grid.cells@);
            let rdv = layouts_view(rd@);
            let wv = ints(w@);
            let body = Seq::new(h@[r as int] as nat, |k: int| row_line(cv[r as int], rdv[r as int], wv, k));
            let sep = if r + 1 < cv.len() { seq![separator(cv, wv, r as int)] } else { Seq::empty() };
            &&& lines_view(final(doc).lines@) == lines_view(old(doc).lines@) + body + sep
            &&& links_view(final(doc).links@) == links_view(old(doc).links@) + row_links(cv[r as int], rdv[r as int], old(doc).lines@.len() as int, cv[r as int].len() as int)
        }),
        final(doc).headings@ == old(doc).headings@,
        final(doc).reference_targets@ == old(doc).reference_targets@,
{
    let ghost cv = cells_view(grid.cells@);
    let ghost rdv = layouts_view(rd@);
    let ghost wv = ints(w@);
    let row = &grid.cells[r];
    assert(cv[r as int] == cell_row_view(row@));
    proof {
        lemma_rows_ok(cv, r as int);
    }
    let lay = &rd[r];
    assert(rdv[r as int] == lay@.map_values(|l: (Vec<Vec<String>>, Vec<Link>)| layout_view(l)));
    let start = doc.lines.len();
    let ghost before_lines = lines_view(doc.lines@);
    let ghost links0 = doc.links@;
    let mut li: usize = 0;
    while li < h[r]
        invariant
            li <= h@[r as int],
            r < h@.len(),
            row_ok(cell_row_view(row@)),
            rdv[r as int] == lay@.map_values(|l: (Vec<Vec<String>>, Vec<Link>)| layout_view(l)),
            cv[r as int] == cell_row_view(row@),
            wv == ints(w@),
            lines_view(doc.lines@) == before_lines + Seq::new(li as nat, |k: int| row_line(cv[r as int], rdv[r as int], wv, k)),
            doc.links@ == links0,
            doc.headings@ == old(doc).headings@,
            doc.reference_targets@ == old(doc).reference_targets@,
        decreases h@[r as int] - li,
    {
        let l = row_line_exec(row, lay, w, li);
        push_doc_line(&mut doc.lines, l);
        assert(lines_view(doc.lines@) =~= before_lines + Seq::new((li + 1) as nat, |k: int| row_line(cv[r as int], rdv[r as int], wv, k)));
        li += 1;
    }
    push_row_links(row, lay, start, &mut doc.links);
    assert(row@.len() == cv[r as int].len());
    let ghost body_lines = lines_view(doc.lines@);
    if r + 1 < grid.num_rows {
        assert(cv[r + 1] == cell_row_view(grid.cells@[r + 1]@));
        let sep = separator_exec(row, &grid.cells[r + 1], w, r);
        push_doc_line(&mut doc.lines, sep);
        assert(lines_view(doc.lines@) =~= body_lines + seq![separator(cv, wv, r as int)]);
    } else {
        assert(lines_view(doc.lines@) =~= body_lines + Seq::<Seq<Seq<char>>>::empty());
    }
}

/// Renders table `table` of `dom` after the lines `doc` has, in `max_width`
/// columns: a caption line, a frame with a cell grid whose columns share the
/// width by their content, header rows marked by a double rule, and each
/// cell's links pointing at their pieces. A table without cells adds
/// nothing.
#[verifier::rlimit(40)]
pub fn render_table(dom: &HtmlDom, table: usize, doc: &mut ParsedDocument, max_width: usize, show_footnotes: bool)
    ensures
        ({
            let b = table_block(*dom, table as int, show_footnotes, max_width as int, old(doc).lines@.len() as int);
            &&& lines_view(final(doc).lines@) == lines_view(old(doc).lines@) + b.0
            &&& links_view(final(doc).links@) == links_view(old(doc).links@) + b.1
        }),
        final(doc).headings@ == old(doc).headings@,
        final(doc).reference_targets@ == old(doc).reference_targets@,
{
    let grid = match parse_table_into_grid(dom, table, show_footnotes) {
        Some(g) => g,
        None => {
            assert(lines_view(doc.lines@) =~= lines_view(doc.lines@) + Seq::<Seq<Seq<char>>>::empty());
            assert(links_view(doc.links@) =~= links_view(doc.links@) + Seq::<(Seq<char>, Seq<char>, Seq<(usize, usize)>)>::empty());
            return;
        },
    };
    let ghost cv = cells_view(grid.cells@);
    let nr = grid.num_rows;
    let (lo, hi) = column_bounds(&grid);
    let w = allocate_column_widths(&lo, &hi, max_width);
    let wraps = all_wraps_exec(&grid, &w);
    let h = row_heights_exec(&grid, &w, &wraps);
    let rd = cell_contents_exec(&grid, &w, &h, &wraps);
    let ghost wv = ints(w@);
    let ghost hv = ints(h@);
    let ghost rdv = layouts_view(rd@);
    let ghost base_lines = lines_view(doc.lines@);
    let ghost base_links = links_view(doc.links@);
    let ghost base = doc.lines@.len() as int;
    proof {
        lemma_rows_ok(cv, 0);
        lemma_rows_ok(cv, nr - 1);
    }
    let ghost cap_lines: Seq<Seq<Seq<char>>> = match opt_view(grid.caption) {
        Some(c) => seq![seq![" 📋 "@, c]],
        None => Seq::empty(),
    };
    match &grid.caption {
        Some(cap) => {
            let mut l: Vec<String> = Vec::new();
            push_piece(&mut l, string_of(" 📋 "));
            push_piece(&mut l, cap.clone());
            assert(line_view(l) =~= seq![" 📋 "@, cap@]);
            push_doc_line(&mut doc.lines, l);
        },
        None => {},
    }
    assert(lines_view(doc.lines@) =~= base_lines + cap_lines);
    assert(cv[0] == cell_row_view(grid.cells@[0]@));
    let top = border_line_exec(&grid.cells[0], &w, "┌", "┬", "┐");
    push_doc_line(&mut doc.lines, top);
    let ghost top_v = line_view(top);
    let ghost first = base + cap_lines.len() + 1;
    assert(lines_view(doc.lines@).len() == doc.lines@.len());
    let mut r: usize = 0;
    assert(lines_view(doc.lines@) =~= base_lines + cap_lines + seq![top_v] + rows_block(cv, wv, hv, rdv, first, 0).0);
    assert(links_view(doc.links@) =~= base_links + rows_block(cv, wv, hv, rdv, first, 0).1);
    while r < nr
        invariant
            r <= nr,
            nr == grid.num_rows,
            grid_ok(grid),
            cv == cells_view(grid.cells@),
            wv == ints(w@),
            hv == ints(h@),
            h@.len() == nr,
            rdv == layouts_view(rd@),
            rd@.len() == nr,
            first == base + cap_lines.len() + 1,
            lines_view(doc.lines@).len() == doc.lines@.len(),
            lines_view(doc.lines@) == base_lines + cap_lines + seq![top_v] + rows_block(cv, wv, hv, rdv, first, r as int).0,
            links_view(doc.links@) == base_links + rows_block(cv, wv, hv, rdv, first, r as int).1,
            doc.headings@ == old(doc).headings@,
            doc.reference_targets@ == old(doc).reference_targets@,
            base_lines.len() == base,
        decreases nr - r,
    {
        let ghost prev = rows_block(cv, wv, hv, rdv, first, r as int);
        assert(doc.lines@.len() == first + prev.0.len());
        push_table_row(&grid, r, &w, &h, &rd, doc);
        proof {
            let body = Seq::new(hv[r as int] as nat, |k: int| row_line(cv[r as int], rdv[r as int], wv, k));
            assert(body =~= Seq::new(h@[r as int] as nat, |k: int| row_line(cv[r as int], rdv[r as int], wv, k)));
        }
        assert(lines_view(doc.lines@) =~= base_lines + cap_lines + seq![top_v] + rows_block(cv, wv, hv, rdv, first, r + 1).0);
        assert(links_view(doc.links@) =~= base_links + rows_block(cv, wv, hv, rdv, first, r + 1).1);
        assert(lines_view(doc.lines@).len() == doc.lines@.len());
        r += 1;
    }
    assert(cv[nr - 1] == cell_row_view(grid.cells@[nr - 1]@));
    let bottom = border_line_exec(&grid.cells[nr - 1], &w, "└", "┴", "┘");
    push_doc_line(&mut doc.lines, bottom);
    let empty: Vec<String> = Vec::new();
    push_doc_line(&mut doc.lines, empty);
    assert(line_view(empty) =~= Seq::<Seq<char>>::empty());
    assert(lines_view(doc.lines@) =~= base_lines + table_block(*dom, table as int, show_footnotes, max_width as int, base).0);
}

proof fn lemma_shrink_keeps_floor(w: Seq<int>, diff: int, i: int)
    requires
        0 <= i <= w.len(),
        forall|k: int| 0 <= k < w.len() ==> w[k] >= 3,
    ensures
        shrink_cols(w, diff, i).len() == w.len(),
        forall|k: int| 0 <= k < w.len() ==> #[trigger] shrink_cols(w, diff, i)[k] >= 3,
    decreases i,
{
    if i > 0 {
        let j = i - 1;
        if w[j] > 3 {
            let sh = min_int(w[j] - 3, diff);
            let w2 = w.update(j, w[j] - sh);
            assert forall|k: int| 0 <= k < w2.len() implies w2[k] >= 3 by {
                if k == j {
                    assert(sh <= w[j] - 3);
                }
            }
            lemma_shrink_keeps_floor(w2, diff - sh, j);
        } else {
            lemma_shrink_keeps_floor(w, diff, j);
        }
    }
}

/// Every column of a table gets a width, of at least 3; when the columns'
/// most widths fit in the room, each gets its most (or 3).
pub proof fn columns_get_room(lo: Seq<int>, hi: Seq<int>, max_width: int)
    requires
        lo.len() == hi.len(),
    ensures
        allocate_widths(lo, hi, max_width).len() == hi.len(),
        forall|i: int| 0 <= i < hi.len() ==> #[trigger] allocate_widths(lo, hi, max_width)[i] >= 3,
        sat_sum(hi, hi.len() as int) <= table_room(hi.len() as int, max_width) ==> forall|i: int|
            0 <= i < hi.len() ==> #[trigger] allocate_widths(lo, hi, max_width)[i] == max_int(hi[i], 3),
{
    let nc = hi.len() as int;
    let room = table_room(nc, max_width);
    let total = sat_sum(hi, nc);
    if total > room {
        let w0 = Seq::new(
            nc as nat,
            |i: int| max_int(max_int(sat(proportional(hi[i], total, room)), min_int(lo[i], 15)), 3),
        );
        let alloc = sat_sum(w0, nc);
        if alloc > room {
            lemma_shrink_keeps_floor(w0, alloc - room, nc);
        }
    }
}

} // verus!
