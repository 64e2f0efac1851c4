//! Reading an article's markup into the reader's document: text gathered
//! into blocks and laid out, headings recorded, links followed by their
//! pieces, images labelled, code listings framed.
use super::blocks::{
    block_layout, same_marks, token_view, tokens_view, wrap_and_append_block, TextToken,
};
use super::codeblocks::{class_language, code_block_lines, code_lines, extract_language, render_code_block};
use super::elements::{
    handle_heading_tag, handle_img_tag, heading_level, heading_mark, heading_title, headings_view,
    image_label, image_target, is_formula_image,
};
use super::entities::{decode_entities, decode_html_entities};
use super::html::{html_dom, node_at, HtmlDom, HtmlNode, TagAttrs};
use super::tables::{render_table, table_block};
use super::types::{line_view, lines_view, link_view, links_view, Link, ParsedDocument};
use super::utils::{extract_title_from_href, href_target};
use crate::app::search::{joined, joined_text};
use crate::text::{
    lowercase, str_to_lowercase,
    chars_eq_str, opt_view, replace_char, replace_char_seq, string_from_chars, string_of, to_chars,
    is_all_whitespace, trim_seq,
};
use vstd::prelude::*;

verus! {

/// How an article is laid out.
#[derive(Debug, Clone, Copy)]
pub struct ReadOptions {
    /// Columns available to text (at least 10 are used).
    pub max_width: usize,
    /// Keep footnote markers in table cells.
    pub show_footnotes: bool,
    /// Put a mark before each heading.
    pub heading_marker: bool,
    /// Number the lines of code listings.
    pub code_line_numbers: bool,
}

/// A link as plain values.
pub type LinkV = (Seq<char>, Seq<char>, Seq<(usize, usize)>);

/// A document being read: lines, links, headings, and the text waiting to
/// be laid out.
pub type ReadState = (
    Seq<Seq<Seq<char>>>,
    Seq<LinkV>,
    Seq<(Seq<char>, u8, usize)>,
    Seq<(Seq<char>, Option<Seq<char>>)>,
);

/// Elements that start and end a block of text.
pub open spec fn is_block_name(n: Seq<char>) -> bool {
    n == "p"@ || n == "h1"@ || n == "h2"@ || n == "h3"@ || n == "h4"@ || n == "h5"@ || n == "h6"@
        || n == "li"@ || n == "ul"@ || n == "ol"@ || n == "div"@ || n == "section"@ || n
        == "blockquote"@
}

/// Heading elements.
pub open spec fn is_heading_name(n: Seq<char>) -> bool {
    n == "h1"@ || n == "h2"@ || n == "h3"@ || n == "h4"@ || n == "h5"@ || n == "h6"@
}

/// Elements whose content is not text to read.
pub open spec fn is_skipped_name(n: Seq<char>) -> bool {
    n == "style"@ || n == "script"@ || n == "noscript"@
}

/// The mark put before a list item.
pub open spec fn bullet() -> Seq<char> {
    "•"@
}

/// A text run as read: entities decoded, carriage returns, tabs and line
/// feeds as spaces.
pub open spec fn cleaned_text(t: Seq<char>) -> Seq<char> {
    replace_char_seq(replace_char_seq(replace_char_seq(decode_entities(t), '\r', ' '), '\t', ' '), '\n', ' ')
}

/// Lays the waiting text out, if there is any.
pub open spec fn flush(st: ReadState, w: nat) -> ReadState {
    if st.3.len() > 0 {
        let lay = block_layout(st.3, w, st.0.len() as int);
        (st.0 + lay.0, st.1 + lay.1, st.2, Seq::empty())
    } else {
        st
    }
}

/// A text run joins the waiting text unless it is blank (a single space
/// counts).
pub open spec fn text_step(st: ReadState, t: Seq<char>, link: Option<Seq<char>>) -> ReadState {
    let c = cleaned_text(t);
    if trim_seq(c).len() > 0 || c == " "@ {
        (st.0, st.1, st.2, st.3.push((c, link)))
    } else {
        st
    }
}

/// The link in force inside an element: an `<a>` with an `href` that
/// resolves leads there, one without `href` leads to its `title`.
pub open spec fn tag_link(n: Seq<char>, a: TagAttrs, link: Option<Seq<char>>) -> Option<Seq<char>> {
    if n == "a"@ {
        match a.href {
            Some(h) => match href_target(h@) {
                Some(t) => Some(t),
                None => link,
            },
            None => match a.title {
                Some(t) => Some(t@),
                None => link,
            },
        }
    } else {
        link
    }
}

/// What an element adds when it opens: a heading record (and mark), a list
/// bullet, an image label.
pub open spec fn open_step(
    st: ReadState,
    d: HtmlDom,
    i: int,
    n: Seq<char>,
    a: TagAttrs,
    link: Option<Seq<char>>,
    o: ReadOptions,
) -> ReadState {
    if is_heading_name(n) {
        let t = heading_title(d, i);
        let hs = if t.len() > 0 { st.2.push((t, heading_level(n), st.0.len() as usize)) } else { st.2 };
        let ts = if o.heading_marker { st.3.push((heading_mark(), None)) } else { st.3 };
        (st.0, st.1, hs, ts)
    } else if n == "li"@ {
        (st.0, st.1, st.2, st.3.push((bullet(), None)))
    } else if n == "img"@ {
        if is_formula_image(a) {
            st
        } else {
            (st.0, st.1, st.2, st.3.push((image_label(a), image_target(a, link))))
        }
    } else {
        st
    }
}

/// Reads node `i` inside link `link`, down to `depth` levels of elements.
pub open spec fn read_node(
    d: HtmlDom,
    i: int,
    link: Option<Seq<char>>,
    o: ReadOptions,
    depth: nat,
    st: ReadState,
) -> ReadState
    decreases depth, 0int,
{
    let w = o.max_width as nat;
    match node_at(d, i) {
        Some(HtmlNode::Text(t)) => text_step(st, t@, link),
        Some(HtmlNode::Tag { name, attrs, children }) => {
            let n = name@;
            if is_skipped_name(n) {
                st
            } else if n == "table"@ {
                let s1 = flush(st, w);
                let b = table_block(d, i, o.show_footnotes, w as int, s1.0.len() as int);
                (s1.0 + b.0, s1.1 + b.1, s1.2, s1.3)
            } else if n == "pre"@ {
                let s1 = flush(st, w);
                (
                    s1.0 + code_block_lines(
                        code_lines(d, i),
                        w,
                        class_language(opt_view(attrs.class)),
                        o.code_line_numbers,
                    ),
                    s1.1,
                    s1.2,
                    s1.3,
                )
            } else {
                let s1 = if is_block_name(n) { flush(st, w) } else { st };
                let s2 = open_step(s1, d, i, n, attrs, link, o);
                let s3 = if depth == 0 {
                    s2
                } else {
                    read_children(d, children@, children@.len() as int, tag_link(n, attrs, link), o, (depth - 1) as nat, s2)
                };
                if is_block_name(n) { flush(s3, w) } else { s3 }
            }
        },
        _ => st,
    }
}

/// Reads the first `n` of `kids`.
pub open spec fn read_children(
    d: HtmlDom,
    kids: Seq<usize>,
    n: int,
    link: Option<Seq<char>>,
    o: ReadOptions,
    depth: nat,
    st: ReadState,
) -> ReadState
    decreases depth, n,
{
    if n <= 0 || n > kids.len() {
        st
    } else {
        read_node(d, kids[n - 1] as int, link, o, depth, read_children(d, kids, n - 1, link, o, depth, st))
    }
}

/// The state of `doc` and `tokens` as plain values.
pub open spec fn state_of(doc: ParsedDocument, tokens: Seq<TextToken>) -> ReadState {
    (lines_view(doc.lines@), links_view(doc.links@), headings_view(doc.headings@), tokens_view(tokens))
}

fn flush_exec(doc: &mut ParsedDocument, tokens: &mut Vec<TextToken>, w: usize)
    ensures
        state_of(*final(doc), final(tokens)@) == flush(state_of(*old(doc), old(tokens)@), w as nat),
        final(doc).reference_targets@ == old(doc).reference_targets@,
{
    if tokens.len() > 0 {
        assert(lines_view(doc.lines@).len() == doc.lines@.len());
        wrap_and_append_block(tokens, doc, w);
        tokens.clear();
        assert(tokens_view(tokens@) =~= Seq::<(Seq<char>, Option<Seq<char>>)>::empty());
    } else {
        assert(tokens_view(tokens@).len() == 0);
    }
}

fn is_one_of_blocks(n: &Vec<char>) -> (r: bool)
    ensures
        r == is_block_name(n@),
{
    chars_eq_str(n, "p") || chars_eq_str(n, "h1") || chars_eq_str(n, "h2") || chars_eq_str(n, "h3")
        || chars_eq_str(n, "h4") || chars_eq_str(n, "h5") || chars_eq_str(n, "h6") || chars_eq_str(n, "li")
        || chars_eq_str(n, "ul") || chars_eq_str(n, "ol") || chars_eq_str(n, "div") || chars_eq_str(
        n,
        "section",
    ) || chars_eq_str(n, "blockquote")
}

fn is_heading_exec(n: &Vec<char>) -> (r: bool)
    ensures
        r == is_heading_name(n@),
{
    chars_eq_str(n, "h1") || chars_eq_str(n, "h2") || chars_eq_str(n, "h3") || chars_eq_str(n, "h4")
        || chars_eq_str(n, "h5") || chars_eq_str(n, "h6")
}

fn tag_link_exec(n: &Vec<char>, a: &TagAttrs, link: &Option<String>) -> (r: Option<String>)
    ensures
        opt_view(r) == tag_link(n@, *a, opt_view(*link)),
{
    if chars_eq_str(n, "a") {
        match &a.href {
            Some(h) => match extract_title_from_href(h.as_str()) {
                Some(t) => Some(t),
                None => link.clone(),
            },
            None => match &a.title {
                Some(t) => Some(t.clone()),
                None => link.clone(),
            },
        }
    } else {
        link.clone()
    }
}

fn push_token(tokens: &mut Vec<TextToken>, t: TextToken)
    ensures
        tokens_view(final(tokens)@) == tokens_view(old(tokens)@).push(token_view(t)),
{
    let ghost before = tokens@;
    tokens.push(t);
    assert(tokens_view(tokens@) =~= tokens_view(before).push(token_view(t)));
}

fn text_step_exec(tokens: &mut Vec<TextToken>, t: &str, link: &Option<String>, Ghost(st): Ghost<ReadState>)
    requires
        tokens_view(old(tokens)@) == st.3,
    ensures
        tokens_view(final(tokens)@) == text_step(st, t@, opt_view(*link)).3,
{
    let dec = decode_html_entities(t);
    let c = replace_char(&replace_char(&replace_char(&to_chars(dec.as_str()), '\r', ' '), '\t', ' '), '\n', ' ');
    let single_space = c.len() == 1 && c[0] == ' ';
    proof {
        reveal_strlit(" ");
        if c@ == " "@ {
            assert(c@[0] == ' ');
        }
        if single_space {
            assert(c@ =~= " "@);
        }
    }
    if !is_all_whitespace(&c) || single_space {
        push_token(tokens, TextToken { text: string_from_chars(&c), link_target: link.clone() });
    }
}

fn read_node_exec(
    d: &HtmlDom,
    i: usize,
    link: &Option<String>,
    o: ReadOptions,
    depth: usize,
    doc: &mut ParsedDocument,
    tokens: &mut Vec<TextToken>,
)
    ensures
        state_of(*final(doc), final(tokens)@) == read_node(
            *d,
            i as int,
            opt_view(*link),
            o,
            depth as nat,
            state_of(*old(doc), old(tokens)@),
        ),
        final(doc).reference_targets@ == old(doc).reference_targets@,
    decreases depth, 0usize,
{
    let w = o.max_width;
    if i >= d.nodes.len() {
        return;
    }
    match &d.nodes[i] {
        HtmlNode::Text(t) => {
            let ghost st = state_of(*doc, tokens@);
            text_step_exec(tokens, t.as_str(), link, Ghost(st));
        },
        HtmlNode::Comment => {},
        HtmlNode::Tag { name, attrs, children } => {
            let n = to_chars(name.as_str());
            if chars_eq_str(&n, "style") || chars_eq_str(&n, "script") || chars_eq_str(&n, "noscript") {
                return;
            }
            if chars_eq_str(&n, "table") {
                flush_exec(doc, tokens, w);
                assert(lines_view(doc.lines@).len() == doc.lines@.len());
                render_table(d, i, doc, w, o.show_footnotes);
                return;
            }
            if chars_eq_str(&n, "pre") {
                flush_exec(doc, tokens, w);
                let lang = extract_language(&attrs.class);
                let ghost before = *doc;
                render_code_block(d, i, doc, w, lang, o.code_line_numbers);
                assert(headings_view(doc.headings@) == headings_view(before.headings@));
                return;
            }
            let block = is_one_of_blocks(&n);
            if block {
                flush_exec(doc, tokens, w);
            }
            let ghost s1 = state_of(*doc, tokens@);
            if is_heading_exec(&n) {
                handle_heading_tag(d, i, name.as_str(), doc, tokens, o.heading_marker);
                assert(lines_view(doc.lines@).len() == doc.lines@.len());
            } else if chars_eq_str(&n, "li") {
                push_token(tokens, TextToken { text: string_of("•"), link_target: None });
            } else if chars_eq_str(&n, "img") {
                match handle_img_tag(attrs, link) {
                    Some(t) => push_token(tokens, t),
                    None => {},
                }
            }
            let ghost s2 = state_of(*doc, tokens@);
            assert(s2 == open_step(s1, *d, i as int, n@, *attrs, opt_view(*link), o));
            let inner = tag_link_exec(&n, attrs, link);
            if depth > 0 {
                let mut k: usize = 0;
                while k < children.len()
                    invariant
                        k <= children.len(),
                        d.nodes@[i as int] == (HtmlNode::Tag { name: *name, attrs: *attrs, children: *children }),
                        depth > 0,
                        state_of(*doc, tokens@) == read_children(
                            *d,
                            children@,
                            k as int,
                            opt_view(inner),
                            o,
                            (depth - 1) as nat,
                            s2,
                        ),
                        doc.reference_targets@ == old(doc).reference_targets@,
                    decreases children.len() - k,
                {
                    read_node_exec(d, children[k], &inner, o, depth - 1, doc, tokens);
                    k += 1;
                }
            }
            if block {
                flush_exec(doc, tokens, w);
            }
        },
    }
}

/// The line a link starts on (0 for one without pieces).
pub open spec fn link_line(l: LinkV) -> int {
    if l.2.len() > 0 {
        l.2[0].0 as int
    } else {
        0
    }
}

/// The links among the first `n` of `ls` that start on line `k`, in order.
pub open spec fn links_on_line(ls: Seq<LinkV>, k: int, n: int) -> Seq<LinkV>
    decreases n,
{
    if n <= 0 {
        Seq::empty()
    } else if link_line(ls[n - 1]) == k {
        links_on_line(ls, k, n - 1).push(ls[n - 1])
    } else {
        links_on_line(ls, k, n - 1)
    }
}

/// The links that start on lines `k..end`, line by line.
pub open spec fn links_from_line(ls: Seq<LinkV>, k: int, end: int) -> Seq<LinkV>
    decreases end - k,
{
    if k >= end {
        Seq::empty()
    } else {
        links_on_line(ls, k, ls.len() as int) + links_from_line(ls, k + 1, end)
    }
}

/// The last line any of the first `n` links starts on.
pub open spec fn last_link_line(ls: Seq<LinkV>, n: int) -> int
    decreases n,
{
    if n <= 0 {
        0
    } else {
        let m = last_link_line(ls, n - 1);
        if link_line(ls[n - 1]) > m { link_line(ls[n - 1]) } else { m }
    }
}

/// `ls` ordered by the line each link starts on, links on the same line in
/// their order in `ls` (a stable sort by that line).
pub open spec fn in_line_order(ls: Seq<LinkV>) -> Seq<LinkV> {
    links_from_line(ls, 0, last_link_line(ls, ls.len() as int) + 1)
}

/// Links ordered by the line each starts on.
pub open spec fn links_sorted(ls: Seq<LinkV>) -> bool {
    forall|i: int, j: int| 0 <= i < j < ls.len() ==> link_line(#[trigger] ls[i]) <= link_line(#[trigger] ls[j])
}

proof fn lemma_links_on_line(ls: Seq<LinkV>, k: int, n: int)
    ensures
        forall|i: int| 0 <= i < links_on_line(ls, k, n).len() ==> link_line(#[trigger] links_on_line(ls, k, n)[i]) == k,
    decreases n,
{
    if n > 0 {
        lemma_links_on_line(ls, k, n - 1);
        let prev = links_on_line(ls, k, n - 1);
        if link_line(ls[n - 1]) == k {
            let cur = prev.push(ls[n - 1]);
            assert forall|i: int| 0 <= i < cur.len() implies link_line(#[trigger] cur[i]) == k by {
                if i < prev.len() {
                    assert(cur[i] == prev[i]);
                }
            }
        }
    }
}

proof fn lemma_links_from_line(ls: Seq<LinkV>, k: int, end: int)
    ensures
        forall|i: int| 0 <= i < links_from_line(ls, k, end).len() ==> k <= link_line(
            #[trigger] links_from_line(ls, k, end)[i],
        ),
        links_sorted(links_from_line(ls, k, end)),
    decreases end - k,
{
    if k < end {
        lemma_links_on_line(ls, k, ls.len() as int);
        lemma_links_from_line(ls, k + 1, end);
        let a = links_on_line(ls, k, ls.len() as int);
        let b = links_from_line(ls, k + 1, end);
        let c = a + b;
        assert(c == links_from_line(ls, k, end));
        assert forall|i: int| 0 <= i < c.len() implies k <= link_line(#[trigger] c[i]) by {
            if i >= a.len() {
                assert(c[i] == b[i - a.len()]);
            }
        }
        assert forall|i: int, j: int| 0 <= i < j < c.len() implies link_line(#[trigger] c[i]) <= link_line(
            #[trigger] c[j],
        ) by {
            if j < a.len() {
            } else if i < a.len() {
                assert(c[j] == b[j - a.len()]);
            } else {
                assert(c[i] == b[i - a.len()]);
                assert(c[j] == b[j - a.len()]);
            }
        }
    }
}

/// Putting links in line order leaves them sorted by the line each starts
/// on.
pub proof fn line_order_is_sorted(ls: Seq<LinkV>)
    ensures
        links_sorted(in_line_order(ls)),
{
    lemma_links_from_line(ls, 0, last_link_line(ls, ls.len() as int) + 1);
}

fn link_line_exec(l: &Link) -> (r: usize)
    ensures
        r as int == link_line(link_view(*l)),
{
    if l.span_indices.len() > 0 {
        l.span_indices[0].0
    } else {
        0
    }
}

pub fn copy_link(l: &Link) -> (r: Link)
    ensures
        link_view(r) == link_view(*l),
{
    let mut spans: Vec<(usize, usize)> = Vec::new();
    let mut k: usize = 0;
    while k < l.span_indices.len()
        invariant
            k <= l.span_indices.len(),
            spans@ == l.span_indices@.take(k as int),
        decreases l.span_indices.len() - k,
    {
        spans.push(l.span_indices[k]);
        assert(l.span_indices@.take(k + 1) =~= l.span_indices@.take(k as int).push(l.span_indices@[k as int]));
        k += 1;
    }
    assert(l.span_indices@.take(l.span_indices.len() as int) =~= l.span_indices@);
    Link { title: l.title.clone(), text: l.text.clone(), span_indices: spans }
}

/// The links of `links` ordered by the line they start on, stably.
pub fn sort_links_by_line(links: &Vec<Link>) -> (r: Vec<Link>)
    ensures
        links_view(r@) == in_line_order(links_view(links@)),
{
    let ghost lv = links_view(links@);
    let mut last: usize = 0;
    let mut i: usize = 0;
    while i < links.len()
        invariant
            i <= links.len(),
            lv == links_view(links@),
            last as int == last_link_line(lv, i as int),
        decreases links.len() - i,
    {
        let k = link_line_exec(&links[i]);
        if k > last {
            last = k;
        }
        i += 1;
    }
    let mut out: Vec<Link> = Vec::new();
    let mut line: usize = 0;
    assert(links_view(out@) =~= Seq::<LinkV>::empty());
    loop
        invariant
            lv == links_view(links@),
            last as int == last_link_line(lv, lv.len() as int),
            line <= last,
            links_view(out@) + links_from_line(lv, line as int, last + 1) == in_line_order(lv),
        decreases last - line,
    {
        let ghost start = links_view(out@);
        let mut j: usize = 0;
        while j < links.len()
            invariant
                j <= links.len(),
                lv == links_view(links@),
                links_view(out@) == start + links_on_line(lv, line as int, j as int),
            decreases links.len() - j,
        {
            let k = link_line_exec(&links[j]);
            if k == line {
                let c = copy_link(&links[j]);
                let ghost before = out@;
                out.push(c);
                assert(links_view(out@) =~= links_view(before).push(link_view(c)));
            }
            j += 1;
        }
        assert(start + links_from_line(lv, line as int, last + 1) =~= links_view(out@) + links_from_line(
            lv,
            line + 1,
            last + 1,
        ));
        if line == last {
            assert(links_from_line(lv, line + 1, last + 1) =~= Seq::<LinkV>::empty());
            assert(links_view(out@) + Seq::<LinkV>::empty() =~= links_view(out@));
            return out;
        }
        line += 1;
    }
}

/// What reading markup gives: its lines, links in line order, and headings.
/// Markup `tl` cannot read gives an empty document.
pub open spec fn read_article(html: Seq<char>, o: ReadOptions) -> (
    Seq<Seq<Seq<char>>>,
    Seq<LinkV>,
    Seq<(Seq<char>, u8, usize)>,
) {
    match html_dom(html) {
        Some(d) => {
            let st = read_children(
                d,
                d.roots@,
                d.roots@.len() as int,
                None,
                o,
                d.nodes@.len(),
                (Seq::empty(), Seq::empty(), Seq::empty(), Seq::empty()),
            );
            let f = flush(st, o.max_width as nat);
            (f.0, in_line_order(f.1), f.2)
        },
        None => (Seq::empty(), Seq::empty(), Seq::empty()),
    }
}

/// The options with the width actually used: at least 10 columns.
pub open spec fn effective(o: ReadOptions) -> ReadOptions {
    ReadOptions { max_width: if o.max_width >= 10 { o.max_width } else { 10 }, ..o }
}

/// The document holds, for each line, the line's text in lower case.
pub open spec fn lower_texts_ok(d: ParsedDocument) -> bool {
    &&& d.plain_text_lower@.len() == d.lines@.len()
    &&& forall|i: int|
        0 <= i < d.lines@.len() ==> (#[trigger] d.plain_text_lower@[i])@ == lowercase(joined(d.lines@[i]@))
}

/// The lower-cased text of each line of `lines`.
fn lower_texts(lines: &Vec<Vec<String>>) -> (r: Vec<String>)
    ensures
        r@.len() == lines@.len(),
        forall|i: int| 0 <= i < lines@.len() ==> (#[trigger] r@[i])@ == lowercase(joined(lines@[i]@)),
{
    let mut out: Vec<String> = Vec::new();
    let mut i: usize = 0;
    while i < lines.len()
        invariant
            i <= lines.len(),
            out@.len() == i,
            forall|k: int| 0 <= k < i ==> (#[trigger] out@[k])@ == lowercase(joined(lines@[k]@)),
        decreases lines.len() - i,
    {
        let t = joined_text(&lines[i]);
        out.push(str_to_lowercase(t.as_str()));
        i += 1;
    }
    out
}

/// Reads an article's markup into the reader's document: text laid out in
/// lines of at most `max_width` columns (at least 10), headings recorded at
/// the line they start, links in the order of the lines they start on.
pub fn parse_wikipedia_html(html: &str, options: ReadOptions) -> (r: ParsedDocument)
    ensures
        ({
            let a = read_article(html@, effective(options));
            &&& lines_view(r.lines@) == a.0
            &&& links_view(r.links@) == a.1
            &&& headings_view(r.headings@) == a.2
        }),
        links_sorted(links_view(r.links@)),
        lower_texts_ok(r),
        r.reference_targets@.len() == 0,
{
    let mut doc = ParsedDocument::default();
    let o = ReadOptions { max_width: if options.max_width >= 10 { options.max_width } else { 10 }, ..options };
    assert(o == effective(options));
    let dom = match HtmlDom::parse(html) {
        Some(d) => d,
        None => {
            assert(lines_view(doc.lines@) =~= Seq::<Seq<Seq<char>>>::empty());
            assert(links_view(doc.links@) =~= Seq::<LinkV>::empty());
            assert(headings_view(doc.headings@) =~= Seq::<(Seq<char>, u8, usize)>::empty());
            assert(links_sorted(links_view(doc.links@)));
            return doc;
        },
    };
    let mut tokens: Vec<TextToken> = Vec::new();
    let ghost st0 = state_of(doc, tokens@);
    assert(st0 =~= (
        Seq::<Seq<Seq<char>>>::empty(),
        Seq::<LinkV>::empty(),
        Seq::<(Seq<char>, u8, usize)>::empty(),
        Seq::<(Seq<char>, Option<Seq<char>>)>::empty(),
    ));
    let none: Option<String> = None;
    let mut k: usize = 0;
    while k < dom.roots.len()
        invariant
            k <= dom.roots.len(),
            state_of(doc, tokens@) == read_children(dom, dom.roots@, k as int, opt_view(none), o, dom.nodes@.len(), st0),
            doc.reference_targets@.len() == 0,
        decreases dom.roots.len() - k,
    {
        read_node_exec(&dom, dom.roots[k], &none, o, dom.nodes.len(), &mut doc, &mut tokens);
        k += 1;
    }
    flush_exec(&mut doc, &mut tokens, o.max_width);
    let sorted = sort_links_by_line(&doc.links);
    proof {
        line_order_is_sorted(links_view(doc.links@));
    }
    doc.links = sorted;
    doc.plain_text_lower = lower_texts(&doc.lines);
    doc
}

/// `a` begins with all of `b`.
pub open spec fn extends<A>(a: Seq<A>, b: Seq<A>) -> bool {
    &&& b.len() <= a.len()
    &&& forall|k: int| 0 <= k < b.len() ==> #[trigger] a[k] == b[k]
}

proof fn lemma_node_keeps_headings(
    d: HtmlDom,
    i: int,
    link: Option<Seq<char>>,
    o: ReadOptions,
    depth: nat,
    st: ReadState,
)
    ensures
        extends(read_node(d, i, link, o, depth, st).2, st.2),
    decreases depth, 0int,
{
    match node_at(d, i) {
        Some(HtmlNode::Tag { name, attrs, children }) => {
            let n = name@;
            let w = o.max_width as nat;
            if !is_skipped_name(n) && n != "table"@ && n != "pre"@ {
                let s1 = if is_block_name(n) { flush(st, w) } else { st };
                let s2 = open_step(s1, d, i, n, attrs, link, o);
                if depth > 0 {
                    lemma_children_keep_headings(
                        d,
                        children@,
                        children@.len() as int,
                        tag_link(n, attrs, link),
                        o,
                        (depth - 1) as nat,
                        s2,
                    );
                }
            }
        },
        _ => {},
    }
}

proof fn lemma_children_keep_headings(
    d: HtmlDom,
    kids: Seq<usize>,
    n: int,
    link: Option<Seq<char>>,
    o: ReadOptions,
    depth: nat,
    st: ReadState,
)
    ensures
        extends(read_children(d, kids, n, link, o, depth, st).2, st.2),
    decreases depth, n,
{
    if n > 0 && n <= kids.len() {
        lemma_children_keep_headings(d, kids, n - 1, link, o, depth, st);
        let before = read_children(d, kids, n - 1, link, o, depth, st);
        lemma_node_keeps_headings(d, kids[n - 1] as int, link, o, depth, before);
    }
}

/// Each element `h1` to `h6` whose text is not blank records one heading
/// when it is read: its text, the level that the digit of its name gives,
/// and the line at which it opens (after the text before it is laid out).
/// The headings recorded before it stay, and those inside it come after.
pub proof fn heading_tags_record_headings(
    d: HtmlDom,
    i: int,
    link: Option<Seq<char>>,
    o: ReadOptions,
    depth: nat,
    st: ReadState,
    digit: char,
)
    requires
        '1' <= digit <= '6',
        node_at(d, i) matches Some(HtmlNode::Tag { name, .. }) && name@ == seq!['h', digit],
    ensures
        ({
            let t = heading_title(d, i);
            let at = flush(st, o.max_width as nat).0.len();
            let r = read_node(d, i, link, o, depth, st).2;
            &&& extends(r, st.2)
            &&& t.len() > 0 ==> r.len() > st.2.len() && r[st.2.len() as int].0 == t && r[st.2.len() as int].1
                == digit as int - '0' as int && r[st.2.len() as int].2 == at as usize
        }),
{
    reveal_strlit("h1");
    reveal_strlit("h2");
    reveal_strlit("h3");
    reveal_strlit("h4");
    reveal_strlit("h5");
    reveal_strlit("h6");
    reveal_strlit("style");
    reveal_strlit("script");
    reveal_strlit("noscript");
    reveal_strlit("table");
    reveal_strlit("pre");
    reveal_strlit("li");
    reveal_strlit("img");
    let n = seq!['h', digit];
    if digit == '1' {
        assert(n =~= "h1"@);
    } else if digit == '2' {
        assert(n =~= "h2"@);
    } else if digit == '3' {
        assert(n =~= "h3"@);
    } else if digit == '4' {
        assert(n =~= "h4"@);
    } else if digit == '5' {
        assert(n =~= "h5"@);
    } else {
        assert(n =~= "h6"@);
    }
    assert(is_heading_name(n));
    assert(is_block_name(n));
    assert(!is_skipped_name(n));
    assert(n != "table"@ && n != "pre"@ && n != "li"@ && n != "img"@);
    lemma_node_keeps_headings(d, i, link, o, depth, st);
    match node_at(d, i) {
        Some(HtmlNode::Tag { name, attrs, children }) => {
            let w = o.max_width as nat;
            let s1 = flush(st, w);
            let s2 = open_step(s1, d, i, n, attrs, link, o);
            assert(s1.2 == st.2);
            if depth > 0 {
                lemma_children_keep_headings(
                    d,
                    children@,
                    children@.len() as int,
                    tag_link(n, attrs, link),
                    o,
                    (depth - 1) as nat,
                    s2,
                );
            }
            let s3 = if depth == 0 {
                s2
            } else {
                read_children(d, children@, children@.len() as int, tag_link(n, attrs, link), o, (depth - 1) as nat, s2)
            };
            assert(read_node(d, i, link, o, depth, st) == flush(s3, w));
            assert(flush(s3, w).2 == s3.2);
            assert(extends(s3.2, s2.2));
            assert(n[1] == digit);
            assert(heading_level(n) == digit as int - '0' as int);
            if heading_title(d, i).len() > 0 {
                assert(s2.2 == st.2.push((heading_title(d, i), heading_level(n), s1.0.len() as usize)));
                assert(s2.2[st.2.len() as int] == (heading_title(d, i), heading_level(n), s1.0.len() as usize));
                assert(s3.2[st.2.len() as int] == s2.2[st.2.len() as int]);
            }
        },
        _ => {},
    }
}

} // verus!
