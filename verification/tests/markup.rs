use wikid::parser::blocks::TextToken;
use wikid::parser::codeblocks::{extract_language, pygments_class_style, CodeStyle};
use wikid::parser::document::{parse_wikipedia_html, sort_links_by_line, ReadOptions};
use wikid::parser::elements::handle_img_tag;
use wikid::parser::entities::decode_html_entities;
use wikid::parser::html::{HtmlDom, TagAttrs};
use wikid::parser::tables::{allocate_column_widths, parse_table_into_grid, wrap_cell_tokens, CellEntry};
use wikid::parser::types::Link;

fn opts(width: usize) -> ReadOptions {
    ReadOptions { max_width: width, show_footnotes: false, heading_marker: false, code_line_numbers: false }
}

fn l(parts: &[&str]) -> Vec<String> {
    parts.iter().map(|s| s.to_string()).collect()
}

fn bar(n: usize) -> String {
    "─".repeat(n)
}

fn no_attrs() -> TagAttrs {
    TagAttrs { id: None, class: None, href: None, title: None, alt: None, src: None, colspan: None, rowspan: None }
}

#[test]
fn entities_are_decoded_left_to_right() {
    assert_eq!(
        decode_html_entities("Tom &amp; Jerry &lt;3 &#91;1&#93; &#x41; &nope; &"),
        "Tom & Jerry <3 [1] A &nope; &"
    );
    assert_eq!(decode_html_entities("&amp;lt;"), "&lt;");
    assert_eq!(decode_html_entities("a&nbsp;b"), "a\u{a0}b");
    assert_eq!(decode_html_entities("&#xD800;"), "&#xD800;");
}

#[test]
fn markup_tree_gives_inner_text() {
    let dom = HtmlDom::parse("<p>Hi <b>there</b><!-- no --></p>").unwrap();
    assert_eq!(dom.roots.len(), 1);
    assert_eq!(dom.inner_text(dom.roots[0]), "Hi there");
    assert_eq!(dom.inner_text(dom.nodes.len() + 3), "");
}

#[test]
fn paragraph_with_link() {
    let doc = parse_wikipedia_html("<p>Hello <a href=\"/wiki/World\">world</a></p>", opts(80));
    assert_eq!(doc.lines, vec![l(&["Hello ", "world"]), l(&[])]);
    assert_eq!(
        doc.links,
        vec![Link { title: "World".to_string(), text: "world".to_string(), span_indices: vec![(0, 1)] }]
    );
    assert!(doc.headings.is_empty());
}

#[test]
fn words_move_to_the_next_line() {
    let doc = parse_wikipedia_html("<p>aaaa bbbb cccc</p>", opts(10));
    assert_eq!(doc.lines, vec![l(&["aaaa ", "bbbb "]), l(&["cccc"]), l(&[])]);
}

#[test]
fn headings_are_recorded_and_marked() {
    let mut o = opts(80);
    o.heading_marker = true;
    let doc = parse_wikipedia_html("<h2>History</h2><p>Text</p>", o);
    assert_eq!(doc.lines, vec![l(&["▍", "History"]), l(&[]), l(&["Text"]), l(&[])]);
    assert_eq!(doc.headings.len(), 1);
    assert_eq!(doc.headings[0].title, "History");
    assert_eq!(doc.headings[0].level, 2);
    assert_eq!(doc.headings[0].line_idx, 0);
}

#[test]
fn list_items_get_bullets() {
    let doc = parse_wikipedia_html("<ul><li>One</li><li>Two</li></ul>", opts(80));
    assert_eq!(doc.lines, vec![l(&["•", "One"]), l(&[]), l(&["•", "Two"]), l(&[])]);
}

#[test]
fn scripts_and_styles_are_not_read() {
    let doc = parse_wikipedia_html("<style>.a{}</style><p>Body</p><script>x()</script>", opts(80));
    assert_eq!(doc.lines, vec![l(&["Body"]), l(&[])]);
}

#[test]
fn code_listing_is_framed() {
    let doc = parse_wikipedia_html("<pre>let x = 1;\nlet y = 2;\n</pre>", opts(30));
    assert_eq!(
        doc.lines,
        vec![
            vec!["┌".to_string(), bar(28)],
            l(&["│ ", "let x = 1;"]),
            l(&["│ ", "let y = 2;"]),
            vec!["└".to_string(), bar(28)],
            l(&[]),
        ]
    );
}

#[test]
fn code_listing_names_its_language_and_numbers_lines() {
    let mut o = opts(30);
    o.code_line_numbers = true;
    let doc = parse_wikipedia_html("<pre class=\"mw-highlight-lang-rust\">fn main() {}</pre>", o);
    assert_eq!(doc.lines[0], vec!["┌─".to_string(), " rust ".to_string(), bar(20)]);
    assert_eq!(doc.lines[1], l(&["│ ", " 1 ", "fn main() {}"]));
    assert_eq!(doc.lines.len(), 4);
}

#[test]
fn long_code_lines_continue() {
    let doc = parse_wikipedia_html("<pre>abcdefghijklmnopqrstuvwxyz</pre>", opts(20));
    assert_eq!(doc.lines[1][0], "│ ");
    assert_eq!(doc.lines[1].len(), 1 + 18);
    assert_eq!(doc.lines[2][0], "│ ");
    assert_eq!(doc.lines[2][1], "s");
    assert_eq!(doc.lines.len(), 5);
}

#[test]
fn highlighter_classes() {
    assert_eq!(pygments_class_style("nf x"), CodeStyle::Name);
    assert_eq!(pygments_class_style("x k"), CodeStyle::Keyword);
    assert_eq!(pygments_class_style("s2"), CodeStyle::Str);
    assert_eq!(pygments_class_style("foo bar"), CodeStyle::Plain);
}

#[test]
fn language_of_a_block() {
    assert_eq!(
        extract_language(&Some("mw-highlight mw-highlight-lang-python".to_string())),
        Some("python".to_string())
    );
    assert_eq!(extract_language(&Some("language-go".to_string())), Some("go".to_string()));
    assert_eq!(extract_language(&Some("lang-c".to_string())), Some("c".to_string()));
    assert_eq!(extract_language(&Some("highlight".to_string())), None);
    assert_eq!(extract_language(&None), None);
}

#[test]
fn image_labels() {
    let mut a = no_attrs();
    a.alt = Some("Cat".to_string());
    a.src = Some("//upload.wikimedia.org/c.jpg".to_string());
    let t = handle_img_tag(&a, &None).unwrap();
    assert_eq!(t.text, " [image: Cat] ");
    assert_eq!(t.link_target, Some("https://upload.wikimedia.org/c.jpg".to_string()));
    let mut m = no_attrs();
    m.class = Some("mwe-math-fallback-image-inline".to_string());
    assert!(handle_img_tag(&m, &None).is_none());
    let mut latex = no_attrs();
    latex.alt = Some("{\\displaystyle x}".to_string());
    assert!(handle_img_tag(&latex, &None).is_none());
    let plain = handle_img_tag(&no_attrs(), &Some("Dog".to_string())).unwrap();
    assert_eq!(plain.text, " [image: image] ");
    assert_eq!(plain.link_target, Some("Dog".to_string()));
}

#[test]
fn table_with_header_row() {
    let doc = parse_wikipedia_html(
        "<table><tr><th>A</th><th>B</th></tr><tr><td>1</td><td>2</td></tr></table>",
        opts(80),
    );
    let b5 = bar(5);
    assert_eq!(
        doc.lines,
        vec![
            vec!["┌".to_string(), b5.clone(), "┬".to_string(), b5.clone(), "┐".to_string()],
            l(&["│ ", "A", "  ", " │ ", "B", "  ", " │"]),
            vec!["├".to_string(), "═".repeat(5), "┼".to_string(), "═".repeat(5), "┤".to_string()],
            l(&["│ ", "1", "  ", " │ ", "2", "  ", " │"]),
            vec!["└".to_string(), b5.clone(), "┴".to_string(), b5, "┘".to_string()],
            l(&[]),
        ]
    );
}

#[test]
fn table_cell_links_point_into_the_row() {
    let doc = parse_wikipedia_html("<table><tr><td><a href=\"/wiki/X\">x</a> y</td></tr></table>", opts(80));
    assert_eq!(doc.lines[1], l(&["│ ", "x", " ", "y", " │"]));
    assert_eq!(
        doc.links,
        vec![Link { title: "X".to_string(), text: "x".to_string(), span_indices: vec![(1, 1)] }]
    );
}

#[test]
fn table_column_span() {
    let doc = parse_wikipedia_html(
        "<table><tr><td colspan=\"2\">wide</td></tr><tr><td>a</td><td>b</td></tr></table>",
        opts(80),
    );
    assert_eq!(doc.lines[0], vec!["┌".to_string(), bar(11), "┐".to_string()]);
    assert_eq!(doc.lines[1], l(&["│ ", "wide", "     ", " │"]));
    assert_eq!(doc.lines[2], vec!["├".to_string(), bar(11), "┤".to_string()]);
    assert_eq!(doc.lines[3], l(&["│ ", "a", "  ", " │ ", "b", "  ", " │"]));
}

#[test]
fn table_row_span() {
    let html = "<table><tr><td rowspan=\"2\">L</td><td>a</td></tr><tr><td>b</td></tr></table>";
    let dom = HtmlDom::parse(html).unwrap();
    let grid = parse_table_into_grid(&dom, dom.roots[0], false).unwrap();
    assert_eq!(grid.num_rows, 2);
    assert_eq!(grid.num_cols, 2);
    assert!(matches!(grid.cells[1][0], CellEntry::Covered { origin_r: 0, origin_c: 0 }));
    match &grid.cells[1][1] {
        CellEntry::Origin { tokens, colspan, rowspan, is_header } => {
            assert_eq!(tokens[0].text, "b");
            assert_eq!((*colspan, *rowspan, *is_header), (1, 1, false));
        },
        _ => panic!("b should start at (1, 1)"),
    }
    let doc = parse_wikipedia_html(html, opts(80));
    assert_eq!(doc.lines[1], l(&["│ ", "L", "  ", " │ ", "a", "  ", " │"]));
    assert_eq!(doc.lines[2], vec!["├".to_string(), " ".repeat(5), "┤".to_string(), bar(5), "┤".to_string()]);
    assert_eq!(doc.lines[3], l(&["│ ", "   ", " │ ", "b", "  ", " │"]));
}

#[test]
fn table_caption_and_empty_table() {
    let doc = parse_wikipedia_html("<table><caption> Scores </caption><tr><td>9</td></tr></table>", opts(80));
    assert_eq!(doc.lines[0], l(&[" 📋 ", "Scores"]));
    let empty = parse_wikipedia_html("<table></table><p>after</p>", opts(80));
    assert_eq!(empty.lines, vec![l(&["after"]), l(&[])]);
}

#[test]
fn cell_line_breaks() {
    let toks = vec![
        TextToken { text: "a".to_string(), link_target: None },
        TextToken { text: "\n".to_string(), link_target: None },
        TextToken { text: "b".to_string(), link_target: None },
    ];
    let (lines, links) = wrap_cell_tokens(&toks, 10);
    assert_eq!(lines, vec![l(&["a"]), l(&["b"])]);
    assert!(links.is_empty());
    let (none, _) = wrap_cell_tokens(&Vec::new(), 10);
    assert_eq!(none, vec![l(&[])]);
}

#[test]
fn columns_share_the_room() {
    assert_eq!(allocate_column_widths(&vec![3, 3], &vec![5, 7], 80), vec![5, 7]);
    assert_eq!(allocate_column_widths(&vec![3, 3], &vec![50, 50], 40), vec![17, 16]);
}

#[test]
fn links_sort_by_line_stably() {
    let mk = |t: &str, line: usize| Link { title: t.to_string(), text: t.to_string(), span_indices: vec![(line, 0)] };
    let sorted = sort_links_by_line(&vec![mk("b", 2), mk("a", 1), mk("c", 2), mk("d", 0)]);
    let titles: Vec<&str> = sorted.iter().map(|k| k.title.as_str()).collect();
    assert_eq!(titles, vec!["d", "a", "b", "c"]);
}

#[test]
fn narrow_tables_keep_three_columns_each() {
    let w = allocate_column_widths(&vec![20, 20, 20, 20], &vec![40, 40, 40, 40], 10);
    assert_eq!(w.len(), 4);
    assert!(w.iter().all(|x| *x >= 3));
    assert_eq!(allocate_column_widths(&vec![1, 1], &vec![1, 2], 80), vec![3, 3]);
}

#[test]
fn documents_keep_lower_case_lines_and_sorted_links() {
    let html = "<p>The <a href=\"/wiki/Cat\">Cat</a> met a <a href=\"/wiki/Dog\">DOG</a> and many other animals in the garden behind the house</p>";
    let doc = parse_wikipedia_html(html, opts(20));
    assert_eq!(doc.plain_text_lower.len(), doc.lines.len());
    for (i, line) in doc.lines.iter().enumerate() {
        assert_eq!(doc.plain_text_lower[i], line.concat().to_lowercase());
    }
    assert_eq!(doc.plain_text_lower[0], "the cat met a dog ");
    let firsts: Vec<usize> = doc.links.iter().map(|l| l.span_indices.first().map(|s| s.0).unwrap_or(0)).collect();
    assert!(firsts.windows(2).all(|w| w[0] <= w[1]));
}
