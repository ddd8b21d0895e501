use blog_builder::emitter::{code_paths, escape, page_name, today, Emitter, Snippet};
use blog_builder::error::Error;
use blog_builder::parser::expression::Expression;
use blog_builder::parser::Parser;

const HEAD: &str = "<!DOCTYPE html>\n<html>\n<head>\n<meta charset=\"utf-8\">\n<title>";
const NECK: &str = "</title>\n</head>\n<body>\n\n";
const FOOT: &str = "</body>\n</html>\n";

fn text(s: &str) -> Expression {
    Expression::Alphanumeric(s.to_string())
}

fn plain_emitter() -> Emitter {
    Emitter::new("Monday, January 01, 2024".to_string(), vec![])
}

fn render(e: &Expression) -> String {
    let mut out = String::new();
    plain_emitter().render(e, &mut out).unwrap();
    out
}

#[test]
fn headings_render_by_level() {
    assert_eq!(render(&Expression::Header(vec![text("a")])), "<h1>a</h1>");
    assert_eq!(render(&Expression::Title(vec![text("a")])), "<h2>a</h2>");
    assert_eq!(render(&Expression::Heading(vec![text("a")])), "<h3>a</h3>");
    assert_eq!(render(&Expression::Subheading(vec![text("a")])), "<h4>a</h4>");
    assert_eq!(render(&Expression::Subtitle(vec![text("a")])), "<h5>a</h5>");
    assert_eq!(render(&Expression::Subsubtitle(vec![text("a")])), "<h6>a</h6>");
}

#[test]
fn text_goes_out_as_it_stands() {
    assert_eq!(render(&text("a < b & c > d \"q\"")), "a < b & c > d \"q\"");
}

#[test]
fn leaves_render_to_their_marks() {
    assert_eq!(render(&Expression::Newline), "");
    assert_eq!(render(&Expression::Pagename("Home".to_string())), "");
    assert_eq!(render(&Expression::Menu), "<menu>");
    assert_eq!(render(&Expression::Footnotes), "<footnotes>");
}

#[test]
fn date_renders_with_its_marker() {
    assert_eq!(
        render(&Expression::Date),
        "<p class=\"last-updated-date\">Last Updated Monday, January 01, 2024</p>"
    );
}

#[test]
fn blocks_render_with_their_tags() {
    assert_eq!(render(&Expression::Paragraph(vec![text("a")])), "<p>a</p>");
    assert_eq!(render(&Expression::Footer(vec![text("a")])), "<h6 class=\"footer\">a</h6>");
    assert_eq!(render(&Expression::Footnote(vec![text("a")])), "<footnote>a</footnote>");
    assert_eq!(render(&Expression::Topblock(vec![text("a")])), "<div class=\"topblock\">a</div>");
    assert_eq!(render(&Expression::Tiles(vec![text("a")])), "<div class=\"tiles\">\na\n</div>");
}

#[test]
fn emphasis_renders_with_spaces_around() {
    assert_eq!(render(&Expression::Bold(vec![text("a")])), " <strong>a</strong> ");
    assert_eq!(render(&Expression::Italic(vec![text("a")])), " <em>a</em> ");
}

#[test]
fn nested_tags_close_in_reverse_order() {
    let tree = Expression::Italic(vec![Expression::Bold(vec![text("text")])]);
    assert_eq!(render(&tree), " <em> <strong>text</strong> </em> ");
}

#[test]
fn children_render_in_order() {
    let tree = Expression::Paragraph(vec![
        text("one"),
        Expression::Bold(vec![text("two")]),
        text("three"),
        Expression::Italic(vec![]),
    ]);
    assert_eq!(render(&tree), "<p>one <strong>two</strong> three <em></em> </p>");
}

#[test]
fn quote_renders_both_parts() {
    let tree = Expression::BlockQuote { quote: vec![text("To be")], citation: vec![text("W. S.")] };
    assert_eq!(render(&tree), " <p class=\"block\">To be</p><p class=\"citation\">~ W. S.</p>");
}

#[test]
fn link_renders_its_address_unescaped() {
    let tree = Expression::Hyperlink { name: vec![text("n")], href: "a\"b".to_string() };
    assert_eq!(render(&tree), " <a href=\"a\"b\">n</a> ");
}

#[test]
fn tile_renders_its_fields() {
    let tree = Expression::Tile {
        name: vec![text("n")],
        img: "i.png".to_string(),
        href: "h.html".to_string(),
    };
    assert_eq!(
        render(&tree),
        " <a class=\"tile\" href=\"h.html\" style=\"background-image: url('i.png'); background-position: center;\">n</a> "
    );
}

#[test]
fn images_render_their_fields() {
    let image = Expression::Image {
        img: "i.png".to_string(),
        alt: "a".to_string(),
        scale: "120".to_string(),
    };
    assert_eq!(render(&image), " <img src=\"i.png\" style=\"height: 120px;\" alt=\"a\"> ");
    let floating = Expression::FloatingImage { img: "i.png".to_string(), alt: "a".to_string() };
    assert_eq!(render(&floating), " <img src=\"i.png\" class=\"floating\" alt=\"a\"> ");
}

#[test]
fn code_renders_the_escaped_snippet() {
    let emitter = Emitter::new(
        "d".to_string(),
        vec![
            Snippet { path: "other.rs".to_string(), contents: "no".to_string() },
            Snippet {
                path: "main.rs".to_string(),
                contents: "fn f<T>(x: &T) -> Vec<T> { a & b }".to_string(),
            },
            Snippet { path: "main.rs".to_string(), contents: "second".to_string() },
        ],
    );
    let tree = Expression::Code { language: "rust".to_string(), code: "main.rs".to_string() };
    let mut out = "before".to_string();
    assert_eq!(emitter.render(&tree, &mut out), Ok(()));
    assert_eq!(
        out,
        "before<pre><code class=\"language-rust\">fn f&lt;T&gt;(x: &T) -&gt; Vec&lt;T&gt; { a & b }</code></pre>"
    );
}

#[test]
fn missing_snippet_fails() {
    let emitter = Emitter::new(
        "d".to_string(),
        vec![Snippet { path: "other.rs".to_string(), contents: "no".to_string() }],
    );
    let code = Expression::Code { language: "rust".to_string(), code: "main.rs".to_string() };
    let mut out = String::new();
    assert_eq!(emitter.render(&code, &mut out), Err(Error::CannotOpenFile));
    let nested = vec![text("a"), Expression::Footer(vec![Expression::Bold(vec![code])])];
    assert_eq!(emitter.emit_text(&nested, "t"), Err(Error::CannotOpenFile));
    assert_eq!(emitter.emit(&nested, "t"), Err(Error::CannotOpenFile));
}

#[test]
fn escape_replaces_angle_brackets_only() {
    assert_eq!(escape("<a href=\"x\">&amp;</a>"), "&lt;a href=\"x\"&gt;&amp;&lt;/a&gt;");
    assert_eq!(escape(""), "");
    assert_eq!(escape("<<>>"), "&lt;&lt;&gt;&gt;");
}

#[test]
fn empty_document_is_the_bare_frame() {
    let page = plain_emitter().emit_text(&vec![], "New Page").unwrap();
    assert_eq!(page, format!("{}New Page{}{}", HEAD, NECK, FOOT));
}

#[test]
fn every_node_gets_lines_of_its_own() {
    let nodes = vec![
        Expression::Header(vec![text("Top")]),
        Expression::Newline,
        Expression::Paragraph(vec![text("body")]),
        Expression::Date,
    ];
    let page = plain_emitter().emit_text(&nodes, "T").unwrap();
    assert_eq!(
        page,
        format!(
            "{}T{}<h1>Top</h1>\n\n<p>body</p>\n\n<p class=\"last-updated-date\">Last Updated Monday, January 01, 2024</p>\n\n{}",
            HEAD, NECK, FOOT
        )
    );
}

#[test]
fn nodes_that_render_to_nothing_take_no_lines() {
    let nodes = vec![
        Expression::Pagename("P".to_string()),
        Expression::Newline,
        text(""),
        text("x"),
        Expression::Newline,
    ];
    let page = plain_emitter().emit_text(&nodes, "P").unwrap();
    assert_eq!(page, format!("{}P{}x\n\n{}", HEAD, NECK, FOOT));
}

#[test]
fn bytes_are_the_text_in_utf8() {
    let nodes = vec![text("Grüße")];
    let emitter = plain_emitter();
    let text = emitter.emit_text(&nodes, "Ü").unwrap();
    let bytes = emitter.emit(&nodes, "Ü").unwrap();
    assert_eq!(bytes, text.as_bytes().to_vec());
    assert_eq!(String::from_utf8(bytes).unwrap(), text);
}

#[test]
fn rendering_twice_gives_the_same_bytes() {
    let nodes = Parser::new()
        .parse("@pagename{P}\n# T\n@p a *b* _c_\n@date\n@tiles{@tile{h}{i}{n}}")
        .unwrap();
    let emitter = plain_emitter();
    let first = emitter.emit(&nodes, "P").unwrap();
    let second = emitter.emit(&nodes, "P").unwrap();
    assert_eq!(first, second);
    let other = Emitter::new("Monday, January 01, 2024".to_string(), vec![]);
    assert_eq!(other.emit(&nodes, "P").unwrap(), first);
}

#[test]
fn page_name_is_the_first_node_if_it_names_the_page() {
    assert_eq!(page_name(&vec![]), "New Page");
    assert_eq!(page_name(&vec![text("x")]), "New Page");
    assert_eq!(page_name(&vec![Expression::Pagename("Home".to_string())]), "Home");
    assert_eq!(
        page_name(&vec![Expression::Newline, Expression::Pagename("Home".to_string())]),
        "New Page"
    );
    assert_eq!(
        page_name(&vec![Expression::Footer(vec![Expression::Pagename("Home".to_string())])]),
        "New Page"
    );
}

#[test]
fn code_paths_come_in_document_order() {
    let nodes = Parser::new()
        .parse("@code{a}{one}\n@quote{@code{b}{two}}{*@code{c}{three}*}\n@footer{@code{d}{one}}")
        .unwrap();
    assert_eq!(
        code_paths(&nodes),
        vec!["one".to_string(), "two".to_string(), "three".to_string(), "one".to_string()]
    );
    assert_eq!(code_paths(&vec![text("none")]), Vec::<String>::new());
}

#[test]
fn today_is_a_written_date() {
    let date = today();
    assert!(!date.is_empty());
    assert_ne!(date, "%A, %B %d, %Y");
    assert!(!date.contains('%'));
    assert!(!date.contains('\n'));
    let parts: Vec<&str> = date.split(", ").collect();
    assert_eq!(parts.len(), 3);
    let days = ["Monday", "Tuesday", "Wednesday", "Thursday", "Friday", "Saturday", "Sunday"];
    assert!(days.contains(&parts[0]));
    assert_eq!(parts[2].len(), 4);
    assert!(parts[2].chars().all(|c| c.is_ascii_digit()));
}

#[test]
fn emitter_for_today_writes_the_date_of_today() {
    let emitter = Emitter::for_today(vec![]);
    let mut out = String::new();
    emitter.render(&Expression::Date, &mut out).unwrap();
    assert!(out.starts_with("<p class=\"last-updated-date\">Last Updated "));
    assert!(out.ends_with("</p>"));
    assert!(out.len() > "<p class=\"last-updated-date\">Last Updated </p>".len());
}
