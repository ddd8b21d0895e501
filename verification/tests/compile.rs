use blog_builder::emitter::{Emitter, Snippet};
use blog_builder::error::Error;
use blog_builder::parser::Parser;
use blog_builder::{compile, publish};

const HEAD: &str = "<!DOCTYPE html>\n<html>\n<head>\n<meta charset=\"utf-8\">\n<title>";
const NECK: &str = "</title>\n</head>\n<body>\n\n";
const FOOT: &str = "</body>\n</html>\n";

fn on(date: &str) -> Emitter {
    Emitter::new(date.to_string(), vec![])
}

const SOURCE: &str = "@pagename{Home}\n# Welcome\n@p Some *bold* and _italic_ text.\n@date\n@footer{bye}\n";

#[test]
fn empty_source_gives_the_default_title_and_the_bare_frame() {
    let compiled = compile("", &on("d"), None).unwrap();
    assert_eq!(compiled.page, format!("{}New Page{}{}", HEAD, NECK, FOOT));
    assert_eq!(compiled.write, Some(true));
}

#[test]
fn page_takes_its_name_from_the_first_node() {
    let compiled = compile("@pagename{Home}\ntext", &on("d"), None).unwrap();
    assert_eq!(compiled.page, format!("{}Home{}text\n\n{}", HEAD, NECK, FOOT));
}

#[test]
fn nested_emphasis_compiles_to_nested_tags() {
    let compiled = compile("_*text*_", &on("d"), None).unwrap();
    assert_eq!(
        compiled.page,
        format!("{}New Page{} <em> <strong>text</strong> </em> \n\n{}", HEAD, NECK, FOOT)
    );
}

#[test]
fn first_publish_writes_the_whole_document() {
    let compiled = compile(SOURCE, &on("Monday, January 01, 2024"), None).unwrap();
    assert_eq!(compiled.write, Some(true));
    assert_eq!(
        compiled.page,
        format!(
            "{}Home{}<h1>Welcome</h1>\n\n<p>Some <strong>bold</strong> and <em>italic</em> text.</p>\n\n<p class=\"last-updated-date\">Last Updated Monday, January 01, 2024</p>\n\n<h6 class=\"footer\">bye</h6>\n\n{}",
            HEAD, NECK, FOOT
        )
    );
}

#[test]
fn paragraph_text_after_the_directive() {
    let compiled = compile("@p Some *bold* text.", &on("d"), None).unwrap();
    assert_eq!(
        compiled.page,
        format!("{}New Page{}<p>Some <strong>bold</strong> text.</p>\n\n{}", HEAD, NECK, FOOT)
    );
}

#[test]
fn second_run_on_the_same_day_does_not_write() {
    let first = compile(SOURCE, &on("Monday, January 01, 2024"), None).unwrap();
    let second = compile(SOURCE, &on("Monday, January 01, 2024"), Some(&first.page)).unwrap();
    assert_eq!(second.page, first.page);
    assert_eq!(second.write, Some(false));
}

#[test]
fn second_run_on_another_day_does_not_write() {
    let first = compile(SOURCE, &on("Monday, January 01, 2024"), None).unwrap();
    let second = compile(SOURCE, &on("Tuesday, January 02, 2024"), Some(&first.page)).unwrap();
    assert_ne!(second.page, first.page);
    assert_eq!(second.write, Some(false));
}

#[test]
fn changed_source_writes() {
    let first = compile(SOURCE, &on("Monday, January 01, 2024"), None).unwrap();
    let changed = SOURCE.replace("Welcome", "Hello");
    let second = compile(&changed, &on("Monday, January 01, 2024"), Some(&first.page)).unwrap();
    assert_eq!(second.write, Some(true));
    let third = compile(&changed, &on("Friday, January 05, 2024"), Some(&first.page)).unwrap();
    assert_eq!(third.write, Some(true));
}

#[test]
fn date_that_comes_or_goes_writes() {
    let without = SOURCE.replace("@date\n", "");
    let first = compile(&without, &on("Monday, January 01, 2024"), None).unwrap();
    let second = compile(SOURCE, &on("Monday, January 01, 2024"), Some(&first.page)).unwrap();
    assert_eq!(second.write, Some(true));
    let third = compile(&without, &on("Monday, January 01, 2024"), Some(&second.page)).unwrap();
    assert_eq!(third.write, Some(true));
}

#[test]
fn failures_of_the_parser_come_through() {
    assert_eq!(compile("*open", &on("d"), None).err(), Some(Error::UnexpectedEof));
    assert_eq!(compile("#######", &on("d"), None).err(), Some(Error::TooManyHashes));
    assert_eq!(compile("\u{2}", &on("d"), None).err(), Some(Error::UnrecognizedToken));
    assert_eq!(compile("@x", &on("d"), None).err(), Some(Error::UnrecognizedControlSequence));
    assert_eq!(compile("@code x", &on("d"), None).err(), Some(Error::ExpectedTokenOfClass));
}

#[test]
fn code_needs_its_snippet() {
    let source = "@code{c}{hello.c}";
    assert_eq!(compile(source, &on("d"), None).err(), Some(Error::CannotOpenFile));
    let emitter = Emitter::new(
        "d".to_string(),
        vec![Snippet { path: "hello.c".to_string(), contents: "#include <stdio.h>\n".to_string() }],
    );
    let compiled = compile(source, &emitter, None).unwrap();
    assert_eq!(
        compiled.page,
        format!(
            "{}New Page{}<pre><code class=\"language-c\">#include &lt;stdio.h&gt;\n</code></pre>\n\n{}",
            HEAD, NECK, FOOT
        )
    );
}

#[test]
fn publish_renders_a_parsed_document() {
    let nodes = Parser::new().parse(SOURCE).unwrap();
    let emitter = on("Monday, January 01, 2024");
    let published = publish(&nodes, &emitter, None).unwrap();
    let compiled = compile(SOURCE, &emitter, None).unwrap();
    assert_eq!(published.page, compiled.page);
    assert_eq!(published.write, Some(true));
    let again = publish(&nodes, &emitter, Some(&published.page)).unwrap();
    assert_eq!(again.write, Some(false));
}

#[test]
fn change_next_to_the_date_writes() {
    let first = compile(SOURCE, &on("Monday, January 01, 2024"), None).unwrap();
    let before = SOURCE.replace("Some", "Any");
    let second = compile(&before, &on("Tuesday, January 02, 2024"), Some(&first.page)).unwrap();
    assert_eq!(second.write, Some(true));
    let after = SOURCE.replace("bye", "see you");
    let third = compile(&after, &on("Tuesday, January 02, 2024"), Some(&first.page)).unwrap();
    assert_eq!(third.write, Some(true));
}

#[test]
fn date_at_the_end_or_alone_is_recognised() {
    let first = compile("# T\n@date", &on("Monday, January 01, 2024"), None).unwrap();
    let second = compile("# T\n@date", &on("Tuesday, January 02, 2024"), Some(&first.page))
        .unwrap();
    assert_eq!(second.write, Some(false));
    let alone = compile("@date", &on("Monday, January 01, 2024"), None).unwrap();
    let again = compile("@date", &on("Tuesday, January 02, 2024"), Some(&alone.page)).unwrap();
    assert_eq!(again.write, Some(false));
}

#[test]
fn date_inside_a_footer_is_recognised() {
    let source = "# T\n@footer{@date}\n@p end";
    let first = compile(source, &on("Monday, January 01, 2024"), None).unwrap();
    let second = compile(source, &on("Tuesday, January 02, 2024"), Some(&first.page)).unwrap();
    assert_eq!(second.write, Some(false));
}

#[test]
fn block_around_the_date_that_changes_writes() {
    let first = compile("@topblock{@date}", &on("Monday, January 01, 2024"), None).unwrap();
    let second = compile("@tiles{@date}", &on("Monday, January 01, 2024"), Some(&first.page))
        .unwrap();
    assert_eq!(second.write, Some(true));
    let third = compile("@tiles{@date}", &on("Tuesday, January 02, 2024"), Some(&first.page))
        .unwrap();
    assert_eq!(third.write, Some(true));
    let back = compile("@topblock{@date}", &on("Tuesday, January 02, 2024"), Some(&second.page))
        .unwrap();
    assert_eq!(back.write, Some(true));
    let kept = compile("@tiles{@date}", &on("Tuesday, January 02, 2024"), Some(&second.page))
        .unwrap();
    assert_eq!(kept.write, Some(false));
}

#[test]
fn compiled_page_is_written_unless_it_is_kept() {
    let first = compile(SOURCE, &on("d"), None).unwrap();
    assert!(first.is_written());
    let second = compile(SOURCE, &on("d"), Some(&first.page)).unwrap();
    assert!(!second.is_written());
    let unknown = blog_builder::Compiled { page: "p".to_string(), write: None };
    assert!(unknown.is_written());
}

#[test]
fn compile_for_today_is_kept_on_the_second_run() {
    let emitter = Emitter::for_today(vec![]);
    let first = compile(SOURCE, &emitter, None).unwrap();
    assert_eq!(first.write, Some(true));
    assert!(first.page.contains("last-updated-date"));
    let again = compile(SOURCE, &Emitter::for_today(vec![]), Some(&first.page)).unwrap();
    assert_eq!(again.write, Some(false));
    let earlier = compile(SOURCE, &on("Monday, January 01, 2024"), None).unwrap();
    let today = compile(SOURCE, &emitter, Some(&earlier.page)).unwrap();
    assert_eq!(today.write, Some(false));
}
