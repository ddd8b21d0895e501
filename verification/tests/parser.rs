use blog_builder::error::Error;
use blog_builder::parser::expression::Expression;
use blog_builder::parser::grammar::{Construct, Stop};
use blog_builder::parser::newline_parselet::NewlineParselet;
use blog_builder::parser::prefix_parselet::PrefixParselet;
use blog_builder::parser::token::{Token, TokenClass};
use blog_builder::parser::tokenizer::Tokenizer;
use blog_builder::parser::Parser;

fn parse(text: &str) -> Result<Vec<Expression>, Error> {
    Parser::new().parse(text)
}

fn text(s: &str) -> Expression {
    Expression::Alphanumeric(s.to_string())
}

#[test]
fn empty_input_gives_no_nodes() {
    assert_eq!(parse(""), Ok(vec![]));
}

#[test]
fn one_hash_is_the_header() {
    assert_eq!(parse("# Top"), Ok(vec![Expression::Header(vec![text("Top")])]));
}

#[test]
fn two_hashes_are_the_title() {
    assert_eq!(parse("## Top"), Ok(vec![Expression::Title(vec![text("Top")])]));
}

#[test]
fn three_hashes_are_the_heading() {
    assert_eq!(parse("### Top"), Ok(vec![Expression::Heading(vec![text("Top")])]));
}

#[test]
fn four_hashes_are_the_subheading() {
    assert_eq!(parse("#### Top"), Ok(vec![Expression::Subheading(vec![text("Top")])]));
}

#[test]
fn five_hashes_are_the_subtitle() {
    assert_eq!(parse("##### Top"), Ok(vec![Expression::Subtitle(vec![text("Top")])]));
}

#[test]
fn six_hashes_are_the_subsubtitle() {
    assert_eq!(parse("###### Top"), Ok(vec![Expression::Subsubtitle(vec![text("Top")])]));
}

#[test]
fn seven_hashes_are_too_many() {
    assert_eq!(parse("####### Top"), Err(Error::TooManyHashes));
}

#[test]
fn many_hashes_are_too_many_whatever_follows() {
    assert_eq!(parse("##########\u{1}"), Err(Error::TooManyHashes));
}

#[test]
fn heading_without_text_has_no_children() {
    assert_eq!(parse("###"), Ok(vec![Expression::Heading(vec![])]));
}

#[test]
fn heading_ends_at_the_line_end() {
    assert_eq!(
        parse("# One\n## Two"),
        Ok(vec![
            Expression::Header(vec![text("One")]),
            Expression::Newline,
            Expression::Title(vec![text("Two")]),
        ])
    );
}

#[test]
fn heading_holds_nested_emphasis() {
    assert_eq!(
        parse("## A *big* day"),
        Ok(vec![Expression::Title(vec![
            text("A"),
            Expression::Bold(vec![text("big")]),
            text("day"),
        ])])
    );
}

#[test]
fn plain_text_is_a_text_node() {
    assert_eq!(parse("just text"), Ok(vec![text("just text")]));
}

#[test]
fn italic_around_bold_around_text() {
    assert_eq!(
        parse("_*text*_"),
        Ok(vec![Expression::Italic(vec![Expression::Bold(vec![text("text")])])])
    );
}

#[test]
fn bold_around_italic_around_text() {
    assert_eq!(
        parse("*_text_*"),
        Ok(vec![Expression::Bold(vec![Expression::Italic(vec![text("text")])])])
    );
}

#[test]
fn italic_in_bold_in_paragraph_in_quote() {
    assert_eq!(
        parse("@quote{@p *_deep_*\n}{me}"),
        Ok(vec![Expression::BlockQuote {
            quote: vec![
                Expression::Paragraph(vec![
                    text(""),
                    Expression::Bold(vec![Expression::Italic(vec![text("deep")])]),
                ]),
                Expression::Newline,
            ],
            citation: vec![text("me")],
        }])
    );
}

#[test]
fn unclosed_bold_is_an_early_end() {
    assert_eq!(parse("*never closed"), Err(Error::UnexpectedEof));
}

#[test]
fn unclosed_italic_is_an_early_end() {
    assert_eq!(parse("_never closed\nnot here either"), Err(Error::UnexpectedEof));
}

#[test]
fn unclosed_group_is_an_early_end() {
    assert_eq!(parse("@footer{never closed"), Err(Error::UnexpectedEof));
}

#[test]
fn crossed_markers_are_an_early_end() {
    assert_eq!(parse("*a _b* c_"), Err(Error::UnexpectedEof));
}

#[test]
fn directive_without_its_argument_is_an_early_end() {
    assert_eq!(parse("@pagename"), Err(Error::UnexpectedEof));
    assert_eq!(parse("@link{a}"), Err(Error::UnexpectedEof));
    assert_eq!(parse("@code{rust}{"), Err(Error::UnexpectedEof));
}

#[test]
fn wrong_token_after_a_directive() {
    assert_eq!(parse("@link text"), Err(Error::ExpectedTokenOfClass));
    assert_eq!(parse("@pagename{}"), Err(Error::ExpectedTokenOfClass));
    assert_eq!(parse("@pagename{*x*}"), Err(Error::ExpectedTokenOfClass));
    assert_eq!(parse("@image{a}{b} {c}"), Err(Error::ExpectedTokenOfClass));
    assert_eq!(parse("@footer\n{x}"), Err(Error::ExpectedTokenOfClass));
    assert_eq!(parse("@code{rust}{a}{"), Err(Error::UnrecognizedControlSequence));
}

#[test]
fn unknown_directive_is_refused() {
    assert_eq!(parse("@nothing"), Err(Error::UnrecognizedControlSequence));
    assert_eq!(parse("@"), Err(Error::UnrecognizedControlSequence));
    assert_eq!(parse("@Menu"), Err(Error::UnrecognizedControlSequence));
}

#[test]
fn stray_braces_are_refused() {
    assert_eq!(parse("}"), Err(Error::UnrecognizedControlSequence));
    assert_eq!(parse("text {more}"), Err(Error::UnrecognizedControlSequence));
    assert_eq!(parse("*bold }*"), Err(Error::UnrecognizedControlSequence));
}

#[test]
fn refused_character_fails_the_parse() {
    assert_eq!(parse("\u{1}"), Err(Error::UnrecognizedToken));
    assert_eq!(parse("text\u{1}"), Err(Error::UnrecognizedToken));
    assert_eq!(parse("*bold\u{1}*"), Err(Error::UnrecognizedToken));
    assert_eq!(parse("# head\u{1}"), Err(Error::UnrecognizedToken));
    assert_eq!(parse("\n\n\u{1}"), Err(Error::UnrecognizedToken));
    assert_eq!(parse("@pagename{\u{1}"), Err(Error::UnrecognizedToken));
}

#[test]
fn the_first_failure_in_the_source_wins() {
    assert_eq!(parse("@nothing \u{1}"), Err(Error::UnrecognizedControlSequence));
    assert_eq!(parse("####### \u{1}"), Err(Error::TooManyHashes));
    assert_eq!(parse("@link x \u{1}"), Err(Error::ExpectedTokenOfClass));
}

#[test]
fn line_ends_and_blank_lines_are_one_break() {
    assert_eq!(
        parse("a\n\n   \n\t\nb"),
        Ok(vec![text("a"), Expression::Newline, text("b")])
    );
}

#[test]
fn break_at_the_end_takes_the_blanks() {
    assert_eq!(parse("a\n  \n"), Ok(vec![text("a"), Expression::Newline]));
}

#[test]
fn empty_text_elsewhere_is_a_node() {
    assert_eq!(
        parse("* *"),
        Ok(vec![Expression::Bold(vec![text("")])])
    );
}

#[test]
fn marks_take_no_argument() {
    assert_eq!(
        parse("@menu\n@footnotes\n@date"),
        Ok(vec![
            Expression::Menu,
            Expression::Newline,
            Expression::Footnotes,
            Expression::Newline,
            Expression::Date,
        ])
    );
}

#[test]
fn pagename_takes_one_run_of_text() {
    assert_eq!(
        parse("@pagename{ My Page }"),
        Ok(vec![Expression::Pagename("My Page".to_string())])
    );
}

#[test]
fn paragraph_takes_the_line() {
    assert_eq!(
        parse("@p one _two_\nthree"),
        Ok(vec![
            Expression::Paragraph(vec![text("one"), Expression::Italic(vec![text("two")])]),
            Expression::Newline,
            text("three"),
        ])
    );
}

#[test]
fn containers_hold_nested_constructs() {
    assert_eq!(
        parse("@footer{made by *me*}"),
        Ok(vec![Expression::Footer(vec![text("made by"), Expression::Bold(vec![text("me")])])])
    );
    assert_eq!(parse("@footnote{a}"), Ok(vec![Expression::Footnote(vec![text("a")])]));
    assert_eq!(parse("@topblock{}"), Ok(vec![Expression::Topblock(vec![])]));
    assert_eq!(
        parse("@tiles{@tile{a.html}{a.png}{A}}"),
        Ok(vec![Expression::Tiles(vec![Expression::Tile {
            name: vec![text("A")],
            img: "a.png".to_string(),
            href: "a.html".to_string(),
        }])])
    );
}

#[test]
fn line_ends_before_a_closing_brace() {
    assert_eq!(
        parse("@topblock{# Title}"),
        Ok(vec![Expression::Topblock(vec![Expression::Header(vec![text("Title")])])])
    );
}

#[test]
fn quote_takes_two_groups() {
    assert_eq!(
        parse("@quote{To be}{_W. S._}"),
        Ok(vec![Expression::BlockQuote {
            quote: vec![text("To be")],
            citation: vec![Expression::Italic(vec![text("W. S.")])],
        }])
    );
}

#[test]
fn link_takes_an_address_and_a_group() {
    assert_eq!(
        parse("@link{https://example.org/a\\_b\\#c}{the *site*}"),
        Ok(vec![Expression::Hyperlink {
            name: vec![text("the"), Expression::Bold(vec![text("site")])],
            href: "https://example.org/a_b#c".to_string(),
        }])
    );
}

#[test]
fn code_takes_a_language_and_a_path() {
    assert_eq!(
        parse("@code{rust}{snippets/main.rs}"),
        Ok(vec![Expression::Code {
            language: "rust".to_string(),
            code: "snippets/main.rs".to_string(),
        }])
    );
}

#[test]
fn images_take_their_fields() {
    assert_eq!(
        parse("@image{cat.png}{a cat}{120}"),
        Ok(vec![Expression::Image {
            img: "cat.png".to_string(),
            alt: "a cat".to_string(),
            scale: "120".to_string(),
        }])
    );
    assert_eq!(
        parse("@float{cat.png}{ }"),
        Ok(vec![Expression::FloatingImage { img: "cat.png".to_string(), alt: "".to_string() }])
    );
}

#[test]
fn registry_maps_tokens_to_constructs() {
    let parser = Parser::new();
    let of = |class: TokenClass, value: &str| parser.lookup(&Token::new(class, value.to_string()));
    assert_eq!(of(TokenClass::Alphanumeric, "x"), Some(Construct::Text));
    assert_eq!(of(TokenClass::Newline, "\n"), Some(Construct::Newline));
    assert_eq!(of(TokenClass::Hash, "#"), Some(Construct::Heading));
    assert_eq!(of(TokenClass::Star, "*"), Some(Construct::Bold));
    assert_eq!(of(TokenClass::Underscore, "_"), Some(Construct::Italic));
    assert_eq!(of(TokenClass::OpenBrace, "{"), None);
    assert_eq!(of(TokenClass::CloseBrace, "}"), None);
    assert_eq!(of(TokenClass::Directive, "p"), Some(Construct::Paragraph));
    assert_eq!(of(TokenClass::Directive, "menu"), Some(Construct::Menu));
    assert_eq!(of(TokenClass::Directive, "footnotes"), Some(Construct::Footnotes));
    assert_eq!(of(TokenClass::Directive, "date"), Some(Construct::Date));
    assert_eq!(of(TokenClass::Directive, "pagename"), Some(Construct::Pagename));
    assert_eq!(of(TokenClass::Directive, "footer"), Some(Construct::Footer));
    assert_eq!(of(TokenClass::Directive, "footnote"), Some(Construct::Footnote));
    assert_eq!(of(TokenClass::Directive, "topblock"), Some(Construct::Topblock));
    assert_eq!(of(TokenClass::Directive, "tiles"), Some(Construct::Tiles));
    assert_eq!(of(TokenClass::Directive, "quote"), Some(Construct::Quote));
    assert_eq!(of(TokenClass::Directive, "link"), Some(Construct::Link));
    assert_eq!(of(TokenClass::Directive, "code"), Some(Construct::Code));
    assert_eq!(of(TokenClass::Directive, "tile"), Some(Construct::Tile));
    assert_eq!(of(TokenClass::Directive, "image"), Some(Construct::Image));
    assert_eq!(of(TokenClass::Directive, "float"), Some(Construct::FloatingImage));
    assert_eq!(of(TokenClass::Directive, "other"), None);
}

#[test]
fn newline_parselet_takes_the_blank_tokens() {
    let parser = Parser::new();
    let mut tokenizer = Tokenizer::new("\n  \n\nnext");
    let first = tokenizer.next().unwrap().unwrap();
    let node = NewlineParselet.parse(&parser, &mut tokenizer, &first);
    assert_eq!(node, Ok(Expression::Newline));
    let left = tokenizer.next().unwrap().unwrap();
    assert_eq!(left, Token::new(TokenClass::Alphanumeric, "next".to_string()));
}

#[test]
fn dispatch_reads_one_construct() {
    let parser = Parser::new();
    let mut tokenizer = Tokenizer::new("*a*b");
    assert_eq!(parser.dispatch(&mut tokenizer), Ok(Expression::Bold(vec![text("a")])));
    assert_eq!(parser.dispatch(&mut tokenizer), Ok(text("b")));
    assert_eq!(parser.dispatch(&mut tokenizer), Err(Error::UnexpectedEof));
}

#[test]
fn parse_until_stops_as_told() {
    let parser = Parser::new();
    let mut tokenizer = Tokenizer::new("a*b\nc");
    assert_eq!(
        parser.parse_until(&mut tokenizer, Stop::Close(TokenClass::Star)),
        Ok(vec![text("a")])
    );
    assert_eq!(parser.parse_until(&mut tokenizer, Stop::Line), Ok(vec![text("b")]));
    assert_eq!(
        parser.parse_until(&mut tokenizer, Stop::End),
        Ok(vec![Expression::Newline, text("c")])
    );
}

#[test]
fn expect_takes_only_the_class_asked_for() {
    let parser = Parser::new();
    let mut tokenizer = Tokenizer::new("{x");
    assert_eq!(
        parser.expect(&mut tokenizer, TokenClass::CloseBrace),
        Err(Error::ExpectedTokenOfClass)
    );
    assert_eq!(
        parser.expect(&mut tokenizer, TokenClass::OpenBrace),
        Ok(Token::new(TokenClass::OpenBrace, "{".to_string()))
    );
    assert_eq!(
        parser.expect(&mut tokenizer, TokenClass::Alphanumeric),
        Ok(Token::new(TokenClass::Alphanumeric, "x".to_string()))
    );
    assert_eq!(parser.expect(&mut tokenizer, TokenClass::CloseBrace), Err(Error::UnexpectedEof));
}

#[test]
fn payload_and_group_read_arguments() {
    let parser = Parser::new();
    let mut tokenizer = Tokenizer::new("{ a b }{c *d*}");
    assert_eq!(parser.payload(&mut tokenizer), Ok("a b".to_string()));
    assert_eq!(
        parser.group(&mut tokenizer),
        Ok(vec![text("c"), Expression::Bold(vec![text("d")])])
    );
}

#[test]
fn clone_copies_the_whole_tree() {
    let tree = parse("@quote{*a* @link{x}{_y_}}{@code{c}{p}}\n@image{a}{b}{c}")
        .unwrap();
    let copy = tree.clone();
    assert_eq!(copy, tree);
    let one = tree[0].duplicate();
    assert_eq!(one, tree[0]);
}

#[test]
fn deep_nesting_parses() {
    let mut source = String::new();
    for _ in 0..200 {
        source.push_str("@footer{");
    }
    source.push_str("x");
    for _ in 0..200 {
        source.push_str("}");
    }
    let mut node = &parse(&source).unwrap()[0];
    let mut depth = 0;
    while let Expression::Footer(children) = node {
        depth += 1;
        node = &children[0];
    }
    assert_eq!(depth, 200);
    assert_eq!(node, &text("x"));
}
