use blog_builder::error::Error;
use blog_builder::parser::token::{Token, TokenClass};
use blog_builder::parser::tokenizer::{trimmed, Tokenizer};

fn all_tokens(text: &str) -> (Vec<(TokenClass, String)>, Option<Error>) {
    let mut tokenizer = Tokenizer::new(text);
    let mut found = Vec::new();
    loop {
        match tokenizer.next() {
            Ok(Some(token)) => found.push((token.get_class(), token.get_value().to_string())),
            Ok(None) => return (found, None),
            Err(e) => return (found, Some(e)),
        }
    }
}

fn token(class: TokenClass, value: &str) -> (TokenClass, String) {
    (class, value.to_string())
}

#[test]
fn empty_source_has_no_tokens() {
    assert_eq!(all_tokens(""), (vec![], None));
}

#[test]
fn text_is_one_trimmed_token() {
    assert_eq!(
        all_tokens("  Hello, world!  "),
        (vec![token(TokenClass::Alphanumeric, "Hello, world!")], None)
    );
}

#[test]
fn blanks_alone_are_an_empty_text_token() {
    assert_eq!(all_tokens(" \t\r "), (vec![token(TokenClass::Alphanumeric, "")], None));
}

#[test]
fn inner_blanks_stay() {
    assert_eq!(all_tokens("a  b\tc"), (vec![token(TokenClass::Alphanumeric, "a  b\tc")], None));
}

#[test]
fn markers_are_single_tokens() {
    assert_eq!(
        all_tokens("#*_{}\n"),
        (
            vec![
                token(TokenClass::Hash, "#"),
                token(TokenClass::Star, "*"),
                token(TokenClass::Underscore, "_"),
                token(TokenClass::OpenBrace, "{"),
                token(TokenClass::CloseBrace, "}"),
                token(TokenClass::Newline, "\n"),
            ],
            None
        )
    );
}

#[test]
fn heading_line_tokens() {
    assert_eq!(
        all_tokens("## A title\nmore"),
        (
            vec![
                token(TokenClass::Hash, "#"),
                token(TokenClass::Hash, "#"),
                token(TokenClass::Alphanumeric, "A title"),
                token(TokenClass::Newline, "\n"),
                token(TokenClass::Alphanumeric, "more"),
            ],
            None
        )
    );
}

#[test]
fn directive_takes_lower_case_letters() {
    assert_eq!(
        all_tokens("@menu@p text@Date@"),
        (
            vec![
                token(TokenClass::Directive, "menu"),
                token(TokenClass::Directive, "p"),
                token(TokenClass::Alphanumeric, "text"),
                token(TokenClass::Directive, ""),
                token(TokenClass::Alphanumeric, "Date"),
                token(TokenClass::Directive, ""),
            ],
            None
        )
    );
}

#[test]
fn escaped_markers_are_text() {
    assert_eq!(
        all_tokens("a\\_b\\#c\\*\\@\\{\\}\\\\"),
        (vec![token(TokenClass::Alphanumeric, "a_b#c*@{}\\")], None)
    );
}

#[test]
fn escape_before_plain_character_is_refused() {
    assert_eq!(
        all_tokens("ab\\c"),
        (vec![token(TokenClass::Alphanumeric, "ab")], Some(Error::UnrecognizedToken))
    );
}

#[test]
fn escape_at_the_end_is_refused() {
    assert_eq!(all_tokens("\\"), (vec![], Some(Error::UnrecognizedToken)));
}

#[test]
fn control_character_is_refused_where_it_stands() {
    assert_eq!(
        all_tokens("# ok\u{1}never"),
        (
            vec![token(TokenClass::Hash, "#"), token(TokenClass::Alphanumeric, "ok")],
            Some(Error::UnrecognizedToken)
        )
    );
}

#[test]
fn delete_character_is_refused() {
    assert_eq!(all_tokens("\u{7f}"), (vec![], Some(Error::UnrecognizedToken)));
}

#[test]
fn text_beyond_ascii_is_text() {
    assert_eq!(
        all_tokens("Grüße 日本"),
        (vec![token(TokenClass::Alphanumeric, "Grüße 日本")], None)
    );
}

#[test]
fn peek_shows_the_next_token_and_leaves_it() {
    let mut tokenizer = Tokenizer::new("*x");
    let first = tokenizer.peek().unwrap().unwrap();
    assert_eq!(first.get_class(), TokenClass::Star);
    let again = tokenizer.peek().unwrap().unwrap();
    assert_eq!(again, first);
    let taken = tokenizer.next().unwrap().unwrap();
    assert_eq!(taken, first);
    let second = tokenizer.peek().unwrap().unwrap();
    assert_eq!(second, Token::new(TokenClass::Alphanumeric, "x".to_string()));
}

#[test]
fn end_is_reported_again_and_again() {
    let mut tokenizer = Tokenizer::new("x");
    assert!(tokenizer.next().unwrap().is_some());
    assert_eq!(tokenizer.next(), Ok(None));
    assert_eq!(tokenizer.next(), Ok(None));
    assert_eq!(tokenizer.peek(), Ok(None));
}

#[test]
fn refused_character_is_reported_again_and_again() {
    let mut tokenizer = Tokenizer::new("\u{0}");
    assert_eq!(tokenizer.peek(), Err(Error::UnrecognizedToken));
    assert_eq!(tokenizer.next(), Err(Error::UnrecognizedToken));
    assert_eq!(tokenizer.next(), Err(Error::UnrecognizedToken));
}

#[test]
fn token_gives_its_parts() {
    let t = Token::new(TokenClass::Directive, "menu".to_string());
    assert_eq!(t.get_class(), TokenClass::Directive);
    assert_eq!(t.get_value(), "menu");
    assert_eq!(t.into_value(), "menu".to_string());
}

#[test]
fn trimmed_removes_blanks_at_both_ends() {
    let chars: Vec<char> = " \t a b \r ".chars().collect();
    assert_eq!(trimmed(&chars), "a b".to_string());
    let only_blanks: Vec<char> = "   ".chars().collect();
    assert_eq!(trimmed(&only_blanks), "".to_string());
    let none: Vec<char> = Vec::new();
    assert_eq!(trimmed(&none), "".to_string());
    let solid: Vec<char> = "x".chars().collect();
    assert_eq!(trimmed(&solid), "x".to_string());
}
