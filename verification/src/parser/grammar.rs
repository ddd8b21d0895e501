//! The grammar of the markup, as a function from tokens to nodes.
//!
//! A document is a sequence of constructs. The first token of a construct
//! says which one it is:
//!
//! | source                          | node                                  |
//! |---------------------------------|---------------------------------------|
//! | text                            | `Alphanumeric`                        |
//! | line end                        | `Newline`, with the blank lines after |
//! | `#` to `######`, then a line    | `Header`, `Title` .. `Subsubtitle`    |
//! | `*` .. `*`                      | `Bold`                                |
//! | `_` .. `_`                      | `Italic`                              |
//! | `@p`, then a line               | `Paragraph`                           |
//! | `@menu`, `@footnotes`, `@date`  | `Menu`, `Footnotes`, `Date`           |
//! | `@pagename{name}`               | `Pagename`                            |
//! | `@footer{..}`, `@footnote{..}`  | `Footer`, `Footnote`                  |
//! | `@topblock{..}`, `@tiles{..}`   | `Topblock`, `Tiles`                   |
//! | `@quote{..}{..}`                | `BlockQuote`                          |
//! | `@link{href}{..}`               | `Hyperlink`                           |
//! | `@code{language}{path}`         | `Code`                                |
//! | `@tile{href}{img}{..}`          | `Tile`                                |
//! | `@image{src}{alt}{scale}`       | `Image`                               |
//! | `@float{src}{alt}`              | `FloatingImage`                       |
//!
//! Where the table shows `..`, any constructs may stand, nested to any
//! depth. A line ends before a line end, before a `}` and at the end of
//! the source. An argument such as `{href}` is a single run of text.

use vstd::prelude::*;
use crate::error::Error;
use crate::parser::expression::Node;
use crate::parser::token::{TokenClass, TokenView};
use crate::parser::tokenizer::{ends_badly, tokens_from};

verus! {

/// The deepest heading: the most heading markers that may stand in a row.
pub const MAX_HEADING_LEVEL: usize = 6;

/// The constructs of the markup, one for each handler.
#[derive(Clone, Copy, PartialEq, Eq, Debug, Structural)]
pub enum Construct {
    Text,
    Newline,
    Heading,
    Bold,
    Italic,
    Paragraph,
    Menu,
    Footnotes,
    Date,
    Pagename,
    Footer,
    Footnote,
    Topblock,
    Tiles,
    Quote,
    Link,
    Code,
    Tile,
    Image,
    FloatingImage,
}

/// Where a sequence of nested constructs ends.
#[derive(Clone, Copy, PartialEq, Eq, Debug, Structural)]
pub enum Stop {
    /// At the end of the source.
    End,
    /// Before a line end or a closing brace, or at the end of the source.
    Line,
    /// After the next token of this class; the end of the source comes
    /// too early.
    Close(TokenClass),
}

/// What parsing makes of a sequence of tokens: a value and the tokens
/// that follow it, or a failure.
pub type Parsed<T> = Result<(T, Seq<TokenView>), Error>;

/// The failure at the end of the tokens: the character that stopped the
/// scanner, or else the early end.
pub open spec fn end_error(bad: bool) -> Error {
    if bad {
        Error::UnrecognizedToken
    } else {
        Error::UnexpectedEof
    }
}

/// The construct that a directive's name calls for.
pub open spec fn directive_named(name: Seq<char>) -> Option<Construct> {
    if name == "p"@ {
        Some(Construct::Paragraph)
    } else if name == "menu"@ {
        Some(Construct::Menu)
    } else if name == "footnotes"@ {
        Some(Construct::Footnotes)
    } else if name == "date"@ {
        Some(Construct::Date)
    } else if name == "pagename"@ {
        Some(Construct::Pagename)
    } else if name == "footer"@ {
        Some(Construct::Footer)
    } else if name == "footnote"@ {
        Some(Construct::Footnote)
    } else if name == "topblock"@ {
        Some(Construct::Topblock)
    } else if name == "tiles"@ {
        Some(Construct::Tiles)
    } else if name == "quote"@ {
        Some(Construct::Quote)
    } else if name == "link"@ {
        Some(Construct::Link)
    } else if name == "code"@ {
        Some(Construct::Code)
    } else if name == "tile"@ {
        Some(Construct::Tile)
    } else if name == "image"@ {
        Some(Construct::Image)
    } else if name == "float"@ {
        Some(Construct::FloatingImage)
    } else {
        None
    }
}

/// The registry: the construct that a token calls for, if it can start
/// one. A brace starts none.
pub open spec fn construct_for(token: TokenView) -> Option<Construct> {
    match token.class {
        TokenClass::Alphanumeric => Some(Construct::Text),
        TokenClass::Newline => Some(Construct::Newline),
        TokenClass::Hash => Some(Construct::Heading),
        TokenClass::Star => Some(Construct::Bold),
        TokenClass::Underscore => Some(Construct::Italic),
        TokenClass::Directive => directive_named(token.value),
        TokenClass::OpenBrace => None,
        TokenClass::CloseBrace => None,
    }
}

/// A token of the class `class` at the head of `ts`.
pub open spec fn expect(ts: Seq<TokenView>, bad: bool, class: TokenClass) -> Parsed<TokenView> {
    if ts.len() == 0 {
        Err(end_error(bad))
    } else if ts[0].class != class {
        Err(Error::ExpectedTokenOfClass)
    } else {
        Ok((ts[0], ts.drop_first()))
    }
}

/// An argument that is one run of text between braces.
pub open spec fn payload(ts: Seq<TokenView>, bad: bool) -> Parsed<Seq<char>> {
    match expect(ts, bad, TokenClass::OpenBrace) {
        Err(e) => Err(e),
        Ok((_, inner)) => match expect(inner, bad, TokenClass::Alphanumeric) {
            Err(e) => Err(e),
            Ok((text, closer)) => match expect(closer, bad, TokenClass::CloseBrace) {
                Err(e) => Err(e),
                Ok((_, rest)) => Ok((text.value, rest)),
            },
        },
    }
}

/// A token that a line break takes with it: a further line end, or a run
/// of text that held nothing but blanks.
pub open spec fn is_blank_token(t: TokenView) -> bool {
    t.class == TokenClass::Newline || (t.class == TokenClass::Alphanumeric && t.value.len() == 0)
}

/// `ts` without the blank tokens at its head.
pub open spec fn skip_blank(ts: Seq<TokenView>) -> Seq<TokenView>
    decreases ts.len(),
{
    if ts.len() > 0 && is_blank_token(ts[0]) {
        skip_blank(ts.drop_first())
    } else {
        ts
    }
}

/// A line break: the line end that was taken, and every blank token
/// after it.
pub open spec fn line_break(ts: Seq<TokenView>, bad: bool) -> Parsed<Node> {
    let rest = skip_blank(ts);
    if rest.len() == 0 && bad {
        Err(Error::UnrecognizedToken)
    } else {
        Ok((Node::Newline, rest))
    }
}

/// The heading of a level from 1 to 6.
pub open spec fn heading_node(level: int, children: Seq<Node>) -> Node {
    if level <= 1 {
        Node::Header(children)
    } else if level == 2 {
        Node::Title(children)
    } else if level == 3 {
        Node::Heading(children)
    } else if level == 4 {
        Node::Subheading(children)
    } else if level == 5 {
        Node::Subtitle(children)
    } else {
        Node::Subsubtitle(children)
    }
}

/// Whether a sequence of constructs that ends as `stop` says is over at
/// a token of the class `class`.
pub open spec fn stops_at(stop: Stop, class: TokenClass) -> bool {
    match stop {
        Stop::End => false,
        Stop::Line => class == TokenClass::Newline || class == TokenClass::CloseBrace,
        Stop::Close(closer) => class == closer,
    }
}

/// One construct at the head of `ts`.
pub open spec fn node(ts: Seq<TokenView>, bad: bool) -> Parsed<Node>
    decreases ts.len(), 0int,
{
    if ts.len() == 0 {
        Err(end_error(bad))
    } else {
        match construct_for(ts[0]) {
            None => Err(Error::UnrecognizedControlSequence),
            Some(c) => construct(c, ts[0], ts.drop_first(), bad),
        }
    }
}

/// The constructs from the head of `ts` to the place where `stop` ends
/// them. A closing token is taken; a line end or a brace that ends a
/// line is left.
///
/// The comparison of the lengths only shows that the definition ends: a
/// construct always takes a token, so the comparison never fails
/// (`theorem_nodes_until_unfolds`).
pub open spec fn nodes_until(ts: Seq<TokenView>, bad: bool, stop: Stop) -> Parsed<Seq<Node>>
    decreases ts.len(), 1int,
{
    if ts.len() == 0 {
        if bad {
            Err(Error::UnrecognizedToken)
        } else if stop is Close {
            Err(Error::UnexpectedEof)
        } else {
            Ok((Seq::empty(), ts))
        }
    } else if stops_at(stop, ts[0].class) {
        if stop is Close {
            Ok((Seq::empty(), ts.drop_first()))
        } else {
            Ok((Seq::empty(), ts))
        }
    } else {
        match node(ts, bad) {
            Err(e) => Err(e),
            Ok((first, rest)) => if rest.len() < ts.len() {
                match nodes_until(rest, bad, stop) {
                    Err(e) => Err(e),
                    Ok((others, after)) => Ok((seq![first] + others, after)),
                }
            } else {
                Err(Error::UnexpectedEof)
            },
        }
    }
}

/// An argument that holds constructs: from `{` to the matching `}`.
pub open spec fn group(ts: Seq<TokenView>, bad: bool) -> Parsed<Seq<Node>>
    decreases ts.len(), 2int,
{
    match expect(ts, bad, TokenClass::OpenBrace) {
        Err(e) => Err(e),
        Ok((_, inner)) => nodes_until(inner, bad, Stop::Close(TokenClass::CloseBrace)),
    }
}

/// A heading, after `level` heading markers were taken: the further
/// markers, then the line.
pub open spec fn heading(ts: Seq<TokenView>, bad: bool, level: int) -> Parsed<Node>
    decreases ts.len(), 2int,
{
    if ts.len() > 0 && ts[0].class == TokenClass::Hash {
        if level >= MAX_HEADING_LEVEL {
            Err(Error::TooManyHashes)
        } else {
            heading(ts.drop_first(), bad, level + 1)
        }
    } else {
        match nodes_until(ts, bad, Stop::Line) {
            Err(e) => Err(e),
            Ok((children, rest)) => Ok((heading_node(level, children), rest)),
        }
    }
}

/// The construct `c`, after its first token `token` was taken.
///
/// In the quotation the comparison of the lengths only shows that the
/// definition ends; it never fails (`theorem_quote_unfolds`).
pub open spec fn construct(c: Construct, token: TokenView, ts: Seq<TokenView>, bad: bool) -> Parsed<
    Node,
>
    decreases ts.len(), 3int,
{
    match c {
        Construct::Text => Ok((Node::Alphanumeric(token.value), ts)),
        Construct::Newline => line_break(ts, bad),
        Construct::Heading => heading(ts, bad, 1),
        Construct::Bold => match nodes_until(ts, bad, Stop::Close(TokenClass::Star)) {
            Err(e) => Err(e),
            Ok((children, rest)) => Ok((Node::Bold(children), rest)),
        },
        Construct::Italic => match nodes_until(ts, bad, Stop::Close(TokenClass::Underscore)) {
            Err(e) => Err(e),
            Ok((children, rest)) => Ok((Node::Italic(children), rest)),
        },
        Construct::Paragraph => match nodes_until(ts, bad, Stop::Line) {
            Err(e) => Err(e),
            Ok((children, rest)) => Ok((Node::Paragraph(children), rest)),
        },
        Construct::Menu => Ok((Node::Menu, ts)),
        Construct::Footnotes => Ok((Node::Footnotes, ts)),
        Construct::Date => Ok((Node::Date, ts)),
        Construct::Pagename => match payload(ts, bad) {
            Err(e) => Err(e),
            Ok((name, rest)) => Ok((Node::Pagename(name), rest)),
        },
        Construct::Footer => match group(ts, bad) {
            Err(e) => Err(e),
            Ok((children, rest)) => Ok((Node::Footer(children), rest)),
        },
        Construct::Footnote => match group(ts, bad) {
            Err(e) => Err(e),
            Ok((children, rest)) => Ok((Node::Footnote(children), rest)),
        },
        Construct::Topblock => match group(ts, bad) {
            Err(e) => Err(e),
            Ok((children, rest)) => Ok((Node::Topblock(children), rest)),
        },
        Construct::Tiles => match group(ts, bad) {
            Err(e) => Err(e),
            Ok((children, rest)) => Ok((Node::Tiles(children), rest)),
        },
        Construct::Quote => match group(ts, bad) {
            Err(e) => Err(e),
            Ok((quote, middle)) => if middle.len() <= ts.len() {
                match group(middle, bad) {
                    Err(e) => Err(e),
                    Ok((citation, rest)) => Ok((Node::BlockQuote { quote, citation }, rest)),
                }
            } else {
                Err(Error::UnexpectedEof)
            },
        },
        Construct::Link => match payload(ts, bad) {
            Err(e) => Err(e),
            Ok((href, middle)) => match group(middle, bad) {
                Err(e) => Err(e),
                Ok((name, rest)) => Ok((Node::Hyperlink { name, href }, rest)),
            },
        },
        Construct::Code => match payload(ts, bad) {
            Err(e) => Err(e),
            Ok((language, middle)) => match payload(middle, bad) {
                Err(e) => Err(e),
                Ok((code, rest)) => Ok((Node::Code { language, code }, rest)),
            },
        },
        Construct::Tile => match payload(ts, bad) {
            Err(e) => Err(e),
            Ok((href, second)) => match payload(second, bad) {
                Err(e) => Err(e),
                Ok((img, third)) => match group(third, bad) {
                    Err(e) => Err(e),
                    Ok((name, rest)) => Ok((Node::Tile { name, img, href }, rest)),
                },
            },
        },
        Construct::Image => match payload(ts, bad) {
            Err(e) => Err(e),
            Ok((img, second)) => match payload(second, bad) {
                Err(e) => Err(e),
                Ok((alt, third)) => match payload(third, bad) {
                    Err(e) => Err(e),
                    Ok((scale, rest)) => Ok((Node::Image { img, alt, scale }, rest)),
                },
            },
        },
        Construct::FloatingImage => match payload(ts, bad) {
            Err(e) => Err(e),
            Ok((img, middle)) => match payload(middle, bad) {
                Err(e) => Err(e),
                Ok((alt, rest)) => Ok((Node::FloatingImage { img, alt }, rest)),
            },
        },
    }
}

/// The nodes of a whole document, given its tokens.
pub open spec fn document_of(ts: Seq<TokenView>, bad: bool) -> Result<Seq<Node>, Error> {
    match nodes_until(ts, bad, Stop::End) {
        Err(e) => Err(e),
        Ok((nodes, _)) => Ok(nodes),
    }
}

/// The nodes of the document that the source text `text` holds.
pub open spec fn document(text: Seq<char>) -> Result<Seq<Node>, Error> {
    document_of(tokens_from(text, 0), ends_badly(text, 0))
}

} // verus!
