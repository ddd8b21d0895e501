//! The handlers for the directives: the constructs that start with `@`
//! and a name, and take their arguments in braces.

use vstd::prelude::*;
use vstd::string::*;
use crate::error::Error;
use crate::parser::expression::{Expression, Node};
use crate::parser::grammar::{construct, Construct, Parsed};
use crate::parser::prefix_parselet::PrefixParselet;
use crate::parser::token::{Token, TokenView};
use crate::parser::tokenizer::Tokenizer;
use crate::parser::Parser;

verus! {

/// The directives that take no argument and only mark a place.
#[derive(Clone, Copy, PartialEq, Eq, Debug, Structural)]
pub enum Mark {
    Menu,
    Footnotes,
    Date,
}

/// The directives that take one argument of nested constructs.
#[derive(Clone, Copy, PartialEq, Eq, Debug, Structural)]
pub enum Container {
    Footer,
    Footnote,
    Topblock,
    Tiles,
}

impl Mark {
    pub open spec fn construct(self) -> Construct {
        match self {
            Mark::Menu => Construct::Menu,
            Mark::Footnotes => Construct::Footnotes,
            Mark::Date => Construct::Date,
        }
    }
}

impl Container {
    pub open spec fn construct(self) -> Construct {
        match self {
            Container::Footer => Construct::Footer,
            Container::Footnote => Construct::Footnote,
            Container::Topblock => Construct::Topblock,
            Container::Tiles => Construct::Tiles,
        }
    }
}

/// Reads `@menu`, `@footnotes` or `@date`.
pub struct MarkParselet {
    pub mark: Mark,
}

/// Reads `@pagename{name}`.
pub struct PagenameParselet;

/// Reads `@footer{..}`, `@footnote{..}`, `@topblock{..}` or `@tiles{..}`.
pub struct ContainerParselet {
    pub container: Container,
}

/// Reads `@quote{..}{..}`: the quotation, then whom it is from.
pub struct QuoteParselet;

/// Reads `@link{href}{..}`.
pub struct LinkParselet;

/// Reads `@code{language}{path}`.
pub struct CodeParselet;

/// Reads `@tile{href}{img}{..}`.
pub struct TileParselet;

/// Reads `@image{src}{alt}{scale}`, or `@float{src}{alt}` where
/// `floating` is set.
pub struct ImageParselet {
    pub floating: bool,
}

impl PrefixParselet for MarkParselet {
    open spec fn parsed(&self, token: TokenView, ts: Seq<TokenView>, bad: bool) -> Parsed<Node> {
        construct(self.mark.construct(), token, ts, bad)
    }

    fn parse(&self, parser: &Parser, tokenizer: &mut Tokenizer, token: &Token) -> (r: Result<
        Expression,
        Error,
    >) {
        match self.mark {
            Mark::Menu => Ok(Expression::Menu),
            Mark::Footnotes => Ok(Expression::Footnotes),
            Mark::Date => Ok(Expression::Date),
        }
    }
}

impl PrefixParselet for PagenameParselet {
    open spec fn parsed(&self, token: TokenView, ts: Seq<TokenView>, bad: bool) -> Parsed<Node> {
        construct(Construct::Pagename, token, ts, bad)
    }

    fn parse(&self, parser: &Parser, tokenizer: &mut Tokenizer, token: &Token) -> (r: Result<
        Expression,
        Error,
    >) {
        let name = parser.payload(tokenizer)?;
        Ok(Expression::Pagename(name))
    }
}

impl PrefixParselet for ContainerParselet {
    open spec fn parsed(&self, token: TokenView, ts: Seq<TokenView>, bad: bool) -> Parsed<Node> {
        construct(self.container.construct(), token, ts, bad)
    }

    fn parse(&self, parser: &Parser, tokenizer: &mut Tokenizer, token: &Token) -> (r: Result<
        Expression,
        Error,
    >)
        decreases old(tokenizer).remaining().len(), 3int,
    {
        let children = parser.group(tokenizer)?;
        match self.container {
            Container::Footer => Ok(Expression::Footer(children)),
            Container::Footnote => Ok(Expression::Footnote(children)),
            Container::Topblock => Ok(Expression::Topblock(children)),
            Container::Tiles => Ok(Expression::Tiles(children)),
        }
    }
}

impl PrefixParselet for QuoteParselet {
    open spec fn parsed(&self, token: TokenView, ts: Seq<TokenView>, bad: bool) -> Parsed<Node> {
        construct(Construct::Quote, token, ts, bad)
    }

    fn parse(&self, parser: &Parser, tokenizer: &mut Tokenizer, token: &Token) -> (r: Result<
        Expression,
        Error,
    >)
        decreases old(tokenizer).remaining().len(), 3int,
    {
        let quote = parser.group(tokenizer)?;
        let citation = parser.group(tokenizer)?;
        Ok(Expression::BlockQuote { quote, citation })
    }
}

impl PrefixParselet for LinkParselet {
    open spec fn parsed(&self, token: TokenView, ts: Seq<TokenView>, bad: bool) -> Parsed<Node> {
        construct(Construct::Link, token, ts, bad)
    }

    fn parse(&self, parser: &Parser, tokenizer: &mut Tokenizer, token: &Token) -> (r: Result<
        Expression,
        Error,
    >)
        decreases old(tokenizer).remaining().len(), 3int,
    {
        let href = parser.payload(tokenizer)?;
        let name = parser.group(tokenizer)?;
        Ok(Expression::Hyperlink { name, href })
    }
}

impl PrefixParselet for CodeParselet {
    open spec fn parsed(&self, token: TokenView, ts: Seq<TokenView>, bad: bool) -> Parsed<Node> {
        construct(Construct::Code, token, ts, bad)
    }

    fn parse(&self, parser: &Parser, tokenizer: &mut Tokenizer, token: &Token) -> (r: Result<
        Expression,
        Error,
    >) {
        let language = parser.payload(tokenizer)?;
        let code = parser.payload(tokenizer)?;
        Ok(Expression::Code { language, code })
    }
}

impl PrefixParselet for TileParselet {
    open spec fn parsed(&self, token: TokenView, ts: Seq<TokenView>, bad: bool) -> Parsed<Node> {
        construct(Construct::Tile, token, ts, bad)
    }

    fn parse(&self, parser: &Parser, tokenizer: &mut Tokenizer, token: &Token) -> (r: Result<
        Expression,
        Error,
    >)
        decreases old(tokenizer).remaining().len(), 3int,
    {
        let href = parser.payload(tokenizer)?;
        let img = parser.payload(tokenizer)?;
        let name = parser.group(tokenizer)?;
        Ok(Expression::Tile { name, img, href })
    }
}

impl PrefixParselet for ImageParselet {
    open spec fn parsed(&self, token: TokenView, ts: Seq<TokenView>, bad: bool) -> Parsed<Node> {
        if self.floating {
            construct(Construct::FloatingImage, token, ts, bad)
        } else {
            construct(Construct::Image, token, ts, bad)
        }
    }

    fn parse(&self, parser: &Parser, tokenizer: &mut Tokenizer, token: &Token) -> (r: Result<
        Expression,
        Error,
    >) {
        let img = parser.payload(tokenizer)?;
        let alt = parser.payload(tokenizer)?;
        if self.floating {
            Ok(Expression::FloatingImage { img, alt })
        } else {
            let scale = parser.payload(tokenizer)?;
            Ok(Expression::Image { img, alt, scale })
        }
    }
}

} // verus!
