//! The handlers for text and for emphasis.

use vstd::prelude::*;
use vstd::string::*;
use crate::error::Error;
use crate::parser::expression::{Expression, Node};
use crate::parser::grammar::{construct, Construct, Parsed, Stop};
use crate::parser::prefix_parselet::PrefixParselet;
use crate::parser::token::{Token, TokenClass, TokenView};
use crate::parser::tokenizer::Tokenizer;
use crate::parser::Parser;

verus! {

/// Turns a run of text into a text node.
pub struct TextParselet;

/// Reads bold text: what stands between two `*`.
pub struct BoldParselet;

/// Reads italic text: what stands between two `_`.
pub struct ItalicParselet;

impl PrefixParselet for TextParselet {
    open spec fn parsed(&self, token: TokenView, ts: Seq<TokenView>, bad: bool) -> Parsed<Node> {
        construct(Construct::Text, token, ts, bad)
    }

    fn parse(&self, parser: &Parser, tokenizer: &mut Tokenizer, token: &Token) -> (r: Result<
        Expression,
        Error,
    >) {
        Ok(Expression::Alphanumeric(String::from_str(token.get_value())))
    }
}

impl PrefixParselet for BoldParselet {
    open spec fn parsed(&self, token: TokenView, ts: Seq<TokenView>, bad: bool) -> Parsed<Node> {
        construct(Construct::Bold, token, ts, bad)
    }

    fn parse(&self, parser: &Parser, tokenizer: &mut Tokenizer, token: &Token) -> (r: Result<
        Expression,
        Error,
    >)
        decreases old(tokenizer).remaining().len(), 3int,
    {
        let children = parser.parse_until(tokenizer, Stop::Close(TokenClass::Star))?;
        Ok(Expression::Bold(children))
    }
}

impl PrefixParselet for ItalicParselet {
    open spec fn parsed(&self, token: TokenView, ts: Seq<TokenView>, bad: bool) -> Parsed<Node> {
        construct(Construct::Italic, token, ts, bad)
    }

    fn parse(&self, parser: &Parser, tokenizer: &mut Tokenizer, token: &Token) -> (r: Result<
        Expression,
        Error,
    >)
        decreases old(tokenizer).remaining().len(), 3int,
    {
        let children = parser.parse_until(tokenizer, Stop::Close(TokenClass::Underscore))?;
        Ok(Expression::Italic(children))
    }
}

} // verus!
