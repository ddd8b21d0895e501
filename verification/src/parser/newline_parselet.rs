//! The handler for line breaks.

use vstd::prelude::*;
use crate::error::Error;
use crate::parser::expression::{Expression, Node};
use crate::parser::grammar::{line_break, skip_blank, Parsed};
use crate::parser::prefix_parselet::PrefixParselet;
use crate::parser::token::{Token, TokenClass, TokenView};
use crate::parser::tokenizer::Tokenizer;
use crate::parser::Parser;

verus! {

/// Reads a line break. Every line end and every empty run of text that
/// follows the first line end belongs to the same break.
pub struct NewlineParselet;

impl PrefixParselet for NewlineParselet {
    open spec fn parsed(&self, token: TokenView, ts: Seq<TokenView>, bad: bool) -> Parsed<Node> {
        line_break(ts, bad)
    }

    fn parse(&self, parser: &Parser, tokenizer: &mut Tokenizer, token: &Token) -> (r: Result<
        Expression,
        Error,
    >) {
        loop
            invariant
                tokenizer.wf(),
                tokenizer.ends_badly() == old(tokenizer).ends_badly(),
                tokenizer.remaining().len() <= old(tokenizer).remaining().len(),
                skip_blank(tokenizer.remaining()) == skip_blank(old(tokenizer).remaining()),
            decreases tokenizer.remaining().len(),
        {
            match tokenizer.peek()? {
                None => {
                    return Ok(Expression::Newline);
                },
                Some(t) => {
                    if t.get_class() == TokenClass::Newline || (t.get_class()
                        == TokenClass::Alphanumeric && t.get_value().is_empty()) {
                        let _ = tokenizer.next();
                    } else {
                        return Ok(Expression::Newline);
                    }
                },
            }
        }
    }
}

} // verus!
