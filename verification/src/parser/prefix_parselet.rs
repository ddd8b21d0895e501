//! Handlers: each one reads the tokens of one construct and gives one node.

use vstd::prelude::*;
use crate::error::Error;
use crate::parser::expression::{Expression, Node};
use crate::parser::grammar::Parsed;
use crate::parser::token::{Token, TokenView};
use crate::parser::tokenizer::Tokenizer;
use crate::parser::Parser;

verus! {

/// A handler for one construct of the markup. The parser calls it after
/// it has taken the construct's first token; the handler takes the rest
/// of the construct from the scanner and returns its node.
pub trait PrefixParselet {
    /// What this handler makes of the tokens `ts` that follow `token`:
    /// the node and the tokens after the construct, or the failure.
    /// `bad` says whether the tokens end at a character that the scanner
    /// does not accept.
    spec fn parsed(&self, token: TokenView, ts: Seq<TokenView>, bad: bool) -> Parsed<Node>;

    fn parse(&self, parser: &Parser, tokenizer: &mut Tokenizer, token: &Token) -> (r: Result<
        Expression,
        Error,
    >)
        requires
            old(tokenizer).wf(),
        ensures
            final(tokenizer).wf(),
            final(tokenizer).ends_badly() == old(tokenizer).ends_badly(),
            match self.parsed(token@, old(tokenizer).remaining(), old(tokenizer).ends_badly()) {
                Ok((node, rest)) => r matches Ok(e) && e@ == node && final(tokenizer).remaining()
                    == rest && rest.len() <= old(tokenizer).remaining().len(),
                Err(e) => r == Err::<Expression, Error>(e),
            },
    ;
}

} // verus!
