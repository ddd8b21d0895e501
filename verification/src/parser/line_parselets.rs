//! The handlers for the constructs that take a line: headings and
//! paragraphs.

use vstd::prelude::*;
use crate::error::Error;
use crate::parser::expression::{views, Expression, Node};
use crate::parser::grammar::{
    construct,
    heading,
    heading_node,
    Construct,
    Parsed,
    Stop,
    MAX_HEADING_LEVEL,
};
use crate::parser::prefix_parselet::PrefixParselet;
use crate::parser::token::{Token, TokenClass, TokenView};
use crate::parser::tokenizer::Tokenizer;
use crate::parser::Parser;

verus! {

/// Reads a heading. The number of heading markers in a row is the
/// heading's level; more than six are too many.
pub struct HeadingParselet;

/// Reads a paragraph: the line after `@p`.
pub struct ParagraphParselet;

/// The heading of the level `level` over `children`.
pub fn heading_of(level: usize, children: Vec<Expression>) -> (e: Expression)
    requires
        1 <= level <= MAX_HEADING_LEVEL,
    ensures
        e@ == heading_node(level as int, views(children@)),
{
    if level == 1 {
        Expression::Header(children)
    } else if level == 2 {
        Expression::Title(children)
    } else if level == 3 {
        Expression::Heading(children)
    } else if level == 4 {
        Expression::Subheading(children)
    } else if level == 5 {
        Expression::Subtitle(children)
    } else {
        Expression::Subsubtitle(children)
    }
}

impl PrefixParselet for HeadingParselet {
    open spec fn parsed(&self, token: TokenView, ts: Seq<TokenView>, bad: bool) -> Parsed<Node> {
        construct(Construct::Heading, token, ts, bad)
    }

    fn parse(&self, parser: &Parser, tokenizer: &mut Tokenizer, token: &Token) -> (r: Result<
        Expression,
        Error,
    >)
        decreases old(tokenizer).remaining().len(), 3int,
    {
        let ghost bad = tokenizer.ends_badly();
        let mut level: usize = 1;
        loop
            invariant
                tokenizer.wf(),
                tokenizer.ends_badly() == bad,
                bad == old(tokenizer).ends_badly(),
                1 <= level <= MAX_HEADING_LEVEL,
                tokenizer.remaining().len() <= old(tokenizer).remaining().len(),
                heading(tokenizer.remaining(), bad, level as int) == heading(
                    old(tokenizer).remaining(),
                    bad,
                    1,
                ),
            ensures
                tokenizer.wf(),
                tokenizer.ends_badly() == bad,
                1 <= level <= MAX_HEADING_LEVEL,
                tokenizer.remaining().len() <= old(tokenizer).remaining().len(),
                heading(tokenizer.remaining(), bad, level as int) == heading(
                    old(tokenizer).remaining(),
                    bad,
                    1,
                ),
                !(tokenizer.remaining().len() > 0 && tokenizer.remaining()[0].class
                    == TokenClass::Hash),
            decreases tokenizer.remaining().len(),
        {
            match tokenizer.peek() {
                Ok(Some(t)) => {
                    if t.get_class() == TokenClass::Hash {
                        if level >= MAX_HEADING_LEVEL {
                            return Err(Error::TooManyHashes);
                        }
                        let _ = tokenizer.next();
                        level = level + 1;
                    } else {
                        break;
                    }
                },
                _ => {
                    break;
                },
            }
        }
        let children = parser.parse_until(tokenizer, Stop::Line)?;
        Ok(heading_of(level, children))
    }
}

impl PrefixParselet for ParagraphParselet {
    open spec fn parsed(&self, token: TokenView, ts: Seq<TokenView>, bad: bool) -> Parsed<Node> {
        construct(Construct::Paragraph, token, ts, bad)
    }

    fn parse(&self, parser: &Parser, tokenizer: &mut Tokenizer, token: &Token) -> (r: Result<
        Expression,
        Error,
    >)
        decreases old(tokenizer).remaining().len(), 3int,
    {
        let children = parser.parse_until(tokenizer, Stop::Line)?;
        Ok(Expression::Paragraph(children))
    }
}

} // verus!
