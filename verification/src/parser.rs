//! The parser: from source text to the document tree.
//!
//! The parser looks at the next token, finds the handler that the
//! registry holds for it, and lets the handler read the construct. A
//! handler that meets nested constructs hands them back to the parser.
//! Nothing is read twice and no second handler is tried.

pub mod directive_parselets;
pub mod expression;
pub mod grammar;
pub mod inline_parselets;
pub mod line_parselets;
pub mod newline_parselet;
pub mod prefix_parselet;
pub mod theorems;
pub mod token;
pub mod tokenizer;

use vstd::prelude::*;
use vstd::string::*;
use crate::error::Error;
use crate::parser::directive_parselets::{
    CodeParselet,
    Container,
    ContainerParselet,
    ImageParselet,
    LinkParselet,
    Mark,
    MarkParselet,
    PagenameParselet,
    QuoteParselet,
    TileParselet,
};
use crate::parser::expression::{lemma_views_empty, lemma_views_push, views, Expression, Node};
use crate::parser::grammar::{
    construct_for,
    directive_named,
    document,
    expect,
    group,
    node,
    nodes_until,
    payload,
    stops_at,
    Construct,
    Stop,
};
use crate::parser::inline_parselets::{BoldParselet, ItalicParselet, TextParselet};
use crate::parser::line_parselets::{HeadingParselet, ParagraphParselet};
use crate::parser::newline_parselet::NewlineParselet;
use crate::parser::prefix_parselet::PrefixParselet;
use crate::parser::token::{Token, TokenClass, TokenView};
use crate::parser::tokenizer::Tokenizer;
use crate::text::same_text;

verus! {

/// The parser of the markup.
pub struct Parser {}

fn directive(name: &str) -> (c: Option<Construct>)
    ensures
        c == directive_named(name@),
{
    if same_text(name, "p") {
        Some(Construct::Paragraph)
    } else if same_text(name, "menu") {
        Some(Construct::Menu)
    } else if same_text(name, "footnotes") {
        Some(Construct::Footnotes)
    } else if same_text(name, "date") {
        Some(Construct::Date)
    } else if same_text(name, "pagename") {
        Some(Construct::Pagename)
    } else if same_text(name, "footer") {
        Some(Construct::Footer)
    } else if same_text(name, "footnote") {
        Some(Construct::Footnote)
    } else if same_text(name, "topblock") {
        Some(Construct::Topblock)
    } else if same_text(name, "tiles") {
        Some(Construct::Tiles)
    } else if same_text(name, "quote") {
        Some(Construct::Quote)
    } else if same_text(name, "link") {
        Some(Construct::Link)
    } else if same_text(name, "code") {
        Some(Construct::Code)
    } else if same_text(name, "tile") {
        Some(Construct::Tile)
    } else if same_text(name, "image") {
        Some(Construct::Image)
    } else if same_text(name, "float") {
        Some(Construct::FloatingImage)
    } else {
        None
    }
}

fn stops(stop: Stop, class: TokenClass) -> (b: bool)
    ensures
        b == stops_at(stop, class),
{
    match stop {
        Stop::End => false,
        Stop::Line => class == TokenClass::Newline || class == TokenClass::CloseBrace,
        Stop::Close(closer) => class == closer,
    }
}

impl Parser {
    pub fn new() -> Parser {
        Parser {  }
    }

    /// The registry: the construct whose handler reads what starts with
    /// `token`, or `None` where no construct starts with it.
    pub fn lookup(&self, token: &Token) -> (c: Option<Construct>)
        ensures
            c == construct_for(token@),
    {
        match token.get_class() {
            TokenClass::Alphanumeric => Some(Construct::Text),
            TokenClass::Newline => Some(Construct::Newline),
            TokenClass::Hash => Some(Construct::Heading),
            TokenClass::Star => Some(Construct::Bold),
            TokenClass::Underscore => Some(Construct::Italic),
            TokenClass::Directive => directive(token.get_value()),
            TokenClass::OpenBrace => None,
            TokenClass::CloseBrace => None,
        }
    }

    /// Reads one construct: takes its first token, looks up the handler
    /// and lets it read the rest.
    pub fn dispatch(&self, tokenizer: &mut Tokenizer) -> (r: Result<Expression, Error>)
        requires
            old(tokenizer).wf(),
        ensures
            final(tokenizer).wf(),
            final(tokenizer).ends_badly() == old(tokenizer).ends_badly(),
            match node(old(tokenizer).remaining(), old(tokenizer).ends_badly()) {
                Ok((n, rest)) => r matches Ok(e) && e@ == n && final(tokenizer).remaining() == rest
                    && rest.len() < old(tokenizer).remaining().len(),
                Err(e) => r == Err::<Expression, Error>(e),
            },
        decreases old(tokenizer).remaining().len(), 0int,
    {
        let token = match tokenizer.next()? {
            None => {
                return Err(Error::UnexpectedEof);
            },
            Some(t) => t,
        };
        match self.lookup(&token) {
            None => Err(Error::UnrecognizedControlSequence),
            Some(c) => match c {
                Construct::Text => TextParselet.parse(self, tokenizer, &token),
                Construct::Newline => NewlineParselet.parse(self, tokenizer, &token),
                Construct::Heading => HeadingParselet.parse(self, tokenizer, &token),
                Construct::Bold => BoldParselet.parse(self, tokenizer, &token),
                Construct::Italic => ItalicParselet.parse(self, tokenizer, &token),
                Construct::Paragraph => ParagraphParselet.parse(self, tokenizer, &token),
                Construct::Menu => MarkParselet { mark: Mark::Menu }.parse(self, tokenizer, &token),
                Construct::Footnotes => MarkParselet { mark: Mark::Footnotes }.parse(
                    self,
                    tokenizer,
                    &token,
                ),
                Construct::Date => MarkParselet { mark: Mark::Date }.parse(self, tokenizer, &token),
                Construct::Pagename => PagenameParselet.parse(self, tokenizer, &token),
                Construct::Footer => ContainerParselet { container: Container::Footer }.parse(
                    self,
                    tokenizer,
                    &token,
                ),
                Construct::Footnote => ContainerParselet { container: Container::Footnote }.parse(
                    self,
                    tokenizer,
                    &token,
                ),
                Construct::Topblock => ContainerParselet { container: Container::Topblock }.parse(
                    self,
                    tokenizer,
                    &token,
                ),
                Construct::Tiles => ContainerParselet { container: Container::Tiles }.parse(
                    self,
                    tokenizer,
                    &token,
                ),
                Construct::Quote => QuoteParselet.parse(self, tokenizer, &token),
                Construct::Link => LinkParselet.parse(self, tokenizer, &token),
                Construct::Code => CodeParselet.parse(self, tokenizer, &token),
                Construct::Tile => TileParselet.parse(self, tokenizer, &token),
                Construct::Image => ImageParselet { floating: false }.parse(self, tokenizer, &token),
                Construct::FloatingImage => ImageParselet { floating: true }.parse(
                    self,
                    tokenizer,
                    &token,
                ),
            },
        }
    }

    /// Reads constructs until `stop` ends them.
    pub fn parse_until(&self, tokenizer: &mut Tokenizer, stop: Stop) -> (r: Result<
        Vec<Expression>,
        Error,
    >)
        requires
            old(tokenizer).wf(),
        ensures
            final(tokenizer).wf(),
            final(tokenizer).ends_badly() == old(tokenizer).ends_badly(),
            match nodes_until(old(tokenizer).remaining(), old(tokenizer).ends_badly(), stop) {
                Ok((ns, rest)) => r matches Ok(v) && views(v@) == ns && final(tokenizer).remaining()
                    == rest && rest.len() <= old(tokenizer).remaining().len(),
                Err(e) => r == Err::<Vec<Expression>, Error>(e),
            },
        decreases old(tokenizer).remaining().len(), 1int,
    {
        let ghost start = tokenizer.remaining();
        let ghost bad = tokenizer.ends_badly();
        let mut nodes: Vec<Expression> = Vec::new();
        proof {
            lemma_views_empty();
            match nodes_until(start, bad, stop) {
                Ok((ns, rest)) => {
                    assert(views(nodes@) + ns =~= ns);
                },
                Err(e) => {},
            }
        }
        loop
            invariant
                tokenizer.wf(),
                tokenizer.ends_badly() == bad,
                bad == old(tokenizer).ends_badly(),
                start == old(tokenizer).remaining(),
                tokenizer.remaining().len() <= start.len(),
                match nodes_until(tokenizer.remaining(), bad, stop) {
                    Ok((ns, rest)) => nodes_until(start, bad, stop) == Ok::<
                        (Seq<Node>, Seq<TokenView>),
                        Error,
                    >((views(nodes@) + ns, rest)),
                    Err(e) => nodes_until(start, bad, stop) == Err::<
                        (Seq<Node>, Seq<TokenView>),
                        Error,
                    >(e),
                },
            decreases tokenizer.remaining().len(),
        {
            let ghost here = tokenizer.remaining();
            match tokenizer.peek()? {
                None => {
                    match stop {
                        Stop::Close(_) => {
                            return Err(Error::UnexpectedEof);
                        },
                        _ => {
                            assert(views(nodes@) + Seq::empty() =~= views(nodes@));
                            return Ok(nodes);
                        },
                    }
                },
                Some(t) => {
                    if stops(stop, t.get_class()) {
                        match stop {
                            Stop::Close(_) => {
                                let _ = tokenizer.next();
                            },
                            _ => {},
                        }
                        assert(views(nodes@) + Seq::empty() =~= views(nodes@));
                        return Ok(nodes);
                    }
                    let e = self.dispatch(tokenizer)?;
                    proof {
                        lemma_views_push(nodes@, e);
                        match nodes_until(tokenizer.remaining(), bad, stop) {
                            Ok((ns, rest)) => {
                                assert(views(nodes@.push(e)) + ns =~= views(nodes@) + (seq![e@]
                                    + ns));
                            },
                            Err(e) => {},
                        }
                    }
                    nodes.push(e);
                },
            }
        }
    }

    /// Takes the next token, which must be of the class `class`.
    pub fn expect(&self, tokenizer: &mut Tokenizer, class: TokenClass) -> (r: Result<Token, Error>)
        requires
            old(tokenizer).wf(),
        ensures
            final(tokenizer).wf(),
            final(tokenizer).ends_badly() == old(tokenizer).ends_badly(),
            match expect(old(tokenizer).remaining(), old(tokenizer).ends_badly(), class) {
                Ok((t, rest)) => r matches Ok(token) && token@ == t && final(tokenizer).remaining()
                    == rest && rest.len() < old(tokenizer).remaining().len(),
                Err(e) => r == Err::<Token, Error>(e),
            },
    {
        match tokenizer.peek()? {
            None => Err(Error::UnexpectedEof),
            Some(t) => {
                if t.get_class() == class {
                    let _ = tokenizer.next();
                    Ok(t)
                } else {
                    Err(Error::ExpectedTokenOfClass)
                }
            },
        }
    }

    /// Reads an argument that is one run of text between braces.
    pub fn payload(&self, tokenizer: &mut Tokenizer) -> (r: Result<String, Error>)
        requires
            old(tokenizer).wf(),
        ensures
            final(tokenizer).wf(),
            final(tokenizer).ends_badly() == old(tokenizer).ends_badly(),
            match payload(old(tokenizer).remaining(), old(tokenizer).ends_badly()) {
                Ok((text, rest)) => r matches Ok(s) && s@ == text && final(tokenizer).remaining()
                    == rest && rest.len() < old(tokenizer).remaining().len(),
                Err(e) => r == Err::<String, Error>(e),
            },
    {
        let _ = self.expect(tokenizer, TokenClass::OpenBrace)?;
        let text = self.expect(tokenizer, TokenClass::Alphanumeric)?;
        let _ = self.expect(tokenizer, TokenClass::CloseBrace)?;
        Ok(text.into_value())
    }

    /// Reads an argument that holds constructs, from `{` to the
    /// matching `}`.
    pub fn group(&self, tokenizer: &mut Tokenizer) -> (r: Result<Vec<Expression>, Error>)
        requires
            old(tokenizer).wf(),
        ensures
            final(tokenizer).wf(),
            final(tokenizer).ends_badly() == old(tokenizer).ends_badly(),
            match group(old(tokenizer).remaining(), old(tokenizer).ends_badly()) {
                Ok((ns, rest)) => r matches Ok(v) && views(v@) == ns && final(tokenizer).remaining()
                    == rest && rest.len() < old(tokenizer).remaining().len(),
                Err(e) => r == Err::<Vec<Expression>, Error>(e),
            },
        decreases old(tokenizer).remaining().len(), 2int,
    {
        let _ = self.expect(tokenizer, TokenClass::OpenBrace)?;
        self.parse_until(tokenizer, Stop::Close(TokenClass::CloseBrace))
    }

    /// Parses a whole document.
    pub fn parse(&self, text: &str) -> (r: Result<Vec<Expression>, Error>)
        ensures
            match document(text@) {
                Ok(ns) => r matches Ok(v) && views(v@) == ns,
                Err(e) => r == Err::<Vec<Expression>, Error>(e),
            },
    {
        let mut tokenizer = Tokenizer::new(text);
        self.parse_until(&mut tokenizer, Stop::End)
    }
}

} // verus!
