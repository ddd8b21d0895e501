//! A compiler from a small markup language to HTML pages, with a
//! change-aware decision on whether a regenerated page replaces the
//! published one.
//!
//! The source text is cut into tokens, the tokens are parsed into a
//! document tree, the tree is rendered into a page, and the page is held
//! against the one that was published before.

pub mod emitter;
pub mod error;
pub mod parser;
pub mod publisher;
pub mod text;

pub use crate::emitter::{Emitter, Snippet};
pub use crate::error::Error;
pub use crate::parser::expression::Expression;
pub use crate::parser::newline_parselet::NewlineParselet;
pub use crate::parser::prefix_parselet::PrefixParselet;
pub use crate::parser::Parser;

use vstd::prelude::*;
use vstd::string::*;
use crate::emitter::{
    all_renderable,
    default_title,
    lemma_render_all_one,
    page,
    page_foot,
    page_head,
    page_name,
    page_neck,
    page_title,
    render,
    any_holds_date,
    theorem_body_follows_nodes,
    theorem_empty_page,
    theorem_nested_emphasis_tags,
    theorem_page_without_date,
    SnippetView,
};
use crate::parser::expression::{views, Node};
use crate::parser::grammar::document;
use crate::parser::theorems::{
    is_plain_text,
    theorem_empty_document,
    theorem_nested_emphasis,
    theorem_unclosed_emphasis,
};
use crate::parser::tokenizer::trim;
use crate::publisher::{decide, text_of, verdict};

verus! {

/// What compiling a source gives: the text of the page, and whether it
/// is to be written.
pub struct Compiled {
    /// The text of the page.
    pub page: String,
    /// Whether the page replaces the one that was published before.
    /// `None` where the two are too long to compare.
    pub write: Option<bool>,
}

impl Compiled {
    /// Whether the page is to be written after all: it is, unless the
    /// decision was to keep the published page. A page that could not
    /// be compared with the published one is written.
    pub fn is_written(&self) -> (written: bool)
        ensures
            written == (self.write != Some(false)),
    {
        match self.write {
            Some(w) => w,
            None => true,
        }
    }
}

/// The page that the document `ns` renders to, under its own name.
pub open spec fn rendered(ns: Seq<Node>, date: Seq<char>, snippets: Seq<SnippetView>) -> Result<
    Seq<char>,
    Error,
> {
    if all_renderable(ns, snippets) {
        Ok(page(page_title(ns), ns, date, snippets))
    } else {
        Err(Error::CannotOpenFile)
    }
}

/// The page that the source text `source` compiles to.
pub open spec fn compiled(source: Seq<char>, date: Seq<char>, snippets: Seq<SnippetView>) -> Result<
    Seq<char>,
    Error,
> {
    match document(source) {
        Err(e) => Err(e),
        Ok(ns) => rendered(ns, date, snippets),
    }
}

/// Renders a parsed document and decides whether the page is written.
/// `previous` is the text of the page that was published before, if
/// there is one.
pub fn publish(expressions: &Vec<Expression>, emitter: &Emitter, previous: Option<&str>) -> (r:
    Result<Compiled, Error>)
    ensures
        match rendered(views(expressions@), emitter.date(), emitter.snippets()) {
            Ok(text) => r matches Ok(c) && c.page@ == text && c.write == verdict(
                text_of(previous),
                text,
            ),
            Err(e) => r == Err::<Compiled, Error>(e),
        },
{
    let name = page_name(expressions);
    let text = emitter.emit_text(expressions, name.as_str())?;
    let write = decide(previous, text.as_str());
    Ok(Compiled { page: text, write })
}

/// Compiles a source text: parses it, renders the page and decides
/// whether the page is written. `previous` is the text of the page that
/// was published before, if there is one.
pub fn compile(source: &str, emitter: &Emitter, previous: Option<&str>) -> (r: Result<
    Compiled,
    Error,
>)
    ensures
        match compiled(source@, emitter.date(), emitter.snippets()) {
            Ok(text) => r matches Ok(c) && c.page@ == text && c.write == verdict(
                text_of(previous),
                text,
            ),
            Err(e) => r == Err::<Compiled, Error>(e),
        },
        previous is None ==> (r matches Ok(c) ==> c.write == Some(true)),
{
    let parser = Parser::new();
    let expressions = parser.parse(source)?;
    publish(&expressions, emitter, previous)
}

/// The empty source compiles to the page with the default title and
/// nothing in its body.
pub proof fn theorem_empty_source(date: Seq<char>, snippets: Seq<SnippetView>)
    ensures
        compiled(Seq::<char>::empty(), date, snippets) == Ok::<Seq<char>, Error>(
            page_head() + default_title() + page_neck() + page_foot(),
        ),
{
    theorem_empty_document();
    theorem_empty_page(default_title(), date, snippets);
}

/// The source `_*text*_` compiles to a page whose body is the text
/// between the tags of bold, between the tags of italic: the tags close
/// in the reverse of the order in which they open.
pub proof fn theorem_nested_emphasis_page(
    text: Seq<char>,
    date: Seq<char>,
    snippets: Seq<SnippetView>,
)
    requires
        text.len() > 0,
        is_plain_text(text),
    ensures
        compiled(seq!['_', '*'] + text + seq!['*', '_'], date, snippets) == Ok::<Seq<char>, Error>(
            page_head() + default_title() + page_neck() + (" <em>"@ + " <strong>"@ + trim(text)
                + "</strong> "@ + "</em> "@ + "\n\n"@) + page_foot(),
        ),
{
    let leaf = Node::Alphanumeric(trim(text));
    let italic = Node::Italic(seq![Node::Bold(seq![leaf])]);
    let ns = seq![italic];
    theorem_nested_emphasis(text);
    theorem_nested_emphasis_tags(seq![leaf], date, snippets);
    lemma_render_all_one(leaf, date, snippets);
    let none = Seq::<Node>::empty();
    theorem_body_follows_nodes(none, italic, date, snippets);
    assert(none.push(italic) =~= ns);
    assert(emitter::body(none, date, snippets) =~= Seq::<char>::empty());
    assert(render(italic, date, snippets).len() > 0) by {
        reveal_strlit(" <em>");
    }
    assert(emitter::body(ns, date, snippets) =~= " <em>"@ + " <strong>"@ + trim(text)
        + "</strong> "@ + "</em> "@ + "\n\n"@);
    assert(all_renderable(ns, snippets)) by {
        let bold = Node::Bold(seq![leaf]);
        assert(seq![leaf].drop_last() =~= Seq::<Node>::empty());
        assert(seq![bold].drop_last() =~= Seq::<Node>::empty());
        assert(ns.drop_last() =~= Seq::<Node>::empty());
        assert(all_renderable(Seq::<Node>::empty(), snippets));
        assert(emitter::renderable(leaf, snippets));
        assert(all_renderable(seq![leaf], snippets));
        assert(emitter::renderable(bold, snippets));
        assert(all_renderable(seq![bold], snippets));
        assert(emitter::renderable(italic, snippets));
    }
    assert(page_title(ns) == default_title());
}

/// A bold or italic marker that is followed by text alone, and never by
/// its closing marker, does not compile: it fails with the early end
/// of the source, and there is no page.
pub proof fn theorem_unclosed_emphasis_does_not_compile(
    marker: char,
    text: Seq<char>,
    date: Seq<char>,
    snippets: Seq<SnippetView>,
)
    requires
        marker == '*' || marker == '_',
        is_plain_text(text),
    ensures
        compiled(seq![marker] + text, date, snippets) == Err::<Seq<char>, Error>(
            Error::UnexpectedEof,
        ),
{
    theorem_unclosed_emphasis(marker, text);
}

/// Compiling twice: where the second run renders the page that the
/// first run published, character for character, it does not write.
pub proof fn theorem_second_run_keeps_the_page(
    source: Seq<char>,
    date: Seq<char>,
    snippets: Seq<SnippetView>,
)
    requires
        compiled(source, date, snippets) is Ok,
    ensures
        verdict(Some(compiled(source, date, snippets)->Ok_0), compiled(source, date, snippets)->Ok_0)
            == Some(false),
{
}

/// Compiling twice on different days: where the document holds no
/// date node, the second run renders the page that the first run
/// published and does not write.
pub proof fn theorem_second_run_without_date(
    source: Seq<char>,
    first: Seq<char>,
    second: Seq<char>,
    snippets: Seq<SnippetView>,
)
    requires
        document(source) matches Ok(ns) && !any_holds_date(ns),
    ensures
        compiled(source, first, snippets) == compiled(source, second, snippets),
        compiled(source, first, snippets) matches Ok(published) ==> verdict(
            Some(published),
            compiled(source, second, snippets)->Ok_0,
        ) == Some(false),
{
    let ns = document(source)->Ok_0;
    theorem_page_without_date(page_title(ns), ns, first, second, snippets);
}

} // verus!
