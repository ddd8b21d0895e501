//! The emitter: from the document tree to the text of the page.
//!
//! A node with children renders as its opening tag, its children in
//! order, and its closing tag. A code node takes the contents of its
//! snippet, with `<` and `>` replaced by their entities. The date node
//! takes the date that the emitter was made with.
//!
//! Text goes out as it stands, and so do addresses, image sources and
//! the other values that are written into attributes: nothing but a
//! snippet is escaped. A source that holds `<`, `&` or `"` in such a
//! place gives a page that holds them too.
//! The page is a fixed frame around the nodes. Every node that renders
//! to anything stands on lines of its own and is followed by one blank
//! line, so that a change in one node and a change in the next are
//! told apart when two pages are compared line by line.

use vstd::prelude::*;
use vstd::string::*;
use crate::error::Error;
use crate::parser::expression::{views, Expression, Node};
use crate::text::{chars_of, same_text};

verus! {

/// The title of a page that names none.
pub open spec fn default_title() -> Seq<char> {
    "New Page"@
}

/// The class that marks the line of the date in a page.
pub open spec fn date_marker() -> Seq<char> {
    "last-updated-date"@
}

/// The pattern in which the date of the day is written: the day of the
/// week, the month, the day of the month and the year.
pub open spec fn date_pattern() -> Seq<char> {
    "%A, %B %d, %Y"@
}

/// The mathematical value of a snippet: the path that code nodes name it
/// by, and what the file holds.
pub ghost struct SnippetView {
    pub path: Seq<char>,
    pub contents: Seq<char>,
}

/// A code snippet that was read for the emitter.
#[derive(Clone, PartialEq, Eq, Debug)]
pub struct Snippet {
    pub path: String,
    pub contents: String,
}

impl View for Snippet {
    type V = SnippetView;

    open spec fn view(&self) -> SnippetView {
        SnippetView { path: self.path@, contents: self.contents@ }
    }
}

/// The values of a sequence of snippets.
pub open spec fn table(snippets: Seq<Snippet>) -> Seq<SnippetView> {
    Seq::new(snippets.len(), |i: int| snippets[i]@)
}

/// The contents of the first snippet from `i` on whose path is `path`.
pub open spec fn lookup_from(snippets: Seq<SnippetView>, path: Seq<char>, i: int) -> Option<
    Seq<char>,
>
    decreases snippets.len() - i,
{
    if i < 0 || i >= snippets.len() {
        None
    } else if snippets[i].path == path {
        Some(snippets[i].contents)
    } else {
        lookup_from(snippets, path, i + 1)
    }
}

/// The contents of the first snippet whose path is `path`.
pub open spec fn lookup(snippets: Seq<SnippetView>, path: Seq<char>) -> Option<Seq<char>> {
    lookup_from(snippets, path, 0)
}

/// What a character of a snippet is written as.
pub open spec fn escaped_char(c: char) -> Seq<char> {
    if c == '<' {
        "&lt;"@
    } else if c == '>' {
        "&gt;"@
    } else {
        seq![c]
    }
}

/// `s` with every `<` and `>` replaced by its entity.
pub open spec fn escaped(s: Seq<char>) -> Seq<char>
    decreases s.len(),
{
    if s.len() == 0 {
        Seq::empty()
    } else {
        escaped(s.drop_last()) + escaped_char(s.last())
    }
}

/// The rendering of one node, with `date` for the date of the day and
/// `snippets` for the files that code nodes name. A code node whose
/// snippet is missing has no rendering; see `renderable`.
pub open spec fn render(n: Node, date: Seq<char>, snippets: Seq<SnippetView>) -> Seq<char>
    decreases n,
{
    match n {
        Node::Title(c) => "<h2>"@ + render_all(c, date, snippets) + "</h2>"@,
        Node::Heading(c) => "<h3>"@ + render_all(c, date, snippets) + "</h3>"@,
        Node::Subheading(c) => "<h4>"@ + render_all(c, date, snippets) + "</h4>"@,
        Node::Subtitle(c) => "<h5>"@ + render_all(c, date, snippets) + "</h5>"@,
        Node::Subsubtitle(c) => "<h6>"@ + render_all(c, date, snippets) + "</h6>"@,
        Node::Paragraph(c) => "<p>"@ + render_all(c, date, snippets) + "</p>"@,
        Node::Alphanumeric(s) => s,
        Node::Newline => Seq::empty(),
        Node::Bold(c) => " <strong>"@ + render_all(c, date, snippets) + "</strong> "@,
        Node::Italic(c) => " <em>"@ + render_all(c, date, snippets) + "</em> "@,
        Node::BlockQuote { quote, citation } => " <p class=\"block\">"@ + render_all(
            quote,
            date,
            snippets,
        ) + "</p><p class=\"citation\">~ "@ + render_all(citation, date, snippets) + "</p>"@,
        Node::Hyperlink { name, href } => " <a href=\""@ + href + "\">"@ + render_all(
            name,
            date,
            snippets,
        ) + "</a> "@,
        Node::Code { language, code } => match lookup(snippets, code) {
            Some(contents) => "<pre><code class=\"language-"@ + language + "\">"@ + escaped(
                contents,
            ) + "</code></pre>"@,
            None => Seq::empty(),
        },
        Node::Tile { name, img, href } => " <a class=\"tile\" href=\""@ + href
            + "\" style=\"background-image: url('"@ + img + "'); background-position: center;\">"@
            + render_all(name, date, snippets) + "</a> "@,
        Node::Image { img, alt, scale } => " <img src=\""@ + img + "\" style=\"height: "@ + scale
            + "px;\" alt=\""@ + alt + "\"> "@,
        Node::FloatingImage { img, alt } => " <img src=\""@ + img + "\" class=\"floating\" alt=\""@
            + alt + "\"> "@,
        Node::Header(c) => "<h1>"@ + render_all(c, date, snippets) + "</h1>"@,
        Node::Footer(c) => "<h6 class=\"footer\">"@ + render_all(c, date, snippets) + "</h6>"@,
        Node::Footnote(c) => "<footnote>"@ + render_all(c, date, snippets) + "</footnote>"@,
        Node::Footnotes => "<footnotes>"@,
        Node::Topblock(c) => "<div class=\"topblock\">"@ + render_all(c, date, snippets)
            + "</div>"@,
        Node::Menu => "<menu>"@,
        Node::Date => "<p class=\"last-updated-date\">Last Updated "@ + date + "</p>"@,
        Node::Tiles(c) => "<div class=\"tiles\">\n"@ + render_all(c, date, snippets)
            + "\n</div>"@,
        Node::Pagename(_) => Seq::empty(),
    }
}

/// The renderings of the nodes `ns`, one after the other.
pub open spec fn render_all(ns: Seq<Node>, date: Seq<char>, snippets: Seq<SnippetView>) -> Seq<
    char,
>
    decreases ns,
{
    if ns.len() == 0 {
        Seq::empty()
    } else {
        render_all(ns.drop_last(), date, snippets) + render(ns.last(), date, snippets)
    }
}

/// Whether every code node in `n` names a snippet that is there.
pub open spec fn renderable(n: Node, snippets: Seq<SnippetView>) -> bool
    decreases n,
{
    match n {
        Node::Title(c) => all_renderable(c, snippets),
        Node::Heading(c) => all_renderable(c, snippets),
        Node::Subheading(c) => all_renderable(c, snippets),
        Node::Subtitle(c) => all_renderable(c, snippets),
        Node::Subsubtitle(c) => all_renderable(c, snippets),
        Node::Paragraph(c) => all_renderable(c, snippets),
        Node::Bold(c) => all_renderable(c, snippets),
        Node::Italic(c) => all_renderable(c, snippets),
        Node::BlockQuote { quote, citation } => all_renderable(quote, snippets) && all_renderable(
            citation,
            snippets,
        ),
        Node::Hyperlink { name, href } => all_renderable(name, snippets),
        Node::Code { language, code } => lookup(snippets, code) is Some,
        Node::Tile { name, img, href } => all_renderable(name, snippets),
        Node::Header(c) => all_renderable(c, snippets),
        Node::Footer(c) => all_renderable(c, snippets),
        Node::Footnote(c) => all_renderable(c, snippets),
        Node::Topblock(c) => all_renderable(c, snippets),
        Node::Tiles(c) => all_renderable(c, snippets),
        _ => true,
    }
}

/// Whether every code node in `ns` names a snippet that is there.
pub open spec fn all_renderable(ns: Seq<Node>, snippets: Seq<SnippetView>) -> bool
    decreases ns,
{
    ns.len() == 0 || (all_renderable(ns.drop_last(), snippets) && renderable(ns.last(), snippets))
}

/// The name of the page: what the first node declares, if it declares a
/// name, and the default title otherwise.
pub open spec fn page_title(ns: Seq<Node>) -> Seq<char> {
    if ns.len() > 0 && ns[0] is Pagename {
        ns[0]->Pagename_0
    } else {
        default_title()
    }
}

/// What a rendering adds to the body: itself and a blank line, or
/// nothing where the rendering is empty.
pub open spec fn block(rendering: Seq<char>) -> Seq<char> {
    if rendering.len() == 0 {
        Seq::empty()
    } else {
        rendering + "\n\n"@
    }
}

/// The body of the page: the blocks of the nodes of the document, in
/// their order.
pub open spec fn body(ns: Seq<Node>, date: Seq<char>, snippets: Seq<SnippetView>) -> Seq<char>
    decreases ns.len(),
{
    if ns.len() == 0 {
        Seq::empty()
    } else {
        body(ns.drop_last(), date, snippets) + block(render(ns.last(), date, snippets))
    }
}

/// What stands before the title in every page.
pub open spec fn page_head() -> Seq<char> {
    "<!DOCTYPE html>\n<html>\n<head>\n<meta charset=\"utf-8\">\n<title>"@
}

/// What stands between the title and the body in every page.
pub open spec fn page_neck() -> Seq<char> {
    "</title>\n</head>\n<body>\n\n"@
}

/// What stands after the body in every page.
pub open spec fn page_foot() -> Seq<char> {
    "</body>\n</html>\n"@
}

/// The text of the page with the title `title` over the nodes `ns`.
pub open spec fn page(
    title: Seq<char>,
    ns: Seq<Node>,
    date: Seq<char>,
    snippets: Seq<SnippetView>,
) -> Seq<char> {
    page_head() + title + page_neck() + body(ns, date, snippets) + page_foot()
}

/// Where every node of `ns` can be rendered, so can each one of them.
pub proof fn lemma_all_renderable_index(ns: Seq<Node>, snippets: Seq<SnippetView>, i: int)
    requires
        all_renderable(ns, snippets),
        0 <= i < ns.len(),
    ensures
        renderable(ns[i], snippets),
    decreases ns.len(),
{
    if i < ns.len() - 1 {
        lemma_all_renderable_index(ns.drop_last(), snippets, i);
    }
}

/// The paths of the snippets that the code nodes in `n` name, in the
/// order of the document.
pub open spec fn paths(n: Node) -> Seq<Seq<char>>
    decreases n,
{
    match n {
        Node::Title(c) => all_paths(c),
        Node::Heading(c) => all_paths(c),
        Node::Subheading(c) => all_paths(c),
        Node::Subtitle(c) => all_paths(c),
        Node::Subsubtitle(c) => all_paths(c),
        Node::Paragraph(c) => all_paths(c),
        Node::Bold(c) => all_paths(c),
        Node::Italic(c) => all_paths(c),
        Node::BlockQuote { quote, citation } => all_paths(quote) + all_paths(citation),
        Node::Hyperlink { name, href } => all_paths(name),
        Node::Code { language, code } => seq![code],
        Node::Tile { name, img, href } => all_paths(name),
        Node::Header(c) => all_paths(c),
        Node::Footer(c) => all_paths(c),
        Node::Footnote(c) => all_paths(c),
        Node::Topblock(c) => all_paths(c),
        Node::Tiles(c) => all_paths(c),
        _ => Seq::empty(),
    }
}

/// The paths of the snippets that the code nodes in `ns` name, in the
/// order of the document.
pub open spec fn all_paths(ns: Seq<Node>) -> Seq<Seq<char>>
    decreases ns,
{
    if ns.len() == 0 {
        Seq::empty()
    } else {
        all_paths(ns.drop_last()) + paths(ns.last())
    }
}

/// Whether `snippets` holds a snippet for every path of `wanted`.
pub open spec fn has_all(snippets: Seq<SnippetView>, wanted: Seq<Seq<char>>) -> bool {
    forall|i: int| 0 <= i < wanted.len() ==> (#[trigger] lookup(snippets, wanted[i])) is Some
}

/// The texts of a sequence of strings.
pub open spec fn texts(v: Seq<String>) -> Seq<Seq<char>> {
    Seq::new(v.len(), |i: int| v[i]@)
}

/// A node can be rendered exactly where a snippet is there for every
/// path that its code nodes name.
pub proof fn lemma_renderable_iff_snippets(n: Node, snippets: Seq<SnippetView>)
    ensures
        renderable(n, snippets) <==> has_all(snippets, paths(n)),
    decreases n,
{
    match n {
        Node::Title(c) => lemma_all_renderable_iff_snippets(c, snippets),
        Node::Heading(c) => lemma_all_renderable_iff_snippets(c, snippets),
        Node::Subheading(c) => lemma_all_renderable_iff_snippets(c, snippets),
        Node::Subtitle(c) => lemma_all_renderable_iff_snippets(c, snippets),
        Node::Subsubtitle(c) => lemma_all_renderable_iff_snippets(c, snippets),
        Node::Paragraph(c) => lemma_all_renderable_iff_snippets(c, snippets),
        Node::Bold(c) => lemma_all_renderable_iff_snippets(c, snippets),
        Node::Italic(c) => lemma_all_renderable_iff_snippets(c, snippets),
        Node::BlockQuote { quote, citation } => {
            lemma_all_renderable_iff_snippets(quote, snippets);
            lemma_all_renderable_iff_snippets(citation, snippets);
            lemma_has_all_concat(snippets, all_paths(quote), all_paths(citation));
        },
        Node::Hyperlink { name, href } => lemma_all_renderable_iff_snippets(name, snippets),
        Node::Code { language, code } => {
            assert(paths(n)[0] == code);
        },
        Node::Tile { name, img, href } => lemma_all_renderable_iff_snippets(name, snippets),
        Node::Header(c) => lemma_all_renderable_iff_snippets(c, snippets),
        Node::Footer(c) => lemma_all_renderable_iff_snippets(c, snippets),
        Node::Footnote(c) => lemma_all_renderable_iff_snippets(c, snippets),
        Node::Topblock(c) => lemma_all_renderable_iff_snippets(c, snippets),
        Node::Tiles(c) => lemma_all_renderable_iff_snippets(c, snippets),
        _ => {},
    }
}

/// A document can be rendered exactly where a snippet is there for every
/// path that its code nodes name.
pub proof fn lemma_all_renderable_iff_snippets(ns: Seq<Node>, snippets: Seq<SnippetView>)
    ensures
        all_renderable(ns, snippets) <==> has_all(snippets, all_paths(ns)),
    decreases ns,
{
    if ns.len() > 0 {
        lemma_all_renderable_iff_snippets(ns.drop_last(), snippets);
        lemma_renderable_iff_snippets(ns.last(), snippets);
        lemma_has_all_concat(snippets, all_paths(ns.drop_last()), paths(ns.last()));
    }
}

/// Snippets are there for all of `a + b` exactly where they are there
/// for all of `a` and for all of `b`.
pub proof fn lemma_has_all_concat(snippets: Seq<SnippetView>, a: Seq<Seq<char>>, b: Seq<Seq<char>>)
    ensures
        has_all(snippets, a + b) <==> has_all(snippets, a) && has_all(snippets, b),
{
    if has_all(snippets, a + b) {
        assert forall|i: int| 0 <= i < a.len() implies (#[trigger] lookup(snippets, a[i])) is Some by {
            assert((a + b)[i] == a[i]);
        }
        assert forall|i: int| 0 <= i < b.len() implies (#[trigger] lookup(snippets, b[i])) is Some by {
            assert((a + b)[a.len() + i] == b[i]);
        }
    }
    if has_all(snippets, a) && has_all(snippets, b) {
        assert forall|i: int| 0 <= i < (a + b).len() implies (#[trigger] lookup(
            snippets,
            (a + b)[i],
        )) is Some by {
            if i < a.len() {
                assert((a + b)[i] == a[i]);
            } else {
                assert((a + b)[i] == b[i - a.len()]);
            }
        }
    }
}

/// Appends to `out` the paths of the snippets that the code nodes in
/// `v` name.
pub fn collect_paths(v: &Vec<Expression>, out: &mut Vec<String>)
    ensures
        texts(final(out)@) == texts(old(out)@) + all_paths(views(v@)),
    decreases v, 1int,
{
    let ghost ns = views(v@);
    let mut i: usize = 0;
    assert(texts(out@) + all_paths(ns.take(0)) =~= texts(out@));
    while i < v.len()
        invariant
            i <= v.len(),
            ns == views(v@),
            texts(out@) == texts(old(out)@) + all_paths(ns.take(i as int)),
        decreases v.len() - i,
    {
        proof {
            assert(decreases_to!(*v => v@));
            assert(decreases_to!(v@ => v@[i as int]));
            assert(ns.take(i + 1).drop_last() =~= ns.take(i as int));
            assert(ns.take(i + 1).last() == v@[i as int]@);
        }
        collect_node_paths(&v[i], out);
        assert(texts(out@) =~= texts(old(out)@) + all_paths(ns.take(i + 1)));
        i = i + 1;
    }
    assert(ns.take(i as int) =~= ns);
}

/// Appends to `out` the paths of the snippets that the code nodes in
/// `e` name.
pub fn collect_node_paths(e: &Expression, out: &mut Vec<String>)
    ensures
        texts(final(out)@) == texts(old(out)@) + paths(e@),
    decreases e, 0int,
{
    match e {
        Expression::Title(v) => collect_paths(v, out),
        Expression::Heading(v) => collect_paths(v, out),
        Expression::Subheading(v) => collect_paths(v, out),
        Expression::Subtitle(v) => collect_paths(v, out),
        Expression::Subsubtitle(v) => collect_paths(v, out),
        Expression::Paragraph(v) => collect_paths(v, out),
        Expression::Bold(v) => collect_paths(v, out),
        Expression::Italic(v) => collect_paths(v, out),
        Expression::BlockQuote { quote, citation } => {
            collect_paths(quote, out);
            collect_paths(citation, out);
            assert(texts(out@) =~= texts(old(out)@) + paths(e@));
        },
        Expression::Hyperlink { name, href } => collect_paths(name, out),
        Expression::Code { language, code } => {
            out.push(code.clone());
            assert(texts(out@) =~= texts(old(out)@) + paths(e@));
        },
        Expression::Tile { name, img, href } => collect_paths(name, out),
        Expression::Header(v) => collect_paths(v, out),
        Expression::Footer(v) => collect_paths(v, out),
        Expression::Footnote(v) => collect_paths(v, out),
        Expression::Topblock(v) => collect_paths(v, out),
        Expression::Tiles(v) => collect_paths(v, out),
        _ => {
            assert(texts(out@) =~= texts(old(out)@) + paths(e@));
        },
    }
}

/// The paths of the snippets that rendering `expressions` takes, in the
/// order of the document.
pub fn code_paths(expressions: &Vec<Expression>) -> (wanted: Vec<String>)
    ensures
        texts(wanted@) == all_paths(views(expressions@)),
{
    let mut wanted: Vec<String> = Vec::new();
    collect_paths(expressions, &mut wanted);
    assert(texts(wanted@) =~= all_paths(views(expressions@)));
    wanted
}

/// Whether `date` can stand in the line of the date: it is not empty
/// and holds no line end.
pub open spec fn is_one_line(date: Seq<char>) -> bool {
    date.len() > 0 && forall|i: int| 0 <= i < date.len() ==> date[i] != '\n'
}

/// `chrono::Local::now` and `DateTime::format`: the local date and time
/// of this moment, written in the pattern `pattern`. Which text comes
/// back depends on the clock and on the time zone of the machine. What
/// is claimed holds of every date: the pattern of `date_pattern` gives
/// the English name of the day of the week, a comma and a space, the
/// English name of the month, a space, the day of the month in two
/// digits, a comma and a space, and the year in digits, with a sign
/// before it outside the years 0 to 9999. None of these is empty or
/// holds a line end. On a pattern that chrono does not accept the
/// formatting panics, so the pattern must be that one.
#[verifier::external_body]
fn local_date(pattern: &str) -> (date: String)
    requires
        pattern@ == date_pattern(),
    ensures
        is_one_line(date@),
{
    chrono::Local::now().format(pattern).to_string()
}

/// The date of today on this machine, as date nodes show it: one line
/// of text.
pub fn today() -> (date: String)
    ensures
        is_one_line(date@),
{
    local_date("%A, %B %d, %Y")
}

/// Replaces every `<` and `>` of `contents` by its entity.
pub fn escape(contents: &str) -> (out: String)
    ensures
        out@ == escaped(contents@),
{
    let chars = chars_of(contents);
    let mut out = String::new();
    let mut i: usize = 0;
    while i < chars.len()
        invariant
            i <= chars.len(),
            chars@ == contents@,
            out@ == escaped(chars@.take(i as int)),
        decreases chars.len() - i,
    {
        let c = chars[i];
        proof {
            assert(chars@.take(i + 1).drop_last() =~= chars@.take(i as int));
            assert(chars@.take(i + 1).last() == c);
            assert(seq![c] =~= Seq::<char>::empty().push(c));
        }
        if c == '<' {
            out.append("&lt;");
        } else if c == '>' {
            out.append("&gt;");
        } else {
            let ghost before = out@;
            out.push(c);
            assert(out@ =~= before + seq![c]);
        }
        i = i + 1;
    }
    assert(chars@.take(i as int) =~= chars@);
    out
}

/// The name of the page: what the first node declares, if it declares a
/// name, and the default title otherwise.
pub fn page_name(expressions: &Vec<Expression>) -> (name: String)
    ensures
        name@ == page_title(views(expressions@)),
{
    if expressions.len() > 0 {
        match &expressions[0] {
            Expression::Pagename(s) => s.clone(),
            _ => String::from_str("New Page"),
        }
    } else {
        String::from_str("New Page")
    }
}

/// Renders document trees. It holds what rendering needs from outside
/// the tree: the date of the day, and the code snippets that were read.
pub struct Emitter {
    date: String,
    snippets: Vec<Snippet>,
}

impl Emitter {
    /// The date that date nodes are rendered with.
    pub closed spec fn date(&self) -> Seq<char> {
        self.date@
    }

    /// The snippets that code nodes are rendered with.
    pub closed spec fn snippets(&self) -> Seq<SnippetView> {
        table(self.snippets@)
    }

    /// An emitter that writes `date` for the date of the day and finds
    /// the contents of code nodes in `snippets`.
    pub fn new(date: String, snippets: Vec<Snippet>) -> (emitter: Emitter)
        ensures
            emitter.date() == date@,
            emitter.snippets() == table(snippets@),
    {
        Emitter { date, snippets }
    }

    /// An emitter that writes the date of today and finds the contents
    /// of code nodes in `snippets`.
    pub fn for_today(snippets: Vec<Snippet>) -> (emitter: Emitter)
        ensures
            is_one_line(emitter.date()),
            emitter.snippets() == table(snippets@),
    {
        Emitter::new(today(), snippets)
    }

    fn find(&self, path: &str) -> (r: Option<usize>)
        ensures
            match lookup(self.snippets(), path@) {
                Some(contents) => r matches Some(i) && i < self.snippets.len()
                    && self.snippets@[i as int].contents@ == contents,
                None => r is None,
            },
    {
        let mut i: usize = 0;
        while i < self.snippets.len()
            invariant
                i <= self.snippets.len(),
                lookup(self.snippets(), path@) == lookup_from(self.snippets(), path@, i as int),
            decreases self.snippets.len() - i,
        {
            if same_text(self.snippets[i].path.as_str(), path) {
                return Some(i);
            }
            i = i + 1;
        }
        None
    }

    fn children(&self, v: &Vec<Expression>, out: &mut String) -> (r: Result<(), Error>)
        ensures
            all_renderable(views(v@), self.snippets()) ==> r is Ok && final(out)@ == old(out)@
                + render_all(views(v@), self.date(), self.snippets()),
            !all_renderable(views(v@), self.snippets()) ==> r == Err::<(), Error>(
                Error::CannotOpenFile,
            ),
        decreases v, 1int,
    {
        let ghost ns = views(v@);
        let mut i: usize = 0;
        assert(old(out)@ + render_all(ns.take(0), self.date(), self.snippets()) =~= old(out)@);
        while i < v.len()
            invariant
                i <= v.len(),
                ns == views(v@),
                all_renderable(ns.take(i as int), self.snippets()),
                out@ == old(out)@ + render_all(ns.take(i as int), self.date(), self.snippets()),
            decreases v.len() - i,
        {
            proof {
                assert(decreases_to!(*v => v@));
                assert(decreases_to!(v@ => v@[i as int]));
                assert(ns.take(i + 1).drop_last() =~= ns.take(i as int));
                assert(ns.take(i + 1).last() == v@[i as int]@);
                if all_renderable(ns, self.snippets()) {
                    lemma_all_renderable_index(ns, self.snippets(), i as int);
                }
            }
            let ghost before = out@;
            self.render(&v[i], out)?;
            assert(out@ =~= old(out)@ + render_all(ns.take(i + 1), self.date(), self.snippets()));
            i = i + 1;
        }
        assert(ns.take(i as int) =~= ns);
        Ok(())
    }

    fn framed(&self, open: &str, v: &Vec<Expression>, close: &str, out: &mut String) -> (r: Result<
        (),
        Error,
    >)
        ensures
            all_renderable(views(v@), self.snippets()) ==> r is Ok && final(out)@ == old(out)@ + (
            open@ + render_all(views(v@), self.date(), self.snippets()) + close@),
            !all_renderable(views(v@), self.snippets()) ==> r == Err::<(), Error>(
                Error::CannotOpenFile,
            ),
        decreases v, 2int,
    {
        out.append(open);
        self.children(v, out)?;
        out.append(close);
        assert(out@ =~= old(out)@ + (open@ + render_all(views(v@), self.date(), self.snippets())
            + close@));
        Ok(())
    }

    /// Appends the rendering of `e` to `out`. It fails where a code node
    /// in `e` names a snippet that is missing.
    pub fn render(&self, e: &Expression, out: &mut String) -> (r: Result<(), Error>)
        ensures
            renderable(e@, self.snippets()) ==> r is Ok && final(out)@ == old(out)@ + render(
                e@,
                self.date(),
                self.snippets(),
            ),
            !renderable(e@, self.snippets()) ==> r == Err::<(), Error>(Error::CannotOpenFile),
        decreases e, 0int,
    {
        match e {
            Expression::Title(v) => self.framed("<h2>", v, "</h2>", out),
            Expression::Heading(v) => self.framed("<h3>", v, "</h3>", out),
            Expression::Subheading(v) => self.framed("<h4>", v, "</h4>", out),
            Expression::Subtitle(v) => self.framed("<h5>", v, "</h5>", out),
            Expression::Subsubtitle(v) => self.framed("<h6>", v, "</h6>", out),
            Expression::Paragraph(v) => self.framed("<p>", v, "</p>", out),
            Expression::Alphanumeric(s) => {
                out.append(s.as_str());
                Ok(())
            },
            Expression::Newline => {
                assert(out@ =~= old(out)@ + Seq::<char>::empty());
                Ok(())
            },
            Expression::Bold(v) => self.framed(" <strong>", v, "</strong> ", out),
            Expression::Italic(v) => self.framed(" <em>", v, "</em> ", out),
            Expression::BlockQuote { quote, citation } => {
                out.append(" <p class=\"block\">");
                self.children(quote, out)?;
                out.append("</p><p class=\"citation\">~ ");
                self.children(citation, out)?;
                out.append("</p>");
                assert(out@ =~= old(out)@ + render(e@, self.date(), self.snippets()));
                Ok(())
            },
            Expression::Hyperlink { name, href } => {
                out.append(" <a href=\"");
                out.append(href.as_str());
                out.append("\">");
                self.children(name, out)?;
                out.append("</a> ");
                assert(out@ =~= old(out)@ + render(e@, self.date(), self.snippets()));
                Ok(())
            },
            Expression::Code { language, code } => {
                match self.find(code.as_str()) {
                    None => Err(Error::CannotOpenFile),
                    Some(i) => {
                        let contents = escape(self.snippets[i].contents.as_str());
                        out.append("<pre><code class=\"language-");
                        out.append(language.as_str());
                        out.append("\">");
                        out.append(contents.as_str());
                        out.append("</code></pre>");
                        assert(out@ =~= old(out)@ + render(e@, self.date(), self.snippets()));
                        Ok(())
                    },
                }
            },
            Expression::Tile { name, img, href } => {
                out.append(" <a class=\"tile\" href=\"");
                out.append(href.as_str());
                out.append("\" style=\"background-image: url('");
                out.append(img.as_str());
                out.append("'); background-position: center;\">");
                self.children(name, out)?;
                out.append("</a> ");
                assert(out@ =~= old(out)@ + render(e@, self.date(), self.snippets()));
                Ok(())
            },
            Expression::Image { img, alt, scale } => {
                out.append(" <img src=\"");
                out.append(img.as_str());
                out.append("\" style=\"height: ");
                out.append(scale.as_str());
                out.append("px;\" alt=\"");
                out.append(alt.as_str());
                out.append("\"> ");
                assert(out@ =~= old(out)@ + render(e@, self.date(), self.snippets()));
                Ok(())
            },
            Expression::FloatingImage { img, alt } => {
                out.append(" <img src=\"");
                out.append(img.as_str());
                out.append("\" class=\"floating\" alt=\"");
                out.append(alt.as_str());
                out.append("\"> ");
                assert(out@ =~= old(out)@ + render(e@, self.date(), self.snippets()));
                Ok(())
            },
            Expression::Header(v) => self.framed("<h1>", v, "</h1>", out),
            Expression::Footer(v) => self.framed("<h6 class=\"footer\">", v, "</h6>", out),
            Expression::Footnote(v) => self.framed("<footnote>", v, "</footnote>", out),
            Expression::Footnotes => {
                out.append("<footnotes>");
                Ok(())
            },
            Expression::Topblock(v) => self.framed("<div class=\"topblock\">", v, "</div>", out),
            Expression::Menu => {
                out.append("<menu>");
                Ok(())
            },
            Expression::Date => {
                out.append("<p class=\"last-updated-date\">Last Updated ");
                out.append(self.date.as_str());
                out.append("</p>");
                assert(out@ =~= old(out)@ + render(e@, self.date(), self.snippets()));
                Ok(())
            },
            Expression::Tiles(v) => self.framed("<div class=\"tiles\">\n", v, "\n</div>", out),
            Expression::Pagename(_) => {
                assert(out@ =~= old(out)@ + Seq::<char>::empty());
                Ok(())
            },
        }
    }

    /// Renders the page with the title `pagename` over `expressions`, as
    /// text. It fails where a code node names a snippet that is missing.
    pub fn emit_text(&self, expressions: &Vec<Expression>, pagename: &str) -> (r: Result<
        String,
        Error,
    >)
        ensures
            all_renderable(views(expressions@), self.snippets()) ==> (r matches Ok(text) && text@
                == page(pagename@, views(expressions@), self.date(), self.snippets())),
            !all_renderable(views(expressions@), self.snippets()) ==> r == Err::<String, Error>(
                Error::CannotOpenFile,
            ),
    {
        let ghost ns = views(expressions@);
        let mut out = String::from_str(
            "<!DOCTYPE html>\n<html>\n<head>\n<meta charset=\"utf-8\">\n<title>",
        );
        out.append(pagename);
        out.append("</title>\n</head>\n<body>\n\n");
        let ghost front = out@;
        let mut i: usize = 0;
        assert(front + body(ns.take(0), self.date(), self.snippets()) =~= front);
        while i < expressions.len()
            invariant
                i <= expressions.len(),
                ns == views(expressions@),
                all_renderable(ns.take(i as int), self.snippets()),
                out@ == front + body(ns.take(i as int), self.date(), self.snippets()),
            decreases expressions.len() - i,
        {
            proof {
                assert(ns.take(i + 1).drop_last() =~= ns.take(i as int));
                assert(ns.take(i + 1).last() == expressions@[i as int]@);
                if all_renderable(ns, self.snippets()) {
                    lemma_all_renderable_index(ns, self.snippets(), i as int);
                }
            }
            let mut piece = String::new();
            self.render(&expressions[i], &mut piece)?;
            assert(piece@ =~= render(ns[i as int], self.date(), self.snippets()));
            if !piece.as_str().is_empty() {
                out.append(piece.as_str());
                out.append("\n\n");
            }
            assert(out@ =~= front + body(ns.take(i + 1), self.date(), self.snippets()));
            i = i + 1;
        }
        assert(ns.take(i as int) =~= ns);
        out.append("</body>\n</html>\n");
        assert(out@ =~= page(pagename@, ns, self.date(), self.snippets()));
        Ok(out)
    }

    /// Renders the page with the title `pagename` over `expressions`, as
    /// the bytes that are written to the output file.
    pub fn emit(&self, expressions: &Vec<Expression>, pagename: &str) -> (r: Result<Vec<u8>, Error>)
        ensures
            bytes_of(r) == emission(views(expressions@), pagename@, self.date(), self.snippets()),
    {
        let text = self.emit_text(expressions, pagename)?;
        Ok(text.as_str().as_bytes_vec())
    }
}

/// The bytes of the page with the title `title` over the nodes `ns`, or
/// the failure where a snippet is missing.
pub open spec fn emission(
    ns: Seq<Node>,
    title: Seq<char>,
    date: Seq<char>,
    snippets: Seq<SnippetView>,
) -> Result<Seq<u8>, Error> {
    if all_renderable(ns, snippets) {
        Ok(vstd::utf8::encode_utf8(page(title, ns, date, snippets)))
    } else {
        Err(Error::CannotOpenFile)
    }
}

/// What an emitter handed back, as a mathematical value.
pub open spec fn bytes_of(r: Result<Vec<u8>, Error>) -> Result<Seq<u8>, Error> {
    match r {
        Ok(bytes) => Ok(bytes@),
        Err(e) => Err(e),
    }
}

/// Rendering is a function of the tree, the title, the date and the
/// snippets: two emissions of the same document with the same date give
/// the same bytes, or fail alike.
pub proof fn theorem_emission_is_determined(
    first: Result<Vec<u8>, Error>,
    second: Result<Vec<u8>, Error>,
    ns: Seq<Node>,
    title: Seq<char>,
    date: Seq<char>,
    snippets: Seq<SnippetView>,
)
    requires
        bytes_of(first) == emission(ns, title, date, snippets),
        bytes_of(second) == emission(ns, title, date, snippets),
    ensures
        bytes_of(first) == bytes_of(second),
{
}

/// The renderings of two sequences of nodes, one after the other, are
/// the rendering of the two sequences joined.
pub proof fn lemma_render_all_concat(
    a: Seq<Node>,
    b: Seq<Node>,
    date: Seq<char>,
    snippets: Seq<SnippetView>,
)
    ensures
        render_all(a + b, date, snippets) == render_all(a, date, snippets) + render_all(
            b,
            date,
            snippets,
        ),
    decreases b.len(),
{
    if b.len() == 0 {
        assert(a + b =~= a);
        assert(render_all(a, date, snippets) + Seq::<char>::empty() =~= render_all(
            a,
            date,
            snippets,
        ));
    } else {
        assert((a + b).drop_last() =~= a + b.drop_last());
        assert((a + b).last() == b.last());
        lemma_render_all_concat(a, b.drop_last(), date, snippets);
        assert(render_all(a + b, date, snippets) =~= render_all(a, date, snippets) + render_all(
            b,
            date,
            snippets,
        ));
    }
}

/// The rendering of a single node, taken as a sequence.
pub proof fn lemma_render_all_one(n: Node, date: Seq<char>, snippets: Seq<SnippetView>)
    ensures
        render_all(seq![n], date, snippets) == render(n, date, snippets),
{
    assert(seq![n].drop_last() =~= Seq::<Node>::empty());
    assert(render_all(seq![n].drop_last(), date, snippets) =~= Seq::<char>::empty());
    assert(render_all(seq![n], date, snippets) =~= render(n, date, snippets));
}

/// Italic around bold renders as the two opening tags, the children,
/// and the two closing tags in the reverse order.
pub proof fn theorem_nested_emphasis_tags(
    children: Seq<Node>,
    date: Seq<char>,
    snippets: Seq<SnippetView>,
)
    ensures
        render(Node::Italic(seq![Node::Bold(children)]), date, snippets) == " <em>"@
            + " <strong>"@ + render_all(children, date, snippets) + "</strong> "@ + "</em> "@,
{
    lemma_render_all_one(Node::Bold(children), date, snippets);
    assert(render(Node::Italic(seq![Node::Bold(children)]), date, snippets) =~= " <em>"@
        + " <strong>"@ + render_all(children, date, snippets) + "</strong> "@ + "</em> "@);
}

/// The body holds the rendering of every node, one for one and in the
/// order of the document: a further node adds its block at the end.
pub proof fn theorem_body_follows_nodes(
    ns: Seq<Node>,
    n: Node,
    date: Seq<char>,
    snippets: Seq<SnippetView>,
)
    ensures
        body(ns.push(n), date, snippets) == body(ns, date, snippets) + block(
            render(n, date, snippets),
        ),
{
    assert(ns.push(n).drop_last() =~= ns);
}

/// The body of two documents joined is the two bodies joined.
pub proof fn theorem_body_concat(
    a: Seq<Node>,
    b: Seq<Node>,
    date: Seq<char>,
    snippets: Seq<SnippetView>,
)
    ensures
        body(a + b, date, snippets) == body(a, date, snippets) + body(b, date, snippets),
    decreases b.len(),
{
    if b.len() == 0 {
        assert(a + b =~= a);
        assert(body(a, date, snippets) + Seq::<char>::empty() =~= body(a, date, snippets));
    } else {
        assert((a + b).drop_last() =~= a + b.drop_last());
        assert((a + b).last() == b.last());
        theorem_body_concat(a, b.drop_last(), date, snippets);
        assert(body(a + b, date, snippets) =~= body(a, date, snippets) + body(b, date, snippets));
    }
}

/// The page of the empty document is the frame around the title.
pub proof fn theorem_empty_page(title: Seq<char>, date: Seq<char>, snippets: Seq<SnippetView>)
    ensures
        all_renderable(Seq::<Node>::empty(), snippets),
        page(title, Seq::<Node>::empty(), date, snippets) == page_head() + title + page_neck()
            + page_foot(),
{
    assert(page(title, Seq::<Node>::empty(), date, snippets) =~= page_head() + title + page_neck()
        + page_foot());
}

/// Whether a date node stands in `n`, at any depth.
pub open spec fn holds_date(n: Node) -> bool
    decreases n,
{
    match n {
        Node::Date => true,
        Node::Title(c) => any_holds_date(c),
        Node::Heading(c) => any_holds_date(c),
        Node::Subheading(c) => any_holds_date(c),
        Node::Subtitle(c) => any_holds_date(c),
        Node::Subsubtitle(c) => any_holds_date(c),
        Node::Paragraph(c) => any_holds_date(c),
        Node::Bold(c) => any_holds_date(c),
        Node::Italic(c) => any_holds_date(c),
        Node::BlockQuote { quote, citation } => any_holds_date(quote) || any_holds_date(citation),
        Node::Hyperlink { name, href } => any_holds_date(name),
        Node::Tile { name, img, href } => any_holds_date(name),
        Node::Header(c) => any_holds_date(c),
        Node::Footer(c) => any_holds_date(c),
        Node::Footnote(c) => any_holds_date(c),
        Node::Topblock(c) => any_holds_date(c),
        Node::Tiles(c) => any_holds_date(c),
        _ => false,
    }
}

/// Whether a date node stands in one of `ns`, at any depth.
pub open spec fn any_holds_date(ns: Seq<Node>) -> bool
    decreases ns,
{
    ns.len() > 0 && (any_holds_date(ns.drop_last()) || holds_date(ns.last()))
}

/// A node without a date node renders the same on every day.
pub proof fn theorem_render_without_date(
    n: Node,
    first: Seq<char>,
    second: Seq<char>,
    snippets: Seq<SnippetView>,
)
    requires
        !holds_date(n),
    ensures
        render(n, first, snippets) == render(n, second, snippets),
    decreases n,
{
    match n {
        Node::Title(c) => theorem_render_all_without_date(c, first, second, snippets),
        Node::Heading(c) => theorem_render_all_without_date(c, first, second, snippets),
        Node::Subheading(c) => theorem_render_all_without_date(c, first, second, snippets),
        Node::Subtitle(c) => theorem_render_all_without_date(c, first, second, snippets),
        Node::Subsubtitle(c) => theorem_render_all_without_date(c, first, second, snippets),
        Node::Paragraph(c) => theorem_render_all_without_date(c, first, second, snippets),
        Node::Bold(c) => theorem_render_all_without_date(c, first, second, snippets),
        Node::Italic(c) => theorem_render_all_without_date(c, first, second, snippets),
        Node::BlockQuote { quote, citation } => {
            theorem_render_all_without_date(quote, first, second, snippets);
            theorem_render_all_without_date(citation, first, second, snippets);
        },
        Node::Hyperlink { name, href } => theorem_render_all_without_date(
            name,
            first,
            second,
            snippets,
        ),
        Node::Tile { name, img, href } => theorem_render_all_without_date(
            name,
            first,
            second,
            snippets,
        ),
        Node::Header(c) => theorem_render_all_without_date(c, first, second, snippets),
        Node::Footer(c) => theorem_render_all_without_date(c, first, second, snippets),
        Node::Footnote(c) => theorem_render_all_without_date(c, first, second, snippets),
        Node::Topblock(c) => theorem_render_all_without_date(c, first, second, snippets),
        Node::Tiles(c) => theorem_render_all_without_date(c, first, second, snippets),
        _ => {},
    }
}

/// Nodes without a date node render the same on every day.
pub proof fn theorem_render_all_without_date(
    ns: Seq<Node>,
    first: Seq<char>,
    second: Seq<char>,
    snippets: Seq<SnippetView>,
)
    requires
        !any_holds_date(ns),
    ensures
        render_all(ns, first, snippets) == render_all(ns, second, snippets),
    decreases ns,
{
    if ns.len() > 0 {
        theorem_render_all_without_date(ns.drop_last(), first, second, snippets);
        theorem_render_without_date(ns.last(), first, second, snippets);
    }
}

/// A document without a date node gives the same page on every day.
pub proof fn theorem_page_without_date(
    title: Seq<char>,
    ns: Seq<Node>,
    first: Seq<char>,
    second: Seq<char>,
    snippets: Seq<SnippetView>,
)
    requires
        !any_holds_date(ns),
    ensures
        body(ns, first, snippets) == body(ns, second, snippets),
        page(title, ns, first, snippets) == page(title, ns, second, snippets),
    decreases ns.len(),
{
    if ns.len() > 0 {
        theorem_page_without_date(title, ns.drop_last(), first, second, snippets);
        theorem_render_without_date(ns.last(), first, second, snippets);
    }
}

} // verus!
