//! The document tree: the nodes that parsing produces and rendering reads.

use vstd::prelude::*;
use vstd::string::*;

verus! {

/// The mathematical value of a document node: the same tree, with
/// sequences for the children and for the text.
pub ghost enum Node {
    Title(Seq<Node>),
    Heading(Seq<Node>),
    Subheading(Seq<Node>),
    Subtitle(Seq<Node>),
    Subsubtitle(Seq<Node>),
    Paragraph(Seq<Node>),
    Alphanumeric(Seq<char>),
    Newline,
    Bold(Seq<Node>),
    Italic(Seq<Node>),
    BlockQuote { quote: Seq<Node>, citation: Seq<Node> },
    Hyperlink { name: Seq<Node>, href: Seq<char> },
    Code { language: Seq<char>, code: Seq<char> },
    Tile { name: Seq<Node>, img: Seq<char>, href: Seq<char> },
    Image { img: Seq<char>, alt: Seq<char>, scale: Seq<char> },
    FloatingImage { img: Seq<char>, alt: Seq<char> },
    Header(Seq<Node>),
    Footer(Seq<Node>),
    Footnote(Seq<Node>),
    Footnotes,
    Topblock(Seq<Node>),
    Menu,
    Date,
    Tiles(Seq<Node>),
    Pagename(Seq<char>),
}

/// One node of the document tree. A node owns its children; nothing is
/// shared and nothing points back.
#[derive(PartialEq, Eq, Debug)]
pub enum Expression {
    /// A heading of the second level.
    Title(Vec<Expression>),
    /// A heading of the third level.
    Heading(Vec<Expression>),
    /// A heading of the fourth level.
    Subheading(Vec<Expression>),
    /// A heading of the fifth level.
    Subtitle(Vec<Expression>),
    /// A heading of the sixth level.
    Subsubtitle(Vec<Expression>),
    /// A paragraph.
    Paragraph(Vec<Expression>),
    /// A run of plain text.
    Alphanumeric(String),
    /// A line break.
    Newline,
    Bold(Vec<Expression>),
    Italic(Vec<Expression>),
    /// A quotation and whom it is from.
    BlockQuote { quote: Vec<Expression>, citation: Vec<Expression> },
    Hyperlink { name: Vec<Expression>, href: String },
    /// A code snippet: its language, and the path of the file that holds it.
    Code { language: String, code: String },
    /// A linked tile with a background image.
    Tile { name: Vec<Expression>, img: String, href: String },
    Image { img: String, alt: String, scale: String },
    FloatingImage { img: String, alt: String },
    /// The page header: a heading of the first level.
    Header(Vec<Expression>),
    Footer(Vec<Expression>),
    Footnote(Vec<Expression>),
    /// The place where the footnotes are listed.
    Footnotes,
    Topblock(Vec<Expression>),
    /// The place of the menu.
    Menu,
    /// The date of the day on which the page is compiled.
    Date,
    /// A container of tiles.
    Tiles(Vec<Expression>),
    /// The name of the page. It is no content: it renders to nothing.
    Pagename(String),
}

/// The values of a sequence of nodes.
pub open spec fn views(v: Seq<Expression>) -> Seq<Node>
    decreases v,
{
    Seq::new(
        v.len(),
        |i: int|
            if 0 <= i < v.len() {
                v[i].view()
            } else {
                Node::Newline
            },
    )
}

impl Expression {
    /// The mathematical value of this node.
    pub open spec fn view(&self) -> Node
        decreases self,
    {
        match self {
            Expression::Title(v) => Node::Title(views(v@)),
            Expression::Heading(v) => Node::Heading(views(v@)),
            Expression::Subheading(v) => Node::Subheading(views(v@)),
            Expression::Subtitle(v) => Node::Subtitle(views(v@)),
            Expression::Subsubtitle(v) => Node::Subsubtitle(views(v@)),
            Expression::Paragraph(v) => Node::Paragraph(views(v@)),
            Expression::Alphanumeric(s) => Node::Alphanumeric(s@),
            Expression::Newline => Node::Newline,
            Expression::Bold(v) => Node::Bold(views(v@)),
            Expression::Italic(v) => Node::Italic(views(v@)),
            Expression::BlockQuote { quote, citation } => Node::BlockQuote {
                quote: views(quote@),
                citation: views(citation@),
            },
            Expression::Hyperlink { name, href } => Node::Hyperlink {
                name: views(name@),
                href: href@,
            },
            Expression::Code { language, code } => Node::Code { language: language@, code: code@ },
            Expression::Tile { name, img, href } => Node::Tile {
                name: views(name@),
                img: img@,
                href: href@,
            },
            Expression::Image { img, alt, scale } => Node::Image {
                img: img@,
                alt: alt@,
                scale: scale@,
            },
            Expression::FloatingImage { img, alt } => Node::FloatingImage { img: img@, alt: alt@ },
            Expression::Header(v) => Node::Header(views(v@)),
            Expression::Footer(v) => Node::Footer(views(v@)),
            Expression::Footnote(v) => Node::Footnote(views(v@)),
            Expression::Footnotes => Node::Footnotes,
            Expression::Topblock(v) => Node::Topblock(views(v@)),
            Expression::Menu => Node::Menu,
            Expression::Date => Node::Date,
            Expression::Tiles(v) => Node::Tiles(views(v@)),
            Expression::Pagename(s) => Node::Pagename(s@),
        }
    }
}

/// The values of the nodes of `v` with one more node at the end.
pub proof fn lemma_views_push(v: Seq<Expression>, e: Expression)
    ensures
        views(v.push(e)) == views(v).push(e@),
{
    assert(views(v.push(e)) =~= views(v).push(e@));
}

/// No nodes have no values.
pub proof fn lemma_views_empty()
    ensures
        views(Seq::<Expression>::empty()) == Seq::<Node>::empty(),
{
    assert(views(Seq::<Expression>::empty()) =~= Seq::<Node>::empty());
}

/// A copy of every node of `v`.
pub fn duplicate_all(v: &Vec<Expression>) -> (copy: Vec<Expression>)
    ensures
        views(copy@) == views(v@),
    decreases v, 1int,
{
    let mut copy: Vec<Expression> = Vec::new();
    let mut i: usize = 0;
    while i < v.len()
        invariant
            i <= v.len(),
            copy.len() == i,
            forall|j: int| 0 <= j < i ==> copy@[j]@ == v@[j]@,
        decreases v.len() - i,
    {
        proof {
            assert(decreases_to!(*v => v@));
            assert(decreases_to!(v@ => v@[i as int]));
        }
        let e = v[i].duplicate();
        copy.push(e);
        i = i + 1;
    }
    assert(views(copy@) =~= views(v@));
    copy
}

impl Expression {
    /// A copy of this node and of everything below it.
    pub fn duplicate(&self) -> (copy: Expression)
        ensures
            copy@ == self@,
        decreases self, 0int,
    {
        match self {
            Expression::Title(v) => Expression::Title(duplicate_all(v)),
            Expression::Heading(v) => Expression::Heading(duplicate_all(v)),
            Expression::Subheading(v) => Expression::Subheading(duplicate_all(v)),
            Expression::Subtitle(v) => Expression::Subtitle(duplicate_all(v)),
            Expression::Subsubtitle(v) => Expression::Subsubtitle(duplicate_all(v)),
            Expression::Paragraph(v) => Expression::Paragraph(duplicate_all(v)),
            Expression::Alphanumeric(s) => Expression::Alphanumeric(s.clone()),
            Expression::Newline => Expression::Newline,
            Expression::Bold(v) => Expression::Bold(duplicate_all(v)),
            Expression::Italic(v) => Expression::Italic(duplicate_all(v)),
            Expression::BlockQuote { quote, citation } => Expression::BlockQuote {
                quote: duplicate_all(quote),
                citation: duplicate_all(citation),
            },
            Expression::Hyperlink { name, href } => Expression::Hyperlink {
                name: duplicate_all(name),
                href: href.clone(),
            },
            Expression::Code { language, code } => Expression::Code {
                language: language.clone(),
                code: code.clone(),
            },
            Expression::Tile { name, img, href } => Expression::Tile {
                name: duplicate_all(name),
                img: img.clone(),
                href: href.clone(),
            },
            Expression::Image { img, alt, scale } => Expression::Image {
                img: img.clone(),
                alt: alt.clone(),
                scale: scale.clone(),
            },
            Expression::FloatingImage { img, alt } => Expression::FloatingImage {
                img: img.clone(),
                alt: alt.clone(),
            },
            Expression::Header(v) => Expression::Header(duplicate_all(v)),
            Expression::Footer(v) => Expression::Footer(duplicate_all(v)),
            Expression::Footnote(v) => Expression::Footnote(duplicate_all(v)),
            Expression::Footnotes => Expression::Footnotes,
            Expression::Topblock(v) => Expression::Topblock(duplicate_all(v)),
            Expression::Menu => Expression::Menu,
            Expression::Date => Expression::Date,
            Expression::Tiles(v) => Expression::Tiles(duplicate_all(v)),
            Expression::Pagename(s) => Expression::Pagename(s.clone()),
        }
    }
}

impl Clone for Expression {
    fn clone(&self) -> (copy: Expression)
        ensures
            copy@ == self@,
    {
        self.duplicate()
    }
}

} // verus!
