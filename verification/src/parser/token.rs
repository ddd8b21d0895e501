//! Tokens: the classified pieces that the scanner cuts the source into.

use vstd::prelude::*;
use vstd::string::*;

verus! {

/// What a token is. Text and line ends have a class each, and so has
/// every control marker of the markup.
#[derive(Clone, Copy, PartialEq, Eq, Debug, Hash, Structural)]
pub enum TokenClass {
    /// A run of ordinary text, with the blanks at both ends removed.
    Alphanumeric,
    /// One line end.
    Newline,
    /// The heading marker `#`.
    Hash,
    /// The bold marker `*`.
    Star,
    /// The italic marker `_`.
    Underscore,
    /// A named control sequence: `@` and the lower-case letters after it.
    Directive,
    /// `{`, which opens an argument of a directive.
    OpenBrace,
    /// `}`, which closes an argument of a directive.
    CloseBrace,
}

/// The mathematical value of a token: its class and its text.
pub ghost struct TokenView {
    pub class: TokenClass,
    pub value: Seq<char>,
}

/// One token of the source.
#[derive(Clone, PartialEq, Eq, Debug)]
pub struct Token {
    class: TokenClass,
    value: String,
}

impl View for Token {
    type V = TokenView;

    closed spec fn view(&self) -> TokenView {
        TokenView { class: self.class, value: self.value@ }
    }
}

impl Token {
    pub fn new(class: TokenClass, value: String) -> (token: Token)
        ensures
            token@ == (TokenView { class, value: value@ }),
    {
        Token { class, value }
    }

    /// The class of this token.
    pub fn get_class(&self) -> (class: TokenClass)
        ensures
            class == self@.class,
    {
        self.class
    }

    /// The text of this token: for a marker the marker itself, for a
    /// directive its name, for text the trimmed run.
    pub fn get_value(&self) -> (value: &str)
        ensures
            value@ == self@.value,
    {
        self.value.as_str()
    }

    /// Gives up the token for its text.
    pub fn into_value(self) -> (value: String)
        ensures
            value@ == self@.value,
    {
        self.value
    }
}

} // verus!
