//! The scanner: cuts the source text into tokens, one at a time.
//!
//! The source is read from left to right. A line end is a token, and so is
//! each of the markers `#`, `*`, `_`, `{` and `}`. An `@` and the run of
//! lower-case letters after it form a directive. Everything else is text: a
//! longest run of ordinary characters makes one token, whose value is the run
//! without the blanks at its ends. In text a backslash before a marker
//! character stands for that character itself. A character that fits
//! none of these rules stops the scanner.

use vstd::prelude::*;
use vstd::string::*;
use crate::error::Error;
use crate::parser::token::{Token, TokenClass, TokenView};
use crate::text::string_of;

verus! {

/// The characters that the markup gives a meaning of their own.
pub open spec fn is_marker(c: char) -> bool {
    c == '#' || c == '*' || c == '_' || c == '@' || c == '{' || c == '}' || c == '\\'
}

/// Space, tab and carriage return: what is trimmed off a text run.
pub open spec fn is_blank(c: char) -> bool {
    c == ' ' || c == '\t' || c == '\r'
}

/// The characters that stand for themselves in text: no marker, no line
/// end, and no control character other than a blank.
pub open spec fn is_plain(c: char) -> bool {
    &&& !is_marker(c)
    &&& c != '\n'
    &&& (is_blank(c) || (c as u32 >= 0x20 && c as u32 != 0x7f))
}

/// The letters that a directive's name is made of.
pub open spec fn is_name_letter(c: char) -> bool {
    'a' <= c <= 'z'
}

/// The number of source characters that the piece of text at `i` takes:
/// one for a plain character, two for an escaped marker, and zero where
/// no text starts.
pub open spec fn unit_len(cs: Seq<char>, i: int) -> int {
    if i < 0 || i >= cs.len() {
        0
    } else if is_plain(cs[i]) {
        1
    } else if cs[i] == '\\' && i + 1 < cs.len() && is_marker(cs[i + 1]) {
        2
    } else {
        0
    }
}

/// Where the longest run of text that starts at `i` ends.
pub open spec fn run_end(cs: Seq<char>, i: int) -> int
    decreases cs.len() - i,
{
    if unit_len(cs, i) == 0 {
        i
    } else {
        run_end(cs, i + unit_len(cs, i))
    }
}

/// The characters that the run of text at `i` stands for, escapes resolved.
pub open spec fn run_text(cs: Seq<char>, i: int) -> Seq<char>
    decreases cs.len() - i,
{
    if unit_len(cs, i) == 0 {
        Seq::empty()
    } else if unit_len(cs, i) == 1 {
        seq![cs[i]] + run_text(cs, i + 1)
    } else {
        seq![cs[i + 1]] + run_text(cs, i + 2)
    }
}

/// Where the run of name letters that starts at `i` ends.
pub open spec fn name_end(cs: Seq<char>, i: int) -> int
    decreases cs.len() - i,
{
    if 0 <= i < cs.len() && is_name_letter(cs[i]) {
        name_end(cs, i + 1)
    } else {
        i
    }
}

/// The first index from `i` on that holds no blank, or the length.
pub open spec fn solid_from(s: Seq<char>, i: int) -> int
    decreases s.len() - i,
{
    if i < 0 || i >= s.len() {
        s.len() as int
    } else if !is_blank(s[i]) {
        i
    } else {
        solid_from(s, i + 1)
    }
}

/// The end of the last character before `j` that is no blank, but at
/// least `lo`.
pub open spec fn solid_until(s: Seq<char>, lo: int, j: int) -> int
    decreases j - lo,
{
    if j <= lo || j > s.len() {
        lo
    } else if !is_blank(s[j - 1]) {
        j
    } else {
        solid_until(s, lo, j - 1)
    }
}

/// `s` without the blanks at its start and at its end.
pub open spec fn trim(s: Seq<char>) -> Seq<char> {
    let a = solid_from(s, 0);
    s.subrange(a, solid_until(s, a, s.len() as int))
}

/// What the scanner finds at one place of the source.
pub ghost enum Scan {
    /// A token, and the place where the next one starts.
    Token(TokenView, int),
    /// The end of the source.
    End,
    /// A character that no rule accepts.
    Bad,
}

pub open spec fn marker_token(class: TokenClass, c: char) -> TokenView {
    TokenView { class, value: seq![c] }
}

/// The token that starts at `p`.
pub open spec fn scan(cs: Seq<char>, p: int) -> Scan {
    if p < 0 || p >= cs.len() {
        Scan::End
    } else if cs[p] == '\n' {
        Scan::Token(marker_token(TokenClass::Newline, '\n'), p + 1)
    } else if cs[p] == '#' {
        Scan::Token(marker_token(TokenClass::Hash, '#'), p + 1)
    } else if cs[p] == '*' {
        Scan::Token(marker_token(TokenClass::Star, '*'), p + 1)
    } else if cs[p] == '_' {
        Scan::Token(marker_token(TokenClass::Underscore, '_'), p + 1)
    } else if cs[p] == '{' {
        Scan::Token(marker_token(TokenClass::OpenBrace, '{'), p + 1)
    } else if cs[p] == '}' {
        Scan::Token(marker_token(TokenClass::CloseBrace, '}'), p + 1)
    } else if cs[p] == '@' {
        let e = name_end(cs, p + 1);
        Scan::Token(TokenView { class: TokenClass::Directive, value: cs.subrange(p + 1, e) }, e)
    } else if unit_len(cs, p) > 0 {
        Scan::Token(
            TokenView { class: TokenClass::Alphanumeric, value: trim(run_text(cs, p)) },
            run_end(cs, p),
        )
    } else {
        Scan::Bad
    }
}

/// The tokens from `p` to the end of the source, or to the first
/// character that no rule accepts.
pub open spec fn tokens_from(cs: Seq<char>, p: int) -> Seq<TokenView>
    decreases cs.len() - p,
{
    match scan(cs, p) {
        Scan::Token(t, q) => if p < q <= cs.len() {
            seq![t] + tokens_from(cs, q)
        } else {
            Seq::empty()
        },
        _ => Seq::empty(),
    }
}

/// Whether the tokens from `p` on end at a character that no rule accepts,
/// and not at the end of the source.
pub open spec fn ends_badly(cs: Seq<char>, p: int) -> bool
    decreases cs.len() - p,
{
    match scan(cs, p) {
        Scan::Token(t, q) => p < q <= cs.len() && ends_badly(cs, q),
        Scan::End => false,
        Scan::Bad => true,
    }
}

/// A run of text ends after its start and within the source.
pub proof fn lemma_run_end_bounds(cs: Seq<char>, i: int)
    requires
        0 <= i <= cs.len(),
    ensures
        i <= run_end(cs, i) <= cs.len(),
        unit_len(cs, i) > 0 ==> i < run_end(cs, i),
    decreases cs.len() - i,
{
    if unit_len(cs, i) != 0 {
        lemma_run_end_bounds(cs, i + unit_len(cs, i));
    }
}

/// A directive's name ends at or after its start and within the source.
pub proof fn lemma_name_end_bounds(cs: Seq<char>, i: int)
    requires
        0 <= i <= cs.len(),
    ensures
        i <= name_end(cs, i) <= cs.len(),
    decreases cs.len() - i,
{
    if i < cs.len() && is_name_letter(cs[i]) {
        lemma_name_end_bounds(cs, i + 1);
    }
}

/// Every token takes at least one character and ends within the source.
pub proof fn lemma_scan_advances(cs: Seq<char>, p: int)
    requires
        0 <= p <= cs.len(),
    ensures
        scan(cs, p) matches Scan::Token(_, q) ==> p < q <= cs.len(),
{
    lemma_run_end_bounds(cs, p);
    if p < cs.len() {
        lemma_name_end_bounds(cs, p + 1);
    }
}

/// The tokens from `p` on are the token at `p` and the tokens from its
/// end on: the comparison in `tokens_from` and in `ends_badly` only
/// shows that the definitions end.
pub proof fn theorem_tokens_unfold(cs: Seq<char>, p: int)
    requires
        0 <= p <= cs.len(),
    ensures
        scan(cs, p) matches Scan::Token(t, q) ==> tokens_from(cs, p) == seq![t] + tokens_from(
            cs,
            q,
        ) && ends_badly(cs, p) == ends_badly(cs, q),
        scan(cs, p) is End ==> tokens_from(cs, p) == Seq::<TokenView>::empty() && !ends_badly(
            cs,
            p,
        ),
        scan(cs, p) is Bad ==> tokens_from(cs, p) == Seq::<TokenView>::empty() && ends_badly(
            cs,
            p,
        ),
{
    lemma_scan_advances(cs, p);
}

/// From `i` up to the first character that is no blank there are only
/// blanks.
pub proof fn lemma_solid_from(s: Seq<char>, i: int)
    requires
        0 <= i <= s.len(),
    ensures
        i <= solid_from(s, i) <= s.len(),
        forall|j: int| i <= j < solid_from(s, i) ==> is_blank(#[trigger] s[j]),
        solid_from(s, i) < s.len() ==> !is_blank(s[solid_from(s, i)]),
    decreases s.len() - i,
{
    if i < s.len() && is_blank(s[i]) {
        lemma_solid_from(s, i + 1);
    }
}

/// From the end of the last character that is no blank up to `j` there
/// are only blanks.
pub proof fn lemma_solid_until(s: Seq<char>, lo: int, j: int)
    requires
        0 <= lo <= j <= s.len(),
    ensures
        lo <= solid_until(s, lo, j) <= j,
        forall|k: int| solid_until(s, lo, j) <= k < j ==> is_blank(#[trigger] s[k]),
        lo < solid_until(s, lo, j) ==> !is_blank(s[solid_until(s, lo, j) - 1]),
    decreases j - lo,
{
    if j > lo && is_blank(s[j - 1]) {
        lemma_solid_until(s, lo, j - 1);
    }
}

/// Trimming takes blanks away at both ends and nothing else, and what is
/// left neither starts nor ends with a blank.
pub proof fn theorem_trim(s: Seq<char>)
    ensures
        exists|a: int, b: int|
            0 <= a <= b <= s.len() && trim(s) == s.subrange(a, b) && (forall|j: int|
                0 <= j < a ==> is_blank(#[trigger] s[j])) && (forall|j: int|
                b <= j < s.len() ==> is_blank(#[trigger] s[j])),
        trim(s).len() > 0 ==> !is_blank(trim(s).first()) && !is_blank(trim(s).last()),
{
    let a = solid_from(s, 0);
    lemma_solid_from(s, 0);
    let b = solid_until(s, a, s.len() as int);
    lemma_solid_until(s, a, s.len() as int);
    assert(0 <= a <= b <= s.len() && trim(s) == s.subrange(a, b) && (forall|j: int|
        0 <= j < a ==> is_blank(#[trigger] s[j])) && (forall|j: int|
        b <= j < s.len() ==> is_blank(#[trigger] s[j])));
}

fn marker(c: char) -> (b: bool)
    ensures
        b == is_marker(c),
{
    c == '#' || c == '*' || c == '_' || c == '@' || c == '{' || c == '}' || c == '\\'
}

fn blank(c: char) -> (b: bool)
    ensures
        b == is_blank(c),
{
    c == ' ' || c == '\t' || c == '\r'
}

fn plain(c: char) -> (b: bool)
    ensures
        b == is_plain(c),
{
    let code: u32 = c as u32;
    !marker(c) && c != '\n' && (blank(c) || (code >= 0x20 && code != 0x7f))
}

fn name_letter(c: char) -> (b: bool)
    ensures
        b == is_name_letter(c),
{
    'a' <= c && c <= 'z'
}

/// Removes the blanks at both ends of `buf` and makes a string of the rest.
pub fn trimmed(buf: &Vec<char>) -> (s: String)
    ensures
        s@ == trim(buf@),
{
    let mut a: usize = 0;
    while a < buf.len() && blank(buf[a])
        invariant
            a <= buf.len(),
            solid_from(buf@, 0) == solid_from(buf@, a as int),
        decreases buf.len() - a,
    {
        a = a + 1;
    }
    let mut b: usize = buf.len();
    while b > a && blank(buf[b - 1])
        invariant
            a <= b <= buf.len(),
            solid_until(buf@, a as int, buf@.len() as int) == solid_until(buf@, a as int, b as int),
        decreases b - a,
    {
        b = b - 1;
    }
    string_of(buf, a, b)
}

/// The scanner over one source text. It hands out the tokens in order,
/// each of them once, and can look at the next one before taking it.
pub struct Tokenizer {
    chars: Vec<char>,
    pos: usize,
}

impl Tokenizer {
    /// The place in the source is within it.
    pub closed spec fn wf(&self) -> bool {
        self.pos <= self.chars.len()
    }

    /// The tokens that are still to come.
    pub closed spec fn remaining(&self) -> Seq<TokenView> {
        tokens_from(self.chars@, self.pos as int)
    }

    /// Whether the tokens to come end at a character that no rule accepts.
    pub closed spec fn ends_badly(&self) -> bool {
        ends_badly(self.chars@, self.pos as int)
    }

    /// A scanner at the start of `text`.
    pub fn new(text: &str) -> (tokenizer: Tokenizer)
        ensures
            tokenizer.wf(),
            tokenizer.remaining() == tokens_from(text@, 0),
            tokenizer.ends_badly() == ends_badly(text@, 0),
    {
        Tokenizer { chars: crate::text::chars_of(text), pos: 0 }
    }

    fn run(&self, start: usize) -> (r: (Vec<char>, usize))
        requires
            start <= self.chars.len(),
        ensures
            r.0@ == run_text(self.chars@, start as int),
            r.1 == run_end(self.chars@, start as int),
            start <= r.1 <= self.chars.len(),
    {
        let mut buf: Vec<char> = Vec::new();
        let mut i: usize = start;
        let n = self.chars.len();
        proof {
            lemma_run_end_bounds(self.chars@, start as int);
        }
        loop
            invariant
                start <= i <= n,
                n == self.chars.len(),
                run_end(self.chars@, start as int) == run_end(self.chars@, i as int),
                run_text(self.chars@, start as int) == buf@ + run_text(self.chars@, i as int),
            ensures
                i <= n,
                buf@ == run_text(self.chars@, start as int),
                i == run_end(self.chars@, start as int),
            decreases n - i,
        {
            if i >= n {
                break;
            }
            let c = self.chars[i];
            if plain(c) {
                proof {
                    assert(buf@.push(c) + run_text(self.chars@, i + 1) =~= buf@ + run_text(
                        self.chars@,
                        i as int,
                    ));
                }
                buf.push(c);
                i = i + 1;
            } else if c == '\\' && i + 1 < n && marker(self.chars[i + 1]) {
                let m = self.chars[i + 1];
                proof {
                    assert(buf@.push(m) + run_text(self.chars@, i + 2) =~= buf@ + run_text(
                        self.chars@,
                        i as int,
                    ));
                }
                buf.push(m);
                i = i + 2;
            } else {
                break;
            }
        }
        (buf, i)
    }

    fn name(&self, start: usize) -> (end: usize)
        requires
            start <= self.chars.len(),
        ensures
            end == name_end(self.chars@, start as int),
            start <= end <= self.chars.len(),
    {
        let mut i: usize = start;
        while i < self.chars.len() && name_letter(self.chars[i])
            invariant
                start <= i <= self.chars.len(),
                name_end(self.chars@, start as int) == name_end(self.chars@, i as int),
            decreases self.chars.len() - i,
        {
            i = i + 1;
        }
        i
    }

    /// Scans the token at the current place, without moving.
    fn scan_here(&self) -> (r: Result<Option<(Token, usize)>, Error>)
        requires
            self.wf(),
        ensures
            match scan(self.chars@, self.pos as int) {
                Scan::Token(t, q) => r matches Ok(Some(found)) && found.0@ == t && found.1 == q
                    && self.pos < q <= self.chars.len(),
                Scan::End => r matches Ok(None),
                Scan::Bad => r == Err::<Option<(Token, usize)>, Error>(Error::UnrecognizedToken),
            },
    {
        let p = self.pos;
        proof {
            lemma_scan_advances(self.chars@, p as int);
        }
        if p >= self.chars.len() {
            return Ok(None);
        }
        let c = self.chars[p];
        assert(self.chars@.subrange(p as int, p + 1) =~= seq![c]);
        if c == '\n' {
            Ok(Some((Token::new(TokenClass::Newline, string_of(&self.chars, p, p + 1)), p + 1)))
        } else if c == '#' {
            Ok(Some((Token::new(TokenClass::Hash, string_of(&self.chars, p, p + 1)), p + 1)))
        } else if c == '*' {
            Ok(Some((Token::new(TokenClass::Star, string_of(&self.chars, p, p + 1)), p + 1)))
        } else if c == '_' {
            Ok(Some((Token::new(TokenClass::Underscore, string_of(&self.chars, p, p + 1)), p + 1)))
        } else if c == '{' {
            Ok(Some((Token::new(TokenClass::OpenBrace, string_of(&self.chars, p, p + 1)), p + 1)))
        } else if c == '}' {
            Ok(Some((Token::new(TokenClass::CloseBrace, string_of(&self.chars, p, p + 1)), p + 1)))
        } else if c == '@' {
            let e = self.name(p + 1);
            Ok(Some((Token::new(TokenClass::Directive, string_of(&self.chars, p + 1, e)), e)))
        } else if plain(c) || (c == '\\' && p + 1 < self.chars.len() && marker(self.chars[p + 1])) {
            let (buf, e) = self.run(p);
            Ok(Some((Token::new(TokenClass::Alphanumeric, trimmed(&buf)), e)))
        } else {
            Err(Error::UnrecognizedToken)
        }
    }

    /// Looks at the next token without taking it. `Ok(None)` is the end
    /// of the source; the error is a character that no rule accepts.
    pub fn peek(&self) -> (r: Result<Option<Token>, Error>)
        requires
            self.wf(),
        ensures
            match r {
                Ok(Some(t)) => self.remaining().len() > 0 && t@ == self.remaining()[0],
                Ok(None) => self.remaining().len() == 0 && !self.ends_badly(),
                Err(e) => self.remaining().len() == 0 && self.ends_badly()
                    && e == Error::UnrecognizedToken,
            },
    {
        match self.scan_here() {
            Ok(Some(found)) => Ok(Some(found.0)),
            Ok(None) => Ok(None),
            Err(e) => Err(e),
        }
    }

    /// Takes the next token. At the end of the source, and at a
    /// character that no rule accepts, the scanner stays where it is.
    pub fn next(&mut self) -> (r: Result<Option<Token>, Error>)
        requires
            old(self).wf(),
        ensures
            final(self).wf(),
            final(self).ends_badly() == old(self).ends_badly(),
            match r {
                Ok(Some(t)) => old(self).remaining().len() > 0 && t@ == old(self).remaining()[0]
                    && final(self).remaining() == old(self).remaining().drop_first(),
                Ok(None) => old(self).remaining().len() == 0 && !old(self).ends_badly()
                    && final(self).remaining() == old(self).remaining(),
                Err(e) => old(self).remaining().len() == 0 && old(self).ends_badly()
                    && e == Error::UnrecognizedToken
                    && final(self).remaining() == old(self).remaining(),
            },
    {
        match self.scan_here() {
            Ok(Some(found)) => {
                proof {
                    assert(old(self).remaining().drop_first() =~= tokens_from(
                        self.chars@,
                        found.1 as int,
                    ));
                }
                self.pos = found.1;
                Ok(Some(found.0))
            },
            Ok(None) => Ok(None),
            Err(e) => Err(e),
        }
    }
}

} // verus!
