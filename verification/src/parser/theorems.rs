//! What holds of the grammar and of the scanner, for every input.

use vstd::prelude::*;
use crate::error::Error;
use crate::parser::expression::Node;
use crate::parser::grammar::{
    construct,
    construct_for,
    document,
    document_of,
    expect,
    group,
    heading,
    heading_node,
    is_blank_token,
    node,
    nodes_until,
    payload,
    skip_blank,
    stops_at,
    Construct,
    Stop,
    MAX_HEADING_LEVEL,
};
use crate::parser::token::{TokenClass, TokenView};
use crate::parser::tokenizer::{
    ends_badly,
    is_plain,
    marker_token,
    run_end,
    run_text,
    scan,
    tokens_from,
    trim,
    unit_len,
    Scan,
};

verus! {

/// Whether `rest` is what is left of `ts` after some tokens at its head
/// were taken.
pub open spec fn is_suffix(rest: Seq<TokenView>, ts: Seq<TokenView>) -> bool {
    rest.len() <= ts.len() && rest == ts.skip(ts.len() - rest.len())
}

pub proof fn lemma_suffix_same(ts: Seq<TokenView>)
    ensures
        is_suffix(ts, ts),
{
    assert(ts.skip(0) =~= ts);
}

pub proof fn lemma_suffix_of_suffix(a: Seq<TokenView>, b: Seq<TokenView>, c: Seq<TokenView>)
    requires
        is_suffix(a, b),
        is_suffix(b, c),
    ensures
        is_suffix(a, c),
{
    assert(c.skip(c.len() - b.len()).skip(b.len() - a.len()) =~= c.skip(c.len() - a.len()));
}

pub proof fn lemma_suffix_drop_first(ts: Seq<TokenView>)
    requires
        ts.len() > 0,
    ensures
        is_suffix(ts.drop_first(), ts),
{
    assert(ts.drop_first() =~= ts.skip(1));
}

/// A token of what is left of `ts` is a token of `ts`.
pub proof fn lemma_suffix_index(rest: Seq<TokenView>, ts: Seq<TokenView>, i: int)
    requires
        is_suffix(rest, ts),
        0 <= i < rest.len(),
    ensures
        rest[i] == ts[ts.len() - rest.len() + i],
{
}

pub proof fn lemma_skip_blank_suffix(ts: Seq<TokenView>)
    ensures
        is_suffix(skip_blank(ts), ts),
    decreases ts.len(),
{
    if ts.len() > 0 && is_blank_token(ts[0]) {
        lemma_skip_blank_suffix(ts.drop_first());
        lemma_suffix_drop_first(ts);
        lemma_suffix_of_suffix(skip_blank(ts.drop_first()), ts.drop_first(), ts);
    } else {
        lemma_suffix_same(ts);
    }
}

pub proof fn lemma_expect_suffix(ts: Seq<TokenView>, bad: bool, class: TokenClass)
    ensures
        expect(ts, bad, class) matches Ok((_, rest)) ==> is_suffix(rest, ts) && rest.len()
            < ts.len(),
{
    if ts.len() > 0 {
        lemma_suffix_drop_first(ts);
    }
}

pub proof fn lemma_payload_suffix(ts: Seq<TokenView>, bad: bool)
    ensures
        payload(ts, bad) matches Ok((_, rest)) ==> is_suffix(rest, ts) && rest.len() < ts.len(),
{
    lemma_expect_suffix(ts, bad, TokenClass::OpenBrace);
    if let Ok((_, inner)) = expect(ts, bad, TokenClass::OpenBrace) {
        lemma_expect_suffix(inner, bad, TokenClass::Alphanumeric);
        if let Ok((_, closer)) = expect(inner, bad, TokenClass::Alphanumeric) {
            lemma_expect_suffix(closer, bad, TokenClass::CloseBrace);
            if let Ok((_, rest)) = expect(closer, bad, TokenClass::CloseBrace) {
                lemma_suffix_of_suffix(closer, inner, ts);
                lemma_suffix_of_suffix(rest, closer, ts);
            }
        }
    }
}

/// A construct takes at least its first token, and what it leaves is
/// what followed it in the source.
pub proof fn lemma_node_consumes(ts: Seq<TokenView>, bad: bool)
    ensures
        node(ts, bad) matches Ok((_, rest)) ==> is_suffix(rest, ts) && rest.len() < ts.len(),
    decreases ts.len(), 0int,
{
    if ts.len() > 0 {
        if let Some(c) = construct_for(ts[0]) {
            lemma_construct_consumes(c, ts[0], ts.drop_first(), bad);
            if let Ok((_, rest)) = construct(c, ts[0], ts.drop_first(), bad) {
                lemma_suffix_drop_first(ts);
                lemma_suffix_of_suffix(rest, ts.drop_first(), ts);
            }
        }
    }
}

/// A sequence of constructs leaves what followed it in the source, and
/// one that ends at a closing token has taken that token.
pub proof fn lemma_nodes_until_consumes(ts: Seq<TokenView>, bad: bool, stop: Stop)
    ensures
        nodes_until(ts, bad, stop) matches Ok((_, rest)) ==> is_suffix(rest, ts) && (stop is Close
            ==> rest.len() < ts.len()),
    decreases ts.len(), 1int,
{
    if ts.len() == 0 {
        lemma_suffix_same(ts);
    } else if stops_at(stop, ts[0].class) {
        lemma_suffix_same(ts);
        lemma_suffix_drop_first(ts);
    } else {
        lemma_node_consumes(ts, bad);
        if let Ok((_, rest)) = node(ts, bad) {
            lemma_nodes_until_consumes(rest, bad, stop);
            if let Ok((_, after)) = nodes_until(rest, bad, stop) {
                lemma_suffix_of_suffix(after, rest, ts);
            }
        }
    }
}

pub proof fn lemma_group_consumes(ts: Seq<TokenView>, bad: bool)
    ensures
        group(ts, bad) matches Ok((_, rest)) ==> is_suffix(rest, ts) && rest.len() < ts.len(),
    decreases ts.len(), 2int,
{
    lemma_expect_suffix(ts, bad, TokenClass::OpenBrace);
    if let Ok((_, inner)) = expect(ts, bad, TokenClass::OpenBrace) {
        lemma_nodes_until_consumes(inner, bad, Stop::Close(TokenClass::CloseBrace));
        if let Ok((_, rest)) = nodes_until(inner, bad, Stop::Close(TokenClass::CloseBrace)) {
            lemma_suffix_of_suffix(rest, inner, ts);
        }
    }
}

pub proof fn lemma_heading_consumes(ts: Seq<TokenView>, bad: bool, level: int)
    ensures
        heading(ts, bad, level) matches Ok((_, rest)) ==> is_suffix(rest, ts),
    decreases ts.len(), 2int,
{
    if ts.len() > 0 && ts[0].class == TokenClass::Hash {
        if level < MAX_HEADING_LEVEL {
            lemma_heading_consumes(ts.drop_first(), bad, level + 1);
            if let Ok((_, rest)) = heading(ts.drop_first(), bad, level + 1) {
                lemma_suffix_drop_first(ts);
                lemma_suffix_of_suffix(rest, ts.drop_first(), ts);
            }
        }
    } else {
        lemma_nodes_until_consumes(ts, bad, Stop::Line);
    }
}

/// What a construct leaves is what followed it in the source.
pub proof fn lemma_construct_consumes(c: Construct, token: TokenView, ts: Seq<TokenView>, bad: bool)
    ensures
        construct(c, token, ts, bad) matches Ok((_, rest)) ==> is_suffix(rest, ts),
    decreases ts.len(), 3int,
{
    match c {
        Construct::Text => lemma_suffix_same(ts),
        Construct::Newline => lemma_skip_blank_suffix(ts),
        Construct::Heading => lemma_heading_consumes(ts, bad, 1),
        Construct::Bold => lemma_nodes_until_consumes(ts, bad, Stop::Close(TokenClass::Star)),
        Construct::Italic => lemma_nodes_until_consumes(
            ts,
            bad,
            Stop::Close(TokenClass::Underscore),
        ),
        Construct::Paragraph => lemma_nodes_until_consumes(ts, bad, Stop::Line),
        Construct::Menu => lemma_suffix_same(ts),
        Construct::Footnotes => lemma_suffix_same(ts),
        Construct::Date => lemma_suffix_same(ts),
        Construct::Pagename => lemma_payload_suffix(ts, bad),
        Construct::Footer => lemma_group_consumes(ts, bad),
        Construct::Footnote => lemma_group_consumes(ts, bad),
        Construct::Topblock => lemma_group_consumes(ts, bad),
        Construct::Tiles => lemma_group_consumes(ts, bad),
        Construct::Quote => {
            lemma_group_consumes(ts, bad);
            if let Ok((_, middle)) = group(ts, bad) {
                lemma_group_consumes(middle, bad);
                if let Ok((_, rest)) = group(middle, bad) {
                    lemma_suffix_of_suffix(rest, middle, ts);
                }
            }
        },
        Construct::Link => {
            lemma_payload_suffix(ts, bad);
            if let Ok((_, middle)) = payload(ts, bad) {
                lemma_group_consumes(middle, bad);
                if let Ok((_, rest)) = group(middle, bad) {
                    lemma_suffix_of_suffix(rest, middle, ts);
                }
            }
        },
        Construct::Code => {
            lemma_payload_suffix(ts, bad);
            if let Ok((_, middle)) = payload(ts, bad) {
                lemma_payload_suffix(middle, bad);
                if let Ok((_, rest)) = payload(middle, bad) {
                    lemma_suffix_of_suffix(rest, middle, ts);
                }
            }
        },
        Construct::Tile => {
            lemma_payload_suffix(ts, bad);
            if let Ok((_, second)) = payload(ts, bad) {
                lemma_payload_suffix(second, bad);
                if let Ok((_, third)) = payload(second, bad) {
                    lemma_suffix_of_suffix(third, second, ts);
                    lemma_group_consumes(third, bad);
                    if let Ok((_, rest)) = group(third, bad) {
                        lemma_suffix_of_suffix(rest, third, ts);
                    }
                }
            }
        },
        Construct::Image => {
            lemma_payload_suffix(ts, bad);
            if let Ok((_, second)) = payload(ts, bad) {
                lemma_payload_suffix(second, bad);
                if let Ok((_, third)) = payload(second, bad) {
                    lemma_suffix_of_suffix(third, second, ts);
                    lemma_payload_suffix(third, bad);
                    if let Ok((_, rest)) = payload(third, bad) {
                        lemma_suffix_of_suffix(rest, third, ts);
                    }
                }
            }
        },
        Construct::FloatingImage => {
            lemma_payload_suffix(ts, bad);
            if let Ok((_, middle)) = payload(ts, bad) {
                lemma_payload_suffix(middle, bad);
                if let Ok((_, rest)) = payload(middle, bad) {
                    lemma_suffix_of_suffix(rest, middle, ts);
                }
            }
        },
    }
}

/// A sequence of constructs is its first construct and the sequence
/// after it, whatever the lengths.
pub proof fn theorem_nodes_until_unfolds(ts: Seq<TokenView>, bad: bool, stop: Stop)
    requires
        ts.len() > 0,
        !stops_at(stop, ts[0].class),
    ensures
        nodes_until(ts, bad, stop) == match node(ts, bad) {
            Err(e) => Err::<(Seq<Node>, Seq<TokenView>), Error>(e),
            Ok((first, rest)) => match nodes_until(rest, bad, stop) {
                Err(e) => Err::<(Seq<Node>, Seq<TokenView>), Error>(e),
                Ok((others, after)) => Ok::<(Seq<Node>, Seq<TokenView>), Error>(
                    (seq![first] + others, after),
                ),
            },
        },
{
    lemma_node_consumes(ts, bad);
}

/// A quotation is its two groups, whatever the lengths.
pub proof fn theorem_quote_unfolds(token: TokenView, ts: Seq<TokenView>, bad: bool)
    ensures
        construct(Construct::Quote, token, ts, bad) == match group(ts, bad) {
            Err(e) => Err::<(Node, Seq<TokenView>), Error>(e),
            Ok((quote, middle)) => match group(middle, bad) {
                Err(e) => Err::<(Node, Seq<TokenView>), Error>(e),
                Ok((citation, rest)) => Ok::<(Node, Seq<TokenView>), Error>(
                    (Node::BlockQuote { quote, citation }, rest),
                ),
            },
        },
{
    lemma_group_consumes(ts, bad);
}

/// A construct that is never closed does not parse: where no token of
/// the closing class follows, reading up to the closing token fails,
/// whatever stands in between. Nothing is closed silently at the end of
/// the source.
pub proof fn lemma_unclosed_fails(ts: Seq<TokenView>, bad: bool, closer: TokenClass)
    requires
        forall|i: int| 0 <= i < ts.len() ==> (#[trigger] ts[i]).class != closer,
    ensures
        nodes_until(ts, bad, Stop::Close(closer)) is Err,
    decreases ts.len(),
{
    if ts.len() > 0 {
        lemma_node_consumes(ts, bad);
        if let Ok((_, rest)) = node(ts, bad) {
            assert forall|i: int| 0 <= i < rest.len() implies (#[trigger] rest[i]).class
                != closer by {
                lemma_suffix_index(rest, ts, i);
            }
            lemma_unclosed_fails(rest, bad, closer);
        }
    }
}

/// The class of the token that closes the construct `c`, for the
/// constructs that end at a closing token. The others take nothing
/// after their first token, or end with the line.
pub open spec fn closer_of(c: Construct) -> Option<TokenClass> {
    match c {
        Construct::Bold => Some(TokenClass::Star),
        Construct::Italic => Some(TokenClass::Underscore),
        Construct::Pagename => Some(TokenClass::CloseBrace),
        Construct::Footer => Some(TokenClass::CloseBrace),
        Construct::Footnote => Some(TokenClass::CloseBrace),
        Construct::Topblock => Some(TokenClass::CloseBrace),
        Construct::Tiles => Some(TokenClass::CloseBrace),
        Construct::Quote => Some(TokenClass::CloseBrace),
        Construct::Link => Some(TokenClass::CloseBrace),
        Construct::Code => Some(TokenClass::CloseBrace),
        Construct::Tile => Some(TokenClass::CloseBrace),
        Construct::Image => Some(TokenClass::CloseBrace),
        Construct::FloatingImage => Some(TokenClass::CloseBrace),
        _ => None,
    }
}

/// Whether no token of `ts` is of the class `class`.
pub open spec fn has_none_of(ts: Seq<TokenView>, class: TokenClass) -> bool {
    forall|i: int| 0 <= i < ts.len() ==> (#[trigger] ts[i]).class != class
}

/// An argument of text does not parse where no closing brace follows.
pub proof fn lemma_unclosed_payload_fails(ts: Seq<TokenView>, bad: bool)
    requires
        has_none_of(ts, TokenClass::CloseBrace),
    ensures
        payload(ts, bad) is Err,
{
    if let Ok((_, inner)) = expect(ts, bad, TokenClass::OpenBrace) {
        if let Ok((_, closer)) = expect(inner, bad, TokenClass::Alphanumeric) {
            if closer.len() > 0 {
                assert(closer[0] == ts[2]);
            }
        }
    }
}

/// An argument of constructs does not parse where no closing brace
/// follows.
pub proof fn lemma_unclosed_group_fails(ts: Seq<TokenView>, bad: bool)
    requires
        has_none_of(ts, TokenClass::CloseBrace),
    ensures
        group(ts, bad) is Err,
{
    if let Ok((_, inner)) = expect(ts, bad, TokenClass::OpenBrace) {
        assert forall|i: int| 0 <= i < inner.len() implies (#[trigger] inner[i]).class
            != TokenClass::CloseBrace by {
            assert(inner[i] == ts[i + 1]);
        }
        lemma_unclosed_fails(inner, bad, TokenClass::CloseBrace);
    }
}

/// Every construct that ends at a closing token fails where no such
/// token follows up to the end of the source, whatever stands in
/// between: nothing is closed silently, and no node comes of it.
pub proof fn theorem_unclosed_construct_fails(
    c: Construct,
    token: TokenView,
    ts: Seq<TokenView>,
    bad: bool,
)
    requires
        closer_of(c) is Some,
        has_none_of(ts, closer_of(c)->0),
    ensures
        construct(c, token, ts, bad) is Err,
{
    match c {
        Construct::Bold => lemma_unclosed_fails(ts, bad, TokenClass::Star),
        Construct::Italic => lemma_unclosed_fails(ts, bad, TokenClass::Underscore),
        Construct::Pagename => lemma_unclosed_payload_fails(ts, bad),
        Construct::Footer => lemma_unclosed_group_fails(ts, bad),
        Construct::Footnote => lemma_unclosed_group_fails(ts, bad),
        Construct::Topblock => lemma_unclosed_group_fails(ts, bad),
        Construct::Tiles => lemma_unclosed_group_fails(ts, bad),
        Construct::Quote => lemma_unclosed_group_fails(ts, bad),
        Construct::Link => lemma_unclosed_payload_fails(ts, bad),
        Construct::Code => lemma_unclosed_payload_fails(ts, bad),
        Construct::Tile => lemma_unclosed_payload_fails(ts, bad),
        Construct::Image => lemma_unclosed_payload_fails(ts, bad),
        Construct::FloatingImage => lemma_unclosed_payload_fails(ts, bad),
        _ => {},
    }
}

/// A document whose first construct fails, fails in the same way.
pub proof fn theorem_failure_of_first_construct(ts: Seq<TokenView>, bad: bool, e: Error)
    requires
        ts.len() > 0,
        node(ts, bad) == Err::<(Node, Seq<TokenView>), Error>(e),
    ensures
        document_of(ts, bad) == Err::<Seq<Node>, Error>(e),
{
    assert(!stops_at(Stop::End, ts[0].class));
}

/// A document whose first construct parses and whose rest fails, fails
/// in the same way: a failure comes through, however much of the
/// document parsed before it.
pub proof fn theorem_failure_comes_through(ts: Seq<TokenView>, bad: bool, e: Error)
    requires
        node(ts, bad) matches Ok((_, rest)) && document_of(rest, bad) == Err::<Seq<Node>, Error>(e),
    ensures
        document_of(ts, bad) == Err::<Seq<Node>, Error>(e),
{
    lemma_node_consumes(ts, bad);
}

/// A document that starts with a construct which ends at a closing
/// token, and holds no such token after it, fails.
pub proof fn theorem_unclosed_document_fails(ts: Seq<TokenView>, bad: bool)
    requires
        ts.len() > 0,
        construct_for(ts[0]) matches Some(c) && closer_of(c) matches Some(class) && has_none_of(
            ts.drop_first(),
            class,
        ),
    ensures
        document_of(ts, bad) is Err,
{
    let c = construct_for(ts[0])->0;
    theorem_unclosed_construct_fails(c, ts[0], ts.drop_first(), bad);
    assert(node(ts, bad) is Err);
    theorem_failure_of_first_construct(ts, bad, node(ts, bad)->Err_0);
}

/// The constructs that open with a marker or with a group: where only
/// text and line ends follow the opening up to the end of the source,
/// they fail with the early end and with nothing else.
pub proof fn theorem_unclosed_construct_is_early_end(
    c: Construct,
    token: TokenView,
    ts: Seq<TokenView>,
)
    requires
        is_plain_tokens(ts),
    ensures
        c == Construct::Bold || c == Construct::Italic ==> construct(c, token, ts, false) == Err::<
            (Node, Seq<TokenView>),
            Error,
        >(Error::UnexpectedEof),
        c == Construct::Footer || c == Construct::Footnote || c == Construct::Topblock || c
            == Construct::Tiles || c == Construct::Quote ==> construct(
            c,
            token,
            seq![marker_token(TokenClass::OpenBrace, '{')] + ts,
            false,
        ) == Err::<(Node, Seq<TokenView>), Error>(Error::UnexpectedEof),
{
    lemma_unclosed_text_is_early_end(ts, TokenClass::Star);
    lemma_unclosed_text_is_early_end(ts, TokenClass::Underscore);
    theorem_unclosed_group(ts);
}

/// Whether every token of `ts` is text or a line end.
pub open spec fn is_plain_tokens(ts: Seq<TokenView>) -> bool {
    forall|i: int|
        0 <= i < ts.len() ==> (#[trigger] ts[i]).class == TokenClass::Alphanumeric || ts[i].class
            == TokenClass::Newline
}

/// Where only text and line ends follow up to the end of the source,
/// reading up to a closing marker fails with the early end.
pub proof fn lemma_unclosed_text_is_early_end(ts: Seq<TokenView>, closer: TokenClass)
    requires
        is_plain_tokens(ts),
        closer != TokenClass::Alphanumeric,
        closer != TokenClass::Newline,
    ensures
        nodes_until(ts, false, Stop::Close(closer)) == Err::<
            (Seq<Node>, Seq<TokenView>),
            Error,
        >(Error::UnexpectedEof),
    decreases ts.len(),
{
    if ts.len() > 0 {
        lemma_node_consumes(ts, false);
        lemma_skip_blank_suffix(ts.drop_first());
        assert(node(ts, false) is Ok);
        if let Ok((_, rest)) = node(ts, false) {
            assert forall|i: int| 0 <= i < rest.len() implies (#[trigger] rest[i]).class
                == TokenClass::Alphanumeric || rest[i].class == TokenClass::Newline by {
                lemma_suffix_index(rest, ts, i);
            }
            lemma_unclosed_text_is_early_end(rest, closer);
        }
    }
}

/// A group that is opened and followed by text and line ends alone
/// fails with the early end of the source.
pub proof fn theorem_unclosed_group(ts: Seq<TokenView>)
    requires
        is_plain_tokens(ts),
    ensures
        group(seq![marker_token(TokenClass::OpenBrace, '{')] + ts, false) == Err::<
            (Seq<Node>, Seq<TokenView>),
            Error,
        >(Error::UnexpectedEof),
{
    let all = seq![marker_token(TokenClass::OpenBrace, '{')] + ts;
    assert(all.drop_first() =~= ts);
    lemma_unclosed_text_is_early_end(ts, TokenClass::CloseBrace);
}

/// Whether every character of `text` stands for itself: no marker, no
/// line end, nothing that the scanner refuses.
pub open spec fn is_plain_text(text: Seq<char>) -> bool {
    forall|i: int| 0 <= i < text.len() ==> is_plain(#[trigger] text[i])
}

/// `k` heading markers in a row.
pub open spec fn hashes(k: nat) -> Seq<char> {
    Seq::new(k, |i: int| '#')
}

/// The tokens of `k` heading markers in a row.
pub open spec fn hash_tokens(k: nat) -> Seq<TokenView> {
    Seq::new(k, |i: int| marker_token(TokenClass::Hash, '#'))
}

/// The token of a run of text.
pub open spec fn text_token(text: Seq<char>) -> TokenView {
    TokenView { class: TokenClass::Alphanumeric, value: trim(text) }
}

/// A stretch of plain characters that ends where no text goes on is one
/// run, and stands for itself.
pub proof fn lemma_plain_run(cs: Seq<char>, i: int, e: int)
    requires
        0 <= i <= e <= cs.len(),
        forall|j: int| i <= j < e ==> is_plain(#[trigger] cs[j]),
        unit_len(cs, e) == 0,
    ensures
        run_end(cs, i) == e,
        run_text(cs, i) == cs.subrange(i, e),
    decreases e - i,
{
    if i == e {
        assert(cs.subrange(i, e) =~= Seq::<char>::empty());
    } else {
        assert(is_plain(cs[i]));
        lemma_plain_run(cs, i + 1, e);
        assert(cs.subrange(i, e) =~= seq![cs[i]] + cs.subrange(i + 1, e));
    }
}

/// Heading markers in a row are scanned one by one.
pub proof fn lemma_hashes_scan(cs: Seq<char>, i: int, k: int)
    requires
        0 <= i <= k <= cs.len(),
        forall|j: int| 0 <= j < k ==> cs[j] == '#',
    ensures
        tokens_from(cs, i) == hash_tokens((k - i) as nat) + tokens_from(cs, k),
        ends_badly(cs, i) == ends_badly(cs, k),
    decreases k - i,
{
    if i == k {
        assert(hash_tokens(0) + tokens_from(cs, k) =~= tokens_from(cs, k));
    } else {
        lemma_hashes_scan(cs, i + 1, k);
        assert(cs[i] == '#');
        assert(scan(cs, i) == Scan::Token(marker_token(TokenClass::Hash, '#'), i + 1));
        assert(seq![marker_token(TokenClass::Hash, '#')] + (hash_tokens((k - i - 1) as nat)
            + tokens_from(cs, k)) =~= hash_tokens((k - i) as nat) + tokens_from(cs, k));
    }
}

/// After `level` markers, `n` more in a row make a heading of the level
/// `level + n`, if that is no more than six.
pub proof fn lemma_heading_counts(n: nat, tail: Seq<TokenView>, bad: bool, level: int)
    requires
        1 <= level,
        level + n <= MAX_HEADING_LEVEL,
        tail.len() == 0 || tail[0].class != TokenClass::Hash,
    ensures
        heading(hash_tokens(n) + tail, bad, level) == heading(tail, bad, level + n),
    decreases n,
{
    let ts = hash_tokens(n) + tail;
    if n == 0 {
        assert(ts =~= tail);
    } else {
        assert(ts[0] == marker_token(TokenClass::Hash, '#'));
        assert(ts.drop_first() =~= hash_tokens((n - 1) as nat) + tail);
        lemma_heading_counts((n - 1) as nat, tail, bad, level + 1);
    }
}

/// After `level` markers, more markers in a row than six allows are too
/// many, whatever follows them.
pub proof fn lemma_heading_overflows(ts: Seq<TokenView>, bad: bool, level: int, n: nat)
    requires
        1 <= level <= MAX_HEADING_LEVEL,
        level + n > MAX_HEADING_LEVEL,
        n <= ts.len(),
        forall|j: int| 0 <= j < n ==> (#[trigger] ts[j]).class == TokenClass::Hash,
    ensures
        heading(ts, bad, level) == Err::<(Node, Seq<TokenView>), Error>(Error::TooManyHashes),
    decreases n,
{
    assert(n > 0);
    assert(ts[0].class == TokenClass::Hash);
    if level < MAX_HEADING_LEVEL {
        assert forall|j: int| 0 <= j < n - 1 implies (#[trigger] ts.drop_first()[j]).class
            == TokenClass::Hash by {
            assert(ts.drop_first()[j] == ts[j + 1]);
        }
        lemma_heading_overflows(ts.drop_first(), bad, level + 1, (n - 1) as nat);
    }
}

/// `k` heading markers, for `k` from one to six, make a heading of the
/// level `k` over whatever the rest of the line parses to, and fail as
/// the rest of the line fails.
pub proof fn theorem_heading_level_of_line(k: nat, line: Seq<TokenView>, bad: bool)
    requires
        1 <= k <= MAX_HEADING_LEVEL,
        line.len() == 0 || line[0].class != TokenClass::Hash,
    ensures
        node(hash_tokens(k) + line, bad) == match nodes_until(line, bad, Stop::Line) {
            Err(e) => Err::<(Node, Seq<TokenView>), Error>(e),
            Ok((children, rest)) => Ok::<(Node, Seq<TokenView>), Error>(
                (heading_node(k as int, children), rest),
            ),
        },
{
    let ts = hash_tokens(k) + line;
    assert(ts[0] == marker_token(TokenClass::Hash, '#'));
    assert(ts.drop_first() =~= hash_tokens((k - 1) as nat) + line);
    lemma_heading_counts((k - 1) as nat, line, bad, 1);
}

/// A source of `k` heading markers and a run of text is a heading of
/// the level `k`, for `k` from one to six.
pub proof fn theorem_heading_level(k: nat, text: Seq<char>)
    requires
        1 <= k <= MAX_HEADING_LEVEL,
        text.len() > 0,
        is_plain_text(text),
    ensures
        document(hashes(k) + text) == Ok::<Seq<Node>, Error>(
            seq![heading_node(k as int, seq![Node::Alphanumeric(trim(text))])],
        ),
{
    let cs = hashes(k) + text;
    let end = cs.len() as int;
    assert forall|j: int| k <= j < end implies is_plain(#[trigger] cs[j]) by {
        assert(cs[j] == text[j - k]);
    }
    lemma_hashes_scan(cs, 0, k as int);
    lemma_plain_run(cs, k as int, end);
    assert(cs.subrange(k as int, end) =~= text);
    assert(is_plain(cs[k as int]));
    assert(scan(cs, k as int) == Scan::Token(text_token(text), end));
    assert(scan(cs, end) == Scan::End);
    assert(tokens_from(cs, end) =~= Seq::<TokenView>::empty());
    let word = seq![text_token(text)];
    assert(tokens_from(cs, k as int) =~= word);
    assert(!ends_badly(cs, end));
    assert(!ends_badly(cs, k as int));
    let ts = tokens_from(cs, 0);
    assert(ts == hash_tokens(k) + word);
    let leaf = Node::Alphanumeric(trim(text));
    let none = Seq::<TokenView>::empty();
    assert(word.drop_first() =~= none);
    assert(node(word, false) == Ok::<(Node, Seq<TokenView>), Error>((leaf, none)));
    assert(nodes_until(none, false, Stop::Line) == Ok::<(Seq<Node>, Seq<TokenView>), Error>(
        (Seq::empty(), none),
    ));
    assert(seq![leaf] + Seq::<Node>::empty() =~= seq![leaf]);
    assert(nodes_until(word, false, Stop::Line) == Ok::<(Seq<Node>, Seq<TokenView>), Error>(
        (seq![leaf], none),
    ));
    assert(ts[0] == marker_token(TokenClass::Hash, '#'));
    assert(ts.drop_first() =~= hash_tokens((k - 1) as nat) + word);
    lemma_heading_counts((k - 1) as nat, word, false, 1);
    let head = heading_node(k as int, seq![leaf]);
    assert(heading(word, false, k as int) == Ok::<(Node, Seq<TokenView>), Error>((head, none)));
    assert(node(ts, false) == Ok::<(Node, Seq<TokenView>), Error>((head, none)));
    assert(nodes_until(none, false, Stop::End) == Ok::<(Seq<Node>, Seq<TokenView>), Error>(
        (Seq::empty(), none),
    ));
    assert(seq![head] + Seq::<Node>::empty() =~= seq![head]);
    assert(nodes_until(ts, false, Stop::End) == Ok::<(Seq<Node>, Seq<TokenView>), Error>(
        (seq![head], none),
    ));
}

/// A source that starts with more than six heading markers fails with
/// too many of them, whatever follows.
pub proof fn theorem_too_many_hashes(k: nat, rest: Seq<char>)
    requires
        k > MAX_HEADING_LEVEL,
    ensures
        document(hashes(k) + rest) == Err::<Seq<Node>, Error>(Error::TooManyHashes),
{
    let cs = hashes(k) + rest;
    lemma_hashes_scan(cs, 0, k as int);
    let ts = tokens_from(cs, 0);
    let bad = ends_badly(cs, 0);
    assert(ts[0] == hash_tokens(k)[0]);
    assert forall|j: int| 0 <= j < k - 1 implies (#[trigger] ts.drop_first()[j]).class
        == TokenClass::Hash by {
        assert(ts.drop_first()[j] == hash_tokens(k)[j + 1]);
    }
    lemma_heading_overflows(ts.drop_first(), bad, 1, (k - 1) as nat);
    assert(node(ts, bad) == Err::<(Node, Seq<TokenView>), Error>(Error::TooManyHashes));
}

/// The empty source is the empty document.
pub proof fn theorem_empty_document()
    ensures
        document(Seq::<char>::empty()) == Ok::<Seq<Node>, Error>(Seq::empty()),
{
    let cs = Seq::<char>::empty();
    assert(scan(cs, 0) == Scan::End);
    assert(tokens_from(cs, 0) =~= Seq::<TokenView>::empty());
    assert(!ends_badly(cs, 0));
}

/// Italic around bold around text: the tokens parse to the same nesting,
/// in the order in which the markers were written.
pub proof fn lemma_nested_emphasis_tokens(word: TokenView)
    requires
        word.class == TokenClass::Alphanumeric,
    ensures
        document_of(
            seq![
                marker_token(TokenClass::Underscore, '_'),
                marker_token(TokenClass::Star, '*'),
                word,
                marker_token(TokenClass::Star, '*'),
                marker_token(TokenClass::Underscore, '_'),
            ],
            false,
        ) == Ok::<Seq<Node>, Error>(
            seq![Node::Italic(seq![Node::Bold(seq![Node::Alphanumeric(word.value)])])],
        ),
{
    let u = marker_token(TokenClass::Underscore, '_');
    let s = marker_token(TokenClass::Star, '*');
    let t5 = seq![u, s, word, s, u];
    let t4 = seq![s, word, s, u];
    let t3 = seq![word, s, u];
    let t2 = seq![s, u];
    let t1 = seq![u];
    let t0 = Seq::<TokenView>::empty();
    assert(t5.drop_first() =~= t4);
    assert(t4.drop_first() =~= t3);
    assert(t3.drop_first() =~= t2);
    assert(t2.drop_first() =~= t1);
    assert(t1.drop_first() =~= t0);
    let leaf = Node::Alphanumeric(word.value);
    let bold = Node::Bold(seq![leaf]);
    let italic = Node::Italic(seq![bold]);
    assert(node(t3, false) == Ok::<(Node, Seq<TokenView>), Error>((leaf, t2)));
    assert(nodes_until(t2, false, Stop::Close(TokenClass::Star)) == Ok::<
        (Seq<Node>, Seq<TokenView>),
        Error,
    >((Seq::empty(), t1)));
    assert(seq![leaf] + Seq::<Node>::empty() =~= seq![leaf]);
    assert(nodes_until(t3, false, Stop::Close(TokenClass::Star)) == Ok::<
        (Seq<Node>, Seq<TokenView>),
        Error,
    >((seq![leaf], t1)));
    assert(node(t4, false) == Ok::<(Node, Seq<TokenView>), Error>((bold, t1)));
    assert(nodes_until(t1, false, Stop::Close(TokenClass::Underscore)) == Ok::<
        (Seq<Node>, Seq<TokenView>),
        Error,
    >((Seq::empty(), t0)));
    assert(seq![bold] + Seq::<Node>::empty() =~= seq![bold]);
    assert(nodes_until(t4, false, Stop::Close(TokenClass::Underscore)) == Ok::<
        (Seq<Node>, Seq<TokenView>),
        Error,
    >((seq![bold], t0)));
    assert(node(t5, false) == Ok::<(Node, Seq<TokenView>), Error>((italic, t0)));
    assert(nodes_until(t0, false, Stop::End) == Ok::<(Seq<Node>, Seq<TokenView>), Error>(
        (Seq::empty(), t0),
    ));
    assert(seq![italic] + Seq::<Node>::empty() =~= seq![italic]);
    assert(nodes_until(t5, false, Stop::End) == Ok::<(Seq<Node>, Seq<TokenView>), Error>(
        (seq![italic], t0),
    ));
}

/// The source `_*text*_` is italic around bold around the text.
pub proof fn theorem_nested_emphasis(text: Seq<char>)
    requires
        text.len() > 0,
        is_plain_text(text),
    ensures
        document(seq!['_', '*'] + text + seq!['*', '_']) == Ok::<Seq<Node>, Error>(
            seq![Node::Italic(seq![Node::Bold(seq![Node::Alphanumeric(trim(text))])])],
        ),
{
    let cs = seq!['_', '*'] + text + seq!['*', '_'];
    let e = 2 + text.len() as int;
    assert(cs.len() == e + 2);
    assert(cs[0] == '_' && cs[1] == '*' && cs[e] == '*' && cs[e + 1] == '_');
    assert forall|j: int| 2 <= j < e implies is_plain(#[trigger] cs[j]) by {
        assert(cs[j] == text[j - 2]);
    }
    assert(unit_len(cs, e) == 0);
    lemma_plain_run(cs, 2, e);
    assert(cs.subrange(2, e) =~= text);
    assert(is_plain(cs[2]));
    let u = marker_token(TokenClass::Underscore, '_');
    let s = marker_token(TokenClass::Star, '*');
    let word = text_token(text);
    assert(scan(cs, e + 2) == Scan::End);
    assert(scan(cs, e + 1) == Scan::Token(u, e + 2));
    assert(scan(cs, e) == Scan::Token(s, e + 1));
    assert(scan(cs, 2) == Scan::Token(word, e));
    assert(scan(cs, 1) == Scan::Token(s, 2));
    assert(scan(cs, 0) == Scan::Token(u, 1));
    assert(tokens_from(cs, e + 2) =~= Seq::<TokenView>::empty());
    assert(tokens_from(cs, e + 1) =~= seq![u]);
    assert(tokens_from(cs, e) =~= seq![s, u]);
    assert(tokens_from(cs, 2) =~= seq![word, s, u]);
    assert(tokens_from(cs, 1) =~= seq![s, word, s, u]);
    assert(tokens_from(cs, 0) =~= seq![u, s, word, s, u]);
    assert(!ends_badly(cs, e + 2));
    assert(!ends_badly(cs, e + 1));
    assert(!ends_badly(cs, e));
    assert(!ends_badly(cs, 2));
    assert(!ends_badly(cs, 1));
    assert(!ends_badly(cs, 0));
    lemma_nested_emphasis_tokens(word);
}

/// A bold or italic marker that is followed by text alone, and never by
/// its closing marker, fails with the early end of the source.
pub proof fn theorem_unclosed_emphasis(marker: char, text: Seq<char>)
    requires
        marker == '*' || marker == '_',
        is_plain_text(text),
    ensures
        document(seq![marker] + text) == Err::<Seq<Node>, Error>(Error::UnexpectedEof),
{
    let cs = seq![marker] + text;
    let end = cs.len() as int;
    let class = if marker == '*' {
        TokenClass::Star
    } else {
        TokenClass::Underscore
    };
    let opener = marker_token(class, marker);
    assert forall|j: int| 1 <= j < end implies is_plain(#[trigger] cs[j]) by {
        assert(cs[j] == text[j - 1]);
    }
    assert(scan(cs, end) == Scan::End);
    assert(tokens_from(cs, end) =~= Seq::<TokenView>::empty());
    assert(!ends_badly(cs, end));
    assert(cs[0] == marker);
    assert(scan(cs, 0) == Scan::Token(opener, 1));
    let after = tokens_from(cs, 1);
    if text.len() == 0 {
        assert(after =~= Seq::<TokenView>::empty());
        assert(!ends_badly(cs, 1));
    } else {
        lemma_plain_run(cs, 1, end);
        assert(is_plain(cs[1]));
        assert(scan(cs, 1) == Scan::Token(text_token(cs.subrange(1, end)), end));
        assert(after =~= seq![text_token(cs.subrange(1, end))]);
        assert(!ends_badly(cs, 1));
    }
    assert(is_plain_tokens(after));
    lemma_unclosed_text_is_early_end(after, class);
    let ts = tokens_from(cs, 0);
    assert(ts =~= seq![opener] + after);
    assert(ts.drop_first() =~= after);
    assert(!ends_badly(cs, 0));
    assert(node(ts, false) == Err::<(Node, Seq<TokenView>), Error>(Error::UnexpectedEof));
}

} // verus!
