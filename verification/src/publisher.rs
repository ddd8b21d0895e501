//! The publisher: decides whether a freshly rendered page replaces the
//! page that was published before.
//!
//! The two texts are compared line by line. A change is a run of lines
//! that only the old text holds, or that only the new text holds. A change
//! is a change of the date where every line of it that is not empty holds
//! the marker of the date, and some line does; every other change is one
//! of substance: a single line without the marker makes it so.
//!
//! The page is written where anything of substance changed, and where
//! the line of the date came or went. Where only the text of the date
//! differs, and where nothing differs at all, the page stays as it is:
//! compiling an unchanged source on a later day does not touch the
//! published page, and the date in it stays the date of the last change
//! of substance. A comparison byte by byte would write the page anew
//! every day; it is not what this publisher does.

use vstd::prelude::*;
use vstd::string::*;
use crate::emitter::{date_marker, is_one_line, render, SnippetView};
use crate::parser::expression::Node;
use crate::text::{chars_of, same_text};

verus! {

/// The most bytes that the old and the new text may hold together for a
/// comparison line by line.
pub const DIFF_LIMIT: usize = 0x3fff_0000;

/// The mathematical value of a change: its kind and its lines.
pub ghost enum ChangeView {
    Same(Seq<char>),
    Add(Seq<char>),
    Rem(Seq<char>),
}

/// One piece of the comparison of two texts: a run of lines that both
/// hold, that only the new one holds, or that only the old one holds.
/// The lines of a run are joined by line ends.
#[derive(Clone, PartialEq, Eq, Debug)]
pub enum Change {
    Same(String),
    Add(String),
    Rem(String),
}

impl View for Change {
    type V = ChangeView;

    open spec fn view(&self) -> ChangeView {
        match self {
            Change::Same(s) => ChangeView::Same(s@),
            Change::Add(s) => ChangeView::Add(s@),
            Change::Rem(s) => ChangeView::Rem(s@),
        }
    }
}

/// The values of a sequence of changes.
pub open spec fn change_views(changes: Seq<Change>) -> Seq<ChangeView> {
    Seq::new(changes.len(), |i: int| changes[i]@)
}

/// The changes that `text_diff::diff` finds between `orig` and `edit`,
/// both cut at every `split`.
pub uninterp spec fn difference(orig: Seq<char>, edit: Seq<char>, split: Seq<char>) -> Seq<
    ChangeView,
>;

/// The number of bytes that the text `s` takes.
pub open spec fn text_len(s: Seq<char>) -> usize {
    vstd::utf8::encode_utf8(s).len() as usize
}

/// `text_diff::diff`: the changes that lead from `orig` to `edit`, in
/// the order of the first text, both cut at every `split`. The result
/// is a function of the three texts. The bound keeps the number of
/// pieces within what the crate counts in 32 bits.
#[verifier::external_body]
fn diff(orig: &str, edit: &str, split: &str) -> (changes: Vec<Change>)
    requires
        text_len(orig@) + text_len(edit@) <= DIFF_LIMIT,
    ensures
        change_views(changes@) == difference(orig@, edit@, split@),
{
    let (_, found) = text_diff::diff(orig, edit, split);
    found.into_iter().map(
        |d|
            match d {
                text_diff::Difference::Same(s) => Change::Same(s),
                text_diff::Difference::Add(s) => Change::Add(s),
                text_diff::Difference::Rem(s) => Change::Rem(s),
            },
    ).collect()
}

/// Whether `needle` stands in `hay` at the index `i`.
pub open spec fn occurs_at(hay: Seq<char>, needle: Seq<char>, i: int) -> bool {
    0 <= i && i + needle.len() <= hay.len() && hay.subrange(i, i + needle.len()) == needle
}

/// Whether `needle` stands somewhere in `hay`.
pub open spec fn contains(hay: Seq<char>, needle: Seq<char>) -> bool {
    exists|i: int| occurs_at(hay, needle, i)
}

/// Whether `s[i..e]` is a line of `s`: it starts at the start of `s` or
/// after a line end, ends at the end of `s` or before a line end, and
/// holds no line end.
pub open spec fn is_line(s: Seq<char>, i: int, e: int) -> bool {
    &&& 0 <= i <= e <= s.len()
    &&& (i == 0 || s[i - 1] == '\n')
    &&& (e == s.len() || s[e] == '\n')
    &&& forall|j: int| i <= j < e ==> s[j] != '\n'
}

/// Whether the lines `lines` lie within the line of the date: some line
/// of them is not empty, and every line that is not empty holds the
/// marker of the date. Empty lines beside the line of the date do not
/// count; any other line does.
pub open spec fn is_date_region(lines: Seq<char>) -> bool {
    &&& exists|i: int, e: int| #[trigger] is_line(lines, i, e) && i < e
    &&& forall|i: int, e: int| #[trigger]
        is_line(lines, i, e) && i < e ==> contains(lines.subrange(i, e), date_marker())
}

/// Whether the change `c` is a change of the date.
pub open spec fn is_date_change(c: ChangeView) -> bool {
    match c {
        ChangeView::Same(_) => false,
        ChangeView::Add(lines) => is_date_region(lines),
        ChangeView::Rem(lines) => is_date_region(lines),
    }
}

/// Whether the change `c` is a change of substance.
pub open spec fn is_substantive(c: ChangeView) -> bool {
    match c {
        ChangeView::Same(_) => false,
        ChangeView::Add(lines) => !is_date_region(lines),
        ChangeView::Rem(lines) => !is_date_region(lines),
    }
}

/// The number of changes of the date in `changes`.
pub open spec fn date_changes(changes: Seq<ChangeView>) -> nat
    decreases changes.len(),
{
    if changes.len() == 0 {
        0
    } else {
        date_changes(changes.drop_last()) + if is_date_change(changes.last()) {
            1nat
        } else {
            0nat
        }
    }
}

/// Whether some change in `changes` is one of substance.
pub open spec fn has_substantive(changes: Seq<ChangeView>) -> bool {
    exists|i: int| 0 <= i < changes.len() && is_substantive(#[trigger] changes[i])
}

/// The decision: the page is written where something of substance
/// changed, or where the line of the date came or went, which shows in
/// an odd number of changes of the date.
pub open spec fn must_write(changes: Seq<ChangeView>) -> bool {
    has_substantive(changes) || date_changes(changes) % 2 == 1
}

/// Whether `needle` stands in `hay` at the index `i`.
fn found_at(hay: &Vec<char>, needle: &Vec<char>, i: usize) -> (b: bool)
    requires
        i + needle.len() <= hay.len(),
    ensures
        b == occurs_at(hay@, needle@, i as int),
{
    let mut j: usize = 0;
    while j < needle.len()
        invariant
            j <= needle.len(),
            i + needle.len() <= hay.len(),
            forall|k: int| 0 <= k < j ==> hay@[i + k] == needle@[k],
        decreases needle.len() - j,
    {
        if hay[i + j] != needle[j] {
            assert(hay@.subrange(i as int, i + needle@.len())[j as int] != needle@[j as int]);
            return false;
        }
        j = j + 1;
    }
    assert(hay@.subrange(i as int, i + needle@.len()) =~= needle@);
    true
}

/// Whether `needle` stands somewhere in `hay`.
pub fn holds(hay: &Vec<char>, needle: &Vec<char>) -> (b: bool)
    ensures
        b == contains(hay@, needle@),
{
    if needle.len() > hay.len() {
        return false;
    }
    let last = hay.len() - needle.len();
    let mut i: usize = 0;
    loop
        invariant
            i <= last,
            last == hay.len() - needle.len(),
            needle.len() <= hay.len(),
            forall|k: int| 0 <= k < i ==> !occurs_at(hay@, needle@, k),
        decreases last - i,
    {
        if found_at(hay, needle, i) {
            return true;
        }
        if i == last {
            return false;
        }
        i = i + 1;
    }
}

/// Two lines of a text that start at the same place end at the same
/// place.
pub proof fn lemma_line_end_is_determined(s: Seq<char>, i: int, e: int, f: int)
    requires
        is_line(s, i, e),
        is_line(s, i, f),
    ensures
        e == f,
{
    if e < f {
        assert(s[e] == '\n');
    }
    if f < e {
        assert(s[f] == '\n');
    }
}

/// No line of a text starts within another line, after its start.
pub proof fn lemma_no_line_starts_within(s: Seq<char>, i: int, e: int, a: int, b: int)
    requires
        is_line(s, i, e),
        is_line(s, a, b),
        i < a,
    ensures
        e < a,
{
    if a <= e {
        assert(s[a - 1] == '\n');
    }
}

/// Whether the lines `lines` lie within the line of the date.
pub fn date_region(lines: &str) -> (b: bool)
    ensures
        b == is_date_region(lines@),
{
    let hay = chars_of(lines);
    let marker = chars_of("last-updated-date");
    let n = hay.len();
    let mut found: bool = false;
    let mut i: usize = 0;
    loop
        invariant
            hay@ == lines@,
            marker@ == date_marker(),
            n == hay.len(),
            i <= n,
            i == 0 || hay@[i - 1] == '\n',
            forall|a: int, b: int| #[trigger]
                is_line(hay@, a, b) && a < i && a < b ==> contains(hay@.subrange(a, b), marker@),
            found <==> exists|a: int, b: int| #[trigger] is_line(hay@, a, b) && a < i && a < b,
        decreases n - i,
    {
        let mut line: Vec<char> = Vec::new();
        let mut e: usize = i;
        while e < n && hay[e] != '\n'
            invariant
                i <= e <= n,
                n == hay.len(),
                line@ == hay@.subrange(i as int, e as int),
                forall|j: int| i <= j < e ==> hay@[j] != '\n',
            decreases n - e,
        {
            line.push(hay[e]);
            e = e + 1;
            assert(hay@.subrange(i as int, e as int) =~= hay@.subrange(i as int, e - 1).push(
                hay@[e - 1],
            ));
        }
        assert(is_line(hay@, i as int, e as int));
        let solid = line.len() > 0;
        if solid && !holds(&line, &marker) {
            return false;
        }
        proof {
            assert forall|a: int, b: int| #[trigger]
                is_line(hay@, a, b) && a < e + 1 && a < b implies contains(
                hay@.subrange(a, b),
                marker@,
            ) by {
                if a == i {
                    lemma_line_end_is_determined(hay@, a, b, e as int);
                } else if a > i {
                    lemma_no_line_starts_within(hay@, i as int, e as int, a, b);
                }
            }
            if found || solid {
                if solid {
                    assert(is_line(hay@, i as int, e as int) && i < e + 1 && i < e);
                } else {
                    let (a, b) = choose|a: int, b: int| #[trigger]
                        is_line(hay@, a, b) && a < i && a < b;
                    assert(is_line(hay@, a, b) && a < e + 1 && a < b);
                }
            } else {
                assert forall|a: int, b: int| !(#[trigger] is_line(hay@, a, b) && a < e + 1
                    && a < b) by {
                    if is_line(hay@, a, b) && a < e + 1 && a < b {
                        if a == i {
                            lemma_line_end_is_determined(hay@, a, b, e as int);
                        } else if a > i {
                            lemma_no_line_starts_within(hay@, i as int, e as int, a, b);
                        } else {
                            assert(is_line(hay@, a, b) && a < i && a < b);
                        }
                    }
                }
            }
        }
        found = found || solid;
        if e >= n {
            proof {
                assert forall|a: int, b: int| #[trigger] is_line(hay@, a, b) && a < b implies a
                    < e + 1 by {
                    if a > i {
                        lemma_no_line_starts_within(hay@, i as int, e as int, a, b);
                    }
                }
            }
            return found;
        }
        i = e + 1;
    }
}

/// Whether the change `c` is a change of the date.
fn date_change(c: &Change) -> (b: bool)
    ensures
        b == is_date_change(c@),
{
    match c {
        Change::Same(_) => false,
        Change::Add(lines) => date_region(lines.as_str()),
        Change::Rem(lines) => date_region(lines.as_str()),
    }
}

/// Classifies the changes between two texts and decides whether the
/// page is to be written.
pub fn classify(changes: &Vec<Change>) -> (write: bool)
    ensures
        write == must_write(change_views(changes@)),
{
    let ghost cs = change_views(changes@);
    let mut substance: bool = false;
    let mut new_date: bool = false;
    let mut i: usize = 0;
    while i < changes.len()
        invariant
            i <= changes.len(),
            cs == change_views(changes@),
            substance == has_substantive(cs.take(i as int)),
            new_date == (date_changes(cs.take(i as int)) % 2 == 1),
        decreases changes.len() - i,
    {
        let ghost before = cs.take(i as int);
        let ghost after = cs.take(i + 1);
        proof {
            assert(after.drop_last() =~= before);
            assert(after.last() == changes@[i as int]@);
            if has_substantive(before) {
                let k = choose|k: int| 0 <= k < before.len() && is_substantive(#[trigger] before[k]);
                assert(after[k] == before[k]);
            }
            if has_substantive(after) && !is_substantive(after.last()) {
                let k = choose|k: int| 0 <= k < after.len() && is_substantive(#[trigger] after[k]);
                assert(before[k] == after[k]);
            }
            if is_substantive(after.last()) {
                assert(is_substantive(after[i as int]));
            }
        }
        match &changes[i] {
            Change::Same(_) => {},
            c => {
                if date_change(c) {
                    new_date = !new_date;
                } else {
                    substance = true;
                }
            },
        }
        i = i + 1;
    }
    assert(cs.take(i as int) =~= cs);
    substance || new_date
}

/// Decides whether `fresh` replaces the published text `previous`.
pub fn needs_write(previous: &str, fresh: &str) -> (write: bool)
    requires
        text_len(previous@) + text_len(fresh@) <= DIFF_LIMIT,
    ensures
        write == must_write(difference(previous@, fresh@, "\n"@)),
{
    let changes = diff(previous, fresh, "\n");
    classify(&changes)
}

/// What `decide` answers: nothing was published before, so the page is
/// written; or the two texts are the same, so nothing is written; or
/// the decision over the changes between them; or no answer, where the
/// two texts differ and are too long to compare line by line.
pub open spec fn verdict(previous: Option<Seq<char>>, fresh: Seq<char>) -> Option<bool> {
    match previous {
        None => Some(true),
        Some(p) => if p == fresh {
            Some(false)
        } else if text_len(p) + text_len(fresh) <= DIFF_LIMIT {
            Some(must_write(difference(p, fresh, "\n"@)))
        } else {
            None
        },
    }
}

/// The text of the page that was published before, if there is one.
pub open spec fn text_of(previous: Option<&str>) -> Option<Seq<char>> {
    match previous {
        None => None,
        Some(p) => Some(p@),
    }
}

/// Decides whether the fresh page is written. `previous` is the text of
/// the page that was published before, if there is one. The answer is
/// `None` where the two texts differ and are too long to compare.
pub fn decide(previous: Option<&str>, fresh: &str) -> (write: Option<bool>)
    ensures
        write == verdict(text_of(previous), fresh@),
{
    match previous {
        None => Some(true),
        Some(p) => {
            if same_text(p, fresh) {
                Some(false)
            } else if p.len() <= DIFF_LIMIT && fresh.len() <= DIFF_LIMIT - p.len() {
                Some(needs_write(p, fresh))
            } else {
                None
            }
        },
    }
}

/// Whether every change of `changes` is a run of lines that both texts
/// hold.
pub open spec fn all_same(changes: Seq<ChangeView>) -> bool {
    forall|i: int| 0 <= i < changes.len() ==> (#[trigger] changes[i]) is Same
}

/// The changes of the date in two sequences of changes add up.
pub proof fn lemma_date_changes_concat(a: Seq<ChangeView>, b: Seq<ChangeView>)
    ensures
        date_changes(a + b) == date_changes(a) + date_changes(b),
    decreases b.len(),
{
    if b.len() == 0 {
        assert(a + b =~= a);
    } else {
        assert((a + b).drop_last() =~= a + b.drop_last());
        assert((a + b).last() == b.last());
        lemma_date_changes_concat(a, b.drop_last());
    }
}

/// Lines that both texts hold are no change of the date.
pub proof fn lemma_same_has_no_date_changes(changes: Seq<ChangeView>)
    requires
        all_same(changes),
    ensures
        date_changes(changes) == 0,
        !has_substantive(changes),
    decreases changes.len(),
{
    if changes.len() > 0 {
        assert(changes.last() is Same);
        assert forall|i: int| 0 <= i < changes.drop_last().len() implies (
        #[trigger] changes.drop_last()[i]) is Same by {
            assert(changes.drop_last()[i] == changes[i]);
        }
        lemma_same_has_no_date_changes(changes.drop_last());
    }
}

/// Something of substance is in `a + b` exactly where it is in `a` or
/// in `b`.
pub proof fn lemma_has_substantive_concat(a: Seq<ChangeView>, b: Seq<ChangeView>)
    ensures
        has_substantive(a + b) <==> has_substantive(a) || has_substantive(b),
{
    if has_substantive(a + b) {
        let k = choose|k: int| 0 <= k < (a + b).len() && is_substantive(#[trigger] (a + b)[k]);
        if k < a.len() {
            assert(is_substantive(a[k]));
        } else {
            assert(is_substantive(b[k - a.len()]));
        }
    }
    if has_substantive(a) {
        let k = choose|k: int| 0 <= k < a.len() && is_substantive(#[trigger] a[k]);
        assert(is_substantive((a + b)[k]));
    }
    if has_substantive(b) {
        let k = choose|k: int| 0 <= k < b.len() && is_substantive(#[trigger] b[k]);
        assert(is_substantive((a + b)[a.len() + k]));
    }
}

/// Where the two texts hold the same lines throughout, nothing is
/// written.
pub proof fn theorem_unchanged_is_skipped(changes: Seq<ChangeView>)
    requires
        all_same(changes),
    ensures
        !must_write(changes),
{
    lemma_same_has_no_date_changes(changes);
}

/// Where the only difference is that the line of the date was taken out
/// and put back with another text, nothing is written.
pub proof fn theorem_date_text_is_skipped(
    before: Seq<ChangeView>,
    old_line: Seq<char>,
    new_line: Seq<char>,
    after: Seq<ChangeView>,
)
    requires
        all_same(before),
        all_same(after),
        is_date_region(old_line),
        is_date_region(new_line),
    ensures
        !must_write(
            before + seq![ChangeView::Rem(old_line), ChangeView::Add(new_line)] + after,
        ),
{
    let middle = seq![ChangeView::Rem(old_line), ChangeView::Add(new_line)];
    lemma_same_has_no_date_changes(before);
    lemma_same_has_no_date_changes(after);
    lemma_date_changes_concat(before, middle);
    lemma_date_changes_concat(before + middle, after);
    lemma_has_substantive_concat(before, middle);
    lemma_has_substantive_concat(before + middle, after);
    let first = seq![ChangeView::Rem(old_line)];
    assert(middle.drop_last() =~= first);
    assert(first.drop_last() =~= Seq::<ChangeView>::empty());
    assert(date_changes(Seq::<ChangeView>::empty()) == 0);
    assert(is_date_change(first.last()));
    assert(date_changes(first) == 1);
    assert(is_date_change(middle.last()));
    assert(date_changes(middle) == 2);
    if has_substantive(middle) {
        let k = choose|k: int| 0 <= k < middle.len() && is_substantive(#[trigger] middle[k]);
        assert(k == 0 || k == 1);
    }
}

/// Where the only difference is that the line of the date came or went,
/// the page is written.
pub proof fn theorem_date_presence_is_written(
    before: Seq<ChangeView>,
    change: ChangeView,
    after: Seq<ChangeView>,
)
    requires
        all_same(before),
        all_same(after),
        is_date_change(change),
    ensures
        must_write(before + seq![change] + after),
{
    let middle = seq![change];
    lemma_same_has_no_date_changes(before);
    lemma_same_has_no_date_changes(after);
    lemma_date_changes_concat(before, middle);
    lemma_date_changes_concat(before + middle, after);
    assert(middle.drop_last() =~= Seq::<ChangeView>::empty());
    assert(date_changes(Seq::<ChangeView>::empty()) == 0);
    assert(is_date_change(middle.last()));
    assert(date_changes(middle) == 1);
}

/// Where anything of substance changed, the page is written.
pub proof fn theorem_substance_is_written(changes: Seq<ChangeView>, i: int)
    requires
        0 <= i < changes.len(),
        is_substantive(changes[i]),
    ensures
        must_write(changes),
{
}

/// Where the fresh page is the published page, character for
/// character, nothing is written, however long the page is.
pub proof fn theorem_same_page_is_skipped(page: Seq<char>)
    ensures
        verdict(Some(page), page) == Some(false),
{
}

/// Where the comparison finds that the line of the date went out and
/// came back with another text, and nothing else, the page is kept.
pub proof fn theorem_date_churn_is_kept(
    previous: Seq<char>,
    fresh: Seq<char>,
    before: Seq<ChangeView>,
    old_line: Seq<char>,
    new_line: Seq<char>,
    after: Seq<ChangeView>,
)
    requires
        text_len(previous) + text_len(fresh) <= DIFF_LIMIT,
        difference(previous, fresh, "\n"@) == before + seq![
            ChangeView::Rem(old_line),
            ChangeView::Add(new_line),
        ] + after,
        all_same(before),
        all_same(after),
        is_date_region(old_line),
        is_date_region(new_line),
    ensures
        verdict(Some(previous), fresh) == Some(false),
{
    theorem_date_text_is_skipped(before, old_line, new_line, after);
}

/// Where nothing was published before, the page is written.
pub proof fn theorem_first_publish_is_written(fresh: Seq<char>)
    ensures
        verdict(None, fresh) == Some(true),
{
}

/// A single line that holds the marker of the date lies within the
/// line of the date, and so it does together with the line end after
/// it, as the comparison may hand it out.
pub proof fn theorem_one_line_is_date_region(line: Seq<char>)
    requires
        forall|i: int| 0 <= i < line.len() ==> line[i] != '\n',
        contains(line, date_marker()),
    ensures
        is_date_region(line),
        is_date_region(line + "\n"@),
{
    reveal_strlit("\n");
    reveal_strlit("last-updated-date");
    let at = choose|i: int| occurs_at(line, date_marker(), i);
    assert(line.len() > 0);
    let n = line.len() as int;
    let longer = line + "\n"@;
    assert(line.subrange(0, n) =~= line);
    assert(longer.subrange(0, n) =~= line);
    assert(is_line(line, 0, n) && 0 < n);
    assert(is_line(longer, 0, n) && 0 < n) by {
        assert(longer[n] == '\n');
        assert forall|j: int| 0 <= j < n implies longer[j] != '\n' by {
            assert(longer[j] == line[j]);
        }
    }
    assert forall|i: int, e: int| #[trigger] is_line(line, i, e) && i < e implies contains(
        line.subrange(i, e),
        date_marker(),
    ) by {
        if i > 0 {
            assert(line[i - 1] == '\n');
        }
        if e < n {
            assert(line[e] == '\n');
        }
    }
    assert forall|i: int, e: int| #[trigger] is_line(longer, i, e) && i < e implies contains(
        longer.subrange(i, e),
        date_marker(),
    ) by {
        if i > 0 {
            assert(longer[i - 1] == '\n');
            if i - 1 < n {
                assert(longer[i - 1] == line[i - 1]);
            }
        }
        if e > n {
            assert(longer[n] == '\n');
        }
        if e < n {
            assert(longer[e] == line[e]);
        }
    }
}

/// A change that holds a line which is not empty and is without the
/// marker of the date is a change of substance, whatever else it holds.
pub proof fn theorem_other_line_is_substance(lines: Seq<char>, i: int, e: int)
    requires
        is_line(lines, i, e),
        i < e,
        !contains(lines.subrange(i, e), date_marker()),
    ensures
        !is_date_region(lines),
        is_substantive(ChangeView::Add(lines)),
        is_substantive(ChangeView::Rem(lines)),
{
}

/// What a date node renders to lies within the line of the date,
/// whatever the date is, as long as it holds no line end; and so it does
/// together with the line end after it.
pub proof fn theorem_date_line_is_recognised(date: Seq<char>, snippets: Seq<SnippetView>)
    requires
        is_one_line(date),
    ensures
        is_date_region(render(Node::Date, date, snippets)),
        is_date_region(render(Node::Date, date, snippets) + "\n"@),
{
    reveal_strlit("<p class=\"last-updated-date\">Last Updated ");
    reveal_strlit("</p>");
    reveal_strlit("last-updated-date");
    let open = "<p class=\"last-updated-date\">Last Updated "@;
    let close = "</p>"@;
    let line = open + date + close;
    let marker = date_marker();
    assert(line.subrange(10, 10 + marker.len() as int) =~= marker);
    assert(occurs_at(line, marker, 10));
    assert forall|i: int| 0 <= i < line.len() implies line[i] != '\n' by {
        if i < open.len() {
            assert(line[i] == open[i]);
        } else if i < open.len() + date.len() {
            assert(line[i] == date[i - open.len()]);
        } else {
            assert(line[i] == close[i - open.len() - date.len()]);
        }
    }
    theorem_one_line_is_date_region(line);
}

} // verus!
