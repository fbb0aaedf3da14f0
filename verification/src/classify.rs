//! Classification of two sources that are at hand as vectors.

use crate::comparator::Comparator;
use crate::line::{fold_key, Line, LineView};
use crate::merge::{entries, merge};
use crate::record::Record;
use crate::sequences::lemma_filter_first;
use crate::source::{decoded, decoded_all};
use crate::stream::{Action, Merger, SlotView};
use vstd::prelude::*;

verus! {

/// The lines that a source still owes the merge: the line in its slot, if
/// any, before those that were not fed yet.
spec fn pending(slot: SlotView, rest: Seq<LineView>) -> Seq<LineView> {
    match slot {
        SlotView::Empty => rest,
        SlotView::Holding(l) => seq![l] + rest,
        SlotView::Exhausted => Seq::empty(),
    }
}

/// How far a source is from its end, counted so that every move of the merge
/// brings one of the two sources closer.
spec fn distance(slot: SlotView, unread: nat) -> nat {
    match slot {
        SlotView::Empty => 3 * unread + 1,
        SlotView::Holding(_) => 3 * unread + 2,
        SlotView::Exhausted => 0,
    }
}

/// The lines under a fold policy: each text with its key.
pub open spec fn keyed(texts: Seq<Seq<char>>, fold: bool) -> Seq<LineView> {
    Seq::new(texts.len(), |i: int| LineView { text: texts[i], key: fold_key(texts[i], fold) })
}

/// Classifies the lines of two sources by driving the merge over them from
/// their first lines to their last.
pub fn classify(first: &Vec<Line>, second: &Vec<Line>) -> (r: Vec<Record>)
    ensures
        r.deep_view() == entries(merge(first.deep_view(), second.deep_view())),
{
    let ghost a = first.deep_view();
    let ghost b = second.deep_view();
    let mut merger = Merger::new();
    let mut out: Vec<Record> = Vec::new();
    let mut i: usize = 0;
    let mut j: usize = 0;
    assert(a.skip(0) =~= a && b.skip(0) =~= b);
    loop
        invariant
            a == first.deep_view(),
            b == second.deep_view(),
            i <= first.len(),
            j <= second.len(),
            merger@.first is Exhausted ==> i == first.len(),
            merger@.second is Exhausted ==> j == second.len(),
            out.deep_view() + entries(
                merge(
                    pending(merger@.first, a.skip(i as int)),
                    pending(merger@.second, b.skip(j as int)),
                ),
            ) == entries(merge(a, b)),
        decreases
            distance(merger@.first, (first.len() - i) as nat) + distance(
                merger@.second,
                (second.len() - j) as nat,
            ),
    {
        let ghost before = merger@;
        let ghost pa = pending(before.first, a.skip(i as int));
        let ghost pb = pending(before.second, b.skip(j as int));
        match merger.advance() {
            Action::PullFirst => {
                if i < first.len() {
                    merger.feed_first(Some(first[i].clone()));
                    i += 1;
                } else {
                    merger.feed_first(None);
                }
                assert(pending(merger@.first, a.skip(i as int)) =~= pa);
            },
            Action::PullSecond => {
                if j < second.len() {
                    merger.feed_second(Some(second[j].clone()));
                    j += 1;
                } else {
                    merger.feed_second(None);
                }
                assert(pending(merger@.second, b.skip(j as int)) =~= pb);
            },
            Action::Emit(record) => {
                out.push(record);
                assert(before.first is Holding ==> pa.drop_first() =~= a.skip(i as int));
                assert(before.second is Holding ==> pb.drop_first() =~= b.skip(j as int));
            },
            Action::Finished => {
                return out;
            },
        }
    }
}

/// Classifies the lines of two sources given as texts, under one fold policy
/// for both.
pub fn classify_texts(first: &Vec<String>, second: &Vec<String>, fold: bool) -> (r: Vec<Record>)
    ensures
        r.deep_view() == entries(
            merge(keyed(first.deep_view(), fold), keyed(second.deep_view(), fold)),
        ),
{
    let a = with_keys(first, fold);
    let b = with_keys(second, fold);
    classify(&a, &b)
}

/// Gives each text its key under the fold policy.
pub fn with_keys(texts: &Vec<String>, fold: bool) -> (r: Vec<Line>)
    ensures
        r.deep_view() == keyed(texts.deep_view(), fold),
{
    let mut lines: Vec<Line> = Vec::new();
    let mut i: usize = 0;
    while i < texts.len()
        invariant
            i <= texts.len(),
            lines.len() == i,
            forall|k: int|
                0 <= k < i ==> (#[trigger] lines[k])@ == (LineView {
                    text: texts[k]@,
                    key: fold_key(texts[k]@, fold),
                }),
        decreases texts.len() - i,
    {
        lines.push(Line::new(texts[i].clone(), fold));
        i += 1;
    }
    lines
}

/// The lines that the raw lines give under a fold policy: the texts of those
/// that decode, each with its key.
pub open spec fn lines_of(raw: Seq<Seq<u8>>, fold: bool) -> Seq<LineView> {
    keyed(decoded_all(raw), fold)
}

proof fn lemma_lines_of_first(raw: Seq<Seq<u8>>, fold: bool)
    requires
        raw.len() > 0,
    ensures
        lines_of(raw, fold) == match decoded(raw[0]) {
            Some(text) => seq![LineView { text, key: fold_key(text, fold) }] + lines_of(
                raw.drop_first(),
                fold,
            ),
            None => lines_of(raw.drop_first(), fold),
        },
{
    assert(raw =~= seq![raw[0]] + raw.drop_first());
    lemma_filter_first(raw[0], raw.drop_first(), |l: Seq<u8>| decoded(l) is Some);
    match decoded(raw[0]) {
        Some(text) => {
            assert(lines_of(raw, fold) =~= seq![LineView { text, key: fold_key(text, fold) }]
                + lines_of(raw.drop_first(), fold));
        },
        None => {},
    }
}

/// Classifies the lines of two sources given as raw lines, each with its
/// line feed if it had one, under one fold policy for both. The lines are fed
/// one by one to a comparator, which skips those that do not decode.
pub fn classify_raw(first: &Vec<Vec<u8>>, second: &Vec<Vec<u8>>, fold: bool) -> (r: Vec<Record>)
    ensures
        r.deep_view() == entries(
            merge(lines_of(first.deep_view(), fold), lines_of(second.deep_view(), fold)),
        ),
{
    let ghost a = first.deep_view();
    let ghost b = second.deep_view();
    let mut comparator = Comparator::new(fold);
    let mut out: Vec<Record> = Vec::new();
    let mut i: usize = 0;
    let mut j: usize = 0;
    assert(a.skip(0) =~= a && b.skip(0) =~= b);
    loop
        invariant
            a == first.deep_view(),
            b == second.deep_view(),
            comparator.policy() == fold,
            i <= first.len(),
            j <= second.len(),
            comparator@.first is Exhausted ==> i == first.len(),
            comparator@.second is Exhausted ==> j == second.len(),
            out.deep_view() + entries(
                merge(
                    pending(comparator@.first, lines_of(a.skip(i as int), fold)),
                    pending(comparator@.second, lines_of(b.skip(j as int), fold)),
                ),
            ) == entries(merge(lines_of(a, fold), lines_of(b, fold))),
        decreases
            distance(comparator@.first, (first.len() - i) as nat) + distance(
                comparator@.second,
                (second.len() - j) as nat,
            ),
    {
        let ghost before = comparator@;
        let ghost pa = pending(before.first, lines_of(a.skip(i as int), fold));
        let ghost pb = pending(before.second, lines_of(b.skip(j as int), fold));
        match comparator.advance() {
            Action::PullFirst => {
                if i < first.len() {
                    proof {
                        lemma_lines_of_first(a.skip(i as int), fold);
                        assert(a.skip(i as int).drop_first() =~= a.skip(i + 1));
                        assert(a.skip(i as int)[0] == first[i as int]@);
                    }
                    comparator.feed_first(Some(first[i].clone()));
                    i += 1;
                } else {
                    comparator.feed_first(None);
                }
                assert(pending(comparator@.first, lines_of(a.skip(i as int), fold)) =~= pa);
            },
            Action::PullSecond => {
                if j < second.len() {
                    proof {
                        lemma_lines_of_first(b.skip(j as int), fold);
                        assert(b.skip(j as int).drop_first() =~= b.skip(j + 1));
                        assert(b.skip(j as int)[0] == second[j as int]@);
                    }
                    comparator.feed_second(Some(second[j].clone()));
                    j += 1;
                } else {
                    comparator.feed_second(None);
                }
                assert(pending(comparator@.second, lines_of(b.skip(j as int), fold)) =~= pb);
            },
            Action::Emit(record) => {
                out.push(record);
                assert(before.first is Holding ==> pa.drop_first() =~= lines_of(
                    a.skip(i as int),
                    fold,
                ));
                assert(before.second is Holding ==> pb.drop_first() =~= lines_of(
                    b.skip(j as int),
                    fold,
                ));
            },
            Action::Finished => {
                return out;
            },
        }
    }
}

} // verus!
