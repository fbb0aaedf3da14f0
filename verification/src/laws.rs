//! What holds of the classification, whatever the lines are.

use crate::classify::keyed;
use crate::format::{rendered_all, repeated, shown, Columns};
use crate::line::{fold_key, LineView};
use crate::merge::{entries, head, merge, next_column, Classified};
use crate::order::{
    key_lt, lemma_key_lt_irreflexive, lemma_key_lt_total, lemma_key_lt_transitive,
    lemma_rank_mirror, rank, Rank,
};
use crate::record::{Column, Entry};
use crate::sequences::{lemma_filter_first, lemma_filter_same, lemma_filter_twice};
use vstd::prelude::*;

verus! {

/// The keys that occur in a sequence of lines.
pub open spec fn keys(lines: Seq<LineView>) -> Set<Seq<char>> {
    Set::new(|k: Seq<char>| exists|i: int| 0 <= i < lines.len() && (#[trigger] lines[i]).key == k)
}

/// The keys of the lines that a classification puts in the given column.
pub open spec fn column_keys(cs: Seq<Classified>, column: Column) -> Set<Seq<char>> {
    Set::new(
        |k: Seq<char>|
            exists|i: int|
                0 <= i < cs.len() && (#[trigger] cs[i]).column == column && cs[i].line.key == k,
    )
}

/// Whether the lines stand in strictly rising order of their keys, so that
/// no key occurs twice.
pub open spec fn strictly_sorted(lines: Seq<LineView>) -> bool {
    forall|i: int, j: int|
        0 <= i < j < lines.len() ==> key_lt((#[trigger] lines[i]).key, (#[trigger] lines[j]).key)
}

/// Whether a key comes before every key of the lines.
pub open spec fn below_all(key: Seq<char>, lines: Seq<LineView>) -> bool {
    forall|i: int| 0 <= i < lines.len() ==> key_lt(key, (#[trigger] lines[i]).key)
}

proof fn lemma_keys_first(lines: Seq<LineView>)
    requires
        lines.len() > 0,
    ensures
        keys(lines) == keys(lines.drop_first()).insert(lines[0].key),
{
    let rest = lines.drop_first();
    assert forall|k: Seq<char>| keys(lines).contains(k) implies keys(rest).insert(
        lines[0].key,
    ).contains(k) by {
        let i = choose|i: int| 0 <= i < lines.len() && (#[trigger] lines[i]).key == k;
        if i > 0 {
            assert(rest[i - 1].key == k);
        }
    }
    assert forall|k: Seq<char>| keys(rest).insert(lines[0].key).contains(k) implies keys(
        lines,
    ).contains(k) by {
        if k == lines[0].key {
            assert(lines[0].key == k);
        } else {
            let i = choose|i: int| 0 <= i < rest.len() && (#[trigger] rest[i]).key == k;
            assert(lines[i + 1].key == k);
        }
    }
    assert(keys(lines) =~= keys(rest).insert(lines[0].key));
}

proof fn lemma_column_keys_first(c: Classified, rest: Seq<Classified>, column: Column)
    ensures
        column_keys(seq![c] + rest, column) == if c.column == column {
            column_keys(rest, column).insert(c.line.key)
        } else {
            column_keys(rest, column)
        },
{
    let cs = seq![c] + rest;
    let target = if c.column == column {
        column_keys(rest, column).insert(c.line.key)
    } else {
        column_keys(rest, column)
    };
    assert forall|k: Seq<char>| column_keys(cs, column).contains(k) implies target.contains(k) by {
        let i = choose|i: int|
            0 <= i < cs.len() && (#[trigger] cs[i]).column == column && cs[i].line.key == k;
        if i > 0 {
            assert(rest[i - 1] == cs[i]);
        }
    }
    assert forall|k: Seq<char>| target.contains(k) implies column_keys(cs, column).contains(k) by {
        if c.column == column && k == c.line.key {
            assert(cs[0] == c);
        } else {
            let i = choose|i: int|
                0 <= i < rest.len() && (#[trigger] rest[i]).column == column && rest[i].line.key
                    == k;
            assert(cs[i + 1] == rest[i]);
        }
    }
    assert(column_keys(cs, column) =~= target);
}

proof fn lemma_sorted_rest(lines: Seq<LineView>)
    requires
        strictly_sorted(lines),
        lines.len() > 0,
    ensures
        strictly_sorted(lines.drop_first()),
        below_all(lines[0].key, lines.drop_first()),
        !keys(lines.drop_first()).contains(lines[0].key),
{
    let rest = lines.drop_first();
    assert forall|i: int, j: int| 0 <= i < j < rest.len() implies key_lt(
        (#[trigger] rest[i]).key,
        (#[trigger] rest[j]).key,
    ) by {
        assert(rest[i] == lines[i + 1] && rest[j] == lines[j + 1]);
    }
    assert forall|i: int| 0 <= i < rest.len() implies key_lt(
        lines[0].key,
        (#[trigger] rest[i]).key,
    ) by {
        assert(rest[i] == lines[i + 1]);
    }
    lemma_below_all_excludes(lines[0].key, rest);
}

proof fn lemma_below_all_excludes(key: Seq<char>, lines: Seq<LineView>)
    requires
        below_all(key, lines),
    ensures
        !keys(lines).contains(key),
{
    lemma_key_lt_irreflexive(key);
}

proof fn lemma_below_head_below_all(key: Seq<char>, lines: Seq<LineView>)
    requires
        strictly_sorted(lines),
        lines.len() > 0 ==> key_lt(key, lines[0].key),
    ensures
        below_all(key, lines),
{
    assert forall|i: int| 0 <= i < lines.len() implies key_lt(key, (#[trigger] lines[i]).key) by {
        if i > 0 {
            lemma_key_lt_transitive(key, lines[0].key, lines[i].key);
        }
    }
}

/// For sources in strictly rising order, the classification splits the keys
/// three ways: the first column has the keys of the first source that the
/// second lacks, the second column those of the second that the first lacks,
/// and the third column the keys that both have.
pub proof fn law_partition(a: Seq<LineView>, b: Seq<LineView>)
    requires
        strictly_sorted(a),
        strictly_sorted(b),
    ensures
        column_keys(merge(a, b), Column::First) == keys(a).difference(keys(b)),
        column_keys(merge(a, b), Column::Second) == keys(b).difference(keys(a)),
        column_keys(merge(a, b), Column::Both) == keys(a).intersect(keys(b)),
    decreases a.len() + b.len(),
{
    let m = merge(a, b);
    match next_column(head(a), head(b)) {
        None => {},
        Some(Column::First) => {
            let c = Classified { column: Column::First, line: a[0] };
            let rest = merge(a.drop_first(), b);
            lemma_sorted_rest(a);
            law_partition(a.drop_first(), b);
            lemma_keys_first(a);
            lemma_column_keys_first(c, rest, Column::First);
            lemma_column_keys_first(c, rest, Column::Second);
            lemma_column_keys_first(c, rest, Column::Both);
            lemma_below_head_below_all(a[0].key, b);
            lemma_below_all_excludes(a[0].key, b);
        },
        Some(Column::Second) => {
            let c = Classified { column: Column::Second, line: b[0] };
            let rest = merge(a, b.drop_first());
            lemma_sorted_rest(b);
            law_partition(a, b.drop_first());
            lemma_keys_first(b);
            lemma_column_keys_first(c, rest, Column::First);
            lemma_column_keys_first(c, rest, Column::Second);
            lemma_column_keys_first(c, rest, Column::Both);
            if a.len() > 0 {
                lemma_key_lt_total(a[0].key, b[0].key);
            }
            lemma_below_head_below_all(b[0].key, a);
            lemma_below_all_excludes(b[0].key, a);
        },
        Some(Column::Both) => {
            let c = Classified { column: Column::Both, line: a[0] };
            let rest = merge(a.drop_first(), b.drop_first());
            lemma_sorted_rest(a);
            lemma_sorted_rest(b);
            law_partition(a.drop_first(), b.drop_first());
            lemma_keys_first(a);
            lemma_keys_first(b);
            lemma_column_keys_first(c, rest, Column::First);
            lemma_column_keys_first(c, rest, Column::Second);
            lemma_column_keys_first(c, rest, Column::Both);
        },
    }
    assert(column_keys(m, Column::First) =~= keys(a).difference(keys(b)));
    assert(column_keys(m, Column::Second) =~= keys(b).difference(keys(a)));
    assert(column_keys(m, Column::Both) =~= keys(a).intersect(keys(b)));
}

/// For sources in strictly rising order, the keys of the first and third
/// columns together are the keys of the first source, those of the second and
/// third columns together are the keys of the second source, and the keys of
/// the third column are the keys the two sources share.
pub proof fn law_key_sets(a: Seq<LineView>, b: Seq<LineView>)
    requires
        strictly_sorted(a),
        strictly_sorted(b),
    ensures
        column_keys(merge(a, b), Column::First).union(column_keys(merge(a, b), Column::Both))
            == keys(a),
        column_keys(merge(a, b), Column::Second).union(column_keys(merge(a, b), Column::Both))
            == keys(b),
        column_keys(merge(a, b), Column::Both) == keys(a).intersect(keys(b)),
{
    let m = merge(a, b);
    law_partition(a, b);
    assert(column_keys(m, Column::First).union(column_keys(m, Column::Both)) =~= keys(a));
    assert(column_keys(m, Column::Second).union(column_keys(m, Column::Both)) =~= keys(b));
}

/// Whether the classified lines stand in strictly rising order of their keys.
pub open spec fn rising(cs: Seq<Classified>) -> bool {
    forall|i: int, j: int|
        0 <= i < j < cs.len() ==> key_lt((#[trigger] cs[i]).line.key, (#[trigger] cs[j]).line.key)
}

proof fn lemma_merge_keys(a: Seq<LineView>, b: Seq<LineView>)
    ensures
        forall|i: int|
            0 <= i < merge(a, b).len() ==> keys(a).contains((#[trigger] merge(a, b)[i]).line.key)
                || keys(b).contains(merge(a, b)[i].line.key),
    decreases a.len() + b.len(),
{
    let m = merge(a, b);
    match next_column(head(a), head(b)) {
        None => {},
        Some(Column::First) => {
            let rest = merge(a.drop_first(), b);
            lemma_merge_keys(a.drop_first(), b);
            lemma_keys_first(a);
            assert forall|i: int| 0 <= i < m.len() implies keys(a).contains(
                (#[trigger] m[i]).line.key,
            ) || keys(b).contains(m[i].line.key) by {
                if i > 0 {
                    assert(m[i] == rest[i - 1]);
                }
            }
        },
        Some(Column::Second) => {
            let rest = merge(a, b.drop_first());
            lemma_merge_keys(a, b.drop_first());
            lemma_keys_first(b);
            assert forall|i: int| 0 <= i < m.len() implies keys(a).contains(
                (#[trigger] m[i]).line.key,
            ) || keys(b).contains(m[i].line.key) by {
                if i > 0 {
                    assert(m[i] == rest[i - 1]);
                }
            }
        },
        Some(Column::Both) => {
            let rest = merge(a.drop_first(), b.drop_first());
            lemma_merge_keys(a.drop_first(), b.drop_first());
            lemma_keys_first(a);
            lemma_keys_first(b);
            assert forall|i: int| 0 <= i < m.len() implies keys(a).contains(
                (#[trigger] m[i]).line.key,
            ) || keys(b).contains(m[i].line.key) by {
                if i > 0 {
                    assert(m[i] == rest[i - 1]);
                }
            }
        },
    }
}

proof fn lemma_below_all_member(key: Seq<char>, lines: Seq<LineView>, k: Seq<char>)
    requires
        below_all(key, lines),
        keys(lines).contains(k),
    ensures
        key_lt(key, k),
{
    let i = choose|i: int| 0 <= i < lines.len() && (#[trigger] lines[i]).key == k;
    assert(key_lt(key, lines[i].key));
}

proof fn lemma_rising_first(c: Classified, rest: Seq<Classified>)
    requires
        rising(rest),
        forall|i: int| 0 <= i < rest.len() ==> key_lt(c.line.key, (#[trigger] rest[i]).line.key),
    ensures
        rising(seq![c] + rest),
{
    let cs = seq![c] + rest;
    assert forall|i: int, j: int| 0 <= i < j < cs.len() implies key_lt(
        (#[trigger] cs[i]).line.key,
        (#[trigger] cs[j]).line.key,
    ) by {
        assert(cs[j] == rest[j - 1]);
        if i > 0 {
            assert(cs[i] == rest[i - 1]);
        }
    }
}

proof fn lemma_rest_above(key: Seq<char>, a: Seq<LineView>, b: Seq<LineView>)
    requires
        below_all(key, a),
        below_all(key, b),
    ensures
        forall|i: int|
            0 <= i < merge(a, b).len() ==> key_lt(key, (#[trigger] merge(a, b)[i]).line.key),
{
    let m = merge(a, b);
    lemma_merge_keys(a, b);
    assert forall|i: int| 0 <= i < m.len() implies key_lt(key, (#[trigger] m[i]).line.key) by {
        if keys(a).contains(m[i].line.key) {
            lemma_below_all_member(key, a, m[i].line.key);
        } else {
            lemma_below_all_member(key, b, m[i].line.key);
        }
    }
}

/// For sources in strictly rising order, the records come out in strictly
/// rising order of their keys.
pub proof fn law_output_rising(a: Seq<LineView>, b: Seq<LineView>)
    requires
        strictly_sorted(a),
        strictly_sorted(b),
    ensures
        rising(merge(a, b)),
    decreases a.len() + b.len(),
{
    match next_column(head(a), head(b)) {
        None => {},
        Some(Column::First) => {
            let c = Classified { column: Column::First, line: a[0] };
            lemma_sorted_rest(a);
            law_output_rising(a.drop_first(), b);
            lemma_below_head_below_all(a[0].key, b);
            lemma_rest_above(a[0].key, a.drop_first(), b);
            lemma_rising_first(c, merge(a.drop_first(), b));
        },
        Some(Column::Second) => {
            let c = Classified { column: Column::Second, line: b[0] };
            lemma_sorted_rest(b);
            law_output_rising(a, b.drop_first());
            if a.len() > 0 {
                lemma_key_lt_total(a[0].key, b[0].key);
            }
            lemma_below_head_below_all(b[0].key, a);
            lemma_rest_above(b[0].key, a, b.drop_first());
            lemma_rising_first(c, merge(a, b.drop_first()));
        },
        Some(Column::Both) => {
            let c = Classified { column: Column::Both, line: a[0] };
            lemma_sorted_rest(a);
            lemma_sorted_rest(b);
            law_output_rising(a.drop_first(), b.drop_first());
            lemma_rest_above(a[0].key, a.drop_first(), b.drop_first());
            lemma_rising_first(c, merge(a.drop_first(), b.drop_first()));
        },
    }
}

/// Whether `w` is `m` with the two sources in each other's role: record for
/// record the column is mirrored and the key is the same, and a line found in
/// one source only is the same line.
pub open spec fn mirrored(m: Seq<Classified>, w: Seq<Classified>) -> bool {
    &&& w.len() == m.len()
    &&& forall|i: int|
        0 <= i < m.len() ==> {
            &&& (#[trigger] w[i]).column == m[i].column.mirror()
            &&& w[i].line.key == m[i].line.key
            &&& m[i].column != Column::Both ==> w[i].line == m[i].line
        }
}

proof fn lemma_mirrored_first(c: Classified, d: Classified, m: Seq<Classified>, w: Seq<Classified>)
    requires
        mirrored(m, w),
        d.column == c.column.mirror(),
        d.line.key == c.line.key,
        c.column != Column::Both ==> d.line == c.line,
    ensures
        mirrored(seq![c] + m, seq![d] + w),
{
    let cm = seq![c] + m;
    let dw = seq![d] + w;
    assert forall|i: int| 0 <= i < cm.len() implies {
        &&& (#[trigger] dw[i]).column == cm[i].column.mirror()
        &&& dw[i].line.key == cm[i].line.key
        &&& cm[i].column != Column::Both ==> dw[i].line == cm[i].line
    } by {
        if i > 0 {
            assert(dw[i] == w[i - 1]);
            assert(cm[i] == m[i - 1]);
        }
    }
}

/// Trading the roles of the two sources trades the first and second columns
/// and leaves the third with the same keys, now in the text of the other
/// source.
pub proof fn law_swap(a: Seq<LineView>, b: Seq<LineView>)
    ensures
        mirrored(merge(a, b), merge(b, a)),
    decreases a.len() + b.len(),
{
    if a.len() > 0 && b.len() > 0 {
        lemma_rank_mirror(a[0].key, b[0].key);
    }
    match next_column(head(a), head(b)) {
        None => {},
        Some(Column::First) => {
            let c = Classified { column: Column::First, line: a[0] };
            let d = Classified { column: Column::Second, line: a[0] };
            law_swap(a.drop_first(), b);
            lemma_mirrored_first(c, d, merge(a.drop_first(), b), merge(b, a.drop_first()));
        },
        Some(Column::Second) => {
            let c = Classified { column: Column::Second, line: b[0] };
            let d = Classified { column: Column::First, line: b[0] };
            law_swap(a, b.drop_first());
            lemma_mirrored_first(c, d, merge(a, b.drop_first()), merge(b.drop_first(), a));
        },
        Some(Column::Both) => {
            let c = Classified { column: Column::Both, line: a[0] };
            let d = Classified { column: Column::Both, line: b[0] };
            law_swap(a.drop_first(), b.drop_first());
            lemma_mirrored_first(
                c,
                d,
                merge(a.drop_first(), b.drop_first()),
                merge(b.drop_first(), a.drop_first()),
            );
        },
    }
}

/// The lines that a classification took from the first source, in its order:
/// those of the first and third columns.
pub open spec fn from_first(cs: Seq<Classified>) -> Seq<LineView> {
    cs.filter(|c: Classified| c.column != Column::Second).map_values(|c: Classified| c.line)
}

/// The keys that a classification matched in the second source, in its
/// order: those of the second and third columns.
pub open spec fn keys_from_second(cs: Seq<Classified>) -> Seq<Seq<char>> {
    cs.filter(|c: Classified| c.column != Column::First).map_values(|c: Classified| c.line.key)
}

/// The keys of the lines, in their order.
pub open spec fn key_list(lines: Seq<LineView>) -> Seq<Seq<char>> {
    lines.map_values(|l: LineView| l.key)
}

proof fn lemma_taken_none()
    ensures
        from_first(Seq::empty()) == Seq::<LineView>::empty(),
        keys_from_second(Seq::empty()) == Seq::<Seq<char>>::empty(),
{
    reveal(Seq::filter);
}

proof fn lemma_taken_first(c: Classified, rest: Seq<Classified>)
    ensures
        from_first(seq![c] + rest) == if c.column != Column::Second {
            seq![c.line] + from_first(rest)
        } else {
            from_first(rest)
        },
        keys_from_second(seq![c] + rest) == if c.column != Column::First {
            seq![c.line.key] + keys_from_second(rest)
        } else {
            keys_from_second(rest)
        },
{
    lemma_filter_first(c, rest, |c: Classified| c.column != Column::Second);
    lemma_filter_first(c, rest, |c: Classified| c.column != Column::First);
}

/// Whatever the lines are, none is lost and none is made up: the first and
/// third columns hold the lines of the first source, each once and in its
/// order, and the keys of the second and third columns are the keys of the
/// second source, each once and in its order.
pub proof fn law_nothing_lost(a: Seq<LineView>, b: Seq<LineView>)
    ensures
        from_first(merge(a, b)) == a,
        keys_from_second(merge(a, b)) == key_list(b),
    decreases a.len() + b.len(),
{
    if a.len() > 0 {
        assert(seq![a[0]] + a.drop_first() =~= a);
    }
    if b.len() > 0 {
        assert(seq![b[0].key] + key_list(b.drop_first()) =~= key_list(b));
    }
    match next_column(head(a), head(b)) {
        None => {
            lemma_taken_none();
            assert(a =~= Seq::empty());
            assert(key_list(b) =~= Seq::empty());
        },
        Some(Column::First) => {
            let c = Classified { column: Column::First, line: a[0] };
            law_nothing_lost(a.drop_first(), b);
            lemma_taken_first(c, merge(a.drop_first(), b));
        },
        Some(Column::Second) => {
            let c = Classified { column: Column::Second, line: b[0] };
            law_nothing_lost(a, b.drop_first());
            lemma_taken_first(c, merge(a, b.drop_first()));
        },
        Some(Column::Both) => {
            let c = Classified { column: Column::Both, line: a[0] };
            law_nothing_lost(a.drop_first(), b.drop_first());
            lemma_taken_first(c, merge(a.drop_first(), b.drop_first()));
        },
    }
}

/// Two lines, one from each source, under one fold policy: with equal keys
/// they make a single record in the third column, in the text of the first
/// source; with different keys they make one record in the first column and
/// one in the second, the smaller key first.
pub proof fn law_fold(s: Seq<char>, t: Seq<char>, fold: bool)
    ensures
        ({
            let out = entries(merge(keyed(seq![s], fold), keyed(seq![t], fold)));
            let first = Entry { column: Column::First, text: s };
            let second = Entry { column: Column::Second, text: t };
            let both = Entry { column: Column::Both, text: s };
            match rank(fold_key(s, fold), fold_key(t, fold)) {
                Rank::Same => out == seq![both],
                Rank::Before => out == seq![first, second],
                Rank::After => out == seq![second, first],
            }
        }),
{
    let a = keyed(seq![s], fold);
    let b = keyed(seq![t], fold);
    let none = Seq::<LineView>::empty();
    assert(a.drop_first() =~= none);
    assert(b.drop_first() =~= none);
    assert(merge(none, none) =~= Seq::empty());
    assert(merge(a, none) =~= seq![Classified { column: Column::First, line: a[0] }]);
    assert(merge(none, b) =~= seq![Classified { column: Column::Second, line: b[0] }]);
}

/// Suppressing a column takes the records of that column out of the output
/// and nothing else: the records that are still shown are those that were
/// shown before, without the ones of that column, in the same order and with
/// the same text. What may change is the offset of a line, which loses one
/// delimiter where the suppressed column was shown and stands before its own.
pub proof fn law_suppress(
    entries: Seq<Entry>,
    columns: Columns,
    column: Column,
    delimiter: Seq<char>,
)
    ensures
        shown(entries, columns.hiding(column)) == shown(entries, columns).filter(
            |e: Entry| e.column != column,
        ),
        rendered_all(entries, columns.hiding(column), delimiter) == shown(
            entries,
            columns.hiding(column),
        ).map_values(
            |e: Entry| repeated(delimiter, columns.hiding(column).indent(e.column)) + e.text,
        ),
        forall|other: Column|
            other != column ==> #[trigger] columns.hiding(column).indent(other) == if columns.shows(
                column,
            ) && column.index() < other.index() {
                columns.indent(other) - 1
            } else {
                columns.indent(other) as int
            },
{
    let hidden = columns.hiding(column);
    let was = |e: Entry| columns.shows(e.column);
    let other = |e: Entry| e.column != column;
    let is = |e: Entry| hidden.shows(e.column);
    lemma_filter_twice(entries, was, other);
    lemma_filter_same(entries, is, |e: Entry| was(e) && other(e));
}

} // verus!
