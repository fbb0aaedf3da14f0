//! The merge that classifies the lines of two ordered sources.

use crate::line::{viewed, Line, LineView};
use crate::order::{compare_keys, rank, Rank};
use crate::record::{Column, Entry};
use vstd::prelude::*;

verus! {

/// A line together with the column the merge assigned it.
pub struct Classified {
    pub column: Column,
    pub line: LineView,
}

impl Classified {
    /// The record that reports this classification.
    pub open spec fn entry(self) -> Entry {
        Entry { column: self.column, text: self.line.text }
    }
}

/// The first line of a sequence, if it has one.
pub open spec fn head(lines: Seq<LineView>) -> Option<LineView> {
    if lines.len() > 0 {
        Some(lines[0])
    } else {
        None
    }
}

/// The column of the next record, given the current line of each source
/// (`None` for a source that has run out): the line with the smaller key goes
/// first, equal keys go together, and with both sources at their end there is
/// no next record.
pub open spec fn next_column(first: Option<LineView>, second: Option<LineView>) -> Option<Column> {
    match (first, second) {
        (None, None) => None,
        (Some(_), None) => Some(Column::First),
        (None, Some(_)) => Some(Column::Second),
        (Some(x), Some(y)) => Some(
            match rank(x.key, y.key) {
                Rank::Before => Column::First,
                Rank::After => Column::Second,
                Rank::Same => Column::Both,
            },
        ),
    }
}

/// The classification of two line sequences: at each step the next column is
/// decided on the two current lines, a line that is classified leaves its
/// sequence, and a line in both is reported as the first source has it.
pub open spec fn merge(a: Seq<LineView>, b: Seq<LineView>) -> Seq<Classified>
    decreases a.len() + b.len(),
{
    match next_column(head(a), head(b)) {
        None => Seq::empty(),
        Some(Column::First) => seq![Classified { column: Column::First, line: a[0] }] + merge(
            a.drop_first(),
            b,
        ),
        Some(Column::Second) => seq![Classified { column: Column::Second, line: b[0] }] + merge(
            a,
            b.drop_first(),
        ),
        Some(Column::Both) => seq![Classified { column: Column::Both, line: a[0] }] + merge(
            a.drop_first(),
            b.drop_first(),
        ),
    }
}

/// The records that report a classification, in its order.
pub open spec fn entries(cs: Seq<Classified>) -> Seq<Entry> {
    Seq::new(cs.len(), |i: int| cs[i].entry())
}

/// Decides the column of the next record from the current line of each
/// source.
pub fn decide(first: Option<&Line>, second: Option<&Line>) -> (r: Option<Column>)
    ensures
        r == next_column(viewed(first), viewed(second)),
{
    match (first, second) {
        (None, None) => None,
        (Some(_), None) => Some(Column::First),
        (None, Some(_)) => Some(Column::Second),
        (Some(x), Some(y)) => {
            match compare_keys(x.key(), y.key()) {
                Rank::Before => Some(Column::First),
                Rank::After => Some(Column::Second),
                Rank::Same => Some(Column::Both),
            }
        },
    }
}

} // verus!
