//! Rendering of classified records as delimited output lines.

use crate::line::viewed;
use crate::record::{Column, Entry, Record};
use vstd::prelude::*;
use vstd::string::*;

verus! {

/// Which of the three columns are shown.
#[derive(Clone, Copy, Debug, PartialEq, Eq, Structural)]
pub struct Columns {
    pub first: bool,
    pub second: bool,
    pub both: bool,
}

impl Columns {
    /// Whether the column is shown.
    pub open spec fn shows(self, column: Column) -> bool {
        match column {
            Column::First => self.first,
            Column::Second => self.second,
            Column::Both => self.both,
        }
    }

    /// The number of shown columns that stand before the given one.
    pub open spec fn indent(self, column: Column) -> nat {
        match column {
            Column::First => 0,
            Column::Second => if self.first {
                1
            } else {
                0
            },
            Column::Both => if self.first && self.second {
                2
            } else if self.first || self.second {
                1
            } else {
                0
            },
        }
    }

    /// These columns with the given one suppressed.
    pub open spec fn hiding(self, column: Column) -> Columns {
        match column {
            Column::First => Columns { first: false, ..self },
            Column::Second => Columns { second: false, ..self },
            Column::Both => Columns { both: false, ..self },
        }
    }

    /// All three columns shown.
    pub fn all() -> (r: Columns)
        ensures
            r == (Columns { first: true, second: true, both: true }),
    {
        Columns { first: true, second: true, both: true }
    }

    /// These columns with the given one suppressed.
    pub fn without(self, column: Column) -> (r: Columns)
        ensures
            r == self.hiding(column),
    {
        match column {
            Column::First => Columns { first: false, second: self.second, both: self.both },
            Column::Second => Columns { first: self.first, second: false, both: self.both },
            Column::Both => Columns { first: self.first, second: self.second, both: false },
        }
    }

    /// Whether the column is shown.
    pub fn is_shown(&self, column: Column) -> (r: bool)
        ensures
            r == self.shows(column),
    {
        match column {
            Column::First => self.first,
            Column::Second => self.second,
            Column::Both => self.both,
        }
    }

    /// The number of shown columns that stand before the given one.
    pub fn offset(&self, column: Column) -> (r: usize)
        ensures
            r == self.indent(column),
    {
        let mut n: usize = 0;
        match column {
            Column::First => {},
            Column::Second => {
                if self.first {
                    n += 1;
                }
            },
            Column::Both => {
                if self.first {
                    n += 1;
                }
                if self.second {
                    n += 1;
                }
            },
        }
        n
    }
}

/// The text `unit` written `count` times in a row.
pub open spec fn repeated(unit: Seq<char>, count: nat) -> Seq<char>
    decreases count,
{
    if count == 0 {
        Seq::empty()
    } else {
        repeated(unit, (count - 1) as nat) + unit
    }
}

/// The output line of an entry whose column is shown: one delimiter for each
/// shown column before its own, then its text.
pub open spec fn output_line(entry: Entry, columns: Columns, delimiter: Seq<char>) -> Seq<char> {
    repeated(delimiter, columns.indent(entry.column)) + entry.text
}

/// What is printed for an entry: nothing where its column is suppressed, its
/// output line otherwise.
pub open spec fn rendered(entry: Entry, columns: Columns, delimiter: Seq<char>) -> Option<
    Seq<char>,
> {
    if columns.shows(entry.column) {
        Some(output_line(entry, columns, delimiter))
    } else {
        None
    }
}

/// The entries whose column is shown, in their order.
pub open spec fn shown(entries: Seq<Entry>, columns: Columns) -> Seq<Entry> {
    entries.filter(|e: Entry| columns.shows(e.column))
}

/// What is printed for a sequence of entries: the output lines of those whose
/// column is shown, in their order.
pub open spec fn rendered_all(entries: Seq<Entry>, columns: Columns, delimiter: Seq<char>) -> Seq<
    Seq<char>,
> {
    shown(entries, columns).map_values(|e: Entry| output_line(e, columns, delimiter))
}

/// Renders one record, or nothing where its column is suppressed.
pub fn render(record: &Record, columns: &Columns, delimiter: &str) -> (r: Option<String>)
    ensures
        viewed(r) == rendered(record@, *columns, delimiter@),
{
    let column = record.column();
    if !columns.is_shown(column) {
        return None;
    }
    let count = columns.offset(column);
    let mut line = String::new();
    let mut i: usize = 0;
    while i < count
        invariant
            i <= count,
            line@ == repeated(delimiter@, i as nat),
        decreases count - i,
    {
        line.append(delimiter);
        i += 1;
    }
    line.append(record.text());
    Some(line)
}

/// Renders the records in their order, leaving out those whose column is
/// suppressed.
pub fn render_all(records: &Vec<Record>, columns: &Columns, delimiter: &str) -> (r: Vec<String>)
    ensures
        r.deep_view() == rendered_all(records.deep_view(), *columns, delimiter@),
{
    let mut lines: Vec<String> = Vec::new();
    let mut i: usize = 0;
    while i < records.len()
        invariant
            i <= records.len(),
            lines.deep_view() == rendered_all(
                records.deep_view().take(i as int),
                *columns,
                delimiter@,
            ),
        decreases records.len() - i,
    {
        let ghost done = lines.deep_view();
        let ghost prefix = records.deep_view().take(i + 1);
        proof {
            reveal(Seq::filter);
            assert(prefix.drop_last() =~= records.deep_view().take(i as int));
        }
        match render(&records[i], columns, delimiter) {
            Some(line) => {
                let ghost text = line@;
                lines.push(line);
                assert(lines.deep_view() =~= done.push(text));
            },
            None => {},
        }
        i += 1;
    }
    assert(records.deep_view().take(i as int) =~= records.deep_view());
    lines
}

} // verus!
