//! Columns and classified records.

use vstd::prelude::*;

verus! {

/// One of the three fixed output categories.
#[derive(Clone, Copy, Debug, PartialEq, Eq, Structural)]
pub enum Column {
    /// Lines found only in the first source.
    First,
    /// Lines found only in the second source.
    Second,
    /// Lines found in both sources.
    Both,
}

impl Column {
    /// The column's number, counted from one; it does not depend on which
    /// columns are shown.
    pub open spec fn index(self) -> int {
        match self {
            Column::First => 1,
            Column::Second => 2,
            Column::Both => 3,
        }
    }

    /// The column that takes this one's place when the two sources trade
    /// roles.
    pub open spec fn mirror(self) -> Column {
        match self {
            Column::First => Column::Second,
            Column::Second => Column::First,
            Column::Both => Column::Both,
        }
    }

    /// The column's number, counted from one.
    pub fn number(self) -> (r: u8)
        ensures
            r == self.index(),
    {
        match self {
            Column::First => 1,
            Column::Second => 2,
            Column::Both => 3,
        }
    }
}

/// What a record is to a contract: its column and its text.
pub struct Entry {
    pub column: Column,
    pub text: Seq<char>,
}

/// A classified line. The text is the line as it was read, never its key.
#[derive(Debug, PartialEq, Eq)]
pub enum Record {
    OnlyInFirst(String),
    OnlyInSecond(String),
    InBoth(String),
}

impl View for Record {
    type V = Entry;

    open spec fn view(&self) -> Entry {
        match self {
            Record::OnlyInFirst(t) => Entry { column: Column::First, text: t@ },
            Record::OnlyInSecond(t) => Entry { column: Column::Second, text: t@ },
            Record::InBoth(t) => Entry { column: Column::Both, text: t@ },
        }
    }
}

impl DeepView for Record {
    type V = Entry;

    open spec fn deep_view(&self) -> Entry {
        self@
    }
}

impl Clone for Record {
    fn clone(&self) -> (r: Record)
        ensures
            r@ == self@,
    {
        match self {
            Record::OnlyInFirst(t) => Record::OnlyInFirst(t.clone()),
            Record::OnlyInSecond(t) => Record::OnlyInSecond(t.clone()),
            Record::InBoth(t) => Record::InBoth(t.clone()),
        }
    }
}

impl Record {
    /// The record of the given column with the given text.
    pub fn new(column: Column, text: String) -> (r: Record)
        ensures
            r@ == (Entry { column, text: text@ }),
    {
        match column {
            Column::First => Record::OnlyInFirst(text),
            Column::Second => Record::OnlyInSecond(text),
            Column::Both => Record::InBoth(text),
        }
    }

    /// The column this record belongs to.
    pub fn column(&self) -> (r: Column)
        ensures
            r == self@.column,
    {
        match self {
            Record::OnlyInFirst(_) => Column::First,
            Record::OnlyInSecond(_) => Column::Second,
            Record::InBoth(_) => Column::Both,
        }
    }

    /// The text of the classified line.
    pub fn text(&self) -> (r: &str)
        ensures
            r@ == self@.text,
    {
        match self {
            Record::OnlyInFirst(t) => t.as_str(),
            Record::OnlyInSecond(t) => t.as_str(),
            Record::InBoth(t) => t.as_str(),
        }
    }
}

} // verus!
