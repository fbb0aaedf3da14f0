//! The settings of a run, and the run itself on sources that are at hand.

use crate::classify::{classify_texts, keyed};
use crate::format::{render_all, rendered_all, Columns};
use crate::merge::{entries, merge};
use vstd::prelude::*;
use vstd::string::*;

verus! {

/// The settings that hold for a whole run.
#[derive(Debug, PartialEq, Eq)]
pub struct Config {
    /// Which columns are printed.
    pub columns: Columns,
    /// Whether lines are compared without regard to case.
    pub insensitive: bool,
    /// The text that offsets a column from those before it.
    pub delimiter: String,
}

/// The output of a run on the given lines: their classification under the
/// fold policy, rendered with the columns and the delimiter.
pub open spec fn output(
    first: Seq<Seq<char>>,
    second: Seq<Seq<char>>,
    columns: Columns,
    insensitive: bool,
    delimiter: Seq<char>,
) -> Seq<Seq<char>> {
    rendered_all(
        entries(merge(keyed(first, insensitive), keyed(second, insensitive))),
        columns,
        delimiter,
    )
}

impl Clone for Config {
    fn clone(&self) -> (r: Config)
        ensures
            r.columns == self.columns,
            r.insensitive == self.insensitive,
            r.delimiter@ == self.delimiter@,
    {
        Config {
            columns: self.columns,
            insensitive: self.insensitive,
            delimiter: self.delimiter.clone(),
        }
    }
}

impl Default for Config {
    /// All columns shown, case respected, a single tab as delimiter.
    fn default() -> (r: Config)
        ensures
            r.columns == (Columns { first: true, second: true, both: true }),
            !r.insensitive,
            r.delimiter@ == seq!['\t'],
    {
        proof {
            reveal_strlit("\t");
        }
        Config { columns: Columns::all(), insensitive: false, delimiter: "\t".to_owned() }
    }
}

impl Config {
    /// The output lines for two sources under these settings.
    pub fn report(&self, first: &Vec<String>, second: &Vec<String>) -> (r: Vec<String>)
        ensures
            r.deep_view() == output(
                first.deep_view(),
                second.deep_view(),
                self.columns,
                self.insensitive,
                self.delimiter@,
            ),
    {
        let records = classify_texts(first, second, self.insensitive);
        render_all(&records, &self.columns, self.delimiter.as_str())
    }
}

} // verus!
