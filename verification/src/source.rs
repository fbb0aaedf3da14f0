//! Where the lines come from: how a source is designated, and how the raw
//! bytes of one line become text.

use crate::line::viewed;
use crate::order::{compare_keys, Rank};
use vstd::prelude::*;
use vstd::string::*;
use vstd::utf8::*;

verus! {

/// Whether a designator is the one that stands for standard input: a single
/// hyphen.
pub open spec fn is_stdin(designator: Seq<char>) -> bool {
    designator == seq!['-']
}

/// What a source is to a contract.
pub enum SourceView {
    Stdin,
    Path(Seq<char>),
}

/// The source that a designator names.
pub open spec fn source_of(designator: Seq<char>) -> SourceView {
    if is_stdin(designator) {
        SourceView::Stdin
    } else {
        SourceView::Path(designator)
    }
}

/// One of the two inputs of a run.
#[derive(Debug, PartialEq, Eq)]
pub enum Source {
    /// The standard input of the process.
    Stdin,
    /// The file at this path.
    Path(String),
}

impl View for Source {
    type V = SourceView;

    open spec fn view(&self) -> SourceView {
        match self {
            Source::Stdin => SourceView::Stdin,
            Source::Path(p) => SourceView::Path(p@),
        }
    }
}

impl Source {
    /// Reads a designator: a hyphen stands for standard input, anything else
    /// is a path.
    pub fn parse(designator: &str) -> (r: Source)
        ensures
            r@ == source_of(designator@),
    {
        proof {
            reveal_strlit("-");
            assert("-"@ =~= seq!['-']);
        }
        match compare_keys(designator, "-") {
            Rank::Same => Source::Stdin,
            _ => Source::Path(designator.to_owned()),
        }
    }

    /// Whether this source is standard input.
    pub fn is_stdin(&self) -> (r: bool)
        ensures
            r == (self@ is Stdin),
    {
        match self {
            Source::Stdin => true,
            Source::Path(_) => false,
        }
    }
}

/// Why a run cannot start.
#[derive(Clone, Copy, Debug, PartialEq, Eq, Structural)]
pub enum ConfigError {
    /// Both inputs were designated as standard input.
    BothStdin,
}

impl ConfigError {
    /// The message that tells the user what is wrong.
    pub fn message(&self) -> (r: String)
        ensures
            r@ == "Both input files cannot be STDIN (\"-\")"@,
    {
        match self {
            ConfigError::BothStdin => "Both input files cannot be STDIN (\"-\")".to_owned(),
        }
    }
}

/// Settles the two sources of a run before anything is read. At most one of
/// them may be standard input.
pub fn plan(file1: &str, file2: &str) -> (r: Result<(Source, Source), ConfigError>)
    ensures
        r is Err <==> is_stdin(file1@) && is_stdin(file2@),
        r matches Ok(pair) ==> pair.0@ == source_of(file1@) && pair.1@ == source_of(file2@),
        r matches Err(e) ==> e == ConfigError::BothStdin,
{
    let first = Source::parse(file1);
    let second = Source::parse(file2);
    if first.is_stdin() && second.is_stdin() {
        Err(ConfigError::BothStdin)
    } else {
        Ok((first, second))
    }
}

/// A raw line without its terminator: a final line feed is dropped, and with
/// it a carriage return that stands right before it.
pub open spec fn trimmed(raw: Seq<u8>) -> Seq<u8> {
    if raw.len() > 0 && raw.last() == 10u8 {
        let body = raw.drop_last();
        if body.len() > 0 && body.last() == 13u8 {
            body.drop_last()
        } else {
            body
        }
    } else {
        raw
    }
}

/// The text of a raw line: its bytes without the terminator, read as UTF-8.
/// A line that is not valid UTF-8 has no text.
pub open spec fn decoded(raw: Seq<u8>) -> Option<Seq<char>> {
    if valid_utf8(trimmed(raw)) {
        Some(decode_utf8(trimmed(raw)))
    } else {
        None
    }
}

/// The texts of the raw lines that decode, in their order: a line that does
/// not decode is left out.
pub open spec fn decoded_all(raw: Seq<Seq<u8>>) -> Seq<Seq<char>> {
    raw.filter(|l: Seq<u8>| decoded(l) is Some).map_values(|l: Seq<u8>| decoded(l).unwrap())
}

/// Calls `String::from_utf8`. Trusted: the call succeeds exactly on valid
/// UTF-8, and the string it gives then holds the characters that the bytes
/// encode.
#[verifier::external_body]
fn text_from_utf8(bytes: Vec<u8>) -> (r: Option<String>)
    ensures
        r is Some <==> valid_utf8(bytes@),
        r matches Some(s) ==> s@ == decode_utf8(bytes@),
{
    match String::from_utf8(bytes) {
        Ok(s) => Some(s),
        Err(_) => None,
    }
}

/// Turns the bytes of one line, as they were read up to and including the
/// line feed, into its text. A line that does not decode is to be skipped:
/// the answer for it is `None`.
pub fn decode_line(raw: Vec<u8>) -> (r: Option<String>)
    ensures
        viewed(r) == decoded(raw@),
{
    let mut bytes = raw;
    let n = bytes.len();
    if n > 0 && bytes[n - 1] == 10u8 {
        bytes.pop();
        if n > 1 && bytes[n - 2] == 13u8 {
            bytes.pop();
        }
    }
    text_from_utf8(bytes)
}

} // verus!
