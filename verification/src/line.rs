//! Lines and the keys by which they are compared.

use vstd::prelude::*;

verus! {

/// The lower-case form that `str::to_lowercase` gives for a text.
pub uninterp spec fn lowercase(text: Seq<char>) -> Seq<char>;

/// The comparison key of a line: the text itself, or its lower-case form when
/// case is to be ignored.
pub open spec fn fold_key(text: Seq<char>, fold: bool) -> Seq<char> {
    if fold {
        lowercase(text)
    } else {
        text
    }
}

/// Calls `str::to_lowercase`. Trusted: the result is the lower-case form of
/// the argument, a function of the text alone.
#[verifier::external_body]
fn lowercased(text: &str) -> (r: String)
    ensures
        r@ == lowercase(text@),
{
    text.to_lowercase()
}

/// What a line is to the comparison: its text and the key that ranks it.
pub struct LineView {
    pub text: Seq<char>,
    pub key: Seq<char>,
}

/// One input record: the text as it was read and, where it differs from the
/// text, the key under which the line is compared.
#[derive(Debug, PartialEq, Eq)]
pub struct Line {
    pub text: String,
    pub folded: Option<String>,
}

impl View for Line {
    type V = LineView;

    open spec fn view(&self) -> LineView {
        LineView {
            text: self.text@,
            key: match self.folded {
                Some(k) => k@,
                None => self.text@,
            },
        }
    }
}

impl DeepView for Line {
    type V = LineView;

    open spec fn deep_view(&self) -> LineView {
        self@
    }
}

/// The view of a value that may be absent.
pub open spec fn viewed<T: View>(value: Option<T>) -> Option<T::V> {
    match value {
        Some(v) => Some(v@),
        None => None,
    }
}

impl Clone for Line {
    fn clone(&self) -> (r: Line)
        ensures
            r@ == self@,
    {
        let folded = match &self.folded {
            Some(k) => Some(k.clone()),
            None => None,
        };
        Line { text: self.text.clone(), folded }
    }
}

impl Line {
    /// A line that is compared by its text as it stands.
    pub fn verbatim(text: String) -> (r: Line)
        ensures
            r@ == (LineView { text: text@, key: text@ }),
    {
        Line { text, folded: None }
    }

    /// A line that is compared by the given key.
    pub fn with_key(text: String, key: String) -> (r: Line)
        ensures
            r@ == (LineView { text: text@, key: key@ }),
    {
        Line { text, folded: Some(key) }
    }

    /// A line under the given fold policy.
    pub fn new(text: String, fold: bool) -> (r: Line)
        ensures
            r@ == (LineView { text: text@, key: fold_key(text@, fold) }),
    {
        if fold {
            let key = lowercased(text.as_str());
            Line { text, folded: Some(key) }
        } else {
            Line { text, folded: None }
        }
    }

    /// The key that ranks this line.
    pub fn key(&self) -> (r: &str)
        ensures
            r@ == self@.key,
    {
        match &self.folded {
            Some(k) => k.as_str(),
            None => self.text.as_str(),
        }
    }

    /// The text of this line, as it was read.
    pub fn text(&self) -> (r: &str)
        ensures
            r@ == self@.text,
    {
        self.text.as_str()
    }

    /// Gives up the line for its text.
    pub fn into_text(self) -> (r: String)
        ensures
            r@ == self@.text,
    {
        self.text
    }
}

} // verus!
