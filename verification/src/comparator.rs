//! The comparison as it is run on two byte streams: raw lines go in, one at
//! a time, and records come out, under one fold policy for both sources.

use crate::line::{fold_key, viewed, Line, LineView};
use crate::source::{decode_line, decoded};
use crate::stream::{advanced, Action, Merger, MergerView, Slot, SlotView};
use vstd::prelude::*;

verus! {

/// The slot that results when a source answers with a raw line, or with the
/// news that it has none. A line that decodes is held under its key. A line
/// that does not decode is skipped: the slot is left empty, so that the next
/// line is asked for.
pub open spec fn fed(raw: Option<Seq<u8>>, fold: bool) -> SlotView {
    match raw {
        None => SlotView::Exhausted,
        Some(bytes) => match decoded(bytes) {
            Some(text) => SlotView::Holding(LineView { text, key: fold_key(text, fold) }),
            None => SlotView::Empty,
        },
    }
}

/// Whether a line held in the slot has the key that the fold policy gives
/// its text.
pub open spec fn follows(slot: SlotView, fold: bool) -> bool {
    slot matches SlotView::Holding(l) ==> l.key == fold_key(l.text, fold)
}

/// A merge in progress together with the fold policy of the run. The policy
/// is fixed when the comparator is made, and every line it holds is keyed
/// under it.
#[derive(Debug)]
pub struct Comparator {
    fold: bool,
    merger: Merger,
}

impl View for Comparator {
    type V = MergerView;

    closed spec fn view(&self) -> MergerView {
        self.merger@
    }
}

impl Comparator {
    /// Both slots follow the one policy.
    #[verifier::type_invariant]
    spec fn uniform(self) -> bool {
        follows(self.merger@.first, self.fold) && follows(self.merger@.second, self.fold)
    }

    /// The fold policy: whether lines are compared without regard to case.
    pub closed spec fn policy(&self) -> bool {
        self.fold
    }

    /// A comparison that has read nothing yet.
    pub fn new(fold: bool) -> (r: Comparator)
        ensures
            r.policy() == fold,
            r@ == (MergerView { first: SlotView::Empty, second: SlotView::Empty }),
    {
        Comparator { fold, merger: Merger::new() }
    }

    /// Whether lines are compared without regard to case.
    pub fn insensitive(&self) -> (r: bool)
        ensures
            r == self.policy(),
    {
        self.fold
    }

    /// Turns what a source answered into a slot.
    fn slot(&self, raw: Option<Vec<u8>>) -> (r: Slot)
        ensures
            r@ == fed(viewed(raw), self.policy()),
    {
        match raw {
            None => Slot::Exhausted,
            Some(bytes) => match decode_line(bytes) {
                Some(text) => Slot::Holding(Line::new(text, self.fold)),
                None => Slot::Empty,
            },
        }
    }

    /// Hands over what the first source answered: the bytes of its next line,
    /// up to and including the line feed, or `None` once it has run out.
    pub fn feed_first(&mut self, raw: Option<Vec<u8>>)
        ensures
            final(self).policy() == old(self).policy(),
            final(self)@.first == fed(viewed(raw), old(self).policy()),
            final(self)@.second == old(self)@.second,
    {
        proof {
            use_type_invariant(&*self);
        }
        let slot = self.slot(raw);
        self.merger.first = slot;
    }

    /// Hands over what the second source answered: the bytes of its next
    /// line, up to and including the line feed, or `None` once it has run
    /// out.
    pub fn feed_second(&mut self, raw: Option<Vec<u8>>)
        ensures
            final(self).policy() == old(self).policy(),
            final(self)@.first == old(self)@.first,
            final(self)@.second == fed(viewed(raw), old(self).policy()),
    {
        proof {
            use_type_invariant(&*self);
        }
        let slot = self.slot(raw);
        self.merger.second = slot;
    }

    /// Makes one move of the merge. The lines it decides on are keyed under
    /// the policy.
    pub fn advance(&mut self) -> (r: Action)
        ensures
            final(self).policy() == old(self).policy(),
            (final(self)@, r@) == advanced(old(self)@),
            follows(old(self)@.first, old(self).policy()),
            follows(old(self)@.second, old(self).policy()),
    {
        proof {
            use_type_invariant(&*self);
        }
        let mut merger = Merger::new();
        core::mem::swap(&mut self.merger, &mut merger);
        let action = merger.advance();
        self.merger = merger;
        action
    }
}

} // verus!
