//! The merge as a machine that is fed one line at a time, so that neither
//! source has to be held in memory.

use crate::line::{viewed, Line, LineView};
use crate::merge::{decide, next_column};
use crate::record::{Column, Entry, Record};
use vstd::prelude::*;

verus! {

/// The one-line buffer the merge keeps for a source.
#[derive(Debug, PartialEq, Eq)]
pub enum Slot {
    /// The next line has not been asked for yet.
    Empty,
    /// The current line of the source.
    Holding(Line),
    /// The source has run out.
    Exhausted,
}

/// What a slot is to a contract.
pub enum SlotView {
    Empty,
    Holding(LineView),
    Exhausted,
}

impl SlotView {
    /// The line in the slot, if it holds one.
    pub open spec fn current(self) -> Option<LineView> {
        match self {
            SlotView::Holding(l) => Some(l),
            _ => None,
        }
    }
}

impl View for Slot {
    type V = SlotView;

    open spec fn view(&self) -> SlotView {
        match self {
            Slot::Empty => SlotView::Empty,
            Slot::Holding(l) => SlotView::Holding(l@),
            Slot::Exhausted => SlotView::Exhausted,
        }
    }
}

/// The slot that results when a source answers a request: its next line, or
/// the news that it has none.
pub open spec fn answered(line: Option<LineView>) -> SlotView {
    match line {
        Some(l) => SlotView::Holding(l),
        None => SlotView::Exhausted,
    }
}

impl Slot {
    /// The slot after the source answered with `line`.
    pub fn answer(line: Option<Line>) -> (r: Slot)
        ensures
            r@ == answered(viewed(line)),
    {
        match line {
            Some(l) => Slot::Holding(l),
            None => Slot::Exhausted,
        }
    }

    /// The line in the slot, if it holds one.
    pub fn current(&self) -> (r: Option<&Line>)
        ensures
            viewed(r) == self@.current(),
    {
        match self {
            Slot::Holding(l) => Some(l),
            _ => None,
        }
    }

    /// Takes the text of the held line and leaves the slot empty.
    fn release(&mut self) -> (r: String)
        requires
            old(self)@ is Holding,
        ensures
            final(self)@ is Empty,
            r@ == old(self)@->Holding_0.text,
    {
        let mut slot = Slot::Empty;
        core::mem::swap(self, &mut slot);
        match slot {
            Slot::Holding(l) => l.into_text(),
            _ => unreached(),
        }
    }
}

/// What the merge asks of its driver next.
#[derive(Debug, PartialEq, Eq)]
pub enum Action {
    /// Feed the next line of the first source.
    PullFirst,
    /// Feed the next line of the second source.
    PullSecond,
    /// Here is the next record.
    Emit(Record),
    /// Both sources have run out: there are no more records.
    Finished,
}

/// What an action is to a contract.
pub enum ActionView {
    PullFirst,
    PullSecond,
    Emit(Entry),
    Finished,
}

impl View for Action {
    type V = ActionView;

    open spec fn view(&self) -> ActionView {
        match self {
            Action::PullFirst => ActionView::PullFirst,
            Action::PullSecond => ActionView::PullSecond,
            Action::Emit(r) => ActionView::Emit(r@),
            Action::Finished => ActionView::Finished,
        }
    }
}

/// The state of a merge in progress: one slot for each source.
#[derive(Debug, PartialEq, Eq)]
pub struct Merger {
    pub first: Slot,
    pub second: Slot,
}

/// What a merger is to a contract.
pub struct MergerView {
    pub first: SlotView,
    pub second: SlotView,
}

impl View for Merger {
    type V = MergerView;

    open spec fn view(&self) -> MergerView {
        MergerView { first: self.first@, second: self.second@ }
    }
}

/// One move of the merge: the state it leaves and what it asks for. An empty
/// slot is asked to be filled, the first before the second. With both slots
/// answered, the next column is decided on the lines they hold; a line that
/// is reported leaves its slot empty, and a line in both is reported as the
/// first source has it.
pub open spec fn advanced(m: MergerView) -> (MergerView, ActionView) {
    if m.first is Empty {
        (m, ActionView::PullFirst)
    } else if m.second is Empty {
        (m, ActionView::PullSecond)
    } else {
        match next_column(m.first.current(), m.second.current()) {
            None => (m, ActionView::Finished),
            Some(Column::First) => (
                MergerView { first: SlotView::Empty, second: m.second },
                ActionView::Emit(Entry { column: Column::First, text: m.first->Holding_0.text }),
            ),
            Some(Column::Second) => (
                MergerView { first: m.first, second: SlotView::Empty },
                ActionView::Emit(Entry { column: Column::Second, text: m.second->Holding_0.text }),
            ),
            Some(Column::Both) => (
                MergerView { first: SlotView::Empty, second: SlotView::Empty },
                ActionView::Emit(Entry { column: Column::Both, text: m.first->Holding_0.text }),
            ),
        }
    }
}

impl Merger {
    /// A merge that has read nothing yet.
    pub fn new() -> (r: Merger)
        ensures
            r@ == (MergerView { first: SlotView::Empty, second: SlotView::Empty }),
    {
        Merger { first: Slot::Empty, second: Slot::Empty }
    }

    /// Hands over what the first source answered: its next line, or `None`
    /// once it has run out. Whatever the first slot held before is replaced.
    pub fn feed_first(&mut self, line: Option<Line>)
        ensures
            final(self)@.first == answered(viewed(line)),
            final(self)@.second == old(self)@.second,
    {
        self.first = Slot::answer(line);
    }

    /// Hands over what the second source answered: its next line, or `None`
    /// once it has run out. Whatever the second slot held before is replaced.
    pub fn feed_second(&mut self, line: Option<Line>)
        ensures
            final(self)@.first == old(self)@.first,
            final(self)@.second == answered(viewed(line)),
    {
        self.second = Slot::answer(line);
    }

    /// Makes one move of the merge.
    pub fn advance(&mut self) -> (r: Action)
        ensures
            (final(self)@, r@) == advanced(old(self)@),
    {
        if let Slot::Empty = self.first {
            return Action::PullFirst;
        }
        if let Slot::Empty = self.second {
            return Action::PullSecond;
        }
        match decide(self.first.current(), self.second.current()) {
            None => Action::Finished,
            Some(Column::First) => Action::Emit(Record::OnlyInFirst(self.first.release())),
            Some(Column::Second) => Action::Emit(Record::OnlyInSecond(self.second.release())),
            Some(Column::Both) => {
                let _ = self.second.release();
                Action::Emit(Record::InBoth(self.first.release()))
            },
        }
    }
}

} // verus!
