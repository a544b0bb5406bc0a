//! The first-result slot: a single-assignment cell for the winning password.
//! The first publication wins and every later one is a cheap refusal, so a
//! second worker that also verifies a password is never blocked on delivery.

use vstd::prelude::*;

verus! {

/// At most one candidate is ever delivered as found: the slot accepts the
/// first published candidate and refuses every later one.
pub struct ResultSlot {
    cell: Option<String>,
}

impl ResultSlot {
    /// The delivered candidate, if one was published.
    pub closed spec fn value(self) -> Option<Seq<char>> {
        match self.cell {
            Some(s) => Some(s@),
            None => None,
        }
    }

    /// Builds an empty slot.
    pub fn new() -> (s: ResultSlot)
        ensures
            s.value() is None,
    {
        ResultSlot { cell: None }
    }

    /// Publishes a candidate: the first write fills the slot and wins, any
    /// later write leaves the slot unchanged and reports that it lost.
    pub fn publish(&mut self, candidate: String) -> (won: bool)
        ensures
            match old(self).value() {
                None => won && final(self).value() == Some(candidate@),
                Some(v) => !won && final(self).value() == Some(v),
            },
    {
        if self.cell.is_some() {
            false
        } else {
            self.cell = Some(candidate);
            true
        }
    }

    /// Whether a candidate was delivered.
    pub fn is_filled(&self) -> (r: bool)
        ensures
            r == (self.value() is Some),
    {
        self.cell.is_some()
    }

    /// Takes the delivered candidate out, leaving the slot empty.
    pub fn take(&mut self) -> (r: Option<String>)
        ensures
            final(self).value() is None,
            match r {
                Some(p) => old(self).value() == Some(p@),
                None => old(self).value() is None,
            },
    {
        self.cell.take()
    }
}

} // verus!
