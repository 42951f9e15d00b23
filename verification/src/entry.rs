//! The senders recorded for one key, in the order in which they came.
//! Appending never repeats a sender and never makes a list longer than two;
//! a list that is handed in whole is kept as it stands.

use crate::text::same_text;
use vstd::prelude::*;

verus! {

/// The number of senders that one key can hold.
pub const MAX_SENDERS: usize = 2;

/// What became of an attempt to record a sender.
#[derive(Clone, Copy, Debug, PartialEq, Eq, Structural)]
pub enum SenderOutcome {
    /// The sender was recorded.
    Added,
    /// The sender was recorded before; nothing changed.
    AlreadyExists,
    /// The key holds as many other senders as it can take; nothing changed.
    CapacityReached,
}

/// Whether a list of senders is one that appending alone can build: no more
/// than `MAX_SENDERS` of them, and none twice.
pub open spec fn within_bounds(senders: Seq<Seq<char>>) -> bool {
    &&& senders.len() <= MAX_SENDERS
    &&& senders.no_duplicates()
}

/// The outcome of appending `sender` to `senders`.
pub open spec fn append_outcome(senders: Seq<Seq<char>>, sender: Seq<char>) -> SenderOutcome {
    if senders.contains(sender) {
        SenderOutcome::AlreadyExists
    } else if senders.len() < MAX_SENDERS {
        SenderOutcome::Added
    } else {
        SenderOutcome::CapacityReached
    }
}

/// The list that appending `sender` to `senders` leaves: one longer where
/// the sender is new and there is room, the same list otherwise.
pub open spec fn append_result(senders: Seq<Seq<char>>, sender: Seq<char>) -> Seq<Seq<char>> {
    if append_outcome(senders, sender) == SenderOutcome::Added {
        senders.push(sender)
    } else {
        senders
    }
}

/// The senders of one key, in the order in which they were recorded.
#[derive(Debug)]
pub struct Entry {
    senders: Vec<String>,
}

impl View for Entry {
    type V = Seq<Seq<char>>;

    closed spec fn view(&self) -> Seq<Seq<char>> {
        self.senders.deep_view()
    }
}

impl Entry {
    /// An entry with one sender.
    pub fn new(sender: &str) -> (entry: Entry)
        ensures
            entry@ == seq![sender@],
    {
        let mut senders: Vec<String> = Vec::new();
        senders.push(sender.to_owned());
        assert(senders.deep_view() == seq![sender@]);
        Entry { senders }
    }

    /// An entry with the given senders, as they stand.
    pub fn from_senders(senders: Vec<String>) -> (entry: Entry)
        ensures
            entry@ == senders.deep_view(),
    {
        Entry { senders }
    }

    /// The number of senders.
    pub fn len(&self) -> (n: usize)
        ensures
            n == self@.len(),
    {
        self.senders.len()
    }

    /// Whether `sender` is among the senders.
    pub fn contains(&self, sender: &str) -> (found: bool)
        ensures
            found == self@.contains(sender@),
    {
        let mut i: usize = 0;
        while i < self.senders.len()
            invariant
                i <= self.senders.len(),
                forall|j: int| 0 <= j < i ==> self@[j] != sender@,
            decreases self.senders.len() - i,
        {
            if same_text(self.senders[i].as_str(), sender) {
                assert(self@[i as int] == sender@);
                return true;
            }
            i += 1;
        }
        false
    }

    /// Records `sender` at the end, unless it is recorded already or the
    /// entry is full.
    pub fn try_append(&mut self, sender: &str) -> (outcome: SenderOutcome)
        ensures
            outcome == append_outcome(old(self)@, sender@),
            final(self)@ == append_result(old(self)@, sender@),
            within_bounds(old(self)@) ==> within_bounds(final(self)@),
    {
        if self.contains(sender) {
            SenderOutcome::AlreadyExists
        } else if self.senders.len() < MAX_SENDERS {
            self.senders.push(sender.to_owned());
            assert(self@ == old(self)@.push(sender@));
            SenderOutcome::Added
        } else {
            SenderOutcome::CapacityReached
        }
    }

    /// A copy of this entry.
    pub fn duplicate(&self) -> (copy: Entry)
        ensures
            copy@ == self@,
    {
        Entry { senders: self.senders() }
    }

    /// A copy of the senders, in their order.
    pub fn senders(&self) -> (senders: Vec<String>)
        ensures
            senders.deep_view() == self@,
    {
        let mut senders: Vec<String> = Vec::new();
        let mut i: usize = 0;
        while i < self.senders.len()
            invariant
                i <= self.senders.len(),
                senders.deep_view() == self@.take(i as int),
            decreases self.senders.len() - i,
        {
            senders.push(self.senders[i].clone());
            assert(senders.deep_view() == self@.take(i as int).push(self@[i as int]));
            assert(self@.take(i + 1) == self@.take(i as int).push(self@[i as int]));
            i += 1;
        }
        assert(self@.take(self@.len() as int) == self@);
        senders
    }
}

} // verus!
