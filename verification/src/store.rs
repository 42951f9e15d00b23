//! The store: every key with its entry, and the order in which the keys
//! came.
//!
//! What a store holds is a map from key to senders; the operations are
//! stated over that map, and so are the laws that hold between them.

use crate::entry::append_outcome;
use crate::entry::append_result;
use crate::entry::within_bounds;
use crate::entry::Entry;
use crate::entry::SenderOutcome;
use crate::entry::MAX_SENDERS;
use vstd::hash_map::StringHashMap;
use vstd::prelude::*;

verus! {

/// What became of `add`.
#[derive(Clone, Copy, Debug, PartialEq, Eq, Structural)]
pub enum AddOutcome {
    /// The key was new and now holds the one sender.
    Added,
    /// The key was there already; nothing changed.
    AlreadyExists,
}

/// The outcome of `add` on a store that holds `contents`.
pub open spec fn add_outcome(contents: Map<Seq<char>, Seq<Seq<char>>>, key: Seq<char>) -> AddOutcome {
    if contents.contains_key(key) {
        AddOutcome::AlreadyExists
    } else {
        AddOutcome::Added
    }
}

/// What a store that held `contents` holds after `add`.
pub open spec fn add_result(
    contents: Map<Seq<char>, Seq<Seq<char>>>,
    key: Seq<char>,
    sender: Seq<char>,
) -> Map<Seq<char>, Seq<Seq<char>>> {
    if contents.contains_key(key) {
        contents
    } else {
        contents.insert(key, seq![sender])
    }
}

/// The outcome of `add_sender` on a store that holds `contents`.
pub open spec fn add_sender_outcome(
    contents: Map<Seq<char>, Seq<Seq<char>>>,
    key: Seq<char>,
    sender: Seq<char>,
) -> SenderOutcome {
    if contents.contains_key(key) {
        append_outcome(contents[key], sender)
    } else {
        SenderOutcome::Added
    }
}

/// What a store that held `contents` holds after `add_sender`.
pub open spec fn add_sender_result(
    contents: Map<Seq<char>, Seq<Seq<char>>>,
    key: Seq<char>,
    sender: Seq<char>,
) -> Map<Seq<char>, Seq<Seq<char>>> {
    if contents.contains_key(key) {
        contents.insert(key, append_result(contents[key], sender))
    } else {
        contents.insert(key, seq![sender])
    }
}

/// The key order after `key` was stored: a new key goes to the end, a known
/// one stays where it is.
pub open spec fn keys_with(
    keys: Seq<Seq<char>>,
    contents: Map<Seq<char>, Seq<Seq<char>>>,
    key: Seq<char>,
) -> Seq<Seq<char>> {
    if contents.contains_key(key) {
        keys
    } else {
        keys.push(key)
    }
}

/// What became of `clear`.
#[derive(Clone, Copy, Debug, PartialEq, Eq, Structural)]
pub enum ClearOutcome {
    /// The store is empty now.
    Cleared,
    /// The contents could not be archived; nothing changed.
    ArchiveFailed,
}

/// The outcome of `clear` on a store that holds `contents`, where `archived`
/// says whether those contents were archived: an empty store is cleared in
/// any case, another one only once its contents are safe.
pub open spec fn clear_outcome(
    contents: Map<Seq<char>, Seq<Seq<char>>>,
    archived: bool,
) -> ClearOutcome {
    if archived || contents == Map::<Seq<char>, Seq<Seq<char>>>::empty() {
        ClearOutcome::Cleared
    } else {
        ClearOutcome::ArchiveFailed
    }
}

/// What a store that held `contents` holds after `clear`.
pub open spec fn clear_result(
    contents: Map<Seq<char>, Seq<Seq<char>>>,
    archived: bool,
) -> Map<Seq<char>, Seq<Seq<char>>> {
    if clear_outcome(contents, archived) == ClearOutcome::Cleared {
        Map::empty()
    } else {
        contents
    }
}

/// The keys of `keys`, each with its senders in `contents`.
pub open spec fn records(
    keys: Seq<Seq<char>>,
    contents: Map<Seq<char>, Seq<Seq<char>>>,
) -> Seq<(Seq<char>, Seq<Seq<char>>)> {
    Seq::new(keys.len(), |i: int| (keys[i], contents[keys[i]]))
}

/// The number of senders that the keys of `keys` hold in `contents`, all
/// together.
pub open spec fn sender_total(
    keys: Seq<Seq<char>>,
    contents: Map<Seq<char>, Seq<Seq<char>>>,
) -> nat
    decreases keys.len(),
{
    if keys.len() == 0 {
        0
    } else {
        sender_total(keys.drop_last(), contents) + contents[keys.last()].len()
    }
}

/// Whether `keys` lists the keys of `contents`, each of them once.
pub open spec fn lists_keys_of(
    keys: Seq<Seq<char>>,
    contents: Map<Seq<char>, Seq<Seq<char>>>,
) -> bool {
    &&& keys.no_duplicates()
    &&& forall|key: Seq<char>| contents.contains_key(key) <==> keys.contains(key)
}

/// Whether every entry of `contents` is within bounds.
pub open spec fn all_within_bounds(contents: Map<Seq<char>, Seq<Seq<char>>>) -> bool {
    forall|key: Seq<char>| contents.contains_key(key) ==> within_bounds(#[trigger] contents[key])
}

/// `add` on a key that is not stored stores it with the one sender and
/// reports `Added`; `add` on the same key again, with whatever sender,
/// reports `AlreadyExists` and changes nothing.
pub proof fn lemma_add_twice(
    contents: Map<Seq<char>, Seq<Seq<char>>>,
    key: Seq<char>,
    first: Seq<char>,
    second: Seq<char>,
)
    requires
        !contents.contains_key(key),
    ensures
        add_outcome(contents, key) == AddOutcome::Added,
        add_result(contents, key, first).contains_key(key),
        add_result(contents, key, first)[key] == seq![first],
        add_outcome(add_result(contents, key, first), key) == AddOutcome::AlreadyExists,
        add_result(add_result(contents, key, first), key, second) == add_result(
            contents,
            key,
            first,
        ),
{
}

/// `add` never touches another key, and never a key that is stored.
pub proof fn lemma_add_keeps_the_rest(
    contents: Map<Seq<char>, Seq<Seq<char>>>,
    key: Seq<char>,
    sender: Seq<char>,
    other: Seq<char>,
)
    requires
        other != key || contents.contains_key(key),
    ensures
        add_result(contents, key, sender).contains_key(other) == contents.contains_key(other),
        add_result(contents, key, sender)[other] == contents[other],
{
}

/// A key takes exactly two distinct senders through `add_sender`: the first
/// two are recorded in their order, a third is turned away with
/// `CapacityReached`, and the entry stays at the two.
pub proof fn lemma_add_sender_takes_two(
    contents: Map<Seq<char>, Seq<Seq<char>>>,
    key: Seq<char>,
    first: Seq<char>,
    second: Seq<char>,
    third: Seq<char>,
)
    requires
        !contents.contains_key(key),
        first != second,
        third != first,
        third != second,
    ensures
        ({
            let one = add_sender_result(contents, key, first);
            let two = add_sender_result(one, key, second);
            &&& add_sender_outcome(contents, key, first) == SenderOutcome::Added
            &&& one[key] == seq![first]
            &&& add_sender_outcome(one, key, second) == SenderOutcome::Added
            &&& two[key] == seq![first, second]
            &&& add_sender_outcome(two, key, third) == SenderOutcome::CapacityReached
            &&& add_sender_result(two, key, third) == two
        }),
{
    let one = add_sender_result(contents, key, first);
    assert(one[key] == seq![first]);
    assert(!one[key].contains(second));
    let two = add_sender_result(one, key, second);
    assert(two[key] == seq![first, second]);
    assert(!two[key].contains(third));
    assert(add_sender_result(two, key, third) == two);
}

/// `add_sender` with a sender that the key holds already reports
/// `AlreadyExists` and changes nothing.
pub proof fn lemma_add_sender_repeated(
    contents: Map<Seq<char>, Seq<Seq<char>>>,
    key: Seq<char>,
    sender: Seq<char>,
)
    requires
        contents.contains_key(key),
        contents[key].contains(sender),
    ensures
        add_sender_outcome(contents, key, sender) == SenderOutcome::AlreadyExists,
        add_sender_result(contents, key, sender) == contents,
{
    assert(contents.insert(key, contents[key]) == contents);
}

/// `add_sender` is idempotent: whatever the first call did, a second call
/// with the same key and sender reports `AlreadyExists`, unless the key is
/// full of other senders, and changes nothing.
pub proof fn lemma_add_sender_twice(
    contents: Map<Seq<char>, Seq<Seq<char>>>,
    key: Seq<char>,
    sender: Seq<char>,
)
    ensures
        ({
            let once = add_sender_result(contents, key, sender);
            &&& add_sender_result(once, key, sender) == once
            &&& add_sender_outcome(once, key, sender) == (if add_sender_outcome(
                contents,
                key,
                sender,
            ) == SenderOutcome::CapacityReached {
                SenderOutcome::CapacityReached
            } else {
                SenderOutcome::AlreadyExists
            })
        }),
{
    let once = add_sender_result(contents, key, sender);
    if contents.contains_key(key) {
        let before = contents[key];
        if add_sender_outcome(contents, key, sender) == SenderOutcome::Added {
            assert(before.push(sender).last() == sender);
            assert(once[key].contains(sender));
        } else {
            assert(once[key] == before);
        }
    } else {
        assert(seq![sender][0] == sender);
        assert(once[key].contains(sender));
    }
    assert(once.insert(key, once[key]) == once);
}

/// A store whose entries are within bounds stays so under `add` and
/// `add_sender`: no key ever holds more than two senders, nor one twice.
pub proof fn lemma_bounds_are_kept(
    contents: Map<Seq<char>, Seq<Seq<char>>>,
    key: Seq<char>,
    sender: Seq<char>,
)
    requires
        all_within_bounds(contents),
    ensures
        all_within_bounds(add_result(contents, key, sender)),
        all_within_bounds(add_sender_result(contents, key, sender)),
{
    assert(within_bounds(seq![sender]));
    if contents.contains_key(key) {
        let before = contents[key];
        assert(within_bounds(before));
        if append_outcome(before, sender) == SenderOutcome::Added {
            let after = before.push(sender);
            assert forall|i: int, j: int| 0 <= i < j < after.len() implies after[i] != after[j] by {
                if j == before.len() {
                    assert(before[i] == after[i]);
                    assert(!before.contains(sender));
                }
            }
        }
    }
    assert forall|k: Seq<char>| add_sender_result(contents, key, sender).contains_key(k) implies within_bounds(
        #[trigger] add_sender_result(contents, key, sender)[k],
    ) by {
        if k != key {
            assert(within_bounds(contents[k]));
        }
    }
    assert forall|k: Seq<char>| add_result(contents, key, sender).contains_key(k) implies within_bounds(
        #[trigger] add_result(contents, key, sender)[k],
    ) by {
        if k != key || contents.contains_key(key) {
            assert(within_bounds(contents[k]));
        }
    }
}

/// `clear` is all or nothing. Once the contents are archived, or where there
/// are none, it leaves the store empty and reports `Cleared`; where contents
/// could not be archived it leaves every entry as it was and reports
/// `ArchiveFailed`.
pub proof fn lemma_clear_is_all_or_nothing(contents: Map<Seq<char>, Seq<Seq<char>>>, archived: bool)
    ensures
        archived || contents == Map::<Seq<char>, Seq<Seq<char>>>::empty() ==> {
            &&& clear_outcome(contents, archived) == ClearOutcome::Cleared
            &&& clear_result(contents, archived) == Map::<Seq<char>, Seq<Seq<char>>>::empty()
        },
        !archived && contents != Map::<Seq<char>, Seq<Seq<char>>>::empty() ==> {
            &&& clear_outcome(contents, archived) == ClearOutcome::ArchiveFailed
            &&& clear_result(contents, archived) == contents
        },
{
}

/// After a `clear` that reported `Cleared`, the store counts no key and no
/// sender.
pub proof fn lemma_cleared_counts_nothing(contents: Map<Seq<char>, Seq<Seq<char>>>, archived: bool)
    requires
        clear_outcome(contents, archived) == ClearOutcome::Cleared,
    ensures
        sender_total(Seq::empty(), clear_result(contents, archived)) == 0,
        lists_keys_of(Seq::empty(), clear_result(contents, archived)),
{
}

/// A store whose entries are within bounds holds no more senders than two
/// for each of its keys.
pub proof fn lemma_bounds_limit_the_total(
    keys: Seq<Seq<char>>,
    contents: Map<Seq<char>, Seq<Seq<char>>>,
)
    requires
        all_within_bounds(contents),
        forall|i: int| 0 <= i < keys.len() ==> contents.contains_key(#[trigger] keys[i]),
    ensures
        sender_total(keys, contents) <= MAX_SENDERS * keys.len(),
    decreases keys.len(),
{
    if keys.len() > 0 {
        let front = keys.drop_last();
        assert forall|i: int| 0 <= i < front.len() implies contents.contains_key(
            #[trigger] front[i],
        ) by {
            assert(front[i] == keys[i]);
        }
        lemma_bounds_limit_the_total(front, contents);
        assert(contents.contains_key(keys[keys.len() - 1]));
        assert(within_bounds(contents[keys.last()]));
    }
}

/// The counts that a status report gives.
#[derive(Clone, Copy, Debug, PartialEq, Eq, Structural)]
pub struct Status {
    /// The number of keys.
    pub keys: usize,
    /// The number of senders, over all keys; wide enough for any number of
    /// lists of any length.
    pub values: u128,
    /// The seconds since the process started.
    pub uptime_seconds: u64,
}

/// The keys and their senders: a hash map from key to entry, and beside it
/// the keys in the order in which they came, so that a dump is stable.
pub struct Store {
    entries: StringHashMap<Entry>,
    order: Vec<String>,
}

impl View for Store {
    type V = Map<Seq<char>, Seq<Seq<char>>>;

    closed spec fn view(&self) -> Map<Seq<char>, Seq<Seq<char>>> {
        Map::new(
            |key: Seq<char>| self.entries@.contains_key(key),
            |key: Seq<char>| self.entries@[key]@,
        )
    }
}

impl Store {
    /// The list of keys names each key of the map, and each of them once.
    #[verifier::type_invariant]
    spec fn well_formed(self) -> bool {
        &&& self.order.deep_view().no_duplicates()
        &&& forall|key: Seq<char>|
            self.entries@.contains_key(key) <==> self.order.deep_view().contains(key)
    }

    /// The keys in the order in which they were first stored.
    pub closed spec fn keys(&self) -> Seq<Seq<char>> {
        self.order.deep_view()
    }

    /// A store without keys.
    pub fn new() -> (store: Store)
        ensures
            store@ == Map::<Seq<char>, Seq<Seq<char>>>::empty(),
            store.keys() == Seq::<Seq<char>>::empty(),
    {
        let store = Store { entries: StringHashMap::new(), order: Vec::new() };
        assert(store@ == Map::<Seq<char>, Seq<Seq<char>>>::empty());
        assert(store.keys() == Seq::<Seq<char>>::empty());
        store
    }

    /// Whether `key` is stored.
    pub fn contains_key(&self, key: &str) -> (found: bool)
        ensures
            found == self@.contains_key(key@),
    {
        self.entries.contains_key(key)
    }

    /// The entry of `key`, if the key is stored.
    pub fn get(&self, key: &str) -> (entry: Option<&Entry>)
        ensures
            match entry {
                Some(e) => self@.contains_key(key@) && e@ == self@[key@],
                None => !self@.contains_key(key@),
            },
    {
        self.entries.get(key)
    }

    /// Puts `entry` under `key`, in place of what the key held.
    fn put(&mut self, key: &str, entry: Entry)
        ensures
            final(self)@ == old(self)@.insert(key@, entry@),
            final(self).keys() == keys_with(old(self).keys(), old(self)@, key@),
    {
        proof {
            use_type_invariant(&*self);
        }
        let known = self.entries.contains_key(key);
        let mut taken = Store::new();
        std::mem::swap(self, &mut taken);
        let Store { mut entries, mut order } = taken;
        let ghost old_keys = order.deep_view();
        entries.insert(key.to_owned(), entry);
        if !known {
            order.push(key.to_owned());
            assert(order.deep_view() == old_keys.push(key@));
        }
        proof {
            let keys = order.deep_view();
            assert(keys.no_duplicates()) by {
                if !known {
                    assert forall|i: int, j: int| 0 <= i < j < keys.len() implies keys[i] != keys[j] by {
                        if j == old_keys.len() {
                            assert(old_keys[i] == keys[i]);
                            assert(!old_keys.contains(key@));
                        } else {
                            assert(old_keys[i] == keys[i] && old_keys[j] == keys[j]);
                        }
                    }
                }
            }
            assert forall|k: Seq<char>| entries@.contains_key(k) <==> keys.contains(k) by {
                if known {
                    assert(old_keys.contains(key@));
                } else {
                    assert(keys.last() == key@);
                    if old_keys.contains(k) {
                        let i = choose|i: int| 0 <= i < old_keys.len() && old_keys[i] == k;
                        assert(keys[i] == k);
                    }
                }
            }
        }
        *self = Store { entries, order };
        assert(self@ == old(self)@.insert(key@, entry@));
    }

    /// Puts `senders` under `key`, in place of what the key held.
    pub fn insert(&mut self, key: &str, senders: Vec<String>)
        ensures
            final(self)@ == old(self)@.insert(key@, senders.deep_view()),
            final(self).keys() == keys_with(old(self).keys(), old(self)@, key@),
    {
        self.put(key, Entry::from_senders(senders));
    }

    /// Stores `key` with the one sender, unless the key is stored already.
    pub fn add(&mut self, key: &str, sender: &str) -> (outcome: AddOutcome)
        ensures
            outcome == add_outcome(old(self)@, key@),
            final(self)@ == add_result(old(self)@, key@, sender@),
            final(self).keys() == keys_with(old(self).keys(), old(self)@, key@),
            all_within_bounds(old(self)@) ==> all_within_bounds(final(self)@),
    {
        proof {
            if all_within_bounds(old(self)@) {
                lemma_bounds_are_kept(old(self)@, key@, sender@);
            }
        }
        if self.contains_key(key) {
            AddOutcome::AlreadyExists
        } else {
            self.put(key, Entry::new(sender));
            AddOutcome::Added
        }
    }

    /// Records `sender` under `key`: a new key is stored with the one sender;
    /// a known key takes the sender at the end of its entry, unless it holds
    /// the sender already or is full.
    pub fn add_sender(&mut self, key: &str, sender: &str) -> (outcome: SenderOutcome)
        ensures
            outcome == add_sender_outcome(old(self)@, key@, sender@),
            final(self)@ == add_sender_result(old(self)@, key@, sender@),
            final(self).keys() == keys_with(old(self).keys(), old(self)@, key@),
            all_within_bounds(old(self)@) ==> all_within_bounds(final(self)@),
    {
        let mut entry = match self.get(key) {
            Some(known) => known.duplicate(),
            None => {
                self.put(key, Entry::new(sender));
                return SenderOutcome::Added;
            },
        };
        let outcome = entry.try_append(sender);
        match outcome {
            SenderOutcome::Added => {
                self.put(key, entry);
            },
            _ => {
                assert(self@ == old(self)@.insert(key@, old(self)@[key@]));
            },
        }
        outcome
    }

    /// Whether no key is stored.
    pub fn is_empty(&self) -> (empty: bool)
        ensures
            empty == (self@ == Map::<Seq<char>, Seq<Seq<char>>>::empty()),
            empty == (self.keys().len() == 0),
    {
        proof {
            use_type_invariant(self);
            if self.order.len() > 0 {
                assert(self.order.deep_view().contains(self.order.deep_view()[0]));
                assert(self@.contains_key(self.order.deep_view()[0]));
            } else {
                assert forall|key: Seq<char>| !self@.contains_key(key) by {
                    assert(!self.order.deep_view().contains(key));
                }
                assert(self@ == Map::<Seq<char>, Seq<Seq<char>>>::empty());
            }
        }
        self.order.len() == 0
    }

    /// Erases every key, provided that the contents are safe: `archived`
    /// says whether they were archived. An empty store needs no archive.
    pub fn clear(&mut self, archived: bool) -> (outcome: ClearOutcome)
        ensures
            outcome == clear_outcome(old(self)@, archived),
            final(self)@ == clear_result(old(self)@, archived),
            outcome == ClearOutcome::Cleared ==> final(self).keys() == Seq::<Seq<char>>::empty(),
            outcome == ClearOutcome::ArchiveFailed ==> final(self).keys() == old(self).keys(),
            all_within_bounds(old(self)@) ==> all_within_bounds(final(self)@),
    {
        if archived || self.is_empty() {
            *self = Store::new();
            ClearOutcome::Cleared
        } else {
            ClearOutcome::ArchiveFailed
        }
    }

    /// The number of keys.
    pub fn key_count(&self) -> (count: usize)
        ensures
            count == self.keys().len(),
            count == self@.dom().len(),
            lists_keys_of(self.keys(), self@),
    {
        proof {
            use_type_invariant(self);
            self.keys().unique_seq_to_set();
            assert(self.keys().to_set() == self@.dom());
        }
        self.order.len()
    }

    /// The number of senders, over all keys.
    pub fn value_count(&self) -> (count: u128)
        ensures
            count == sender_total(self.keys(), self@),
    {
        proof {
            use_type_invariant(self);
        }
        let mut count: u128 = 0;
        let mut i: usize = 0;
        while i < self.order.len()
            invariant
                i <= self.order.len(),
                self.order.deep_view().no_duplicates(),
                forall|key: Seq<char>|
                    self.entries@.contains_key(key) <==> self.order.deep_view().contains(key),
                count == sender_total(self.keys().take(i as int), self@),
                count <= i * u64::MAX,
            decreases self.order.len() - i,
        {
            let ghost key = self.keys()[i as int];
            assert(self.order.deep_view().contains(key));
            let here: usize = match self.entries.get(self.order[i].as_str()) {
                Some(entry) => entry.len(),
                None => 0,
            };
            proof {
                let seen = self.keys().take(i + 1);
                assert(seen.drop_last() == self.keys().take(i as int));
                assert(seen.last() == key);
                assert(here == self@[key].len());
            }
            count = count + here as u128;
            i += 1;
        }
        assert(self.keys().take(self.keys().len() as int) == self.keys());
        count
    }

    /// The counts of a status report: keys, senders, and the uptime that the
    /// caller measured.
    pub fn status(&self, uptime_seconds: u64) -> (status: Status)
        ensures
            status.keys == self.keys().len(),
            status.values == sender_total(self.keys(), self@),
            status.uptime_seconds == uptime_seconds,
    {
        Status { keys: self.key_count(), values: self.value_count(), uptime_seconds }
    }

    /// Every key with a copy of its senders, in the order of the keys.
    pub fn dump(&self) -> (rows: Vec<(String, Vec<String>)>)
        ensures
            rows.deep_view() == records(self.keys(), self@),
            lists_keys_of(self.keys(), self@),
    {
        proof {
            use_type_invariant(self);
        }
        let mut rows: Vec<(String, Vec<String>)> = Vec::new();
        let mut i: usize = 0;
        while i < self.order.len()
            invariant
                i <= self.order.len(),
                self.order.deep_view().no_duplicates(),
                forall|key: Seq<char>|
                    self.entries@.contains_key(key) <==> self.order.deep_view().contains(key),
                rows.deep_view() == records(self.keys(), self@).take(i as int),
            decreases self.order.len() - i,
        {
            let ghost key = self.keys()[i as int];
            assert(self.order.deep_view().contains(key));
            let senders: Vec<String> = match self.entries.get(self.order[i].as_str()) {
                Some(entry) => entry.senders(),
                None => Vec::new(),
            };
            let ghost before = rows.deep_view();
            rows.push((self.order[i].clone(), senders));
            proof {
                let all = records(self.keys(), self@);
                assert(rows.deep_view() == before.push((key, self@[key])));
                assert(all.take(i + 1) == all.take(i as int).push(all[i as int]));
            }
            i += 1;
        }
        proof {
            let all = records(self.keys(), self@);
            assert(all.take(all.len() as int) == all);
        }
        rows
    }
}

} // verus!
