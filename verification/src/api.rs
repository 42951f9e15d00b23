//! What each endpoint does with a request once the transport has read it:
//! the token is checked, the key is brought into canonical form, the store
//! is read or changed, and the reply is chosen.

use crate::csv::csv_text;
use crate::csv::render_csv;
use crate::entry::SenderOutcome;
use crate::normalizer::canonical_key;
use crate::normalizer::convert_to_ten_digits;
use crate::store::add_outcome;
use crate::store::add_result;
use crate::store::add_sender_outcome;
use crate::store::add_sender_result;
use crate::store::all_within_bounds;
use crate::store::clear_outcome;
use crate::store::clear_result;
use crate::store::keys_with;
use crate::store::records;
use crate::store::sender_total;
use crate::store::AddOutcome;
use crate::store::ClearOutcome;
use crate::store::Status;
use crate::store::Store;
use crate::text::same_text;
use vstd::prelude::*;

verus! {

/// The replies that consist of a status and a message.
#[derive(Clone, Copy, Debug, PartialEq, Eq, Structural)]
pub enum Reply {
    /// The token is not among the valid ones.
    InvalidToken,
    /// `add` stored a new number.
    NumberAdded,
    /// `add` found the number stored.
    NumberExists,
    /// `addmulti` stored a new number with its first sender.
    KeyAdded,
    /// `addmulti` recorded one more sender for a stored number.
    SenderAdded,
    /// `addmulti` found the sender recorded for the number.
    SenderExists,
    /// `addmulti` found the number with as many senders as it can take.
    SendersFull,
    /// `clear` erased the store.
    Cleared,
    /// `clear` could not archive the store, and left it as it was.
    ArchiveFailed,
}

impl Reply {
    /// The status of this reply, as text.
    pub open spec fn status_text(self) -> Seq<char> {
        match self {
            Reply::InvalidToken | Reply::ArchiveFailed => "error"@,
            Reply::NumberAdded | Reply::KeyAdded | Reply::SenderAdded => "added"@,
            Reply::NumberExists | Reply::SenderExists | Reply::SendersFull => "exists"@,
            Reply::Cleared => "cleared"@,
        }
    }

    /// The message of this reply, as text.
    pub open spec fn message_text(self) -> Seq<char> {
        match self {
            Reply::InvalidToken => "Invalid token"@,
            Reply::NumberAdded => "New number added"@,
            Reply::NumberExists => "Number already texted"@,
            Reply::KeyAdded => "New key/sender combination added"@,
            Reply::SenderAdded => "New sender added to existing key"@,
            Reply::SenderExists => "Number already texted from that sender"@,
            Reply::SendersFull => "Number already texted. Max senders reached."@,
            Reply::Cleared => "All data cleared and archived."@,
            Reply::ArchiveFailed => "Failed to archive data before clearing."@,
        }
    }

    /// The status of this reply.
    pub fn status(&self) -> (text: &'static str)
        ensures
            text@ == self.status_text(),
    {
        match self {
            Reply::InvalidToken | Reply::ArchiveFailed => "error",
            Reply::NumberAdded | Reply::KeyAdded | Reply::SenderAdded => "added",
            Reply::NumberExists | Reply::SenderExists | Reply::SendersFull => "exists",
            Reply::Cleared => "cleared",
        }
    }

    /// The message of this reply.
    pub fn message(&self) -> (text: &'static str)
        ensures
            text@ == self.message_text(),
    {
        match self {
            Reply::InvalidToken => "Invalid token",
            Reply::NumberAdded => "New number added",
            Reply::NumberExists => "Number already texted",
            Reply::KeyAdded => "New key/sender combination added",
            Reply::SenderAdded => "New sender added to existing key",
            Reply::SenderExists => "Number already texted from that sender",
            Reply::SendersFull => "Number already texted. Max senders reached.",
            Reply::Cleared => "All data cleared and archived.",
            Reply::ArchiveFailed => "Failed to archive data before clearing.",
        }
    }
}

/// A reply, and whether the store changed, so that its snapshot is to be
/// written before the reply goes out.
#[derive(Clone, Copy, Debug, PartialEq, Eq, Structural)]
pub struct Handled {
    /// The reply.
    pub reply: Reply,
    /// Whether the snapshot is to be written.
    pub persist: bool,
}

/// The text of a field of a request: a field that is missing, or is no
/// string, counts as the empty string.
pub open spec fn field_text(field: Option<&str>) -> Seq<char> {
    match field {
        Some(text) => text@,
        None => Seq::empty(),
    }
}

/// The reply to `add`, by its outcome.
pub open spec fn add_reply(outcome: AddOutcome) -> Reply {
    match outcome {
        AddOutcome::Added => Reply::NumberAdded,
        AddOutcome::AlreadyExists => Reply::NumberExists,
    }
}

/// The reply to `addmulti`, by its outcome and by whether the key was
/// stored before.
pub open spec fn add_sender_reply(outcome: SenderOutcome, known: bool) -> Reply {
    match outcome {
        SenderOutcome::Added => if known {
            Reply::SenderAdded
        } else {
            Reply::KeyAdded
        },
        SenderOutcome::AlreadyExists => Reply::SenderExists,
        SenderOutcome::CapacityReached => Reply::SendersFull,
    }
}

/// The reply to `clear`, by its outcome.
pub open spec fn clear_reply(outcome: ClearOutcome) -> Reply {
    match outcome {
        ClearOutcome::Cleared => Reply::Cleared,
        ClearOutcome::ArchiveFailed => Reply::ArchiveFailed,
    }
}

/// Whether `token` is one of the valid tokens.
pub fn is_valid_token(valid_tokens: &Vec<String>, token: &str) -> (valid: bool)
    ensures
        valid == valid_tokens.deep_view().contains(token@),
{
    let mut i: usize = 0;
    while i < valid_tokens.len()
        invariant
            i <= valid_tokens.len(),
            forall|j: int| 0 <= j < i ==> valid_tokens.deep_view()[j] != token@,
        decreases valid_tokens.len() - i,
    {
        if same_text(valid_tokens[i].as_str(), token) {
            assert(valid_tokens.deep_view()[i as int] == token@);
            return true;
        }
        i += 1;
    }
    false
}

/// The text of a field of a request.
fn field_or_empty<'a>(field: Option<&'a str>) -> (text: &'a str)
    ensures
        text@ == field_text(field),
{
    match field {
        Some(text) => text,
        None => {
            let empty = "";
            proof {
                reveal_strlit("");
            }
            assert(empty@ == Seq::<char>::empty());
            empty
        },
    }
}

/// The `add` endpoint: stores the number with its sender, unless the number
/// is stored already. Without a valid token nothing is done.
pub fn handle_add(store: &mut Store, authorized: bool, key: Option<&str>, val: Option<&str>) -> (handled:
    Handled)
    ensures
        !authorized ==> {
            &&& handled == (Handled { reply: Reply::InvalidToken, persist: false })
            &&& final(store)@ == old(store)@
            &&& final(store).keys() == old(store).keys()
        },
        authorized ==> {
            let number = canonical_key(field_text(key));
            let outcome = add_outcome(old(store)@, number);
            &&& handled.reply == add_reply(outcome)
            &&& handled.persist == (outcome == AddOutcome::Added)
            &&& final(store)@ == add_result(old(store)@, number, field_text(val))
            &&& final(store).keys() == keys_with(old(store).keys(), old(store)@, number)
        },
        all_within_bounds(old(store)@) ==> all_within_bounds(final(store)@),
{
    if !authorized {
        return Handled { reply: Reply::InvalidToken, persist: false };
    }
    let number = convert_to_ten_digits(field_or_empty(key));
    let sender = field_or_empty(val);
    match store.add(number.as_str(), sender) {
        AddOutcome::Added => Handled { reply: Reply::NumberAdded, persist: true },
        AddOutcome::AlreadyExists => Handled { reply: Reply::NumberExists, persist: false },
    }
}

/// The `addmulti` endpoint: records the sender for the number, which may
/// hold two of them. Without a valid token nothing is done.
pub fn handle_addmulti(
    store: &mut Store,
    authorized: bool,
    key: Option<&str>,
    val: Option<&str>,
) -> (handled: Handled)
    ensures
        !authorized ==> {
            &&& handled == (Handled { reply: Reply::InvalidToken, persist: false })
            &&& final(store)@ == old(store)@
            &&& final(store).keys() == old(store).keys()
        },
        authorized ==> {
            let number = canonical_key(field_text(key));
            let sender = field_text(val);
            let outcome = add_sender_outcome(old(store)@, number, sender);
            &&& handled.reply == add_sender_reply(outcome, old(store)@.contains_key(number))
            &&& handled.persist == (outcome == SenderOutcome::Added)
            &&& final(store)@ == add_sender_result(old(store)@, number, sender)
            &&& final(store).keys() == keys_with(old(store).keys(), old(store)@, number)
        },
        all_within_bounds(old(store)@) ==> all_within_bounds(final(store)@),
{
    if !authorized {
        return Handled { reply: Reply::InvalidToken, persist: false };
    }
    let number = convert_to_ten_digits(field_or_empty(key));
    let sender = field_or_empty(val);
    let known = store.contains_key(number.as_str());
    match store.add_sender(number.as_str(), sender) {
        SenderOutcome::Added => Handled {
            reply: if known {
                Reply::SenderAdded
            } else {
                Reply::KeyAdded
            },
            persist: true,
        },
        SenderOutcome::AlreadyExists => Handled { reply: Reply::SenderExists, persist: false },
        SenderOutcome::CapacityReached => Handled { reply: Reply::SendersFull, persist: false },
    }
}

/// The `dump` endpoint: the store as CSV, or the refusal of an invalid
/// token.
pub fn handle_dump(store: &Store, authorized: bool) -> (reply: Result<String, Reply>)
    ensures
        match reply {
            Ok(text) => authorized && text@ == csv_text(records(store.keys(), store@)),
            Err(refusal) => !authorized && refusal == Reply::InvalidToken,
        },
{
    if !authorized {
        return Err(Reply::InvalidToken);
    }
    let rows = store.dump();
    Ok(render_csv(&rows))
}

/// The `clear` endpoint: erases the store once its contents are archived.
/// `archived` says whether they were; it is read only with a valid token.
/// Without one nothing is done.
pub fn handle_clear(store: &mut Store, authorized: bool, archived: bool) -> (handled: Handled)
    ensures
        !authorized ==> {
            &&& handled == (Handled { reply: Reply::InvalidToken, persist: false })
            &&& final(store)@ == old(store)@
            &&& final(store).keys() == old(store).keys()
        },
        authorized ==> {
            let outcome = clear_outcome(old(store)@, archived);
            &&& handled.reply == clear_reply(outcome)
            &&& handled.persist == (outcome == ClearOutcome::Cleared)
            &&& final(store)@ == clear_result(old(store)@, archived)
            &&& final(store).keys() == (if outcome == ClearOutcome::Cleared {
                Seq::empty()
            } else {
                old(store).keys()
            })
        },
        all_within_bounds(old(store)@) ==> all_within_bounds(final(store)@),
{
    if !authorized {
        return Handled { reply: Reply::InvalidToken, persist: false };
    }
    match store.clear(archived) {
        ClearOutcome::Cleared => Handled { reply: Reply::Cleared, persist: true },
        ClearOutcome::ArchiveFailed => Handled { reply: Reply::ArchiveFailed, persist: false },
    }
}

/// The `status` endpoint: the counts of the store with the uptime that the
/// caller measured, or the refusal of an invalid token.
pub fn handle_status(store: &Store, authorized: bool, uptime_seconds: u64) -> (reply: Result<
    Status,
    Reply,
>)
    ensures
        match reply {
            Ok(status) => {
                &&& authorized
                &&& status.keys == store.keys().len()
                &&& status.values == sender_total(store.keys(), store@)
                &&& status.uptime_seconds == uptime_seconds
            },
            Err(refusal) => !authorized && refusal == Reply::InvalidToken,
        },
{
    if !authorized {
        return Err(Reply::InvalidToken);
    }
    Ok(store.status(uptime_seconds))
}

} // verus!
