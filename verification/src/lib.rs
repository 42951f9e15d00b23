//! A keyed store of phone numbers and the senders that have texted them.
//!
//! Every number is kept under a canonical key of at most ten digits, with at
//! most two senders per key, in the order in which they were first recorded.
//! The store is plain data: the caller puts it behind its own lock, reads
//! and writes the files, and serves the endpoints whose decisions `api`
//! makes.

pub mod api;
pub mod archive;
pub mod csv;
pub mod entry;
pub mod normalizer;
pub mod snapshot;
pub mod startup;
pub mod store;
pub mod text;

pub use api::handle_add;
pub use api::handle_addmulti;
pub use api::handle_clear;
pub use api::handle_dump;
pub use api::handle_status;
pub use api::is_valid_token;
pub use api::Handled;
pub use api::Reply;
pub use archive::archive_data;
pub use archive::archive_file_name;
pub use archive::build_archive;
pub use archive::pack_rows;
pub use archive::Archive;
pub use archive::ArchiveError;
pub use csv::render_csv;
pub use entry::Entry;
pub use entry::SenderOutcome;
pub use entry::MAX_SENDERS;
pub use normalizer::convert_to_ten_digits;
pub use normalizer::letter_to_digit;
pub use snapshot::decode_snapshot;
pub use snapshot::encode_snapshot;
pub use snapshot::restore;
pub use startup::choose_port;
pub use startup::parse_tokens;
pub use store::AddOutcome;
pub use store::ClearOutcome;
pub use store::Status;
pub use store::Store;

use vstd::prelude::*;

verus! {

/// The file that holds the snapshot of the store.
pub const DATA_FILE: &'static str = "n2o_data.json";

} // verus!
