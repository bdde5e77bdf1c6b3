//! A keyed store of journal entries. Each entry lives at an address derived
//! from its title and its owner's identity, and is created, updated and
//! deleted through three checked operations.

mod address;
mod entry;
mod journal;
mod laws;
mod table;

pub use address::{address_for, derive_address, program_address_of, sha256_of};
pub use entry::{
    byte_len, CreateEntry, DeleteEntry, EntryView, JournalEntryState, JournalError, UpdateEntry,
    DISCRIMINATOR_LEN, MAX_FIELD_LEN,
};
pub use journal::{
    create_journal_entry, create_result, delete_journal_entry, delete_result, journal_valid,
    lookup, update_journal_entry, update_result, Journal, JournalView,
};
pub use laws::{
    agree_at, lemma_absent_key_not_found, lemma_create_then_read, lemma_delete_frees_key,
    lemma_length_boundary, lemma_operations_target_derived_address, lemma_second_create_fails,
    lemma_update_preserves_identity,
};
pub use table::{entry_fits, table_valid, EntryTable, TableView};
