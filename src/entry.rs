use vstd::prelude::*;
use vstd::utf8::encode_utf8;

verus! {

/// Largest number of bytes that a title or a message may hold.
pub const MAX_FIELD_LEN: usize = 280;

/// Bytes at the start of a stored entry that tag its kind.
pub const DISCRIMINATOR_LEN: usize = 8;

/// Number of bytes that a string takes once encoded as UTF-8.
pub open spec fn byte_len(s: Seq<char>) -> nat {
    encode_utf8(s).len()
}

/// Why an operation on the journal failed. A failed operation changes nothing.
#[derive(Clone, Copy, Debug, PartialEq, Eq, Structural)]
pub enum JournalError {
    /// An entry already lives at the derived address.
    AlreadyExists,
    /// No entry lives at the derived address.
    NotFound,
    /// The title or the message is longer than `MAX_FIELD_LEN` bytes.
    FieldTooLong,
    /// No bump seed yields a valid program address for this title and owner.
    NoViableAddress,
}

/// The caller of a create: the signer, who owns the new entry and pays for its
/// storage.
pub struct CreateEntry {
    pub owner: [u8; 32],
    /// Funds that the caller pays to keep the entry's `account_space()` bytes
    /// allocated; they are given back when the entry is deleted.
    pub deposit: u64,
}

/// The caller of an update: the signer whose identity, with the title, locates the entry.
pub struct UpdateEntry {
    pub owner: [u8; 32],
}

/// The caller of a delete: the signer whose identity, with the title, locates the
/// entry, and who gets back the storage deposit.
pub struct DeleteEntry {
    pub owner: [u8; 32],
}

/// A stored journal entry.
#[derive(Debug)]
pub struct JournalEntryState {
    pub owner: [u8; 32],
    pub title: String,
    pub message: String,
}

/// The mathematical value of a journal entry.
pub struct EntryView {
    pub owner: Seq<u8>,
    pub title: Seq<char>,
    pub message: Seq<char>,
}

impl View for JournalEntryState {
    type V = EntryView;

    open spec fn view(&self) -> EntryView {
        EntryView { owner: self.owner@, title: self.title@, message: self.message@ }
    }
}

impl JournalEntryState {
    /// Bytes reserved for an entry's fields: the owner, then the title and the
    /// message, each a four-byte length and room for `MAX_FIELD_LEN` bytes.
    pub const INIT_SPACE: usize = 32 + (4 + MAX_FIELD_LEN) + (4 + MAX_FIELD_LEN);

    /// Bytes allocated for every entry, whatever its content: the discriminator
    /// followed by the reserved space.
    pub fn account_space() -> (r: usize)
        ensures
            r == DISCRIMINATOR_LEN + 32 + 4 + MAX_FIELD_LEN + 4 + MAX_FIELD_LEN,
    {
        DISCRIMINATOR_LEN + Self::INIT_SPACE
    }
}

} // verus!
