use vstd::prelude::*;

use crate::address::{address_for, derive_address};
use crate::entry::{
    byte_len, CreateEntry, DeleteEntry, EntryView, JournalEntryState, JournalError, UpdateEntry,
    MAX_FIELD_LEN,
};
use crate::table::{table_valid, EntryTable, TableView};

verus! {

/// The mathematical value of a journal: the program that derives its addresses,
/// the entry stored at each occupied address, and the deposit paid for it.
pub struct JournalView {
    pub program_id: Seq<u8>,
    pub entries: Map<Seq<u8>, EntryView>,
    pub deposits: Map<Seq<u8>, u64>,
}

/// The store of journal entries kept by one program.
pub struct Journal {
    program_id: [u8; 32],
    table: EntryTable,
}

impl View for Journal {
    type V = JournalView;

    closed spec fn view(&self) -> JournalView {
        JournalView {
            program_id: self.program_id@,
            entries: self.table@.entries,
            deposits: self.table@.deposits,
        }
    }
}

/// What a journal must satisfy: its table is valid, and every entry stands at
/// the address derived from its own title and owner.
pub open spec fn journal_valid(j: JournalView) -> bool {
    &&& j.program_id.len() == 32
    &&& table_valid(TableView { entries: j.entries, deposits: j.deposits })
    &&& forall|a: Seq<u8>| #[trigger] j.entries.contains_key(a) ==> address_for(
        j.program_id,
        j.entries[a].title,
        j.entries[a].owner,
    ) == Some(a)
}

/// The entry that a read by title and owner finds, if any.
pub open spec fn lookup(j: JournalView, title: Seq<char>, owner: Seq<u8>) -> Option<EntryView> {
    match address_for(j.program_id, title, owner) {
        Some(a) => if j.entries.contains_key(a) { Some(j.entries[a]) } else { None },
        None => None,
    }
}

/// The journal and the outcome after `owner` creates an entry.
pub open spec fn create_result(
    j: JournalView,
    owner: Seq<u8>,
    title: Seq<char>,
    message: Seq<char>,
    deposit: u64,
) -> (JournalView, Result<(), JournalError>) {
    match address_for(j.program_id, title, owner) {
        None => (j, Err(JournalError::NoViableAddress)),
        Some(a) => if j.entries.contains_key(a) {
            (j, Err(JournalError::AlreadyExists))
        } else if byte_len(title) > MAX_FIELD_LEN || byte_len(message) > MAX_FIELD_LEN {
            (j, Err(JournalError::FieldTooLong))
        } else {
            (
                JournalView {
                    program_id: j.program_id,
                    entries: j.entries.insert(a, EntryView { owner, title, message }),
                    deposits: j.deposits.insert(a, deposit),
                },
                Ok(()),
            )
        },
    }
}

/// The journal and the outcome after `owner` replaces the message of an entry.
pub open spec fn update_result(
    j: JournalView,
    owner: Seq<u8>,
    title: Seq<char>,
    message: Seq<char>,
) -> (JournalView, Result<(), JournalError>) {
    match address_for(j.program_id, title, owner) {
        Some(a) => if !j.entries.contains_key(a) {
            (j, Err(JournalError::NotFound))
        } else if byte_len(message) > MAX_FIELD_LEN {
            (j, Err(JournalError::FieldTooLong))
        } else {
            (
                JournalView {
                    program_id: j.program_id,
                    entries: j.entries.insert(a, EntryView { message, ..j.entries[a] }),
                    deposits: j.deposits,
                },
                Ok(()),
            )
        },
        None => (j, Err(JournalError::NotFound)),
    }
}

/// The journal and the outcome after `owner` deletes an entry: on success, the
/// deposit given back to `owner`.
pub open spec fn delete_result(j: JournalView, owner: Seq<u8>, title: Seq<char>) -> (
    JournalView,
    Result<u64, JournalError>,
) {
    match address_for(j.program_id, title, owner) {
        Some(a) => if !j.entries.contains_key(a) {
            (j, Err(JournalError::NotFound))
        } else {
            (
                JournalView {
                    program_id: j.program_id,
                    entries: j.entries.remove(a),
                    deposits: j.deposits.remove(a),
                },
                Ok(j.deposits[a]),
            )
        },
        None => (j, Err(JournalError::NotFound)),
    }
}

impl Journal {
    /// A journal that is well formed.
    pub closed spec fn wf(&self) -> bool {
        self.table.wf() && journal_valid(self@)
    }

    /// What every well-formed journal satisfies.
    pub proof fn lemma_wf_valid(&self)
        requires
            self.wf(),
        ensures
            journal_valid(self@),
    {
    }

    /// An empty journal whose addresses are derived under `program_id`.
    pub fn new(program_id: [u8; 32]) -> (r: Journal)
        ensures
            r.wf(),
            r@.program_id == program_id@,
            r@.entries == Map::<Seq<u8>, EntryView>::empty(),
            r@.deposits == Map::<Seq<u8>, u64>::empty(),
    {
        Journal { program_id, table: EntryTable::new() }
    }

    /// The id of the program that derives this journal's addresses.
    pub fn program_id(&self) -> (r: [u8; 32])
        ensures
            r@ == self@.program_id,
    {
        self.program_id
    }

    /// Number of entries stored.
    pub fn len(&self) -> (r: usize)
        requires
            self.wf(),
        ensures
            r == self@.entries.len(),
    {
        self.table.len()
    }

    /// The entry with this title and owner, if one is stored.
    pub fn get(&self, title: &str, owner: &[u8; 32]) -> (r: Option<&JournalEntryState>)
        requires
            self.wf(),
        ensures
            match r {
                Some(e) => lookup(self@, title@, owner@) == Some(e@),
                None => lookup(self@, title@, owner@) is None,
            },
    {
        match derive_address(&self.program_id, title, owner) {
            None => None,
            Some(address) => self.table.get(&address),
        }
    }
}

/// Creates the entry `(ctx.owner, title, message)` at the address derived from
/// `title` and the caller, holding the caller's deposit for it. Fails with
/// `AlreadyExists` where an entry lives there, and with `FieldTooLong` where
/// either text is longer than `MAX_FIELD_LEN` bytes.
pub fn create_journal_entry(journal: &mut Journal, ctx: CreateEntry, title: String, message: String) -> (r: Result<(), JournalError>)
    requires
        old(journal).wf(),
    ensures
        final(journal).wf(),
        (final(journal)@, r) == create_result(old(journal)@, ctx.owner@, title@, message@, ctx.deposit),
{
    let address = match derive_address(&journal.program_id, title.as_str(), &ctx.owner) {
        Some(a) => a,
        None => return Err(JournalError::NoViableAddress),
    };
    let entry = JournalEntryState { owner: ctx.owner, title, message };
    journal.table.insert(address, entry, ctx.deposit)
}

/// Replaces the message of the entry at the address derived from `title` and the
/// caller; its owner and title stay. Fails with `NotFound` where no entry lives
/// there, and with `FieldTooLong` where the message is longer than `MAX_FIELD_LEN`
/// bytes.
pub fn update_journal_entry(journal: &mut Journal, ctx: UpdateEntry, title: String, message: String) -> (r: Result<(), JournalError>)
    requires
        old(journal).wf(),
    ensures
        final(journal).wf(),
        (final(journal)@, r) == update_result(old(journal)@, ctx.owner@, title@, message@),
{
    let address = match derive_address(&journal.program_id, title.as_str(), &ctx.owner) {
        Some(a) => a,
        None => return Err(JournalError::NotFound),
    };
    journal.table.set_message(&address, message)
}

/// Deletes the entry at the address derived from `title` and the caller, which
/// frees that address, and returns the deposit that is given back to the caller.
/// Fails with `NotFound` where no entry lives there.
pub fn delete_journal_entry(journal: &mut Journal, ctx: DeleteEntry, title: String) -> (r: Result<u64, JournalError>)
    requires
        old(journal).wf(),
    ensures
        final(journal).wf(),
        (final(journal)@, r) == delete_result(old(journal)@, ctx.owner@, title@),
{
    let address = match derive_address(&journal.program_id, title.as_str(), &ctx.owner) {
        Some(a) => a,
        None => return Err(JournalError::NotFound),
    };
    journal.table.remove(&address)
}

} // verus!
