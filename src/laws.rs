use vstd::prelude::*;

use crate::address::address_for;
use crate::entry::{byte_len, EntryView, JournalError, MAX_FIELD_LEN};
use crate::journal::{create_result, delete_result, journal_valid, lookup, update_result, JournalView};

verus! {

/// Whether two maps of entries agree at address `b`.
pub open spec fn agree_at(m1: Map<Seq<u8>, EntryView>, m2: Map<Seq<u8>, EntryView>, b: Seq<u8>) -> bool {
    &&& m1.contains_key(b) == m2.contains_key(b)
    &&& m1.contains_key(b) ==> m1[b] == m2[b]
}

/// The address of an entry is a function of its title and owner alone: create,
/// update and delete with one title and owner all act at that one address, and
/// leave the entry at every other address as it was.
pub proof fn lemma_operations_target_derived_address(
    j: JournalView,
    owner: Seq<u8>,
    title: Seq<char>,
    message: Seq<char>,
    deposit: u64,
    b: Seq<u8>,
)
    requires
        address_for(j.program_id, title, owner) != Some(b),
    ensures
        agree_at(create_result(j, owner, title, message, deposit).0.entries, j.entries, b),
        agree_at(update_result(j, owner, title, message).0.entries, j.entries, b),
        agree_at(delete_result(j, owner, title).0.entries, j.entries, b),
        create_result(j, owner, title, message, deposit).0.deposits.contains_key(b)
            == j.deposits.contains_key(b),
        update_result(j, owner, title, message).0.deposits == j.deposits,
        delete_result(j, owner, title).0.deposits.contains_key(b) == j.deposits.contains_key(b),
        create_result(j, owner, title, message, deposit).0.program_id == j.program_id,
        update_result(j, owner, title, message).0.program_id == j.program_id,
        delete_result(j, owner, title).0.program_id == j.program_id,
{
}

/// Once a create has succeeded, a second create with the same title and owner
/// fails with `AlreadyExists` and leaves the journal, and the first entry, as
/// they were.
pub proof fn lemma_second_create_fails(
    j: JournalView,
    owner: Seq<u8>,
    title: Seq<char>,
    message: Seq<char>,
    deposit: u64,
    other_message: Seq<char>,
    other_deposit: u64,
)
    requires
        create_result(j, owner, title, message, deposit).1 is Ok,
    ensures
        ({
            let j1 = create_result(j, owner, title, message, deposit).0;
            &&& create_result(j1, owner, title, other_message, other_deposit) == (j1, Err::<(), JournalError>(
                JournalError::AlreadyExists,
            ))
            &&& lookup(j1, title, owner) == Some(EntryView { owner, title, message })
        }),
{
}

/// After a successful create, a read by the same title and owner finds exactly
/// the entry that was created.
pub proof fn lemma_create_then_read(
    j: JournalView,
    owner: Seq<u8>,
    title: Seq<char>,
    message: Seq<char>,
    deposit: u64,
)
    requires
        create_result(j, owner, title, message, deposit).1 is Ok,
    ensures
        lookup(create_result(j, owner, title, message, deposit).0, title, owner) == Some(
            EntryView { owner, title, message },
        ),
{
}

/// After a successful create, an update with the same title and owner and a
/// message within bounds succeeds; the entry keeps its owner and title and holds
/// the new message.
pub proof fn lemma_update_preserves_identity(
    j: JournalView,
    owner: Seq<u8>,
    title: Seq<char>,
    message: Seq<char>,
    deposit: u64,
    new_message: Seq<char>,
)
    requires
        create_result(j, owner, title, message, deposit).1 is Ok,
        byte_len(new_message) <= MAX_FIELD_LEN,
    ensures
        ({
            let j1 = create_result(j, owner, title, message, deposit).0;
            let (j2, r) = update_result(j1, owner, title, new_message);
            &&& r is Ok
            &&& lookup(j2, title, owner) == Some(EntryView { owner, title, message: new_message })
        }),
{
}

/// After a successful create, a delete with the same title and owner succeeds,
/// gives back the deposit, and frees the address: nothing is found there, and a
/// new create with a message within bounds succeeds and holds the new message.
pub proof fn lemma_delete_frees_key(
    j: JournalView,
    owner: Seq<u8>,
    title: Seq<char>,
    message: Seq<char>,
    deposit: u64,
    new_message: Seq<char>,
    new_deposit: u64,
)
    requires
        journal_valid(j),
        create_result(j, owner, title, message, deposit).1 is Ok,
        byte_len(new_message) <= MAX_FIELD_LEN,
    ensures
        ({
            let j1 = create_result(j, owner, title, message, deposit).0;
            let (j2, r) = delete_result(j1, owner, title);
            let (j3, r3) = create_result(j2, owner, title, new_message, new_deposit);
            &&& r == Ok::<u64, JournalError>(deposit)
            &&& lookup(j2, title, owner) is None
            &&& j2.entries == j.entries
            &&& j2.deposits == j.deposits
            &&& r3 is Ok
            &&& lookup(j3, title, owner) == Some(EntryView { owner, title, message: new_message })
        }),
{
    let j1 = create_result(j, owner, title, message, deposit).0;
    let a = address_for(j.program_id, title, owner)->Some_0;
    assert(j1.entries.remove(a) =~= j.entries);
    assert(j1.deposits.remove(a) =~= j.deposits);
}

/// Where nothing is stored under a title and owner, update and delete fail with
/// `NotFound` and change nothing.
pub proof fn lemma_absent_key_not_found(j: JournalView, owner: Seq<u8>, title: Seq<char>, message: Seq<char>)
    requires
        lookup(j, title, owner) is None,
    ensures
        update_result(j, owner, title, message) == (j, Err::<(), JournalError>(JournalError::NotFound)),
        delete_result(j, owner, title) == (j, Err::<u64, JournalError>(JournalError::NotFound)),
{
}

/// At a free address, a create succeeds exactly when title and message each
/// take at most `MAX_FIELD_LEN` bytes, and fails with `FieldTooLong` otherwise.
pub proof fn lemma_length_boundary(
    j: JournalView,
    owner: Seq<u8>,
    title: Seq<char>,
    message: Seq<char>,
    deposit: u64,
)
    requires
        address_for(j.program_id, title, owner) is Some,
        lookup(j, title, owner) is None,
    ensures
        (create_result(j, owner, title, message, deposit).1 is Ok) == (byte_len(title) <= MAX_FIELD_LEN
            && byte_len(message) <= MAX_FIELD_LEN),
        (create_result(j, owner, title, message, deposit).1 is Err) ==> create_result(
            j,
            owner,
            title,
            message,
            deposit,
        ).1 == Err::<(), JournalError>(JournalError::FieldTooLong),
{
}

} // verus!
