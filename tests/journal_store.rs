use journal::{
    create_journal_entry, delete_journal_entry, derive_address, update_journal_entry, CreateEntry,
    DeleteEntry, Journal, JournalEntryState, JournalError, UpdateEntry, MAX_FIELD_LEN,
};

const PROGRAM: [u8; 32] = [7u8; 32];
const ALICE: [u8; 32] = [1u8; 32];
const BOB: [u8; 32] = [2u8; 32];
const DEPOSIT: u64 = 5_122_560;

fn create(j: &mut Journal, owner: [u8; 32], title: &str, message: &str) -> Result<(), JournalError> {
    create_journal_entry(j, CreateEntry { owner, deposit: DEPOSIT }, title.to_string(), message.to_string())
}

fn update(j: &mut Journal, owner: [u8; 32], title: &str, message: &str) -> Result<(), JournalError> {
    update_journal_entry(j, UpdateEntry { owner }, title.to_string(), message.to_string())
}

fn delete(j: &mut Journal, owner: [u8; 32], title: &str) -> Result<u64, JournalError> {
    delete_journal_entry(j, DeleteEntry { owner }, title.to_string())
}

#[test]
fn create_then_read_round_trip() {
    let mut j = Journal::new(PROGRAM);
    assert_eq!(create(&mut j, ALICE, "T", "M"), Ok(()));
    let e = j.get("T", &ALICE).unwrap();
    assert_eq!(e.owner, ALICE);
    assert_eq!(e.title, "T");
    assert_eq!(e.message, "M");
    assert_eq!(j.len(), 1);
}

#[test]
fn second_create_fails_and_keeps_first() {
    let mut j = Journal::new(PROGRAM);
    assert_eq!(create(&mut j, ALICE, "T", "first"), Ok(()));
    assert_eq!(create(&mut j, ALICE, "T", "second"), Err(JournalError::AlreadyExists));
    assert_eq!(j.get("T", &ALICE).unwrap().message, "first");
    assert_eq!(j.len(), 1);
}

#[test]
fn same_title_different_owners_are_distinct() {
    let mut j = Journal::new(PROGRAM);
    assert_eq!(create(&mut j, ALICE, "T", "a"), Ok(()));
    assert_eq!(create(&mut j, BOB, "T", "b"), Ok(()));
    assert_eq!(j.get("T", &ALICE).unwrap().message, "a");
    assert_eq!(j.get("T", &BOB).unwrap().message, "b");
    assert_eq!(j.len(), 2);
}

#[test]
fn update_preserves_owner_and_title() {
    let mut j = Journal::new(PROGRAM);
    assert_eq!(create(&mut j, ALICE, "T", "M1"), Ok(()));
    assert_eq!(update(&mut j, ALICE, "T", "M2"), Ok(()));
    let e = j.get("T", &ALICE).unwrap();
    assert_eq!(e.owner, ALICE);
    assert_eq!(e.title, "T");
    assert_eq!(e.message, "M2");
}

#[test]
fn other_caller_cannot_reach_an_entry() {
    let mut j = Journal::new(PROGRAM);
    assert_eq!(create(&mut j, ALICE, "T", "M"), Ok(()));
    assert_eq!(update(&mut j, BOB, "T", "X"), Err(JournalError::NotFound));
    assert_eq!(delete(&mut j, BOB, "T"), Err(JournalError::NotFound));
    assert_eq!(j.get("T", &ALICE).unwrap().message, "M");
}

#[test]
fn delete_frees_the_key() {
    let mut j = Journal::new(PROGRAM);
    assert_eq!(create(&mut j, ALICE, "T", "M"), Ok(()));
    assert_eq!(delete(&mut j, ALICE, "T"), Ok(DEPOSIT));
    assert!(j.get("T", &ALICE).is_none());
    assert_eq!(j.len(), 0);
    assert_eq!(create(&mut j, ALICE, "T", "M2"), Ok(()));
    let e = j.get("T", &ALICE).unwrap();
    assert_eq!(e.message, "M2");
    assert_eq!(e.title, "T");
}

#[test]
fn delete_keeps_other_entries() {
    let mut j = Journal::new(PROGRAM);
    assert_eq!(create(&mut j, ALICE, "one", "1"), Ok(()));
    assert_eq!(create(&mut j, ALICE, "two", "2"), Ok(()));
    assert_eq!(create(&mut j, ALICE, "three", "3"), Ok(()));
    assert_eq!(delete(&mut j, ALICE, "two"), Ok(DEPOSIT));
    assert_eq!(j.get("one", &ALICE).unwrap().message, "1");
    assert!(j.get("two", &ALICE).is_none());
    assert_eq!(j.get("three", &ALICE).unwrap().message, "3");
    assert_eq!(j.len(), 2);
}

#[test]
fn update_and_delete_on_absent_key_not_found() {
    let mut j = Journal::new(PROGRAM);
    assert_eq!(update(&mut j, ALICE, "T", "M"), Err(JournalError::NotFound));
    assert_eq!(delete(&mut j, ALICE, "T"), Err(JournalError::NotFound));
    assert_eq!(j.len(), 0);
}

#[test]
fn title_and_message_of_max_length_succeed() {
    let mut j = Journal::new(PROGRAM);
    let title = "t".repeat(280);
    let message = "m".repeat(280);
    assert_eq!(MAX_FIELD_LEN, 280);
    assert_eq!(create(&mut j, ALICE, &title, &message), Ok(()));
    assert_eq!(j.get(&title, &ALICE).unwrap().message, message);
    assert_eq!(update(&mut j, ALICE, &title, &"n".repeat(280)), Ok(()));
}

#[test]
fn title_over_max_length_fails() {
    let mut j = Journal::new(PROGRAM);
    let title = "t".repeat(281);
    assert_eq!(create(&mut j, ALICE, &title, "M"), Err(JournalError::FieldTooLong));
    assert!(j.get(&title, &ALICE).is_none());
}

#[test]
fn message_over_max_length_fails() {
    let mut j = Journal::new(PROGRAM);
    assert_eq!(create(&mut j, ALICE, "T", &"m".repeat(281)), Err(JournalError::FieldTooLong));
    assert_eq!(create(&mut j, ALICE, "T", "M"), Ok(()));
    assert_eq!(update(&mut j, ALICE, "T", &"m".repeat(281)), Err(JournalError::FieldTooLong));
    assert_eq!(j.get("T", &ALICE).unwrap().message, "M");
}

#[test]
fn length_counts_bytes_not_characters() {
    let mut j = Journal::new(PROGRAM);
    // 140 two-byte characters take 280 bytes; 141 take 282.
    assert_eq!(create(&mut j, ALICE, "T", &"é".repeat(140)), Ok(()));
    assert_eq!(create(&mut j, ALICE, "U", &"é".repeat(141)), Err(JournalError::FieldTooLong));
}

#[test]
fn empty_title_and_message_are_accepted() {
    let mut j = Journal::new(PROGRAM);
    assert_eq!(create(&mut j, ALICE, "", ""), Ok(()));
    assert_eq!(j.get("", &ALICE).unwrap().message, "");
}

#[test]
fn existing_key_reported_before_length() {
    let mut j = Journal::new(PROGRAM);
    assert_eq!(create(&mut j, ALICE, "T", "M"), Ok(()));
    assert_eq!(create(&mut j, ALICE, "T", &"m".repeat(281)), Err(JournalError::AlreadyExists));
}

#[test]
fn derived_address_is_deterministic() {
    let a1 = derive_address(&PROGRAM, "T", &ALICE).unwrap();
    let a2 = derive_address(&PROGRAM, "T", &ALICE).unwrap();
    assert_eq!(a1, a2);
}

#[test]
fn derived_address_depends_on_title_owner_and_program() {
    let base = derive_address(&PROGRAM, "T", &ALICE).unwrap();
    assert_ne!(base, derive_address(&PROGRAM, "U", &ALICE).unwrap());
    assert_ne!(base, derive_address(&PROGRAM, "T", &BOB).unwrap());
    assert_ne!(base, derive_address(&[8u8; 32], "T", &ALICE).unwrap());
    assert_ne!(base, ALICE);
    assert_ne!(base, PROGRAM);
}

#[test]
fn long_titles_have_an_address() {
    assert!(derive_address(&PROGRAM, &"t".repeat(280), &ALICE).is_some());
}

#[test]
fn journal_keeps_its_program_id() {
    let j = Journal::new(PROGRAM);
    assert_eq!(j.program_id(), PROGRAM);
    assert_eq!(j.len(), 0);
}

#[test]
fn account_space_reserves_maximum_lengths() {
    assert_eq!(JournalEntryState::account_space(), 8 + 32 + 4 + 280 + 4 + 280);
    assert_eq!(JournalEntryState::INIT_SPACE, 600);
}

#[test]
fn delete_returns_the_deposit_paid_for_that_entry() {
    let mut j = Journal::new(PROGRAM);
    let first = CreateEntry { owner: ALICE, deposit: 10 };
    let second = CreateEntry { owner: ALICE, deposit: 20 };
    assert_eq!(create_journal_entry(&mut j, first, "a".to_string(), "x".to_string()), Ok(()));
    assert_eq!(create_journal_entry(&mut j, second, "b".to_string(), "y".to_string()), Ok(()));
    assert_eq!(update(&mut j, ALICE, "a", "z"), Ok(()));
    assert_eq!(delete(&mut j, ALICE, "b"), Ok(20));
    assert_eq!(delete(&mut j, ALICE, "a"), Ok(10));
    assert_eq!(delete(&mut j, ALICE, "a"), Err(JournalError::NotFound));
}
