use vstd::prelude::*;

use crate::entry::{byte_len, EntryView, JournalEntryState, JournalError, MAX_FIELD_LEN};

verus! {

/// One occupied address, the entry stored there, and the deposit paid for it.
struct Slot {
    address: [u8; 32],
    entry: JournalEntryState,
    deposit: u64,
}

/// The mathematical value of a table: the entry and the deposit held at each
/// occupied address.
pub struct TableView {
    pub entries: Map<Seq<u8>, EntryView>,
    pub deposits: Map<Seq<u8>, u64>,
}

/// Entries stored by address, at most one per address.
pub struct EntryTable {
    slots: Vec<Slot>,
    entries: Ghost<Map<Seq<u8>, EntryView>>,
    deposits: Ghost<Map<Seq<u8>, u64>>,
}

impl View for EntryTable {
    type V = TableView;

    closed spec fn view(&self) -> TableView {
        TableView { entries: self.entries@, deposits: self.deposits@ }
    }
}

/// Whether an entry's fields are within bounds.
pub open spec fn entry_fits(e: EntryView) -> bool {
    byte_len(e.title) <= MAX_FIELD_LEN && byte_len(e.message) <= MAX_FIELD_LEN
}

/// What a table must satisfy: a deposit is held for every entry and for nothing
/// else, and every entry is within bounds.
pub open spec fn table_valid(t: TableView) -> bool {
    &&& t.deposits.dom() == t.entries.dom()
    &&& forall|a: Seq<u8>| #[trigger] t.entries.contains_key(a) ==> entry_fits(t.entries[a])
}

/// Whether two byte arrays hold the same bytes.
fn same_address(a: &[u8; 32], b: &[u8; 32]) -> (r: bool)
    ensures
        r == (a@ == b@),
{
    let mut i: usize = 0;
    while i < 32
        invariant
            i <= 32,
            a@.len() == 32,
            b@.len() == 32,
            forall|k: int| 0 <= k < i ==> a@[k] == b@[k],
        decreases 32 - i,
    {
        if a[i] != b[i] {
            return false;
        }
        i = i + 1;
    }
    assert(a@ =~= b@);
    true
}

impl EntryTable {
    /// The slots and the ghost maps agree, and addresses are unique.
    pub closed spec fn inv(&self) -> bool {
        &&& forall|i: int, k: int|
            0 <= i < self.slots@.len() && 0 <= k < self.slots@.len() && i != k
                ==> #[trigger] self.slots@[i].address@ != #[trigger] self.slots@[k].address@
        &&& forall|i: int| 0 <= i < self.slots@.len() ==> {
            &&& #[trigger] self.entries@.contains_key(self.slots@[i].address@)
            &&& self.entries@[self.slots@[i].address@] == self.slots@[i].entry@
            &&& self.deposits@[self.slots@[i].address@] == self.slots@[i].deposit
        }
        &&& forall|a: Seq<u8>| #[trigger] self.entries@.contains_key(a) ==> exists|i: int|
            0 <= i < self.slots@.len() && #[trigger] self.slots@[i].address@ == a
    }

    /// A table that is well formed.
    pub open spec fn wf(&self) -> bool {
        self.inv() && table_valid(self@)
    }

    /// An empty table.
    pub fn new() -> (r: EntryTable)
        ensures
            r.wf(),
            r@.entries == Map::<Seq<u8>, EntryView>::empty(),
            r@.deposits == Map::<Seq<u8>, u64>::empty(),
    {
        EntryTable { slots: Vec::new(), entries: Ghost(Map::empty()), deposits: Ghost(Map::empty()) }
    }

    /// Number of entries stored.
    pub fn len(&self) -> (r: usize)
        requires
            self.wf(),
        ensures
            r == self@.entries.len(),
    {
        proof { self.lemma_len(); }
        self.slots.len()
    }

    proof fn lemma_len(&self)
        requires
            self.inv(),
        ensures
            self@.entries.len() == self.slots@.len(),
    {
        let addrs = Seq::new(self.slots@.len(), |i: int| self.slots@[i].address@);
        assert(addrs.no_duplicates());
        assert(addrs.to_set() =~= self.entries@.dom()) by {
            assert forall|a: Seq<u8>| addrs.to_set().contains(a) implies self.entries@.contains_key(a) by {
                let i = choose|i: int| 0 <= i < addrs.len() && addrs[i] == a;
                assert(self.slots@[i].address@ == a);
            }
            assert forall|a: Seq<u8>| self.entries@.contains_key(a) implies addrs.to_set().contains(a) by {
                let i = choose|i: int| 0 <= i < self.slots@.len() && #[trigger] self.slots@[i].address@ == a;
                assert(addrs[i] == a);
            }
        }
        addrs.unique_seq_to_set();
    }

    /// Index of the slot at `address`, if it is occupied.
    fn find(&self, address: &[u8; 32]) -> (r: Option<usize>)
        requires
            self.inv(),
        ensures
            match r {
                Some(i) => i < self.slots@.len() && self.slots@[i as int].address@ == address@,
                None => !self@.entries.contains_key(address@),
            },
    {
        let mut i: usize = 0;
        while i < self.slots.len()
            invariant
                self.inv(),
                i <= self.slots@.len(),
                forall|k: int| 0 <= k < i ==> self.slots@[k].address@ != address@,
            decreases self.slots@.len() - i,
        {
            if same_address(&self.slots[i].address, address) {
                return Some(i);
            }
            i = i + 1;
        }
        None
    }

    /// The entry stored at `address`, if any.
    pub fn get(&self, address: &[u8; 32]) -> (r: Option<&JournalEntryState>)
        requires
            self.wf(),
        ensures
            match r {
                Some(e) => self@.entries.contains_key(address@) && self@.entries[address@] == e@,
                None => !self@.entries.contains_key(address@),
            },
    {
        match self.find(address) {
            Some(i) => {
                assert(self.entries@.contains_key(self.slots@[i as int].address@));
                Some(&self.slots[i].entry)
            },
            None => None,
        }
    }

    /// Stores `entry` at `address`, holding `deposit` for it. Fails with
    /// `AlreadyExists` where the address is occupied, and then with `FieldTooLong`
    /// where the title or the message is longer than `MAX_FIELD_LEN` bytes.
    pub fn insert(&mut self, address: [u8; 32], entry: JournalEntryState, deposit: u64) -> (r: Result<(), JournalError>)
        requires
            old(self).wf(),
        ensures
            final(self).wf(),
            old(self)@.entries.contains_key(address@) ==> r == Err::<(), JournalError>(JournalError::AlreadyExists)
                && final(self)@ == old(self)@,
            !old(self)@.entries.contains_key(address@) && !entry_fits(entry@) ==> r == Err::<(), JournalError>(
                JournalError::FieldTooLong,
            ) && final(self)@ == old(self)@,
            !old(self)@.entries.contains_key(address@) && entry_fits(entry@) ==> r == Ok::<(), JournalError>(())
                && final(self)@.entries == old(self)@.entries.insert(address@, entry@)
                && final(self)@.deposits == old(self)@.deposits.insert(address@, deposit),
    {
        if self.find(&address).is_some() {
            return Err(JournalError::AlreadyExists);
        }
        if entry.title.as_str().as_bytes().len() > MAX_FIELD_LEN || entry.message.as_str().as_bytes().len() > MAX_FIELD_LEN {
            return Err(JournalError::FieldTooLong);
        }
        let ghost view = entry@;
        self.slots.push(Slot { address, entry, deposit });
        self.entries = Ghost(self.entries@.insert(address@, view));
        self.deposits = Ghost(self.deposits@.insert(address@, deposit));
        proof {
            let n = self.slots@.len() - 1;
            assert(self.slots@[n].address@ == address@);
            assert forall|a: Seq<u8>| #[trigger] self.entries@.contains_key(a) implies exists|i: int|
                0 <= i < self.slots@.len() && #[trigger] self.slots@[i].address@ == a by {
                if a != address@ {
                    let i = choose|i: int| 0 <= i < old(self).slots@.len() && #[trigger] old(self).slots@[i].address@ == a;
                    assert(self.slots@[i] == old(self).slots@[i]);
                }
            }
        }
        Ok(())
    }

    /// Replaces the message of the entry at `address`; its owner, title and
    /// deposit stay. Fails with `NotFound` where the address is free, and then
    /// with `FieldTooLong` where the message is longer than `MAX_FIELD_LEN` bytes.
    pub fn set_message(&mut self, address: &[u8; 32], message: String) -> (r: Result<(), JournalError>)
        requires
            old(self).wf(),
        ensures
            final(self).wf(),
            !old(self)@.entries.contains_key(address@) ==> r == Err::<(), JournalError>(JournalError::NotFound)
                && final(self)@ == old(self)@,
            old(self)@.entries.contains_key(address@) && byte_len(message@) > MAX_FIELD_LEN ==> r == Err::<(), JournalError>(
                JournalError::FieldTooLong,
            ) && final(self)@ == old(self)@,
            old(self)@.entries.contains_key(address@) && byte_len(message@) <= MAX_FIELD_LEN ==> r == Ok::<(), JournalError>(())
                && final(self)@.entries == old(self)@.entries.insert(
                    address@,
                    EntryView { message: message@, ..old(self)@.entries[address@] },
                )
                && final(self)@.deposits == old(self)@.deposits,
    {
        let i = match self.find(address) {
            Some(i) => i,
            None => return Err(JournalError::NotFound),
        };
        if message.as_str().as_bytes().len() > MAX_FIELD_LEN {
            return Err(JournalError::FieldTooLong);
        }
        let ghost before = self.slots@[i as int];
        assert(self.entries@.contains_key(before.address@));
        assert(self.entries@[address@] == before.entry@);
        self.slots[i].entry.message = message;
        assert(self.slots@[i as int].entry.owner == before.entry.owner);
        assert(self.slots@[i as int].entry.title == before.entry.title);
        assert(self.slots@[i as int].address == before.address);
        assert(self.slots@[i as int].deposit == before.deposit);
        let ghost view = self.slots@[i as int].entry@;
        self.entries = Ghost(self.entries@.insert(address@, view));
        proof {
            assert(self.entries@.dom() =~= old(self).entries@.dom());
            assert(view == EntryView { message: message@, ..old(self).entries@[address@] });
            assert forall|k: int| 0 <= k < self.slots@.len() implies {
                &&& #[trigger] self.entries@.contains_key(self.slots@[k].address@)
                &&& self.entries@[self.slots@[k].address@] == self.slots@[k].entry@
                &&& self.deposits@[self.slots@[k].address@] == self.slots@[k].deposit
            } by {
                if k != i {
                    assert(self.slots@[k] == old(self).slots@[k]);
                    assert(old(self).entries@.contains_key(old(self).slots@[k].address@));
                    assert(old(self).slots@[k].address@ != old(self).slots@[i as int].address@);
                } else {
                    assert(self.slots@[k].address@ == address@);
                }
            }
            assert forall|a: Seq<u8>| #[trigger] self.entries@.contains_key(a) implies exists|k: int|
                0 <= k < self.slots@.len() && #[trigger] self.slots@[k].address@ == a by {
                let k = choose|k: int| 0 <= k < old(self).slots@.len() && #[trigger] old(self).slots@[k].address@ == a;
                assert(self.slots@[k].address@ == old(self).slots@[k].address@);
            }
        }
        Ok(())
    }

    /// Removes the entry at `address` and returns the deposit held for it. Fails
    /// with `NotFound` where the address is free.
    pub fn remove(&mut self, address: &[u8; 32]) -> (r: Result<u64, JournalError>)
        requires
            old(self).wf(),
        ensures
            final(self).wf(),
            !old(self)@.entries.contains_key(address@) ==> r == Err::<u64, JournalError>(JournalError::NotFound)
                && final(self)@ == old(self)@,
            old(self)@.entries.contains_key(address@) ==> r == Ok::<u64, JournalError>(old(self)@.deposits[address@])
                && final(self)@.entries == old(self)@.entries.remove(address@)
                && final(self)@.deposits == old(self)@.deposits.remove(address@),
    {
        let i = match self.find(address) {
            Some(i) => i,
            None => return Err(JournalError::NotFound),
        };
        let closed = self.slots.remove(i);
        self.entries = Ghost(self.entries@.remove(address@));
        self.deposits = Ghost(self.deposits@.remove(address@));
        proof {
            let olds = old(self).slots@;
            let news = self.slots@;
            assert(olds[i as int].address@ == address@);
            assert forall|k: int| 0 <= k < news.len() implies {
                &&& #[trigger] self.entries@.contains_key(news[k].address@)
                &&& self.entries@[news[k].address@] == news[k].entry@
                &&& self.deposits@[news[k].address@] == news[k].deposit
            } by {
                if k < i {
                    assert(news[k] == olds[k]);
                } else {
                    assert(news[k] == olds[k + 1]);
                }
            }
            assert forall|a: Seq<u8>| #[trigger] self.entries@.contains_key(a) implies exists|k: int|
                0 <= k < news.len() && #[trigger] news[k].address@ == a by {
                let j = choose|j: int| 0 <= j < olds.len() && #[trigger] olds[j].address@ == a;
                if j < i {
                    assert(news[j] == olds[j]);
                } else {
                    assert(news[j - 1] == olds[j]);
                }
            }
            assert forall|k: int, m: int|
                0 <= k < news.len() && 0 <= m < news.len() && k != m
                    implies #[trigger] news[k].address@ != #[trigger] news[m].address@ by {
                let k0 = if k < i { k } else { k + 1 };
                let m0 = if m < i { m } else { m + 1 };
                assert(news[k] == olds[k0]);
                assert(news[m] == olds[m0]);
            }
        }
        Ok(closed.deposit)
    }
}

} // verus!
