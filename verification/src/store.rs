use vstd::prelude::*;

use crate::errors::SatchError;
use crate::records::{Record, RecordModel};

verus! {

/// The mathematical value of the whole store: address bytes to record value.
pub type StoreModel = Map<Seq<u8>, RecordModel>;

/// One stored record together with the address it lives at.
struct Entry {
    addr: Vec<u8>,
    rec: Record,
}

/// No two entries claim the same address.
spec fn unique_addrs(s: Seq<Entry>) -> bool {
    forall|i: int, j: int| 0 <= i < j < s.len() ==> s[i].addr@ != s[j].addr@
}

/// The map an entry sequence denotes; later entries win, though under
/// [`unique_addrs`] no two entries compete.
spec fn store_of(s: Seq<Entry>) -> StoreModel
    decreases s.len(),
{
    if s.len() == 0 {
        Map::empty()
    } else {
        store_of(s.drop_last()).insert(s.last().addr@, s.last().rec@)
    }
}

proof fn lemma_store_contains(s: Seq<Entry>, a: Seq<u8>)
    ensures
        store_of(s).contains_key(a) <==> (exists|i: int|
            0 <= i < s.len() && s[i].addr@ == a),
    decreases s.len(),
{
    if s.len() > 0 {
        lemma_store_contains(s.drop_last(), a);
        if s.last().addr@ == a {
            assert(s[s.len() - 1].addr@ == a);
        } else {
            if exists|i: int| 0 <= i < s.len() && s[i].addr@ == a {
                let i = choose|i: int| 0 <= i < s.len() && s[i].addr@ == a;
                assert(s.drop_last()[i].addr@ == a);
            }
        }
    }
}

proof fn lemma_unique_drop_last(s: Seq<Entry>)
    requires
        unique_addrs(s),
        s.len() > 0,
    ensures
        unique_addrs(s.drop_last()),
{
    assert forall|i: int, j: int|
        0 <= i < j < s.drop_last().len() implies s.drop_last()[i].addr@
        != s.drop_last()[j].addr@ by {
        assert(s.drop_last()[i] == s[i]);
        assert(s.drop_last()[j] == s[j]);
    }
}

proof fn lemma_store_index(s: Seq<Entry>, i: int)
    requires
        unique_addrs(s),
        0 <= i < s.len(),
    ensures
        store_of(s).contains_key(s[i].addr@),
        store_of(s)[s[i].addr@] == s[i].rec@,
    decreases s.len(),
{
    if i < s.len() - 1 {
        lemma_unique_drop_last(s);
        lemma_store_index(s.drop_last(), i);
        assert(s.drop_last()[i] == s[i]);
        assert(s[i].addr@ != s.last().addr@);
    }
}

proof fn lemma_store_update(s: Seq<Entry>, i: int, e: Entry)
    requires
        unique_addrs(s),
        0 <= i < s.len(),
        e.addr@ == s[i].addr@,
    ensures
        unique_addrs(s.update(i, e)),
        store_of(s.update(i, e)) == store_of(s).insert(e.addr@, e.rec@),
    decreases s.len(),
{
    let s2 = s.update(i, e);
    assert forall|x: int, y: int| 0 <= x < y < s2.len() implies s2[x].addr@ != s2[y].addr@ by {
        assert(s2[x].addr@ == s[x].addr@);
        assert(s2[y].addr@ == s[y].addr@);
    }
    if i == s.len() - 1 {
        assert(s2.drop_last() =~= s.drop_last());
        assert(s2.last() == e);
        assert(store_of(s2) =~= store_of(s).insert(e.addr@, e.rec@));
    } else {
        lemma_unique_drop_last(s);
        assert(s2.drop_last() =~= s.drop_last().update(i, e));
        assert(s2.last() == s.last());
        assert(s.drop_last()[i] == s[i]);
        lemma_store_update(s.drop_last(), i, e);
        assert(s[i].addr@ != s.last().addr@);
        assert(store_of(s2) =~= store_of(s).insert(e.addr@, e.rec@));
    }
}

/// Compares two byte strings for equality.
pub fn bytes_eq(a: &Vec<u8>, b: &Vec<u8>) -> (r: bool)
    ensures
        r == (a@ == b@),
{
    if a.len() != b.len() {
        return false;
    }
    let mut i: usize = 0;
    while i < a.len()
        invariant
            i <= a@.len(),
            a@.len() == b@.len(),
            forall|j: int| 0 <= j < i ==> a@[j] == b@[j],
        decreases a@.len() - i,
    {
        if a[i] != b[i] {
            return false;
        }
        i = i + 1;
    }
    proof {
        assert(a@ =~= b@);
    }
    true
}

/// The atomic key-value store over derived addresses. Each address holds at
/// most one record; records are created once and thereafter only replaced
/// whole, under exclusive access, by [`RegistryStore::mutate`].
pub struct RegistryStore {
    entries: Vec<Entry>,
}

impl View for RegistryStore {
    type V = StoreModel;

    closed spec fn view(&self) -> StoreModel {
        store_of(self.entries@)
    }
}

impl RegistryStore {
    /// The store's internal invariant: no address is claimed twice.
    pub closed spec fn wf(&self) -> bool {
        unique_addrs(self.entries@)
    }

    /// An empty store.
    pub fn new() -> (r: RegistryStore)
        ensures
            r.wf(),
            r@ == Map::<Seq<u8>, RecordModel>::empty(),
    {
        RegistryStore { entries: Vec::new() }
    }

    fn find_index(&self, address: &Vec<u8>) -> (r: Option<usize>)
        ensures
            match r {
                Some(i) => i < self.entries@.len() && self.entries@[i as int].addr@ == address@,
                None => forall|i: int|
                    0 <= i < self.entries@.len() ==> self.entries@[i].addr@ != address@,
            },
    {
        let mut i: usize = 0;
        while i < self.entries.len()
            invariant
                i <= self.entries@.len(),
                forall|j: int| 0 <= j < i ==> self.entries@[j].addr@ != address@,
            decreases self.entries@.len() - i,
        {
            if bytes_eq(&self.entries[i].addr, address) {
                return Some(i);
            }
            i = i + 1;
        }
        None
    }

    /// Reads the record at `address`, or fails `RecordNotFound`.
    pub fn read(&self, address: &Vec<u8>) -> (r: Result<&Record, SatchError>)
        requires
            self.wf(),
        ensures
            match r {
                Ok(rec) => self@.contains_key(address@) && rec@ == self@[address@],
                Err(e) => e == SatchError::RecordNotFound && !self@.contains_key(address@),
            },
    {
        match self.find_index(address) {
            Some(i) => {
                proof {
                    lemma_store_index(self.entries@, i as int);
                }
                Ok(&self.entries[i].rec)
            },
            None => {
                proof {
                    lemma_store_contains(self.entries@, address@);
                }
                Err(SatchError::RecordNotFound)
            },
        }
    }

    /// Creates a record at `address`. Atomic: either the record is written at
    /// a previously free address, or a record was already there, the store is
    /// unchanged, and the call fails `AlreadyExists`. This collision is the
    /// sole uniqueness-enforcement mechanism of the registry.
    pub fn create(&mut self, address: Vec<u8>, record: Record) -> (r: Result<(), SatchError>)
        requires
            old(self).wf(),
        ensures
            final(self).wf(),
            old(self)@.contains_key(address@) ==> r == Err::<(), SatchError>(
                SatchError::AlreadyExists,
            ) && final(self)@ == old(self)@,
            !old(self)@.contains_key(address@) ==> r == Ok::<(), SatchError>(()) && final(self)@
                == old(self)@.insert(address@, record@),
    {
        proof {
            lemma_store_contains(self.entries@, address@);
        }
        match self.find_index(&address) {
            Some(_) => Err(SatchError::AlreadyExists),
            None => {
                let ghost s0 = self.entries@;
                self.entries.push(Entry { addr: address, rec: record });
                proof {
                    assert(self.entries@.drop_last() =~= s0);
                }
                Ok(())
            },
        }
    }

    /// Replaces the record at `address` whole, or fails `RecordNotFound`.
    /// The exclusive borrow of the store serializes this read-modify-write
    /// with every other operation on the same record.
    pub fn mutate(&mut self, address: &Vec<u8>, record: Record) -> (r: Result<(), SatchError>)
        requires
            old(self).wf(),
        ensures
            final(self).wf(),
            old(self)@.contains_key(address@) ==> r == Ok::<(), SatchError>(()) && final(self)@
                == old(self)@.insert(address@, record@),
            !old(self)@.contains_key(address@) ==> r == Err::<(), SatchError>(
                SatchError::RecordNotFound,
            ) && final(self)@ == old(self)@,
    {
        proof {
            lemma_store_contains(self.entries@, address@);
        }
        match self.find_index(address) {
            None => Err(SatchError::RecordNotFound),
            Some(i) => {
                let ghost s0 = self.entries@;
                let e = self.entries.remove(i);
                let e2 = Entry { addr: e.addr, rec: record };
                self.entries.insert(i, e2);
                proof {
                    assert(self.entries@ =~= s0.update(i as int, self.entries@[i as int]));
                    lemma_store_update(s0, i as int, self.entries@[i as int]);
                }
                Ok(())
            },
        }
    }
}

} // verus!
