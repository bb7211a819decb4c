//! The storage collaborator interface and an in-memory implementation.

use vstd::prelude::*;

use crate::bytes::bytes_eq;
use crate::bytes::read_bytes;

verus! {

/// Why a storage operation failed.
#[derive(Clone, Copy, Debug, PartialEq, Eq, Structural)]
pub enum StorageError {
    Io,
}

/// A synchronous key-value store, keyed by a keyspace identifier and a
/// byte key.  Any operation may fail with a storage error; when one
/// succeeds it reads or updates the stored contents exactly as stated.
pub trait Storage {
    /// The value stored under a keyspace and key, if any.
    spec fn stored(&self, keyspace: u64, key: Seq<u8>) -> Option<Seq<u8>>;

    /// Reads the value under the key.
    fn get(&self, keyspace: u64, key: &[u8]) -> (r: Result<Option<Vec<u8>>, StorageError>)
        ensures
            match r {
                Ok(Option::Some(v)) => self.stored(keyspace, key@) == Some(v@),
                Ok(Option::None) => self.stored(keyspace, key@) is None,
                Err(_) => true,
            },
    ;

    /// Stores the value under the key.
    fn set(&mut self, keyspace: u64, key: &[u8], value: Vec<u8>) -> (r: Result<(), StorageError>)
        ensures
            match r {
                Ok(_) => final(self).stored(keyspace, key@) == Some(value@) && forall|
                    ks: u64,
                    k: Seq<u8>,
                |
                    !(ks == keyspace && k == key@) ==> #[trigger] final(self).stored(ks, k) == old(
                        self,
                    ).stored(ks, k),
                Err(_) => true,
            },
    ;

    /// Removes every value in the keyspace.
    fn clear(&mut self, keyspace: u64) -> (r: Result<(), StorageError>)
        ensures
            match r {
                Ok(_) => (forall|k: Seq<u8>| #[trigger] final(self).stored(keyspace, k) is None)
                    && forall|ks: u64, k: Seq<u8>|
                    ks != keyspace ==> #[trigger] final(self).stored(ks, k) == old(self).stored(
                        ks,
                        k,
                    ),
                Err(_) => true,
            },
    ;
}

/// The value under a key in an entry list: the last matching entry wins.
pub open spec fn lookup(
    entries: Seq<(u64, Vec<u8>, Vec<u8>)>,
    keyspace: u64,
    key: Seq<u8>,
) -> Option<Seq<u8>>
    decreases entries.len(),
{
    if entries.len() == 0 {
        None
    } else {
        let last = entries.last();
        if last.0 == keyspace && last.1@ == key {
            Some(last.2@)
        } else {
            lookup(entries.drop_last(), keyspace, key)
        }
    }
}

/// An in-memory store: an append-ordered entry list, the last entry for a
/// key winning.  It never fails.
pub struct MemoryStorage {
    pub entries: Vec<(u64, Vec<u8>, Vec<u8>)>,
}

impl MemoryStorage {
    /// Creates an empty store.
    pub fn new() -> (r: MemoryStorage)
        ensures
            forall|ks: u64, k: Seq<u8>| #[trigger] r.stored(ks, k) is None,
    {
        MemoryStorage { entries: Vec::new() }
    }
}

impl Storage for MemoryStorage {
    open spec fn stored(&self, keyspace: u64, key: Seq<u8>) -> Option<Seq<u8>> {
        lookup(self.entries@, keyspace, key)
    }

    fn get(&self, keyspace: u64, key: &[u8]) -> (r: Result<Option<Vec<u8>>, StorageError>)
        ensures
            r is Ok,
    {
        let mut i: usize = self.entries.len();
        assert(self.entries@.take(i as int) =~= self.entries@);
        while i > 0
            invariant
                0 <= i <= self.entries@.len(),
                lookup(self.entries@.take(i as int), keyspace, key@) == lookup(
                    self.entries@,
                    keyspace,
                    key@,
                ),
            decreases i,
        {
            i -= 1;
            let e = &self.entries[i];
            proof {
                assert(self.entries@.take(i as int + 1).last() == self.entries@[i as int]);
                assert(self.entries@.take(i as int + 1).drop_last() =~= self.entries@.take(
                    i as int,
                ));
            }
            if e.0 == keyspace && bytes_eq(e.1.as_slice(), key) {
                let v = read_bytes(e.2.as_slice(), 0, e.2.len());
                assert(v@ =~= e.2@);
                return Ok(Some(v));
            }
        }
        assert(self.entries@.take(0).len() == 0);
        Ok(None)
    }

    fn set(&mut self, keyspace: u64, key: &[u8], value: Vec<u8>) -> (r: Result<(), StorageError>)
        ensures
            r is Ok,
    {
        let k = read_bytes(key, 0, key.len());
        assert(k@ =~= key@);
        self.entries.push((keyspace, k, value));
        proof {
            assert(self.entries@.drop_last() =~= old(self).entries@);
            assert(self.entries@.last().0 == keyspace && self.entries@.last().1@ == key@);
        }
        Ok(())
    }

    fn clear(&mut self, keyspace: u64) -> (r: Result<(), StorageError>)
        ensures
            r is Ok,
    {
        let ghost orig = self.entries@;
        let mut kept: Vec<(u64, Vec<u8>, Vec<u8>)> = Vec::new();
        let mut i: usize = 0;
        assert(orig.take(0).len() == 0);
        while i < self.entries.len()
            invariant
                0 <= i <= self.entries@.len(),
                self.entries@ == orig,
                forall|k: Seq<u8>| #[trigger] lookup(kept@, keyspace, k) is None,
                forall|ks: u64, k: Seq<u8>|
                    ks != keyspace ==> #[trigger] lookup(kept@, ks, k) == lookup(
                        orig.take(i as int),
                        ks,
                        k,
                    ),
            decreases self.entries@.len() - i,
        {
            let e = &self.entries[i];
            let ghost prefix = orig.take(i as int + 1);
            proof {
                assert(prefix.last() == orig[i as int]);
                assert(prefix.drop_last() =~= orig.take(i as int));
            }
            if e.0 == keyspace {
                proof {
                    assert(forall|ks: u64, k: Seq<u8>|
                        ks != keyspace ==> #[trigger] lookup(prefix, ks, k) == lookup(
                            orig.take(i as int),
                            ks,
                            k,
                        ));
                }
            } else {
                let ghost kept_before = kept@;
                let ks2 = e.0;
                let key2 = read_bytes(e.1.as_slice(), 0, e.1.len());
                let val2 = read_bytes(e.2.as_slice(), 0, e.2.len());
                kept.push((ks2, key2, val2));
                proof {
                    assert(kept@.drop_last() =~= kept_before);
                    assert(kept@.last().0 == orig[i as int].0);
                    assert(kept@.last().1@ == orig[i as int].1@);
                    assert(kept@.last().2@ == orig[i as int].2@);
                    assert forall|k: Seq<u8>| #[trigger] lookup(kept@, keyspace, k) is None by {
                        assert(kept@.last().0 != keyspace);
                        assert(lookup(kept_before, keyspace, k) is None);
                    };
                    assert forall|ks: u64, k: Seq<u8>| ks != keyspace implies #[trigger] lookup(
                        kept@,
                        ks,
                        k,
                    ) == lookup(prefix, ks, k) by {
                        assert(lookup(kept_before, ks, k) == lookup(orig.take(i as int), ks, k));
                        assert(prefix.last() == orig[i as int]);
                        assert(prefix.drop_last() =~= orig.take(i as int));
                    };
                }
            }
            i += 1;
        }
        assert(orig.take(i as int) =~= orig);
        self.entries = kept;
        Ok(())
    }
}

} // verus!
