//! The transaction cache service: a tx-id-to-transaction mapping over a
//! storage backend.

use vstd::prelude::*;

use crate::bytes::read_bytes;
use crate::storage::Storage;
use crate::tx::Tx;
use crate::tx::TxId;

verus! {

/// The keyspace identifier under which transactions are cached.
pub const TRANSACTION_KEYSPACE: u64 = 1;

/// Why a service operation failed.
#[derive(Clone, Copy, Debug, PartialEq, Eq, Structural)]
pub enum ServiceError {
    Storage,
}

/// Manages cached transactions on top of a storage backend.
pub struct TransactionService<S: Storage> {
    pub storage: S,
}

impl<S: Storage> TransactionService<S> {
    /// The canonical transaction bytes cached under an id.
    pub open spec fn cached(&self, id: Seq<u8>) -> Option<Seq<u8>> {
        self.storage.stored(TRANSACTION_KEYSPACE, id)
    }

    /// Creates a new instance of the service over the given backend.
    pub fn new(storage: S) -> (r: TransactionService<S>)
        ensures
            r.storage == storage,
    {
        TransactionService { storage }
    }

    /// Retrieves the transaction with the given id.
    pub fn get(&self, id: &TxId) -> (r: Result<Option<Tx>, ServiceError>)
        ensures
            match r {
                Ok(Option::Some(t)) => self.cached(id.bytes@) == Some(t.payload@),
                Ok(Option::None) => self.cached(id.bytes@) is None,
                Err(_) => true,
            },
    {
        match self.storage.get(TRANSACTION_KEYSPACE, id.bytes.as_slice()) {
            Err(_) => Err(ServiceError::Storage),
            Ok(Option::None) => Ok(Option::None),
            Ok(Option::Some(bytes)) => Ok(Option::Some(Tx::from_payload(bytes))),
        }
    }

    /// Caches a transaction under the given id.  No binding outside the
    /// transaction keyspace is touched.
    pub fn set(&mut self, id: &TxId, transaction: &Tx) -> (r: Result<(), ServiceError>)
        ensures
            match r {
                Ok(_) => final(self).cached(id.bytes@) == Some(transaction.payload@) && (forall|
                    k: Seq<u8>,
                |
                    k != id.bytes@ ==> #[trigger] final(self).cached(k) == old(self).cached(k))
                    && (forall|ks: u64, k: Seq<u8>|
                    ks != TRANSACTION_KEYSPACE ==> #[trigger] final(self).storage.stored(ks, k)
                        == old(self).storage.stored(ks, k)),
                Err(_) => true,
            },
    {
        let value = read_bytes(transaction.payload.as_slice(), 0, transaction.payload.len());
        assert(value@ =~= transaction.payload@);
        match self.storage.set(TRANSACTION_KEYSPACE, id.bytes.as_slice(), value) {
            Ok(_) => Ok(()),
            Err(_) => Err(ServiceError::Storage),
        }
    }

    /// Removes every cached transaction.  No binding outside the
    /// transaction keyspace is touched.
    pub fn clear(&mut self) -> (r: Result<(), ServiceError>)
        ensures
            match r {
                Ok(_) => (forall|k: Seq<u8>| #[trigger] final(self).cached(k) is None) && (forall|
                    ks: u64,
                    k: Seq<u8>,
                |
                    ks != TRANSACTION_KEYSPACE ==> #[trigger] final(self).storage.stored(ks, k)
                        == old(self).storage.stored(ks, k)),
                Err(_) => true,
            },
    {
        match self.storage.clear(TRANSACTION_KEYSPACE) {
            Ok(_) => Ok(()),
            Err(_) => Err(ServiceError::Storage),
        }
    }
}

} // verus!
