//! A minimal transaction model.
//!
//! The verification engine never inspects a transaction's body: it only
//! signs and verifies against the transaction id, the fixed-width digest
//! of the transaction's canonical serialization.  A transaction is
//! therefore carried as its canonical bytes.

use vstd::prelude::*;

use crate::crypto::digest_of;
use crate::crypto::hash256;

verus! {

/// A transaction, held as its canonical serialization.
#[derive(Clone, Debug, Default, PartialEq, Eq)]
pub struct Tx {
    pub payload: Vec<u8>,
}

impl Tx {
    /// The transaction id: the digest of the canonical serialization.
    pub open spec fn id_spec(&self) -> Seq<u8> {
        digest_of(self.payload@)
    }

    /// Creates the empty transaction.
    pub fn new() -> (t: Tx)
        ensures
            t.payload@ == Seq::<u8>::empty(),
    {
        Tx { payload: Vec::new() }
    }

    /// Wraps already-serialized transaction bytes.
    pub fn from_payload(payload: Vec<u8>) -> (t: Tx)
        ensures
            t.payload@ == payload@,
    {
        Tx { payload }
    }

    /// The transaction id, a 32-byte digest.
    pub fn id(&self) -> (r: Vec<u8>)
        ensures
            r@ == self.id_spec(),
            r@.len() == 32,
    {
        hash256(self.payload.as_slice())
    }
}

/// A transaction identifier: the 32 bytes of a transaction id digest.
#[derive(Clone, Debug, PartialEq, Eq)]
pub struct TxId {
    pub bytes: Vec<u8>,
}

impl TxId {
    /// The all-zero identifier.
    pub fn zero() -> (r: TxId)
        ensures
            r.bytes@.len() == 32,
            forall|i: int| 0 <= i < 32 ==> r.bytes@[i] == 0u8,
    {
        let mut v: Vec<u8> = Vec::new();
        let mut i: usize = 0;
        while i < 32
            invariant
                0 <= i <= 32,
                v@.len() == i,
                forall|j: int| 0 <= j < i ==> v@[j] == 0u8,
            decreases 32 - i,
        {
            v.push(0u8);
            i += 1;
        }
        TxId { bytes: v }
    }

    /// The identifier holding the given digest bytes, which must carry
    /// the digest's full 32-byte width.
    pub fn from_bytes(bytes: Vec<u8>) -> (r: TxId)
        requires
            bytes@.len() == 32,
        ensures
            r.bytes@ == bytes@,
            r.bytes@.len() == 32,
    {
        TxId { bytes }
    }
}

} // verus!
