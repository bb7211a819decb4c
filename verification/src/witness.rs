//! Witness types and the address verification engine.

use vstd::prelude::*;

use crate::bytes::append_bytes;
use crate::bytes::bytes_eq;
use crate::bytes::read_bytes;
use crate::crypto::digest_of;
use crate::crypto::ecdsa_ok;
use crate::crypto::ecdsa_verify;
use crate::crypto::hash256;
use crate::crypto::keccak256;
use crate::crypto::keccak_of;
use crate::crypto::pubkey_ok;
use crate::crypto::check_pubkey;
use crate::crypto::recover_pubkey;
use crate::crypto::recover_spec;
use crate::crypto::recoverable_sig_ok;
use crate::crypto::schnorr_ok;
use crate::crypto::schnorr_verify;
use crate::crypto::uncompressed_of;
use crate::crypto::uncompressed_pubkey;
use crate::tx::Tx;

verus! {

/// The deepest proof path a decoded witness may carry.  The committed key
/// trees in use are far shallower; the bound only keeps adversarial
/// encodings from requesting unbounded work.
pub const MAX_MERKLE_PATH_DEPTH: usize = 64;

/// Whether the running digest is the left or the right child when it is
/// combined with the sibling digest of a proof-path element.
#[derive(Clone, Copy, Debug, PartialEq, Eq, Structural)]
pub enum MerklePath {
    LFound,
    RFound,
}

/// One proof-path element: a direction and the sibling digest.
#[derive(Clone, Debug, PartialEq, Eq)]
pub struct ProofOp(pub MerklePath, pub Vec<u8>);

/// The mathematical content of a proof-path element.
pub struct OpView {
    pub left: bool,
    pub digest: Seq<u8>,
}

impl ProofOp {
    /// This element as its mathematical content.
    pub open spec fn deep(&self) -> OpView {
        OpView { left: self.0 is LFound, digest: self.1@ }
    }
}

/// A recoverable ECDSA signature: 64 compact signature bytes and a
/// recovery indicator.
#[derive(Clone, Debug, PartialEq, Eq)]
pub struct EcdsaSignature {
    pub recovery_id: u8,
    pub signature: Vec<u8>,
}

/// A witness for one transaction input: either a single recoverable
/// signature, or a Schnorr signature under a public key together with the
/// proof path that commits the key into the address's Merkle root.
#[derive(Clone, Debug, PartialEq, Eq)]
pub enum TxInWitness {
    BasicRedeem(EcdsaSignature),
    TreeSig(Vec<u8>, Vec<u8>, Vec<ProofOp>),
}

/// The mathematical content of a witness.
pub enum WitnessView {
    BasicRedeem { rid: u8, sig: Seq<u8> },
    TreeSig { pk: Seq<u8>, sig: Seq<u8>, ops: Seq<OpView> },
}

/// The mathematical content of a proof path.
pub open spec fn deep_ops(ops: Seq<ProofOp>) -> Seq<OpView> {
    ops.map_values(|op: ProofOp| op.deep())
}

/// The mathematical content of a witness sequence.
pub open spec fn deep_witnesses(ws: Seq<TxInWitness>) -> Seq<WitnessView> {
    ws.map_values(|w: TxInWitness| w.deep())
}

impl TxInWitness {
    /// This witness as its mathematical content.
    pub open spec fn deep(&self) -> WitnessView {
        match self {
            TxInWitness::BasicRedeem(s) => WitnessView::BasicRedeem {
                rid: s.recovery_id,
                sig: s.signature@,
            },
            TxInWitness::TreeSig(pk, sig, ops) => WitnessView::TreeSig {
                pk: pk@,
                sig: sig@,
                ops: deep_ops(ops@),
            },
        }
    }
}

/// A proof-path element carries a full-width sibling digest.
pub open spec fn wf_proof_op(op: OpView) -> bool {
    op.digest.len() == 32
}

/// The field widths every witness must respect: a bounded recovery
/// indicator, fixed-width signatures and keys, and a bounded proof path of
/// full-width digests.
pub open spec fn wf_witness_shape(v: WitnessView) -> bool {
    match v {
        WitnessView::BasicRedeem { rid, sig } => rid <= 3 && sig.len() == 64,
        WitnessView::TreeSig { pk, sig, ops } => pk.len() == 33 && sig.len() == 64
            && ops.len() <= MAX_MERKLE_PATH_DEPTH && (forall|i: int|
            0 <= i < ops.len() ==> wf_proof_op(#[trigger] ops[i])),
    }
}

/// A well-formed witness: the right field widths, and signature or key
/// bytes that the curve library accepts.
pub open spec fn wf_witness(v: WitnessView) -> bool {
    wf_witness_shape(v) && match v {
        WitnessView::BasicRedeem { rid: _, sig } => recoverable_sig_ok(sig),
        WitnessView::TreeSig { pk, sig: _, ops: _ } => pubkey_ok(pk),
    }
}

/// An on-chain address commitment: either a single-key redeem address or
/// the root digest of a Merkle tree of authorized keys.
#[derive(Clone, Debug, PartialEq, Eq)]
pub enum ExtendedAddr {
    BasicRedeem(Vec<u8>),
    OrTree(Vec<u8>),
}

/// Why a witness was rejected.
#[derive(Clone, Copy, Debug, PartialEq, Eq, Structural)]
pub enum VerifyError {
    SignatureRecoveryFailed,
    AddressMismatch,
    SchemeAddressMismatch,
    SignatureInvalid,
}

/// The redeem address of a valid compressed public key: the last 20 bytes
/// of the Keccak-256 digest of the key's uncompressed coordinates.
pub open spec fn redeem_address_spec(pk: Seq<u8>) -> Seq<u8> {
    keccak_of(uncompressed_of(pk).skip(1)).subrange(12, 32)
}

fn derive_redeem_address(pk: &[u8]) -> (r: Vec<u8>)
    requires
        pubkey_ok(pk@),
    ensures
        r@ == redeem_address_spec(pk@),
        r@.len() == 20,
{
    let un = uncompressed_pubkey(pk);
    let coords = read_bytes(un.as_slice(), 1, 64);
    assert(coords@ =~= un@.skip(1));
    let digest = keccak256(coords.as_slice());
    let addr = read_bytes(digest.as_slice(), 12, 20);
    addr
}

/// The redeem address committed to by a single-key address for this public
/// key, or `None` when the bytes are not a valid curve point.
pub fn redeem_address_of_pubkey(pk: &[u8]) -> (r: Option<Vec<u8>>)
    ensures
        pubkey_ok(pk@) ==> (r matches Some(a) && a@ == redeem_address_spec(pk@)),
        !pubkey_ok(pk@) ==> r is None,
{
    if check_pubkey(pk) {
        Some(derive_redeem_address(pk))
    } else {
        None
    }
}

/// The parent digest of an internal tree node: a domain-separation byte,
/// then the left and the right child digests.
pub open spec fn node_digest(left: Seq<u8>, right: Seq<u8>) -> Seq<u8> {
    digest_of(seq![1u8] + left + right)
}

/// Folds a proof path root-ward, starting from a leaf digest: the first
/// element combines with the leaf, the last element's result is the root.
pub open spec fn merkle_root_spec(leaf: Seq<u8>, ops: Seq<OpView>) -> Seq<u8>
    decreases ops.len(),
{
    if ops.len() == 0 {
        leaf
    } else {
        let next = if ops[0].left {
            node_digest(leaf, ops[0].digest)
        } else {
            node_digest(ops[0].digest, leaf)
        };
        merkle_root_spec(next, ops.drop_first())
    }
}

fn fold_merkle_path(leaf: Vec<u8>, ops: &Vec<ProofOp>) -> (r: Vec<u8>)
    ensures
        r@ == merkle_root_spec(leaf@, ops@.map_values(|op: ProofOp| op.deep())),
{
    let ghost all = ops@.map_values(|op: ProofOp| op.deep());
    let ghost leaf0 = leaf@;
    let mut running = leaf;
    let mut i: usize = 0;
    assert(all.skip(0) =~= all);
    while i < ops.len()
        invariant
            0 <= i <= ops@.len(),
            all == ops@.map_values(|op: ProofOp| op.deep()),
            all.len() == ops@.len(),
            merkle_root_spec(running@, all.skip(i as int)) == merkle_root_spec(leaf0, all),
        decreases ops@.len() - i,
    {
        let op = &ops[i];
        let mut buf: Vec<u8> = Vec::new();
        buf.push(1u8);
        assert(buf@ =~= seq![1u8]);
        match op.0 {
            MerklePath::LFound => {
                append_bytes(&mut buf, running.as_slice());
                append_bytes(&mut buf, op.1.as_slice());
                assert(buf@ == seq![1u8] + running@ + op.1@);
            },
            MerklePath::RFound => {
                append_bytes(&mut buf, op.1.as_slice());
                append_bytes(&mut buf, running.as_slice());
                assert(buf@ == seq![1u8] + op.1@ + running@);
            },
        }
        let next = hash256(buf.as_slice());
        proof {
            assert(all[i as int] == ops@[i as int].deep());
            assert(all.skip(i as int)[0] == all[i as int]);
            assert(all.skip(i as int).drop_first() =~= all.skip(i as int + 1));
        }
        running = next;
        i += 1;
    }
    assert(all.skip(i as int) =~= Seq::<OpView>::empty());
    running
}

/// What `TxInWitness::verify_tx_address` returns, as a function of the
/// witness, the transaction id digest and the expected address.
pub open spec fn verify_spec(w: WitnessView, msg: Seq<u8>, addr: ExtendedAddr) -> Result<
    (),
    VerifyError,
> {
    match (w, addr) {
        (WitnessView::BasicRedeem { rid, sig }, ExtendedAddr::BasicRedeem(a)) => {
            match recover_spec(msg, sig, rid) {
                Option::None => Err(VerifyError::SignatureRecoveryFailed),
                Option::Some(pk) => if redeem_address_spec(pk) != a@ {
                    Err(VerifyError::AddressMismatch)
                } else if ecdsa_ok(msg, sig, pk) {
                    Ok(())
                } else {
                    Err(VerifyError::SignatureInvalid)
                },
            }
        },
        (WitnessView::TreeSig { pk, sig, ops }, ExtendedAddr::OrTree(root)) => {
            if merkle_root_spec(digest_of(pk), ops) != root@ {
                Err(VerifyError::AddressMismatch)
            } else if schnorr_ok(msg, sig, pk) {
                Ok(())
            } else {
                Err(VerifyError::SignatureInvalid)
            }
        },
        _ => Err(VerifyError::SchemeAddressMismatch),
    }
}

impl TxInWitness {
    /// Checks that this witness authorizes spending under the expected
    /// address, for the given transaction: the signature is recovered or
    /// verified over the transaction id, and the committed redeem address
    /// or Merkle root is re-derived and compared.
    pub fn verify_tx_address(&self, tx: &Tx, address: &ExtendedAddr) -> (r: Result<
        (),
        VerifyError,
    >)
        ensures
            r == verify_spec(self.deep(), tx.id_spec(), *address),
    {
        let message = tx.id();
        match (self, address) {
            (TxInWitness::BasicRedeem(sig), ExtendedAddr::BasicRedeem(addr)) => {
                match recover_pubkey(
                    message.as_slice(),
                    sig.signature.as_slice(),
                    sig.recovery_id,
                ) {
                    Option::None => Err(VerifyError::SignatureRecoveryFailed),
                    Option::Some(pk) => {
                        let expected = derive_redeem_address(pk.as_slice());
                        if !bytes_eq(addr.as_slice(), expected.as_slice()) {
                            Err(VerifyError::AddressMismatch)
                        } else if ecdsa_verify(
                            message.as_slice(),
                            sig.signature.as_slice(),
                            pk.as_slice(),
                        ) {
                            Ok(())
                        } else {
                            Err(VerifyError::SignatureInvalid)
                        }
                    },
                }
            },
            (TxInWitness::TreeSig(pk, sig, ops), ExtendedAddr::OrTree(root)) => {
                let leaf = hash256(pk.as_slice());
                let computed = fold_merkle_path(leaf, ops);
                if !bytes_eq(computed.as_slice(), root.as_slice()) {
                    Err(VerifyError::AddressMismatch)
                } else if schnorr_verify(message.as_slice(), sig.as_slice(), pk.as_slice()) {
                    Ok(())
                } else {
                    Err(VerifyError::SignatureInvalid)
                }
            },
            _ => Err(VerifyError::SchemeAddressMismatch),
        }
    }
}

/// A transaction witness: one input witness per transaction input, in
/// input order.
#[derive(Clone, Debug, Default, PartialEq, Eq)]
pub struct TxWitness(pub Vec<TxInWitness>);

impl TxWitness {
    /// The mathematical content of the witness list.
    pub open spec fn deep(&self) -> Seq<WitnessView> {
        deep_witnesses(self.0@)
    }

    /// Creates an empty witness list.
    pub fn new() -> (r: TxWitness)
        ensures
            r.deep() == Seq::<WitnessView>::empty(),
    {
        let r = TxWitness(Vec::new());
        assert(r.deep() =~= Seq::<WitnessView>::empty());
        r
    }

    /// The number of input witnesses.
    pub fn len(&self) -> (r: usize)
        ensures
            r == self.deep().len(),
    {
        self.0.len()
    }
}

impl From<Vec<TxInWitness>> for TxWitness {
    fn from(v: Vec<TxInWitness>) -> (r: TxWitness) {
        TxWitness(v)
    }
}

impl vstd::std_specs::convert::FromSpecImpl<Vec<TxInWitness>> for TxWitness {
    open spec fn obeys_from_spec() -> bool {
        true
    }

    open spec fn from_spec(v: Vec<TxInWitness>) -> TxWitness {
        TxWitness(v)
    }
}

/// A witness of one scheme checked against an address of the other kind is
/// rejected as a scheme/address mismatch, whatever its signature data and
/// whatever the transaction.
pub proof fn lemma_scheme_address_mismatch(w: WitnessView, msg: Seq<u8>, addr: ExtendedAddr)
    ensures
        w is BasicRedeem && addr is OrTree ==> verify_spec(w, msg, addr) == Err::<
            (),
            VerifyError,
        >(VerifyError::SchemeAddressMismatch),
        w is TreeSig && addr is BasicRedeem ==> verify_spec(w, msg, addr) == Err::<
            (),
            VerifyError,
        >(VerifyError::SchemeAddressMismatch),
{
}

/// A tree witness with an empty proof path verifies exactly when the leaf
/// digest of its public key is the committed root and the Schnorr
/// signature checks; a differing leaf digest is an address mismatch.
pub proof fn lemma_single_leaf_tree(pk: Seq<u8>, sig: Seq<u8>, msg: Seq<u8>, addr: ExtendedAddr)
    ensures
        addr matches ExtendedAddr::OrTree(root) ==> {
            let w = WitnessView::TreeSig { pk, sig, ops: Seq::empty() };
            &&& (verify_spec(w, msg, addr) == Ok::<(), VerifyError>(()) <==> (digest_of(pk)
                == root@ && schnorr_ok(msg, sig, pk)))
            &&& (digest_of(pk) != root@ ==> verify_spec(w, msg, addr) == Err::<
                (),
                VerifyError,
            >(VerifyError::AddressMismatch))
        },
{
    assert(merkle_root_spec(digest_of(pk), Seq::<OpView>::empty()) == digest_of(pk));
}

} // verus!
