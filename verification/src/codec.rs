//! The canonical binary codec for witnesses.
//!
//! A witness is framed as a field count, a type tag, and the fields in a
//! fixed order; a witness list is framed as a two-byte big-endian count
//! followed by each witness's encoding.  No other layout decodes: the
//! codec is canonical, so re-encoding a decoded witness reproduces the
//! original bytes, and decoding an encoding gives back the witness.

use vstd::prelude::*;

use crate::bytes::read_bytes;
use crate::crypto::check_pubkey;
use crate::crypto::check_recoverable_sig;
use crate::crypto::pubkey_ok;
use crate::crypto::recoverable_sig_ok;
use crate::witness::deep_ops;
use crate::witness::deep_witnesses;
use crate::witness::TxWitness;
use crate::witness::wf_proof_op;
use crate::witness::wf_witness;
use crate::witness::wf_witness_shape;
use crate::witness::EcdsaSignature;
use crate::witness::MerklePath;
use crate::witness::OpView;
use crate::witness::ProofOp;
use crate::witness::TxInWitness;
use crate::witness::WitnessView;
use crate::witness::MAX_MERKLE_PATH_DEPTH;

verus! {

/// Why a byte string is rejected by the decoder.
#[derive(Clone, Copy, Debug, PartialEq, Eq, Structural)]
pub enum DecodeError {
    MalformedWitness,
    UnknownWitnessType,
    InvalidRecoveryId,
    InvalidPublicKeyEncoding,
    InvalidSignatureEncoding,
}

/// The byte standing for a proof-path direction.
pub open spec fn dir_byte(left: bool) -> u8 {
    if left {
        0u8
    } else {
        1u8
    }
}

/// The encoding of one proof-path element: direction, then sibling digest.
pub open spec fn encode_op_spec(op: OpView) -> Seq<u8> {
    seq![dir_byte(op.left)] + op.digest
}

/// The concatenated encodings of a proof path, in path order.
pub open spec fn encode_ops_spec(ops: Seq<OpView>) -> Seq<u8>
    decreases ops.len(),
{
    if ops.len() == 0 {
        Seq::empty()
    } else {
        encode_op_spec(ops[0]) + encode_ops_spec(ops.drop_first())
    }
}

/// The canonical encoding of a witness: a field count and a type tag,
/// then the fields in a fixed order; a tree witness carries its proof
/// path as a one-byte element count followed by the elements.
pub open spec fn encode_witness_spec(v: WitnessView) -> Seq<u8> {
    match v {
        WitnessView::BasicRedeem { rid, sig } => seq![3u8, 0u8, rid] + sig,
        WitnessView::TreeSig { pk, sig, ops } => seq![4u8, 1u8] + pk + sig + seq![
            ops.len() as u8,
        ] + encode_ops_spec(ops),
    }
}

/// Decodes a concatenation of proof-path elements; `None` on a direction
/// byte that stands for no direction or on a trailing fragment.
pub open spec fn decode_ops_spec(b: Seq<u8>) -> Option<Seq<OpView>>
    decreases b.len(),
{
    if b.len() == 0 {
        Some(Seq::empty())
    } else if b.len() < 33 {
        None
    } else if b[0] != 0 && b[0] != 1 {
        None
    } else {
        match decode_ops_spec(b.skip(33)) {
            Option::Some(rest) => Option::Some(
                seq![OpView { left: b[0] == 0, digest: b.subrange(1, 33) }] + rest,
            ),
            Option::None => Option::None,
        }
    }
}

/// Decodes a basic-redeem witness body (the field count and tag already
/// matched): the total width must be exact, the recovery indicator in
/// range, and the signature bytes acceptable to the curve library.
pub open spec fn decode_basic_spec(b: Seq<u8>) -> Result<WitnessView, DecodeError> {
    if b.len() != 67 {
        Err(DecodeError::MalformedWitness)
    } else if b[2] > 3 {
        Err(DecodeError::InvalidRecoveryId)
    } else if !recoverable_sig_ok(b.subrange(3, 67)) {
        Err(DecodeError::InvalidSignatureEncoding)
    } else {
        Ok(WitnessView::BasicRedeem { rid: b[2], sig: b.subrange(3, 67) })
    }
}

/// Decodes a tree-signature witness body (the field count and tag already
/// matched): the proof-path count is bounded and must account for the
/// exact total width, and the key bytes must be a curve point.
pub open spec fn decode_tree_spec(b: Seq<u8>) -> Result<WitnessView, DecodeError> {
    if b.len() < 100 {
        Err(DecodeError::MalformedWitness)
    } else if b[99] > MAX_MERKLE_PATH_DEPTH as u8 {
        Err(DecodeError::MalformedWitness)
    } else if b.len() != 100 + 33 * (b[99] as int) {
        Err(DecodeError::MalformedWitness)
    } else if !pubkey_ok(b.subrange(2, 35)) {
        Err(DecodeError::InvalidPublicKeyEncoding)
    } else {
        match decode_ops_spec(b.skip(100)) {
            Option::None => Err(DecodeError::MalformedWitness),
            Option::Some(ops) => Ok(
                WitnessView::TreeSig {
                    pk: b.subrange(2, 35),
                    sig: b.subrange(35, 99),
                    ops,
                },
            ),
        }
    }
}

/// The decoded form of a byte string, or why it is rejected: the field
/// count is read first (`MalformedWitness` unless it is 3 or 4), then the
/// type tag (`UnknownWitnessType` unless the pair matches a known
/// witness), then the body.
pub open spec fn decode_witness_spec(b: Seq<u8>) -> Result<WitnessView, DecodeError> {
    if b.len() < 1 {
        Err(DecodeError::MalformedWitness)
    } else if b[0] != 3 && b[0] != 4 {
        Err(DecodeError::MalformedWitness)
    } else if b.len() < 2 {
        Err(DecodeError::MalformedWitness)
    } else if b[0] == 3 && b[1] == 0 {
        decode_basic_spec(b)
    } else if b[0] == 4 && b[1] == 1 {
        decode_tree_spec(b)
    } else {
        Err(DecodeError::UnknownWitnessType)
    }
}

fn decode_witness_slice(b: &[u8], pos: usize, l: usize) -> (r: Result<TxInWitness, DecodeError>)
    requires
        pos + l <= b@.len(),
    ensures
        ({
            let sub = b@.subrange(pos as int, pos as int + l as int);
            match r {
                Ok(w) => decode_witness_spec(sub) == Ok::<WitnessView, DecodeError>(w.deep()),
                Err(e) => decode_witness_spec(sub) == Err::<WitnessView, DecodeError>(e),
            }
        }),
{
    let ghost sub = b@.subrange(pos as int, pos as int + l as int);
    if l < 1 {
        return Err(DecodeError::MalformedWitness);
    }
    let count = b[pos];
    assert(count == sub[0]);
    if count != 3 && count != 4 {
        return Err(DecodeError::MalformedWitness);
    }
    if l < 2 {
        return Err(DecodeError::MalformedWitness);
    }
    let tag = b[pos + 1];
    assert(tag == sub[1]);
    if count == 3 && tag == 0 {
        if l != 67 {
            return Err(DecodeError::MalformedWitness);
        }
        let rid = b[pos + 2];
        assert(rid == sub[2]);
        if rid > 3 {
            return Err(DecodeError::InvalidRecoveryId);
        }
        let sig = read_bytes(b, pos + 3, 64);
        assert(sig@ =~= sub.subrange(3, 67));
        if !check_recoverable_sig(sig.as_slice()) {
            return Err(DecodeError::InvalidSignatureEncoding);
        }
        let w = TxInWitness::BasicRedeem(EcdsaSignature { recovery_id: rid, signature: sig });
        Ok(w)
    } else if count == 4 && tag == 1 {
        if l < 100 {
            return Err(DecodeError::MalformedWitness);
        }
        let n = b[pos + 99];
        assert(n == sub[99]);
        if (n as usize) > MAX_MERKLE_PATH_DEPTH {
            return Err(DecodeError::MalformedWitness);
        }
        if l != 100 + 33 * (n as usize) {
            return Err(DecodeError::MalformedWitness);
        }
        let pk = read_bytes(b, pos + 2, 33);
        assert(pk@ =~= sub.subrange(2, 35));
        if !check_pubkey(pk.as_slice()) {
            return Err(DecodeError::InvalidPublicKeyEncoding);
        }
        let sig = read_bytes(b, pos + 35, 64);
        assert(sig@ =~= sub.subrange(35, 99));
        let ghost tail = sub.skip(100);
        assert(tail.len() == 33 * (n as int));
        let blen = b.len();
        let mut ops: Vec<ProofOp> = Vec::new();
        let mut i: usize = 0;
        assert(tail.skip(0) =~= tail);
        assert(deep_ops(ops@) =~= Seq::<OpView>::empty());
        while i < (n as usize)
            invariant
                0 <= i <= n as usize,
                pos + l <= blen == b@.len(),
                l == 100 + 33 * (n as int),
                sub == b@.subrange(pos as int, pos as int + l as int),
                sub.len() == l as int,
                sub[0] == 4 && sub[1] == 1 && sub[99] == n,
                n as usize <= MAX_MERKLE_PATH_DEPTH,
                pubkey_ok(sub.subrange(2, 35)),
                tail == sub.skip(100),
                tail.len() == 33 * (n as int),
                ops@.len() == i,
                deep_ops(ops@).len() == i,
                ({
                    match decode_ops_spec(tail.skip(33 * i as int)) {
                        Option::Some(rest) => decode_ops_spec(tail) == Option::Some(
                            deep_ops(ops@) + rest,
                        ),
                        Option::None => decode_ops_spec(tail) is None,
                    }
                }),
            decreases n as usize - i,
        {
            let ghost piece = tail.skip(33 * i as int);
            proof {
                assert(piece.len() == 33 * (n as int) - 33 * (i as int)) by {
                    assert(tail.len() == 33 * (n as int));
                };
                assert(piece.len() >= 33);
                assert(piece[0] == tail[33 * i as int]);
                assert(tail[33 * i as int] == sub[100 + 33 * i as int]);
                assert(sub[100 + 33 * i as int] == b@[pos as int + 100 + 33 * i as int]);
            }
            let dir = b[pos + 100 + 33 * i];
            assert(dir == piece[0]);
            if dir != 0 && dir != 1 {
                return Err(DecodeError::MalformedWitness);
            }
            let digest = read_bytes(b, pos + 100 + 33 * i + 1, 32);
            let mp = if dir == 0 {
                MerklePath::LFound
            } else {
                MerklePath::RFound
            };
            let op = ProofOp(mp, digest);
            proof {
                assert(piece.subrange(1, 33) =~= b@.subrange(
                    pos as int + 100 + 33 * i as int + 1,
                    pos as int + 100 + 33 * i as int + 33,
                ));
                assert(op.deep() == OpView { left: dir == 0, digest: piece.subrange(1, 33) });
                assert(piece.skip(33) =~= tail.skip(33 * (i as int + 1)));
                assert(deep_ops(ops@.push(op)) =~= deep_ops(ops@).push(op.deep()));
                assert(deep_ops(ops@) + seq![op.deep()] =~= deep_ops(ops@).push(op.deep()));
                if decode_ops_spec(piece.skip(33)) is Some {
                    let rest2 = decode_ops_spec(piece.skip(33))->Some_0;
                    assert(decode_ops_spec(piece) == Option::Some(seq![op.deep()] + rest2));
                    assert(deep_ops(ops@) + (seq![op.deep()] + rest2) =~= deep_ops(ops@.push(op))
                        + rest2);
                }
            }
            ops.push(op);
            i += 1;
        }
        proof {
            assert(tail.skip(33 * i as int) =~= Seq::<u8>::empty());
            assert(decode_ops_spec(tail) == Option::Some(deep_ops(ops@) + Seq::<OpView>::empty()));
            assert(deep_ops(ops@) + Seq::<OpView>::empty() =~= deep_ops(ops@));
        }
        let w = TxInWitness::TreeSig(pk, sig, ops);
        assert(w.deep() == WitnessView::TreeSig {
            pk: sub.subrange(2, 35),
            sig: sub.subrange(35, 99),
            ops: deep_ops(ops@),
        });
        Ok(w)
    } else {
        Err(DecodeError::UnknownWitnessType)
    }
}

impl TxInWitness {
    /// Decodes a witness from its canonical encoding; the result is
    /// exactly what the codec's decoding function gives on these bytes,
    /// and a decoded witness is always well formed.
    pub fn decode(b: &[u8]) -> (r: Result<TxInWitness, DecodeError>)
        ensures
            match r {
                Ok(w) => decode_witness_spec(b@) == Ok::<WitnessView, DecodeError>(w.deep())
                    && wf_witness(w.deep()),
                Err(e) => decode_witness_spec(b@) == Err::<WitnessView, DecodeError>(e),
            },
    {
        let l = b.len();
        assert(b@.subrange(0, l as int) =~= b@);
        let r = decode_witness_slice(b, 0, l);
        proof {
            lemma_decode_canonical(b@);
        }
        r
    }

    /// Encodes this witness canonically.
    pub fn encode(&self) -> (r: Vec<u8>)
        requires
            wf_witness_shape(self.deep()),
        ensures
            r@ == encode_witness_spec(self.deep()),
    {
        match self {
            TxInWitness::BasicRedeem(sig) => {
                let mut out: Vec<u8> = Vec::new();
                out.push(3u8);
                out.push(0u8);
                out.push(sig.recovery_id);
                assert(out@ =~= seq![3u8, 0u8, sig.recovery_id]);
                crate::bytes::append_bytes(&mut out, sig.signature.as_slice());
                out
            },
            TxInWitness::TreeSig(pk, sig, ops) => {
                let ghost v = self.deep();
                let mut out: Vec<u8> = Vec::new();
                out.push(4u8);
                out.push(1u8);
                assert(out@ =~= seq![4u8, 1u8]);
                crate::bytes::append_bytes(&mut out, pk.as_slice());
                crate::bytes::append_bytes(&mut out, sig.as_slice());
                let n = ops.len();
                assert(deep_ops(ops@).len() == n);
                out.push(n as u8);
                let ghost head = out@;
                assert(head =~= seq![4u8, 1u8] + pk@ + sig@ + seq![n as u8]);
                let mut i: usize = 0;
                assert(deep_ops(ops@).take(0) =~= Seq::<OpView>::empty());
                assert(head + encode_ops_spec(deep_ops(ops@).take(0)) =~= head);
                while i < ops.len()
                    invariant
                        0 <= i <= ops@.len(),
                        deep_ops(ops@).len() == ops@.len(),
                        head == seq![4u8, 1u8] + pk@ + sig@ + seq![ops@.len() as u8],
                        out@ == head + encode_ops_spec(deep_ops(ops@).take(i as int)),
                    decreases ops@.len() - i,
                {
                    let op = &ops[i];
                    let ghost opv = deep_ops(ops@)[i as int];
                    assert(opv == op.deep());
                    let dirb: u8 = match op.0 {
                        MerklePath::LFound => 0u8,
                        MerklePath::RFound => 1u8,
                    };
                    assert(dirb == dir_byte(opv.left));
                    let ghost before = out@;
                    out.push(dirb);
                    crate::bytes::append_bytes(&mut out, op.1.as_slice());
                    proof {
                        assert(out@ =~= before + (seq![dirb] + op.1@));
                        assert(seq![dirb] + op.1@ == encode_op_spec(opv));
                        lemma_encode_ops_snoc(deep_ops(ops@).take(i as int), opv);
                        assert(deep_ops(ops@).take(i as int).push(opv) =~= deep_ops(ops@).take(
                            i as int + 1,
                        ));
                        assert(out@ =~= head + encode_ops_spec(deep_ops(ops@).take(i as int + 1)));
                    }
                    i += 1;
                }
                proof {
                    assert(deep_ops(ops@).take(ops@.len() as int) =~= deep_ops(ops@));
                    assert(encode_witness_spec(v) =~= head + encode_ops_spec(deep_ops(ops@)));
                }
                out
            },
        }
    }
}

impl TxWitness {
    /// Encodes the witness list canonically.
    pub fn encode(&self) -> (r: Vec<u8>)
        requires
            self.deep().len() <= 0xFFFF,
            forall|i: int| 0 <= i < self.deep().len() ==> wf_witness_shape(#[trigger] self.deep()[i]),
        ensures
            r@ == encode_witness_list_spec(self.deep()),
    {
        let n = self.0.len();
        assert(self.deep().len() == n);
        let mut out: Vec<u8> = Vec::new();
        out.push((n / 256) as u8);
        out.push((n % 256) as u8);
        let ghost head = out@;
        assert(head =~= seq![(n / 256) as u8, (n % 256) as u8]);
        let mut i: usize = 0;
        assert(self.deep().take(0) =~= Seq::<WitnessView>::empty());
        assert(head + encode_witnesses_spec(self.deep().take(0)) =~= head);
        while i < self.0.len()
            invariant
                0 <= i <= self.0@.len(),
                n == self.0@.len(),
                self.deep().len() == n,
                forall|j: int|
                    0 <= j < self.deep().len() ==> wf_witness_shape(#[trigger] self.deep()[j]),
                head == seq![(n / 256) as u8, (n % 256) as u8],
                out@ == head + encode_witnesses_spec(self.deep().take(i as int)),
            decreases self.0@.len() - i,
        {
            let ghost v = self.deep()[i as int];
            assert(v == self.0@[i as int].deep());
            assert(wf_witness_shape(v));
            let enc = self.0[i].encode();
            let ghost before = out@;
            crate::bytes::append_bytes(&mut out, enc.as_slice());
            proof {
                lemma_encode_witnesses_snoc(self.deep().take(i as int), v);
                assert(self.deep().take(i as int).push(v) =~= self.deep().take(i as int + 1));
                assert(out@ =~= head + encode_witnesses_spec(self.deep().take(i as int + 1)));
            }
            i += 1;
        }
        proof {
            assert(self.deep().take(n as int) =~= self.deep());
            assert(out@ =~= encode_witness_list_spec(self.deep()));
        }
        out
    }

    /// Decodes a witness list from its canonical encoding; the result is
    /// exactly what the codec's list decoding function gives on these
    /// bytes, and every decoded witness is well formed.
    pub fn decode(b: &[u8]) -> (r: Result<TxWitness, DecodeError>)
        ensures
            match r {
                Ok(ws) => decode_witness_list_spec(b@) == Ok::<Seq<WitnessView>, DecodeError>(
                    ws.deep(),
                ) && (forall|i: int|
                    0 <= i < ws.deep().len() ==> wf_witness(#[trigger] ws.deep()[i])),
                Err(e) => decode_witness_list_spec(b@) == Err::<Seq<WitnessView>, DecodeError>(e),
            },
    {
        proof {
            if b@.len() >= 2 {
                lemma_decode_witnesses_canonical(
                    b@.skip(2),
                    (b@[0] as nat) * 256 + (b@[1] as nat),
                );
            }
        }
        let blen = b.len();
        if blen < 2 {
            return Err(DecodeError::MalformedWitness);
        }
        let count: usize = (b[0] as usize) * 256 + (b[1] as usize);
        assert(count == (b@[0] as nat) * 256 + (b@[1] as nat));
        let mut out: Vec<TxInWitness> = Vec::new();
        let mut pos: usize = 2;
        let mut i: usize = 0;
        assert(deep_witnesses(out@) =~= Seq::<WitnessView>::empty());
        assert(decode_witness_list_spec(b@) == decode_witnesses_spec(
            b@.skip(2),
            (count - i) as nat,
        ));
        while i < count
            invariant
                0 <= i <= count,
                2 <= pos <= blen == b@.len(),
                out@.len() == i,
                deep_witnesses(out@).len() == i,
                ({
                    match decode_witnesses_spec(b@.skip(pos as int), (count - i) as nat) {
                        Ok(rest) => decode_witness_list_spec(b@) == Ok::<
                            Seq<WitnessView>,
                            DecodeError,
                        >(deep_witnesses(out@) + rest),
                        Err(e) => decode_witness_list_spec(b@) == Err::<
                            Seq<WitnessView>,
                            DecodeError,
                        >(e),
                    }
                }),
            decreases count - i,
        {
            let ghost stream = b@.skip(pos as int);
            let avail = blen - pos;
            assert(stream.len() == avail);
            if avail < 2 {
                return Err(DecodeError::MalformedWitness);
            }
            let c = b[pos];
            assert(c == stream[0]);
            let l: usize;
            if c == 3 {
                l = 67;
            } else if c == 4 {
                if avail < 100 {
                    return Err(DecodeError::MalformedWitness);
                }
                let m = b[pos + 99];
                assert(m == stream[99]);
                l = 100 + 33 * (m as usize);
            } else {
                return Err(DecodeError::MalformedWitness);
            }
            assert(witness_len_at(stream) == Some(l as int));
            if avail < l {
                return Err(DecodeError::MalformedWitness);
            }
            let res = decode_witness_slice(b, pos, l);
            proof {
                assert(b@.subrange(pos as int, pos as int + l as int) =~= stream.take(l as int));
            }
            match res {
                Err(e) => {
                    return Err(e);
                },
                Ok(w) => {
                    proof {
                        assert(stream.skip(l as int) =~= b@.skip(pos as int + l as int));
                        assert(deep_witnesses(out@.push(w)) =~= deep_witnesses(out@).push(
                            w.deep(),
                        ));
                        assert(deep_witnesses(out@) + (seq![w.deep()] + decode_witnesses_spec(
                            stream.skip(l as int),
                            (count - i - 1) as nat,
                        )->Ok_0) =~= deep_witnesses(out@.push(w)) + decode_witnesses_spec(
                            stream.skip(l as int),
                            (count - i - 1) as nat,
                        )->Ok_0);
                    }
                    out.push(w);
                    pos = pos + l;
                    i += 1;
                },
            }
        }
        if pos != blen {
            assert(b@.skip(pos as int).len() != 0);
            return Err(DecodeError::MalformedWitness);
        }
        proof {
            assert(b@.skip(pos as int).len() == 0);
            assert(deep_witnesses(out@) + Seq::<WitnessView>::empty() =~= deep_witnesses(out@));
        }
        let ws = TxWitness(out);
        Ok(ws)
    }
}

/// Appending one element to a proof path appends its encoding.
pub proof fn lemma_encode_ops_snoc(s: Seq<OpView>, x: OpView)
    ensures
        encode_ops_spec(s.push(x)) == encode_ops_spec(s) + encode_op_spec(x),
    decreases s.len(),
{
    if s.len() == 0 {
        assert(s.push(x)[0] == x);
        assert(s.push(x).drop_first() =~= Seq::<OpView>::empty());
        assert(encode_ops_spec(s.push(x)) == encode_op_spec(x) + encode_ops_spec(
            Seq::<OpView>::empty(),
        ));
        assert(encode_op_spec(x) + Seq::<u8>::empty() =~= encode_op_spec(x));
        assert(encode_ops_spec(s) == Seq::<u8>::empty());
        assert(Seq::<u8>::empty() + encode_op_spec(x) =~= encode_op_spec(x));
    } else {
        lemma_encode_ops_snoc(s.drop_first(), x);
        assert(s.push(x)[0] == s[0]);
        assert(s.push(x).drop_first() =~= s.drop_first().push(x));
        assert(encode_ops_spec(s.push(x)) == encode_op_spec(s[0]) + encode_ops_spec(
            s.drop_first().push(x),
        ));
        assert(encode_op_spec(s[0]) + (encode_ops_spec(s.drop_first()) + encode_op_spec(x)) =~= (
        encode_op_spec(s[0]) + encode_ops_spec(s.drop_first())) + encode_op_spec(x));
    }
}

/// The width of an encoded proof path: 33 bytes per element.
pub proof fn lemma_encode_ops_len(ops: Seq<OpView>)
    ensures
        (forall|i: int| 0 <= i < ops.len() ==> wf_proof_op(#[trigger] ops[i]))
            ==> encode_ops_spec(ops).len() == 33 * ops.len(),
    decreases ops.len(),
{
    if forall|i: int| 0 <= i < ops.len() ==> wf_proof_op(#[trigger] ops[i]) {
        if ops.len() == 0 {
        } else {
            assert(forall|i: int|
                0 <= i < ops.drop_first().len() ==> #[trigger] ops.drop_first()[i] == ops[i + 1]);
            lemma_encode_ops_len(ops.drop_first());
            assert(wf_proof_op(ops[0]));
        }
    }
}

/// Decoding the encoding of a proof path of full-width digests gives back
/// exactly that path.
pub proof fn lemma_decode_encode_ops(ops: Seq<OpView>)
    ensures
        (forall|i: int| 0 <= i < ops.len() ==> wf_proof_op(#[trigger] ops[i]))
            ==> decode_ops_spec(encode_ops_spec(ops)) == Option::Some(ops),
    decreases ops.len(),
{
    if forall|i: int| 0 <= i < ops.len() ==> wf_proof_op(#[trigger] ops[i]) {
        if ops.len() == 0 {
            assert(encode_ops_spec(ops) =~= Seq::<u8>::empty());
            assert(decode_ops_spec(encode_ops_spec(ops)) == Option::Some(Seq::<OpView>::empty()));
            assert(Seq::<OpView>::empty() =~= ops);
        } else {
            assert(forall|i: int|
                0 <= i < ops.drop_first().len() ==> #[trigger] ops.drop_first()[i] == ops[i + 1]);
            lemma_decode_encode_ops(ops.drop_first());
            lemma_encode_ops_len(ops.drop_first());
            let e = encode_ops_spec(ops);
            assert(wf_proof_op(ops[0]));
            assert(encode_op_spec(ops[0]).len() == 33);
            assert(e.len() == 33 + encode_ops_spec(ops.drop_first()).len());
            assert(e[0] == dir_byte(ops[0].left));
            assert(e[0] == 0 || e[0] == 1);
            assert(e.skip(33) =~= encode_ops_spec(ops.drop_first()));
            assert(e.subrange(1, 33) =~= ops[0].digest);
            assert((e[0] == 0) == ops[0].left);
            assert(OpView { left: e[0] == 0, digest: e.subrange(1, 33) } == ops[0]);
            assert(seq![ops[0]] + ops.drop_first() =~= ops);
        }
    }
}

/// Widths and leading bytes of a canonical witness encoding.
pub proof fn lemma_encode_witness_frame(v: WitnessView)
    ensures
        wf_witness_shape(v) ==> {
            let e = encode_witness_spec(v);
            &&& (v is BasicRedeem ==> e.len() == 67 && e[0] == 3)
            &&& (v is TreeSig ==> e.len() == 100 + 33 * v->TreeSig_ops.len() && e[0] == 4 && e[99]
                == v->TreeSig_ops.len() as u8)
        },
{
    if wf_witness_shape(v) {
        match v {
            WitnessView::BasicRedeem { rid, sig } => {
                assert(encode_witness_spec(v).len() == 67);
            },
            WitnessView::TreeSig { pk, sig, ops } => {
                lemma_encode_ops_len(ops);
                let e = encode_witness_spec(v);
                assert(e.len() == 100 + 33 * ops.len());
                assert(e[0] == 4);
                assert(e[99] == ops.len() as u8);
            },
        }
    }
}

/// Codec round trip: decoding the canonical encoding of any well-formed
/// witness gives back exactly that witness.
pub proof fn lemma_codec_round_trip(v: WitnessView)
    ensures
        wf_witness(v) ==> decode_witness_spec(encode_witness_spec(v)) == Ok::<
            WitnessView,
            DecodeError,
        >(v),
{
    if wf_witness(v) {
        let e = encode_witness_spec(v);
        lemma_encode_witness_frame(v);
        match v {
            WitnessView::BasicRedeem { rid, sig } => {
                assert(e[0] == 3 && e[1] == 0 && e[2] == rid);
                assert(e.subrange(3, 67) =~= sig);
            },
            WitnessView::TreeSig { pk, sig, ops } => {
                lemma_decode_encode_ops(ops);
                let n = ops.len();
                assert(e[0] == 4 && e[1] == 1);
                assert(n <= MAX_MERKLE_PATH_DEPTH);
                assert((n as u8) as int == n as int);
                assert(e.len() == 100 + 33 * (e[99] as int));
                assert(e.subrange(2, 35) =~= pk);
                assert(e.subrange(35, 99) =~= sig);
                assert(e.skip(100) =~= encode_ops_spec(ops));
            },
        }
    }
}

/// A decoded proof path re-encodes to exactly the bytes it came from, and
/// every element carries a full-width digest.
pub proof fn lemma_decode_ops_canonical(b: Seq<u8>)
    ensures
        decode_ops_spec(b) matches Some(ops) ==> encode_ops_spec(ops) == b && 33 * ops.len()
            == b.len() && (forall|i: int| 0 <= i < ops.len() ==> wf_proof_op(#[trigger] ops[i])),
    decreases b.len(),
{
    if b.len() == 0 {
        if decode_ops_spec(b) is Some {
            assert(encode_ops_spec(decode_ops_spec(b)->Some_0) =~= b);
        }
    } else if decode_ops_spec(b) is Some {
        lemma_decode_ops_canonical(b.skip(33));
        let rest = decode_ops_spec(b.skip(33))->Some_0;
        let op0 = OpView { left: b[0] == 0, digest: b.subrange(1, 33) };
        let ops = seq![op0] + rest;
        assert(decode_ops_spec(b) == Option::Some(ops));
        assert(ops[0] == op0);
        assert(ops.drop_first() =~= rest);
        assert(dir_byte(op0.left) == b[0]);
        assert(encode_op_spec(op0) =~= b.take(33));
        assert(encode_ops_spec(ops) == encode_op_spec(op0) + encode_ops_spec(rest));
        assert(b.take(33) + b.skip(33) =~= b);
        assert(forall|i: int|
            0 <= i < rest.len() ==> #[trigger] ops[i + 1] == rest[i]);
    }
}

/// Byte stability: a decoded witness is well formed and re-encodes to
/// exactly the bytes it was decoded from.
pub proof fn lemma_decode_canonical(b: Seq<u8>)
    ensures
        decode_witness_spec(b) matches Ok(v) ==> wf_witness(v) && encode_witness_spec(v) == b,
{
    if decode_witness_spec(b) is Ok {
        let v = decode_witness_spec(b)->Ok_0;
        if b[0] == 3 {
            assert(b.len() == 67);
            assert(v == WitnessView::BasicRedeem { rid: b[2], sig: b.subrange(3, 67) });
            assert(encode_witness_spec(v) =~= b);
        } else {
            let n = b[99] as int;
            lemma_decode_ops_canonical(b.skip(100));
            let ops = decode_ops_spec(b.skip(100))->Some_0;
            assert(33 * ops.len() == b.skip(100).len());
            assert(b.skip(100).len() == 33 * n);
            assert(ops.len() == n);
            assert(v == WitnessView::TreeSig {
                pk: b.subrange(2, 35),
                sig: b.subrange(35, 99),
                ops,
            });
            assert((ops.len() as u8) == b[99]);
            assert(encode_witness_spec(v) =~= b);
        }
    }
}

/// The concatenated encodings of a witness sequence, in input order.
pub open spec fn encode_witnesses_spec(vs: Seq<WitnessView>) -> Seq<u8>
    decreases vs.len(),
{
    if vs.len() == 0 {
        Seq::empty()
    } else {
        encode_witness_spec(vs[0]) + encode_witnesses_spec(vs.drop_first())
    }
}

/// The canonical encoding of a witness list: a two-byte big-endian
/// witness count, then each witness's canonical encoding.
pub open spec fn encode_witness_list_spec(vs: Seq<WitnessView>) -> Seq<u8> {
    seq![(vs.len() / 256) as u8, (vs.len() % 256) as u8] + encode_witnesses_spec(vs)
}

/// How many bytes the witness at the head of the stream occupies, read
/// from its framing bytes alone; `None` when the head bytes frame nothing.
pub open spec fn witness_len_at(b: Seq<u8>) -> Option<int> {
    if b.len() < 2 {
        None
    } else if b[0] == 3 {
        Some(67int)
    } else if b[0] == 4 {
        if b.len() < 100 {
            None
        } else {
            Some(100 + 33 * (b[99] as int))
        }
    } else {
        None
    }
}

/// Decodes exactly `k` witnesses from a byte stream, which they must
/// fill exactly.
pub open spec fn decode_witnesses_spec(b: Seq<u8>, k: nat) -> Result<Seq<WitnessView>, DecodeError>
    decreases k,
{
    if k == 0 {
        if b.len() == 0 {
            Ok(Seq::empty())
        } else {
            Err(DecodeError::MalformedWitness)
        }
    } else {
        match witness_len_at(b) {
            Option::None => Err(DecodeError::MalformedWitness),
            Option::Some(l) => if b.len() < l {
                Err(DecodeError::MalformedWitness)
            } else {
                match decode_witness_spec(b.take(l)) {
                    Err(e) => Err(e),
                    Ok(v) => match decode_witnesses_spec(b.skip(l), (k - 1) as nat) {
                        Err(e) => Err(e),
                        Ok(rest) => Ok(seq![v] + rest),
                    },
                }
            },
        }
    }
}

/// The decoded form of a canonical witness-list encoding, or why it is
/// rejected.
pub open spec fn decode_witness_list_spec(b: Seq<u8>) -> Result<Seq<WitnessView>, DecodeError> {
    if b.len() < 2 {
        Err(DecodeError::MalformedWitness)
    } else {
        decode_witnesses_spec(b.skip(2), ((b[0] as nat) * 256 + (b[1] as nat)) as nat)
    }
}

/// Appending one witness to a sequence appends its encoding.
pub proof fn lemma_encode_witnesses_snoc(s: Seq<WitnessView>, x: WitnessView)
    ensures
        encode_witnesses_spec(s.push(x)) == encode_witnesses_spec(s) + encode_witness_spec(x),
    decreases s.len(),
{
    if s.len() == 0 {
        assert(s.push(x)[0] == x);
        assert(s.push(x).drop_first() =~= Seq::<WitnessView>::empty());
        assert(encode_witnesses_spec(s.push(x)) == encode_witness_spec(x) + encode_witnesses_spec(
            Seq::<WitnessView>::empty(),
        ));
        assert(encode_witness_spec(x) + Seq::<u8>::empty() =~= encode_witness_spec(x));
        assert(Seq::<u8>::empty() + encode_witness_spec(x) =~= encode_witness_spec(x));
    } else {
        lemma_encode_witnesses_snoc(s.drop_first(), x);
        assert(s.push(x)[0] == s[0]);
        assert(s.push(x).drop_first() =~= s.drop_first().push(x));
        assert(encode_witnesses_spec(s.push(x)) == encode_witness_spec(s[0])
            + encode_witnesses_spec(s.drop_first().push(x)));
        assert(encode_witness_spec(s[0]) + (encode_witnesses_spec(s.drop_first())
            + encode_witness_spec(x)) =~= (encode_witness_spec(s[0]) + encode_witnesses_spec(
            s.drop_first(),
        )) + encode_witness_spec(x));
    }
}

/// Decoding the concatenated encodings of well-formed witnesses gives
/// back exactly those witnesses.
pub proof fn lemma_decode_encode_witnesses(vs: Seq<WitnessView>)
    ensures
        (forall|i: int| 0 <= i < vs.len() ==> wf_witness(#[trigger] vs[i]))
            ==> decode_witnesses_spec(encode_witnesses_spec(vs), vs.len()) == Ok::<
            Seq<WitnessView>,
            DecodeError,
        >(vs),
    decreases vs.len(),
{
    if forall|i: int| 0 <= i < vs.len() ==> wf_witness(#[trigger] vs[i]) {
        if vs.len() == 0 {
            assert(encode_witnesses_spec(vs) =~= Seq::<u8>::empty());
            assert(vs =~= Seq::<WitnessView>::empty());
        } else {
            assert(forall|i: int|
                0 <= i < vs.drop_first().len() ==> #[trigger] vs.drop_first()[i] == vs[i + 1]);
            lemma_decode_encode_witnesses(vs.drop_first());
            lemma_encode_witness_frame(vs[0]);
            lemma_codec_round_trip(vs[0]);
            let e0 = encode_witness_spec(vs[0]);
            let e = encode_witnesses_spec(vs);
            assert(e == e0 + encode_witnesses_spec(vs.drop_first()));
            assert(e.len() >= e0.len());
            assert(e0.len() >= 67);
            match vs[0] {
                WitnessView::BasicRedeem { rid, sig } => {
                    assert(e[0] == e0[0]);
                    assert(witness_len_at(e) == Some(67int));
                },
                WitnessView::TreeSig { pk, sig, ops } => {
                    assert(e[0] == e0[0]);
                    assert(e[99] == e0[99]);
                    assert(witness_len_at(e) == Some(e0.len() as int));
                },
            }
            assert(e.take(e0.len() as int) =~= e0);
            assert(e.skip(e0.len() as int) =~= encode_witnesses_spec(vs.drop_first()));
            assert(witness_len_at(e) == Some(e0.len() as int));
            assert(decode_witness_spec(e.take(e0.len() as int)) == Ok::<WitnessView, DecodeError>(
                vs[0],
            ));
            assert(decode_witnesses_spec(e.skip(e0.len() as int), (vs.len() - 1) as nat) == Ok::<
                Seq<WitnessView>,
                DecodeError,
            >(vs.drop_first()));
            assert(decode_witnesses_spec(e, vs.len()) == Ok::<Seq<WitnessView>, DecodeError>(
                seq![vs[0]] + vs.drop_first(),
            ));
            assert(seq![vs[0]] + vs.drop_first() =~= vs);
        }
    }
}

/// List-level codec round trip: decoding the canonical encoding of a
/// list of well-formed witnesses gives back exactly that list.
pub proof fn lemma_list_round_trip(vs: Seq<WitnessView>)
    ensures
        (vs.len() <= 0xFFFF && (forall|i: int| 0 <= i < vs.len() ==> wf_witness(#[trigger] vs[i])))
            ==> decode_witness_list_spec(encode_witness_list_spec(vs)) == Ok::<
            Seq<WitnessView>,
            DecodeError,
        >(vs),
{
    if vs.len() <= 0xFFFF && (forall|i: int| 0 <= i < vs.len() ==> wf_witness(#[trigger] vs[i])) {
        lemma_decode_encode_witnesses(vs);
        let e = encode_witness_list_spec(vs);
        assert(e[0] == (vs.len() / 256) as u8 && e[1] == (vs.len() % 256) as u8);
        assert((e[0] as nat) * 256 + (e[1] as nat) == vs.len());
        assert(e.skip(2) =~= encode_witnesses_spec(vs));
    }
}

/// A decoded witness stream re-encodes to exactly the bytes it came
/// from, one well-formed witness per counted element.
pub proof fn lemma_decode_witnesses_canonical(b: Seq<u8>, k: nat)
    ensures
        decode_witnesses_spec(b, k) matches Ok(vs) ==> encode_witnesses_spec(vs) == b && vs.len()
            == k && (forall|i: int| 0 <= i < vs.len() ==> wf_witness(#[trigger] vs[i])),
    decreases k,
{
    if k == 0 {
        if decode_witnesses_spec(b, k) is Ok {
            let vs = decode_witnesses_spec(b, k)->Ok_0;
            assert(encode_witnesses_spec(vs) =~= b);
        }
    } else if decode_witnesses_spec(b, k) is Ok {
        let l = witness_len_at(b)->Some_0;
        lemma_decode_canonical(b.take(l));
        lemma_decode_witnesses_canonical(b.skip(l), (k - 1) as nat);
        let v = decode_witness_spec(b.take(l))->Ok_0;
        let rest = decode_witnesses_spec(b.skip(l), (k - 1) as nat)->Ok_0;
        let vs = seq![v] + rest;
        assert(decode_witnesses_spec(b, k) == Ok::<Seq<WitnessView>, DecodeError>(vs));
        assert(vs[0] == v);
        assert(vs.drop_first() =~= rest);
        assert(encode_witness_spec(v) == b.take(l));
        assert(encode_witnesses_spec(vs) == encode_witness_spec(v) + encode_witnesses_spec(rest));
        assert(b.take(l) + b.skip(l) =~= b);
        assert(forall|i: int| 0 <= i < rest.len() ==> #[trigger] vs[i + 1] == rest[i]);
    }
}

/// A decoded witness list re-encodes to exactly the bytes it was decoded
/// from: the list codec is canonical too.
pub proof fn lemma_decode_list_canonical(b: Seq<u8>)
    ensures
        decode_witness_list_spec(b) matches Ok(vs) ==> encode_witness_list_spec(vs) == b,
{
    if decode_witness_list_spec(b) is Ok {
        let vs = decode_witness_list_spec(b)->Ok_0;
        let k = (b[0] as nat) * 256 + (b[1] as nat);
        lemma_decode_witnesses_canonical(b.skip(2), k);
        assert(vs.len() == k);
        vstd::arithmetic::div_mod::lemma_fundamental_div_mod_converse(
            k as int,
            256,
            b[0] as int,
            b[1] as int,
        );
        assert(vs.len() / 256 == b[0] as int && vs.len() % 256 == b[1] as int);
        assert(encode_witness_list_spec(vs) =~= b);
    }
}

/// A byte string whose leading field-count/tag pair matches neither
/// witness row always fails to decode, as a malformed witness or an
/// unknown witness type.
pub proof fn lemma_decode_rejects_garbage(b: Seq<u8>)
    ensures
        !(b.len() >= 2 && ((b[0] == 3 && b[1] == 0) || (b[0] == 4 && b[1] == 1))) ==> (
        decode_witness_spec(b) == Err::<WitnessView, DecodeError>(DecodeError::MalformedWitness)
            || decode_witness_spec(b) == Err::<WitnessView, DecodeError>(
            DecodeError::UnknownWitnessType,
        )),
{
}

/// A basic-redeem encoding whose recovery indicator lies outside the four
/// valid values fails to decode with exactly `InvalidRecoveryId`.
pub proof fn lemma_invalid_recovery_id(rid: u8, sig: Seq<u8>)
    ensures
        sig.len() == 64 && rid > 3 ==> decode_witness_spec(seq![3u8, 0u8, rid] + sig) == Err::<
            WitnessView,
            DecodeError,
        >(DecodeError::InvalidRecoveryId),
{
    if sig.len() == 64 && rid > 3 {
        let b = seq![3u8, 0u8, rid] + sig;
        assert(b.len() == 67);
        assert(b[0] == 3 && b[1] == 0 && b[2] == rid);
    }
}

} // verus!

