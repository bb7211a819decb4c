//! Codec tests: round trips and every rejection reason.

use chain_witness::codec::DecodeError;
use chain_witness::witness::EcdsaSignature;
use chain_witness::witness::MerklePath;
use chain_witness::witness::ProofOp;
use chain_witness::witness::TxInWitness;
use chain_witness::witness::TxWitness;

use secp256k1::ecdsa::RecoverableSignature;
use secp256k1::Message;
use secp256k1::PublicKey;
use secp256k1::SecretKey;

fn sample_basic_witness() -> TxInWitness {
    let secret_key = SecretKey::from_byte_array([0xcd; 32]).expect("32 bytes, within curve order");
    let message = Message::from_digest([0xab; 32]);
    let sig = RecoverableSignature::sign_ecdsa_recoverable(message, &secret_key);
    let (recovery_id, serialized_sig) = sig.serialize_compact();
    TxInWitness::BasicRedeem(EcdsaSignature {
        recovery_id: recovery_id.to_u8(),
        signature: serialized_sig.to_vec(),
    })
}

fn sample_tree_witness() -> TxInWitness {
    let secret_key = SecretKey::from_byte_array([0xde; 32]).expect("32 bytes, within curve order");
    let pk = PublicKey::from_secret_key(&secret_key);
    TxInWitness::TreeSig(
        pk.serialize().to_vec(),
        vec![0x5a; 64],
        vec![
            ProofOp(MerklePath::LFound, vec![0x11; 32]),
            ProofOp(MerklePath::RFound, vec![0x22; 32]),
        ],
    )
}

#[test]
fn basic_witness_round_trips() {
    let witness = sample_basic_witness();
    let encoded = witness.encode();
    assert_eq!(67, encoded.len());
    assert_eq!(Ok(witness), TxInWitness::decode(&encoded));
}

#[test]
fn tree_witness_round_trips() {
    let witness = sample_tree_witness();
    let encoded = witness.encode();
    assert_eq!(100 + 33 * 2, encoded.len());
    assert_eq!(Ok(witness), TxInWitness::decode(&encoded));
}

#[test]
fn witness_list_round_trips() {
    let list = TxWitness(vec![sample_basic_witness(), sample_tree_witness()]);
    let encoded = list.encode();
    assert_eq!(Ok(list), TxWitness::decode(&encoded));
    let empty = TxWitness::new();
    let encoded_empty = empty.encode();
    assert_eq!(vec![0u8, 0u8], encoded_empty);
    assert_eq!(Ok(empty), TxWitness::decode(&encoded_empty));
}

#[test]
fn garbage_fails_decode() {
    assert_eq!(Err(DecodeError::MalformedWitness), TxInWitness::decode(&[]));
    assert_eq!(Err(DecodeError::MalformedWitness), TxInWitness::decode(&[5u8; 67]));
    let mut wrong_tag = vec![3u8, 1u8];
    wrong_tag.extend_from_slice(&[0u8; 65]);
    assert_eq!(Err(DecodeError::UnknownWitnessType), TxInWitness::decode(&wrong_tag));
    let mut swapped = vec![4u8, 0u8];
    swapped.extend_from_slice(&[0u8; 131]);
    assert_eq!(Err(DecodeError::UnknownWitnessType), TxInWitness::decode(&swapped));
    let truncated = vec![3u8, 0u8, 1u8];
    assert_eq!(Err(DecodeError::MalformedWitness), TxInWitness::decode(&truncated));
}

#[test]
fn out_of_range_recovery_id_fails_decode() {
    let mut encoded = sample_basic_witness().encode();
    for rid in [4u8, 5u8, 9u8, 0xffu8] {
        encoded[2] = rid;
        assert_eq!(Err(DecodeError::InvalidRecoveryId), TxInWitness::decode(&encoded));
    }
    encoded[2] = 0u8;
    assert!(TxInWitness::decode(&encoded).is_ok());
}

#[test]
fn overflowing_signature_fails_decode() {
    let mut encoded = vec![3u8, 0u8, 1u8];
    encoded.extend_from_slice(&[0xff; 64]);
    assert_eq!(Err(DecodeError::InvalidSignatureEncoding), TxInWitness::decode(&encoded));
}

#[test]
fn invalid_public_key_fails_decode() {
    let mut encoded = vec![4u8, 1u8];
    encoded.extend_from_slice(&[0u8; 33]);
    encoded.extend_from_slice(&[0x5a; 64]);
    encoded.push(0u8);
    assert_eq!(Err(DecodeError::InvalidPublicKeyEncoding), TxInWitness::decode(&encoded));
}

#[test]
fn trailing_bytes_fail_decode() {
    let mut encoded = sample_basic_witness().encode();
    encoded.push(0u8);
    assert_eq!(Err(DecodeError::MalformedWitness), TxInWitness::decode(&encoded));
}

#[test]
fn wrong_path_direction_byte_fails_decode() {
    let witness = sample_tree_witness();
    let mut encoded = witness.encode();
    encoded[100] = 2u8;
    assert_eq!(Err(DecodeError::MalformedWitness), TxInWitness::decode(&encoded));
}

#[test]
fn list_with_wrong_count_fails_decode() {
    let list = TxWitness(vec![sample_basic_witness()]);
    let mut encoded = list.encode();
    encoded[1] = 2u8;
    assert_eq!(Err(DecodeError::MalformedWitness), TxWitness::decode(&encoded));
    encoded[1] = 0u8;
    assert_eq!(Err(DecodeError::MalformedWitness), TxWitness::decode(&encoded));
}
