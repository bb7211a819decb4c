//! Verification-engine tests against the real curve library.

use chain_witness::tx::Tx;
use chain_witness::witness::EcdsaSignature;
use chain_witness::witness::ExtendedAddr;
use chain_witness::witness::MerklePath;
use chain_witness::witness::ProofOp;
use chain_witness::witness::TxInWitness;
use chain_witness::witness::TxWitness;
use chain_witness::witness::VerifyError;
use chain_witness::witness::redeem_address_of_pubkey;
use chain_witness::crypto::hash256;

use secp256k1::ecdsa::RecoverableSignature;
use secp256k1::ecdsa::RecoveryId;
use secp256k1::schnorr;
use secp256k1::Keypair;
use secp256k1::Message;
use secp256k1::PublicKey;
use secp256k1::Scalar;
use secp256k1::SecretKey;

fn message_of(tx: &Tx) -> Message {
    let digest: [u8; 32] = tx.id().try_into().expect("32 bytes");
    Message::from_digest(digest)
}

fn get_ecdsa_witness(tx: &Tx, secret_key: &SecretKey) -> TxInWitness {
    let sig = RecoverableSignature::sign_ecdsa_recoverable(message_of(tx), secret_key);
    let (recovery_id, serialized_sig) = sig.serialize_compact();
    TxInWitness::BasicRedeem(EcdsaSignature {
        recovery_id: recovery_id.to_u8(),
        signature: serialized_sig.to_vec(),
    })
}

fn redeem_addr_of(public_key: &PublicKey) -> ExtendedAddr {
    let addr = redeem_address_of_pubkey(&public_key.serialize()).expect("valid key");
    ExtendedAddr::BasicRedeem(addr)
}

fn get_single_tx_witness(tx: &Tx, secret_key: &SecretKey) -> (TxInWitness, Vec<u8>) {
    let keypair = Keypair::from_secret_key(secret_key);
    let sig = schnorr::sign_no_aux_rand(&tx.id(), &keypair);
    let pk = PublicKey::from_secret_key(secret_key);
    let pk_hash = hash256(&pk.serialize());
    let witness = TxInWitness::TreeSig(pk.serialize().to_vec(), sig.to_byte_array().to_vec(), vec![]);
    (witness, pk_hash)
}

fn agg_secret_key(secret_key1: &SecretKey, secret_key2: &SecretKey) -> SecretKey {
    let tweak = Scalar::from_be_bytes(secret_key2.secret_bytes()).expect("32 bytes, within curve order");
    secret_key1.clone().add_tweak(&tweak).expect("aggregated key")
}

fn get_2_of_2_tx_witness(tx: &Tx, secret_key1: &SecretKey, secret_key2: &SecretKey) -> (TxInWitness, Vec<u8>) {
    let agg = agg_secret_key(secret_key1, secret_key2);
    let pk1 = PublicKey::from_secret_key(secret_key1);
    let pk2 = PublicKey::from_secret_key(secret_key2);
    let pk = pk1.combine(&pk2).expect("combined pk");
    assert_eq!(pk, PublicKey::from_secret_key(&agg));
    let keypair = Keypair::from_secret_key(&agg);
    let sig = schnorr::sign_no_aux_rand(&tx.id(), &keypair);
    let pk_hash = hash256(&pk.serialize());
    let witness = TxInWitness::TreeSig(pk.serialize().to_vec(), sig.to_byte_array().to_vec(), vec![]);
    (witness, pk_hash)
}

fn node_hash(left: &[u8], right: &[u8]) -> Vec<u8> {
    let mut bs = vec![1u8];
    bs.extend_from_slice(left);
    bs.extend_from_slice(right);
    hash256(&bs)
}

fn get_2_of_3_tx_witness(
    tx: &Tx,
    secret_key1: &SecretKey,
    secret_key2: &SecretKey,
    secret_key3: &SecretKey,
) -> (TxInWitness, Vec<u8>) {
    let aggc1 = agg_secret_key(secret_key1, secret_key2);
    let aggc2 = agg_secret_key(secret_key1, secret_key3);
    let aggc3 = agg_secret_key(secret_key2, secret_key3);
    let pkc1 = PublicKey::from_secret_key(&aggc1);
    let pkc2 = PublicKey::from_secret_key(&aggc2);
    let pkc3 = PublicKey::from_secret_key(&aggc3);
    let h1 = hash256(&pkc1.serialize());
    let h2 = hash256(&pkc2.serialize());
    let h3 = hash256(&pkc3.serialize());
    let root = node_hash(&node_hash(&h1, &h2), &h3);

    let path = vec![
        ProofOp(MerklePath::LFound, h2),
        ProofOp(MerklePath::LFound, h3),
    ];

    let keypair = Keypair::from_secret_key(&aggc1);
    let sig = schnorr::sign_no_aux_rand(&tx.id(), &keypair);
    let witness = TxInWitness::TreeSig(pkc1.serialize().to_vec(), sig.to_byte_array().to_vec(), path);
    (witness, root)
}

#[test]
fn mismatched_signed_tx_should_fail() {
    let tx = Tx::new();
    let secret_key = SecretKey::from_byte_array([0xcd; 32]).expect("32 bytes, within curve order");
    let public_key = PublicKey::from_secret_key(&secret_key);
    let expected_addr1 = ExtendedAddr::OrTree(vec![0x00; 32]);
    let witness1 = get_ecdsa_witness(&tx, &secret_key);
    assert!(witness1.verify_tx_address(&tx, &expected_addr1).is_err());
    let expected_addr2 = redeem_addr_of(&public_key);
    let (witness2, _) = get_single_tx_witness(&tx, &secret_key);
    assert!(witness2.verify_tx_address(&tx, &expected_addr2).is_err());
}

#[test]
fn same_pk_recovered() {
    let tx = Tx::new();
    let secret_key = SecretKey::from_byte_array([0xcd; 32]).expect("32 bytes, within curve order");
    let public_key = PublicKey::from_secret_key(&secret_key);
    let witness: TxWitness = vec![get_ecdsa_witness(&tx, &secret_key)].into();
    let encoded = witness.encode();
    let decoded = TxWitness::decode(&encoded).expect("decode tx witness");
    match &decoded.0[0] {
        TxInWitness::BasicRedeem(sig) => {
            let recovery_id =
                RecoveryId::try_from(sig.recovery_id as i32).expect("recovery id");
            let rsig = RecoverableSignature::from_compact(&sig.signature, recovery_id)
                .expect("recoverable signature");
            let pk = rsig.recover_ecdsa(message_of(&tx)).unwrap();
            assert_eq!(pk, public_key);
        }
        _ => {
            assert!(false);
        }
    }
}

#[test]
fn signed_tx_should_verify() {
    let tx = Tx::new();
    let secret_key = SecretKey::from_byte_array([0xcd; 32]).expect("32 bytes, within curve order");
    let public_key = PublicKey::from_secret_key(&secret_key);
    let expected_addr = redeem_addr_of(&public_key);
    let witness = get_ecdsa_witness(&tx, &secret_key);
    assert!(witness.verify_tx_address(&tx, &expected_addr).is_ok());
}

#[test]
fn schnorr_signed_tx_should_verify() {
    let tx = Tx::new();
    let secret_key = SecretKey::from_byte_array([0xcd; 32]).expect("32 bytes, within curve order");
    let (witness, addr) = get_single_tx_witness(&tx, &secret_key);
    let expected_addr = ExtendedAddr::OrTree(addr);
    let r = witness.verify_tx_address(&tx, &expected_addr);
    assert!(r.is_ok());
}

#[test]
fn agg_schnorr_signed_tx_should_verify() {
    let tx = Tx::new();
    let secret_key1 = SecretKey::from_byte_array([0xcd; 32]).expect("32 bytes, within curve order");
    let secret_key2 = SecretKey::from_byte_array([0xde; 32]).expect("32 bytes, within curve order");
    let (witness, addr) = get_2_of_2_tx_witness(&tx, &secret_key1, &secret_key2);
    let expected_addr = ExtendedAddr::OrTree(addr);
    assert!(witness.verify_tx_address(&tx, &expected_addr).is_ok());
}

#[test]
fn tree_agg_schnorr_signed_tx_should_verify() {
    let tx = Tx::new();
    let secret_key1 = SecretKey::from_byte_array([0xcd; 32]).expect("32 bytes, within curve order");
    let secret_key2 = SecretKey::from_byte_array([0xde; 32]).expect("32 bytes, within curve order");
    let secret_key3 = SecretKey::from_byte_array([0xef; 32]).expect("32 bytes, within curve order");
    let (witness, addr) = get_2_of_3_tx_witness(&tx, &secret_key1, &secret_key2, &secret_key3);
    let expected_addr = ExtendedAddr::OrTree(addr);
    assert!(witness.verify_tx_address(&tx, &expected_addr).is_ok());
}

#[test]
fn flipped_proof_path_direction_fails() {
    let tx = Tx::new();
    let secret_key1 = SecretKey::from_byte_array([0xcd; 32]).expect("32 bytes, within curve order");
    let secret_key2 = SecretKey::from_byte_array([0xde; 32]).expect("32 bytes, within curve order");
    let secret_key3 = SecretKey::from_byte_array([0xef; 32]).expect("32 bytes, within curve order");
    let (witness, addr) = get_2_of_3_tx_witness(&tx, &secret_key1, &secret_key2, &secret_key3);
    let expected_addr = ExtendedAddr::OrTree(addr);
    match witness {
        TxInWitness::TreeSig(pk, sig, path) => {
            let mut flipped_first = path.clone();
            flipped_first[0] = ProofOp(MerklePath::RFound, flipped_first[0].1.clone());
            let w1 = TxInWitness::TreeSig(pk.clone(), sig.clone(), flipped_first);
            assert_eq!(
                Err(VerifyError::AddressMismatch),
                w1.verify_tx_address(&tx, &expected_addr)
            );
            let mut flipped_second = path.clone();
            flipped_second[1] = ProofOp(MerklePath::RFound, flipped_second[1].1.clone());
            let w2 = TxInWitness::TreeSig(pk, sig, flipped_second);
            assert_eq!(
                Err(VerifyError::AddressMismatch),
                w2.verify_tx_address(&tx, &expected_addr)
            );
        }
        _ => {
            assert!(false);
        }
    }
}

#[test]
fn wrong_basic_address_should_fail() {
    let tx = Tx::new();
    let secret_key = SecretKey::from_byte_array([0xcd; 32]).expect("32 bytes, within curve order");
    let witness = get_ecdsa_witness(&tx, &secret_key);
    let wrong_addr = ExtendedAddr::BasicRedeem(vec![0x00; 20]);
    assert!(witness.verify_tx_address(&tx, &wrong_addr).is_err());
}

#[test]
fn wrongly_basic_signed_tx_should_fail() {
    let tx = Tx::new();
    let secret_key = SecretKey::from_byte_array([0xcd; 32]).expect("32 bytes, within curve order");
    let message = Message::from_digest([0xaa; 32]);
    let sig = RecoverableSignature::sign_ecdsa_recoverable(message, &secret_key);
    let (recovery_id, serialized_sig) = sig.serialize_compact();
    let witness = TxInWitness::BasicRedeem(EcdsaSignature {
        recovery_id: recovery_id.to_u8(),
        signature: serialized_sig.to_vec(),
    });
    let addr = ExtendedAddr::BasicRedeem(vec![0x00; 20]);
    assert!(witness.verify_tx_address(&tx, &addr).is_err());
}

#[test]
fn scheme_address_mismatch_is_reported() {
    let tx = Tx::new();
    let secret_key = SecretKey::from_byte_array([0xcd; 32]).expect("32 bytes, within curve order");
    let public_key = PublicKey::from_secret_key(&secret_key);
    let witness = get_ecdsa_witness(&tx, &secret_key);
    let tree_addr = ExtendedAddr::OrTree(vec![0x00; 32]);
    assert_eq!(
        Err(VerifyError::SchemeAddressMismatch),
        witness.verify_tx_address(&tx, &tree_addr)
    );
    let (tree_witness, _) = get_single_tx_witness(&tx, &secret_key);
    let basic_addr = redeem_addr_of(&public_key);
    assert_eq!(
        Err(VerifyError::SchemeAddressMismatch),
        tree_witness.verify_tx_address(&tx, &basic_addr)
    );
}

#[test]
fn tampered_tx_signature_is_invalid() {
    let tx = Tx::new();
    let other_tx = Tx::from_payload(vec![0x01]);
    let secret_key = SecretKey::from_byte_array([0xcd; 32]).expect("32 bytes, within curve order");
    let (witness, addr) = get_single_tx_witness(&tx, &secret_key);
    let expected_addr = ExtendedAddr::OrTree(addr);
    assert_eq!(
        Err(VerifyError::SignatureInvalid),
        witness.verify_tx_address(&other_tx, &expected_addr)
    );
}

#[test]
fn redeem_address_is_a_fresh_20_byte_digest() {
    let secret_key1 = SecretKey::from_byte_array([0xcd; 32]).expect("32 bytes, within curve order");
    let secret_key2 = SecretKey::from_byte_array([0xde; 32]).expect("32 bytes, within curve order");
    let pk1 = PublicKey::from_secret_key(&secret_key1).serialize();
    let pk2 = PublicKey::from_secret_key(&secret_key2).serialize();
    let a1 = redeem_address_of_pubkey(&pk1).expect("valid key");
    let a2 = redeem_address_of_pubkey(&pk2).expect("valid key");
    assert_eq!(20, a1.len());
    assert_ne!(a1, a2);
    assert_ne!(a1.as_slice(), &pk1[..20]);
    assert_eq!(None, redeem_address_of_pubkey(&[0u8; 33]));
}

#[test]
fn tx_id_is_a_fresh_32_byte_digest() {
    let tx1 = Tx::from_payload(vec![0xab; 32]);
    let tx2 = Tx::from_payload(vec![0xac; 32]);
    assert_eq!(32, tx1.id().len());
    assert_ne!(tx1.id(), tx1.payload);
    assert_ne!(tx1.id(), tx2.id());
}
