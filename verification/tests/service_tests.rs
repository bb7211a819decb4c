//! Transaction cache service tests over the in-memory store.

use chain_witness::service::TransactionService;
use chain_witness::storage::MemoryStorage;
use chain_witness::tx::Tx;
use chain_witness::tx::TxId;

#[test]
fn check_flow() {
    let mut transaction_service = TransactionService::new(MemoryStorage::new());
    let id = TxId::zero();
    let transaction = Tx::default();

    assert_eq!(None, transaction_service.get(&id).unwrap());
    assert!(transaction_service.set(&id, &transaction).is_ok());
    assert_eq!(transaction, transaction_service.get(&id).unwrap().unwrap());
    assert!(transaction_service.clear().is_ok());
    assert_eq!(None, transaction_service.get(&id).unwrap());
}

#[test]
fn latest_set_wins() {
    let mut service = TransactionService::new(MemoryStorage::new());
    let id = TxId::zero();
    let first = Tx::from_payload(vec![0x01]);
    let second = Tx::from_payload(vec![0x02]);

    assert!(service.set(&id, &first).is_ok());
    assert!(service.set(&id, &second).is_ok());
    assert_eq!(second, service.get(&id).unwrap().unwrap());

    let other = TxId::from_bytes(vec![0x07; 32]);
    assert_eq!(None, service.get(&other).unwrap());
    assert!(service.set(&other, &first).is_ok());
    assert_eq!(second, service.get(&id).unwrap().unwrap());
    assert_eq!(first, service.get(&other).unwrap().unwrap());
}
