use coordinatord::{
    bytes_eq, check_fresh, collect_sigs, vout_column, DbError, OutPoint, Store, INSERT_SPEND_TX, SCHEMA,
    UPSERT_OUTPOINT,
};

fn op(txid: u8, vout: u32) -> OutPoint {
    OutPoint { txid: vec![txid; 32], vout }
}

fn lookup(sigs: &Vec<(Vec<u8>, Vec<u8>)>, pubkey: &[u8]) -> Option<Vec<u8>> {
    sigs.iter().find(|(k, _)| k.as_slice() == pubkey).map(|(_, s)| s.clone())
}

#[test]
fn store_then_fetch_sig() {
    let mut store = Store::new();
    let txid = vec![1u8; 32];
    let pubkey = vec![2u8; 33];
    let sig = vec![0x30, 0x44, 0x02, 0x20, 7, 7, 7];
    assert!(store.store_sig(txid.clone(), pubkey.clone(), sig.clone()).is_ok());
    let sigs = store.fetch_sigs(&txid);
    assert_eq!(sigs.len(), 1);
    assert_eq!(lookup(&sigs, &pubkey), Some(sig));
    assert!(store.fetch_sigs(&vec![9u8; 32]).is_empty());
}

#[test]
fn duplicate_sig_refused() {
    let mut store = Store::new();
    let sig = vec![0x30, 0x45, 1, 2, 3];
    assert!(store.store_sig(vec![1u8; 32], vec![2u8; 33], sig.clone()).is_ok());
    let second = store.store_sig(vec![3u8; 32], vec![4u8; 33], sig.clone());
    assert!(matches!(second, Err(DbError::Duplicate)));
    let err = second.unwrap_err();
    assert!(err.is_duplicate());
    assert_eq!(err.message(), "Trying to insert a duplicated entry");
    assert_eq!(store.fetch_sigs(&vec![1u8; 32]).len(), 1);
    assert!(store.fetch_sigs(&vec![3u8; 32]).is_empty());
}

#[test]
fn fetch_sigs_last_row_wins_per_pubkey() {
    let mut store = Store::new();
    let txid = vec![5u8; 32];
    let pk_a = vec![2u8; 33];
    let pk_b = vec![3u8; 33];
    assert!(store.store_sig(txid.clone(), pk_a.clone(), vec![10]).is_ok());
    assert!(store.store_sig(txid.clone(), pk_b.clone(), vec![11]).is_ok());
    assert!(store.store_sig(txid.clone(), pk_a.clone(), vec![12]).is_ok());
    assert!(store.store_sig(vec![6u8; 32], pk_a.clone(), vec![13]).is_ok());
    let sigs = store.fetch_sigs(&txid);
    assert_eq!(sigs.len(), 2);
    assert_eq!(lookup(&sigs, &pk_a), Some(vec![12]));
    assert_eq!(lookup(&sigs, &pk_b), Some(vec![11]));
}

#[test]
fn collect_sigs_one_entry_per_key() {
    let rows = vec![
        (vec![1u8], vec![10u8]),
        (vec![2u8], vec![20u8]),
        (vec![1u8], vec![30u8]),
    ];
    let out = collect_sigs(&rows);
    assert_eq!(out, vec![(vec![1u8], vec![30u8]), (vec![2u8], vec![20u8])]);
    assert!(collect_sigs(&Vec::new()).is_empty());
}

#[test]
fn store_then_fetch_spend() {
    let mut store = Store::new();
    let outpoints = vec![op(1, 0), op(1, 1), op(2, 7)];
    let txid = vec![0xaa; 32];
    let tx = vec![2, 0, 0, 0, 1, 9, 9];
    store.store_spend_tx(&outpoints, txid, tx.clone());
    for o in outpoints.iter() {
        assert_eq!(store.fetch_spend_tx(o), Some(tx.clone()));
    }
    assert_eq!(store.fetch_spend_tx(&op(1, 2)), None);
    assert_eq!(store.fetch_spend_tx(&op(3, 0)), None);
}

#[test]
fn store_spend_twice_is_idempotent() {
    let mut store = Store::new();
    let outpoints = vec![op(1, 0), op(2, 3)];
    let txid = vec![0xbb; 32];
    let tx = vec![1, 2, 3, 4];
    store.store_spend_tx(&outpoints, txid.clone(), tx.clone());
    store.store_spend_tx(&outpoints, txid, tx.clone());
    assert_eq!(store.fetch_spend_tx(&op(1, 0)), Some(tx.clone()));
    assert_eq!(store.fetch_spend_tx(&op(2, 3)), Some(tx));
    assert_eq!(store.fetch_spend_tx(&op(2, 4)), None);
}

#[test]
fn reclaimed_outpoint_resolves_to_new_spend() {
    let mut store = Store::new();
    let first = vec![1u8, 1, 1];
    let second = vec![2u8, 2, 2];
    store.store_spend_tx(&vec![op(1, 0), op(1, 1)], vec![0x11; 32], first.clone());
    store.store_spend_tx(&vec![op(1, 1)], vec![0x22; 32], second.clone());
    assert_eq!(store.fetch_spend_tx(&op(1, 1)), Some(second));
    assert_eq!(store.fetch_spend_tx(&op(1, 0)), Some(first));
}

#[test]
fn fetch_spend_never_stored_is_none() {
    let store = Store::new();
    assert_eq!(store.fetch_spend_tx(&op(4, 4)), None);
}

#[test]
fn empty_outpoint_set_stores_transaction_only() {
    let mut store = Store::new();
    store.store_spend_tx(&Vec::new(), vec![0x33; 32], vec![5, 5]);
    assert_eq!(store.fetch_spend_tx(&op(0x33, 0)), None);
}

#[test]
fn high_vout_is_distinct_from_low() {
    let mut store = Store::new();
    store.store_spend_tx(&vec![op(1, u32::MAX)], vec![0x44; 32], vec![4]);
    assert_eq!(store.fetch_spend_tx(&op(1, u32::MAX)), Some(vec![4]));
    assert_eq!(store.fetch_spend_tx(&op(1, 0x7fff_ffff)), None);
}

#[test]
fn vout_column_values() {
    assert_eq!(vout_column(0), 0);
    assert_eq!(vout_column(7), 7);
    assert_eq!(vout_column(0x7fff_ffff), i32::MAX);
    assert_eq!(vout_column(0x8000_0000), i32::MIN);
    assert_eq!(vout_column(u32::MAX), -1);
}

#[test]
fn bytes_eq_compares_contents() {
    assert!(bytes_eq(&vec![1, 2, 3], &vec![1, 2, 3]));
    assert!(!bytes_eq(&vec![1, 2, 3], &vec![1, 2, 4]));
    assert!(!bytes_eq(&vec![1, 2], &vec![1, 2, 3]));
    assert!(bytes_eq(&Vec::new(), &Vec::new()));
}

#[test]
fn schema_bootstrap_only_creates_missing_tables() {
    let creates = SCHEMA.matches("CREATE TABLE").count();
    assert_eq!(creates, 4);
    assert_eq!(SCHEMA.matches("CREATE TABLE IF NOT EXISTS").count(), creates);
    for word in ["DROP", "DELETE", "INSERT", "UPDATE", "ALTER", "TRUNCATE"] {
        assert!(!SCHEMA.contains(word));
    }
    for table in ["version", "signatures", "spend_txs", "spend_outpoints"] {
        assert!(SCHEMA.contains(&format!("CREATE TABLE IF NOT EXISTS {} (", table)));
    }
}

#[test]
fn statements_skip_or_overwrite_on_conflict() {
    assert!(INSERT_SPEND_TX.ends_with("ON CONFLICT DO NOTHING"));
    assert!(UPSERT_OUTPOINT.contains("ON CONFLICT (deposit_txid, deposit_vout) DO UPDATE"));
}

#[test]
fn check_fresh_refuses_when_rows_match() {
    assert!(check_fresh(0).is_ok());
    assert!(matches!(check_fresh(1), Err(DbError::Duplicate)));
    assert!(matches!(check_fresh(3), Err(DbError::Duplicate)));
}
