use orbit_sync::commit::{commit_ledger_documents, CommitError};
use orbit_sync::trusted::atomic_write;

fn read_file(path: &str) -> String {
    let rt = tokio::runtime::Builder::new_current_thread().enable_all().build().unwrap();
    rt.block_on(tokio::fs::read_to_string(path)).unwrap()
}

#[test]
fn atomic_write_replaces_whole_content() {
    let dir = tempfile::tempdir().unwrap();
    let path = dir.path().join("doc.json");
    let path = path.to_str().unwrap();
    assert_eq!(atomic_write(path, "first"), Ok(true));
    assert_eq!(read_file(path), "first");
    assert_eq!(atomic_write(path, "second"), Ok(true));
    assert_eq!(read_file(path), "second");
}

#[test]
fn commit_writes_both_documents_in_the_good_case() {
    let dir = tempfile::tempdir().unwrap();
    let tx_path = dir.path().join("transactions.json");
    let wallet_path = dir.path().join("wallet.json");
    let tx_path = tx_path.to_str().unwrap();
    let wallet_path = wallet_path.to_str().unwrap();
    atomic_write(tx_path, "tx-old").unwrap();
    atomic_write(wallet_path, "wallet-old").unwrap();

    let r = commit_ledger_documents(tx_path, wallet_path, "tx-new", "wallet-new", "tx-old");
    assert!(r.is_ok());
    assert_eq!(read_file(tx_path), "tx-new");
    assert_eq!(read_file(wallet_path), "wallet-new");
}

#[test]
fn failed_wallet_write_rolls_the_transaction_document_back() {
    let dir = tempfile::tempdir().unwrap();
    let tx_path = dir.path().join("transactions.json");
    let tx_path = tx_path.to_str().unwrap();
    atomic_write(tx_path, "tx-old").unwrap();
    // The wallet document sits in a directory that does not exist, so its
    // write must fail after the transaction write succeeded.
    let wallet_path = dir.path().join("missing").join("wallet.json");
    let wallet_path = wallet_path.to_str().unwrap();

    let r = commit_ledger_documents(tx_path, wallet_path, "tx-new", "wallet-new", "tx-old");
    match r {
        Err(CommitError::WalletWriteFailedRolledBack(_)) => {},
        _ => panic!("expected a rolled-back wallet failure"),
    }
    // The transaction document is back to its pre-operation content: the
    // change is not observable anywhere.
    assert_eq!(read_file(tx_path), "tx-old");
}

#[test]
fn failed_transaction_write_changes_nothing() {
    let dir = tempfile::tempdir().unwrap();
    let tx_path = dir.path().join("missing").join("transactions.json");
    let tx_path = tx_path.to_str().unwrap();
    let wallet_path = dir.path().join("wallet.json");
    let wallet_path = wallet_path.to_str().unwrap();
    atomic_write(wallet_path, "wallet-old").unwrap();

    let r = commit_ledger_documents(tx_path, wallet_path, "tx-new", "wallet-new", "tx-old");
    match r {
        Err(CommitError::TransactionWriteFailed(_)) => {},
        _ => panic!("expected the transaction write to fail"),
    }
    assert_eq!(read_file(wallet_path), "wallet-old");
}
