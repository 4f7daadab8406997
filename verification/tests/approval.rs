use orbit_sync::enums::{AccountType, Currency, TransactionType};
use orbit_sync::items::ItemsDB;
use orbit_sync::pipeline::{apply_batch, approve_sync_data, Ledger};
use orbit_sync::sync_models::{ConflictResolution, PendingSyncData, SyncDataPayload};
use orbit_sync::sync_state::SyncServerState;
use orbit_sync::transaction::{Transaction, TransactionDB};
use orbit_sync::wallet::{NewAccount, WalletDB};

fn pushed_expense(id: &str, amount: i64) -> Transaction {
    Transaction {
        id: id.to_string(),
        amount,
        date: 1_000,
        created_at: 1_000,
        updated_at: 1_000,
        details: "pushed".to_string(),
        kind: TransactionType::Expense,
        affects_balance: true,
        account_id: "a1".to_string(),
        category: "groceries".to_string(),
        store_name: None,
        items: None,
        job: None,
        employer: None,
        extra_details: None,
        client: None,
        project: None,
    }
}

fn ledger_with_balance(balance: i64) -> Ledger {
    let mut wallet = WalletDB::empty();
    wallet.add_account_with(
        NewAccount {
            name: "Cash".to_string(),
            kind: AccountType::Cash,
            balance,
            currency: Currency::USD,
        },
        "a1".to_string(),
        1,
    );
    Ledger { transactions: TransactionDB::empty(), wallet, items: ItemsDB::empty() }
}

fn batch_of(transactions: Vec<Transaction>) -> PendingSyncData {
    PendingSyncData {
        id: "b1".to_string(),
        payload: SyncDataPayload {
            transactions,
            device_name: "phone".to_string(),
            timestamp: 2_000,
        },
        conflicts: Vec::new(),
        received_at: 2_000,
        device_name: "phone".to_string(),
    }
}

#[test]
fn batch_applies_all_entries_through_the_pipeline() {
    let mut ledger = ledger_with_balance(1_000);
    let batch = batch_of(vec![pushed_expense("p1", 100), pushed_expense("p2", 200)]);
    let report = apply_batch(&mut ledger, &batch, &Vec::new());
    assert!(report.failed.is_none());
    assert_eq!(report.applied, vec!["p1".to_string(), "p2".to_string()]);
    assert_eq!(ledger.wallet.total_balance, 700);
    assert_eq!(ledger.transactions.get_financial_summary().total_expenses, 300);
}

#[test]
fn skipped_entries_are_passed_over() {
    let mut ledger = ledger_with_balance(1_000);
    let batch = batch_of(vec![pushed_expense("p1", 100), pushed_expense("p2", 200)]);
    let resolutions = vec![("p1".to_string(), ConflictResolution::SkipTransaction)];
    let report = apply_batch(&mut ledger, &batch, &resolutions);
    assert!(report.failed.is_none());
    assert_eq!(report.applied, vec!["p2".to_string()]);
    assert_eq!(ledger.wallet.total_balance, 800);
}

#[test]
fn adjust_amount_overrides_the_pushed_amount() {
    let mut ledger = ledger_with_balance(1_000);
    let batch = batch_of(vec![pushed_expense("p1", 5_000)]);
    let resolutions = vec![("p1".to_string(), ConflictResolution::AdjustAmount { new_amount: 400 })];
    let report = apply_batch(&mut ledger, &batch, &resolutions);
    assert!(report.failed.is_none());
    assert_eq!(ledger.wallet.total_balance, 600);
    assert_eq!(ledger.transactions.data[0].amount, 400);
}

#[test]
fn batch_stops_at_the_first_failure_and_keeps_the_prefix() {
    let mut ledger = ledger_with_balance(250);
    let batch = batch_of(vec![
        pushed_expense("p1", 100),
        pushed_expense("p2", 9_999),
        pushed_expense("p3", 100),
    ]);
    let report = apply_batch(&mut ledger, &batch, &Vec::new());
    // The first entry stays committed, the second fails, the third never runs.
    let (failed_id, _) = report.failed.unwrap();
    assert_eq!(failed_id, "p2");
    assert_eq!(report.applied, vec!["p1".to_string()]);
    assert_eq!(ledger.wallet.total_balance, 150);
    assert_eq!(ledger.transactions.get_financial_summary().transactions_count, 1);
}

#[test]
fn approval_consumes_the_batch_and_rejection_touches_no_store() {
    let mut state = SyncServerState::new(8080);
    state.start("123456".to_string(), 1_000);
    state.enqueue_pending(batch_of(vec![pushed_expense("p1", 100)]));
    let mut ledger = ledger_with_balance(1_000);

    // Rejection removes the batch and leaves the ledger alone.
    let r = approve_sync_data(&mut state, &mut ledger, "b1", false, &Vec::new()).unwrap();
    assert!(r.is_none());
    assert!(state.pending_data.is_empty());
    assert_eq!(ledger.wallet.total_balance, 1_000);

    // A decision on a consumed batch fails.
    assert!(approve_sync_data(&mut state, &mut ledger, "b1", true, &Vec::new()).is_err());

    // Approval applies through the pipeline and also consumes the batch.
    state.enqueue_pending(batch_of(vec![pushed_expense("p1", 100)]));
    let report = approve_sync_data(&mut state, &mut ledger, "b1", true, &Vec::new())
        .unwrap()
        .unwrap();
    assert!(report.failed.is_none());
    assert!(state.pending_data.is_empty());
    assert_eq!(ledger.wallet.total_balance, 900);
}
