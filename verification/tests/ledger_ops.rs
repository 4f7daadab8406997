use orbit_sync::enums::{AccountType, Currency, TransactionType};
use orbit_sync::items::ItemsDB;
use orbit_sync::pipeline::Ledger;
use orbit_sync::transaction::{
    RequestCreateTransaction, RequestEditTransaction, TransactionDB, TransactionItemRef,
};
use orbit_sync::wallet::{EditAccount, NewAccount, WalletDB};

fn new_account(name: &str, balance: i64) -> NewAccount {
    NewAccount {
        name: name.to_string(),
        kind: AccountType::Cash,
        balance,
        currency: Currency::USD,
    }
}

fn request(amount: i64, kind: TransactionType, affects: bool, account: &str) -> RequestCreateTransaction {
    RequestCreateTransaction {
        amount,
        date: 1_000,
        details: "weekly shop".to_string(),
        kind,
        affects_balance: affects,
        account_id: account.to_string(),
        category: "groceries".to_string(),
        store_name: None,
        items: None,
        job: None,
        employer: None,
        extra_details: None,
        client: None,
        project: None,
    }
}

fn sum_of_balances(wallet: &WalletDB) -> i64 {
    wallet.accounts.iter().map(|a| a.balance).sum()
}

fn ledger_with_account(balance: i64) -> Ledger {
    let mut wallet = WalletDB::empty();
    wallet.add_account_with(new_account("Cash", balance), "a1".to_string(), 1);
    Ledger { transactions: TransactionDB::empty(), wallet, items: ItemsDB::empty() }
}

#[test]
fn wallet_total_tracks_account_changes() {
    let mut wallet = WalletDB::empty();
    assert_eq!(wallet.total_balance, 0);
    wallet.add_account_with(new_account("Cash", 100), "a1".to_string(), 1);
    wallet.add_account_with(new_account("Bank", 250), "a2".to_string(), 2);
    assert_eq!(wallet.total_balance, 350);
    assert_eq!(wallet.total_balance, sum_of_balances(&wallet));
    assert_eq!(wallet.accounts_count(), 2);

    let edited = wallet
        .edit_account_at(
            "a1",
            EditAccount { name: "Cash".to_string(), kind: AccountType::Cash, balance: 40 },
            3,
        )
        .unwrap();
    assert_eq!(edited.balance, 40);
    assert_eq!(wallet.total_balance, 290);
    assert_eq!(wallet.total_balance, sum_of_balances(&wallet));

    let removed = wallet.remove_account("a2").unwrap();
    assert_eq!(removed.balance, 250);
    assert_eq!(wallet.total_balance, 40);
    assert_eq!(wallet.total_balance, sum_of_balances(&wallet));

    assert!(wallet.remove_account("a2").is_err());
    assert_eq!(wallet.get_accounts().len(), 1);
}

#[test]
fn transaction_store_totals_track_mutations() {
    let mut db = TransactionDB::new();
    db.add_transaction_with(request(500, TransactionType::Income, false, "a1"), "t1".to_string(), 1);
    db.add_transaction_with(request(120, TransactionType::Expense, false, "a1"), "t2".to_string(), 2);
    let summary = db.get_financial_summary();
    assert_eq!(summary.total_income, 500);
    assert_eq!(summary.total_expenses, 120);
    assert_eq!(summary.net_balance, 380);
    assert_eq!(summary.transactions_count, 2);

    let edited = db
        .edit_transaction_at(
            "t2",
            RequestEditTransaction {
                amount: 200,
                date: 3,
                details: "bigger shop".to_string(),
                store_name: None,
                items: None,
                job: None,
                employer: None,
                extra_details: None,
                client: None,
                project: None,
            },
            3,
        )
        .unwrap();
    assert_eq!(edited.amount, 200);
    let summary = db.get_financial_summary();
    assert_eq!(summary.total_expenses, 200);
    assert_eq!(summary.net_balance, 300);

    let removed = db.remove_transaction("t1").unwrap();
    assert_eq!(removed.amount, 500);
    let summary = db.get_financial_summary();
    assert_eq!(summary.total_income, 0);
    assert_eq!(summary.net_balance, -200);
    assert!(db.remove_transaction("t1").is_err());
}

#[test]
fn transaction_store_filters_by_account_and_category() {
    let mut db = TransactionDB::new();
    db.add_transaction_with(request(10, TransactionType::Expense, false, "a1"), "t1".to_string(), 1);
    let mut other = request(20, TransactionType::Expense, false, "a2");
    other.category = "travel".to_string();
    db.add_transaction_with(other, "t2".to_string(), 2);

    let by_account = db.get_by_account("a1");
    assert_eq!(by_account.len(), 1);
    assert_eq!(by_account[0].id, "t1");
    let by_category = db.get_by_category("travel");
    assert_eq!(by_category.len(), 1);
    assert_eq!(by_category[0].id, "t2");
    assert_eq!(db.get_all_transactions().len(), 2);
}

#[test]
fn search_matches_details_and_category_case_insensitively() {
    let mut db = TransactionDB::new();
    db.add_transaction_with(request(10, TransactionType::Expense, false, "a1"), "t1".to_string(), 1);
    let mut travel = request(20, TransactionType::Expense, false, "a1");
    travel.details = "Flight to Rome".to_string();
    travel.category = "Travel".to_string();
    db.add_transaction_with(travel, "t2".to_string(), 2);

    // The empty query matches everything.
    assert_eq!(db.search_transactions("").len(), 2);
    // Case-insensitive match on the details.
    let by_details = db.search_transactions("ROME");
    assert_eq!(by_details.len(), 1);
    assert_eq!(by_details[0].id, "t2");
    // Case-insensitive match on the category.
    let by_category = db.search_transactions("groc");
    assert_eq!(by_category.len(), 1);
    assert_eq!(by_category[0].id, "t1");
    // No match.
    assert!(db.search_transactions("telescope").is_empty());
}

#[test]
fn account_history_follows_the_recorded_identifiers() {
    let mut ledger = ledger_with_account(1_000);
    ledger
        .add_transaction_with(request(100, TransactionType::Expense, true, "a1"), "t1".to_string(), 10)
        .unwrap();
    ledger
        .add_transaction_with(request(50, TransactionType::Income, true, "a1"), "t2".to_string(), 11)
        .unwrap();
    let history = ledger.get_account_history("a1").unwrap();
    assert_eq!(history.len(), 2);
    assert_eq!(history[0].id, "t1");
    assert_eq!(history[1].id, "t2");
    assert!(ledger.get_account_history("ghost").is_err());
}

#[test]
fn pipeline_keeps_wallet_total_equal_to_sum_through_add_edit_delete() {
    let mut ledger = ledger_with_account(1_000);

    // Add a balance-affecting income and expense.
    let income = ledger
        .add_transaction_with(request(500, TransactionType::Income, true, "a1"), "t1".to_string(), 10)
        .unwrap();
    assert_eq!(income.amount, 500);
    assert_eq!(ledger.wallet.total_balance, 1_500);
    assert_eq!(ledger.wallet.total_balance, sum_of_balances(&ledger.wallet));

    ledger
        .add_transaction_with(request(200, TransactionType::Expense, true, "a1"), "t2".to_string(), 11)
        .unwrap();
    assert_eq!(ledger.wallet.total_balance, 1_300);
    assert_eq!(ledger.wallet.total_balance, sum_of_balances(&ledger.wallet));
    assert_eq!(ledger.wallet.accounts[0].transactions_count, 2);
    assert_eq!(ledger.wallet.accounts[0].transactions_id, vec!["t1".to_string(), "t2".to_string()]);

    // Edit the expense's amount: the wallet is rebooked by the difference.
    ledger
        .edit_transaction_at(
            "t2",
            RequestEditTransaction {
                amount: 350,
                date: 12,
                details: "weekly shop".to_string(),
                store_name: None,
                items: None,
                job: None,
                employer: None,
                extra_details: None,
                client: None,
                project: None,
            },
            12,
        )
        .unwrap();
    assert_eq!(ledger.wallet.total_balance, 1_150);
    assert_eq!(ledger.wallet.total_balance, sum_of_balances(&ledger.wallet));
    assert_eq!(ledger.transactions.get_financial_summary().total_expenses, 350);

    // Delete both; the wallet returns to its opening balance.
    ledger.delete_transaction("t2").unwrap();
    ledger.delete_transaction("t1").unwrap();
    assert_eq!(ledger.wallet.total_balance, 1_000);
    assert_eq!(ledger.wallet.total_balance, sum_of_balances(&ledger.wallet));
    assert_eq!(ledger.wallet.accounts[0].transactions_count, 0);
    assert!(ledger.wallet.accounts[0].transactions_id.is_empty());
    assert_eq!(ledger.transactions.get_financial_summary().net_balance, 0);
}

#[test]
fn pipeline_rejects_overdraft_and_unknown_account_up_front() {
    let mut ledger = ledger_with_account(100);

    // An expense larger than the balance is rejected with nothing changed.
    let r = ledger.add_transaction_with(
        request(150, TransactionType::Expense, true, "a1"),
        "t1".to_string(),
        10,
    );
    assert!(r.is_err());
    assert_eq!(ledger.wallet.total_balance, 100);
    assert_eq!(ledger.transactions.get_financial_summary().transactions_count, 0);

    // An unknown account is rejected with nothing changed.
    let r = ledger.add_transaction_with(
        request(10, TransactionType::Expense, true, "ghost"),
        "t2".to_string(),
        11,
    );
    assert!(r.is_err());
    assert_eq!(ledger.wallet.total_balance, 100);

    // A non-balance-affecting transaction leaves the wallet alone.
    ledger
        .add_transaction_with(request(999, TransactionType::Expense, false, "a1"), "t3".to_string(), 12)
        .unwrap();
    assert_eq!(ledger.wallet.total_balance, 100);
    assert_eq!(ledger.transactions.get_financial_summary().total_expenses, 999);
}

#[test]
fn pipeline_syncs_item_lines_into_catalog() {
    let mut ledger = ledger_with_account(1_000);

    // An unresolved line creates a catalog entry with the purchase recorded.
    let mut req = request(50, TransactionType::Expense, true, "a1");
    req.items = Some(vec![TransactionItemRef {
        item_id: None,
        name: "Milk".to_string(),
        quantity: Some(2),
        price: Some(25),
    }]);
    ledger.add_transaction_with(req, "t1".to_string(), 10).unwrap();
    assert_eq!(ledger.items.data.len(), 1);
    assert_eq!(ledger.items.data[0].name, "Milk");
    assert_eq!(ledger.items.data[0].purchase_history.len(), 1);
    assert_eq!(ledger.items.data[0].purchase_history[0].price, 25);
    assert_eq!(ledger.items.data[0].purchase_history[0].quantity, 2);

    // A resolved line appends to the existing item's history.
    let existing = ledger.items.data[0].id.clone();
    let mut req2 = request(25, TransactionType::Expense, true, "a1");
    req2.items = Some(vec![TransactionItemRef {
        item_id: Some(existing),
        name: "Milk".to_string(),
        quantity: None,
        price: Some(25),
    }]);
    ledger.add_transaction_with(req2, "t2".to_string(), 11).unwrap();
    assert_eq!(ledger.items.data.len(), 1);
    assert_eq!(ledger.items.data[0].purchase_history.len(), 2);
    assert_eq!(ledger.items.data[0].purchase_history[1].quantity, 1);
}
