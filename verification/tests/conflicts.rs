use orbit_sync::enums::{AccountType, Currency, TransactionType};
use orbit_sync::items::{ItemsDB, RequestCreateItem};
use orbit_sync::similarity::calculate_similarity;
use orbit_sync::sync_models::ConflictType;
use orbit_sync::transaction::{Transaction, TransactionItemRef};
use orbit_sync::validator::SyncValidator;
use orbit_sync::wallet::{NewAccount, WalletDB};

fn similarity(a: &str, b: &str) -> f32 {
    let (num, den) = calculate_similarity(a, b);
    num as f32 / den as f32
}

fn expense(id: &str, amount: i64, account: &str, items: Option<Vec<TransactionItemRef>>) -> Transaction {
    Transaction {
        id: id.to_string(),
        amount,
        date: 1_000,
        created_at: 1_000,
        updated_at: 1_000,
        details: "pushed".to_string(),
        kind: TransactionType::Expense,
        affects_balance: true,
        account_id: account.to_string(),
        category: "groceries".to_string(),
        store_name: None,
        items,
        job: None,
        employer: None,
        extra_details: None,
        client: None,
        project: None,
    }
}

fn wallet_with(balance: i64) -> WalletDB {
    let mut wallet = WalletDB::empty();
    wallet.add_account_with(
        NewAccount {
            name: "Cash".to_string(),
            kind: AccountType::Cash,
            balance,
            currency: Currency::USD,
        },
        "a1".to_string(),
        1,
    );
    wallet
}

#[test]
fn similarity_matches_the_documented_examples() {
    assert_eq!(similarity("milk", "milk"), 1.0);
    assert_eq!(similarity("", ""), 1.0);
    assert_eq!(similarity("abc", ""), 0.0);
    assert!((similarity("kitten", "sitting") - 0.571).abs() < 0.001);
}

#[test]
fn levenshtein_counts_edits() {
    assert_eq!(orbit_sync::similarity::levenshtein("kitten", "sitting"), 3);
    assert_eq!(orbit_sync::similarity::levenshtein("", "abc"), 3);
    assert_eq!(orbit_sync::similarity::levenshtein("flaw", "lawn"), 2);
    assert_eq!(orbit_sync::similarity::levenshtein("same", "same"), 0);
}

#[test]
fn overdraft_push_yields_exactly_one_insufficient_balance_conflict() {
    let detector = SyncValidator::new(wallet_with(100), ItemsDB::empty());
    let txs = vec![expense("t1", 150, "a1", None)];
    let conflicts = detector.validate_transactions(&txs);
    assert_eq!(conflicts.len(), 1);
    assert_eq!(conflicts[0].transaction_id, "t1");
    match &conflicts[0].conflict_type {
        ConflictType::InsufficientBalance { account_id, account_name, current_balance, required } => {
            assert_eq!(account_id, "a1");
            assert_eq!(account_name, "Cash");
            assert_eq!(*current_balance, 100);
            assert_eq!(*required, 150);
        },
        _ => panic!("expected an insufficient-balance conflict"),
    }
}

#[test]
fn affordable_income_and_unknown_account_raise_no_balance_conflict() {
    let detector = SyncValidator::new(wallet_with(100), ItemsDB::empty());
    // Affordable expense.
    assert!(detector.check_balance_conflict(&expense("t1", 100, "a1", None)).is_none());
    // Income is never flagged.
    let mut income = expense("t2", 500, "a1", None);
    income.kind = TransactionType::Income;
    assert!(detector.check_balance_conflict(&income).is_none());
    // A transaction that does not touch the balance is never flagged.
    let mut floating = expense("t3", 500, "a1", None);
    floating.affects_balance = false;
    assert!(detector.check_balance_conflict(&floating).is_none());
    // An unknown account is not a balance conflict (it fails at apply time).
    assert!(detector.check_balance_conflict(&expense("t4", 500, "ghost", None)).is_none());
}

fn catalog_of(names: &[&str]) -> ItemsDB {
    let mut items = ItemsDB::empty();
    for (i, name) in names.iter().enumerate() {
        items.add_item_with(
            RequestCreateItem { name: name.to_string(), brand: None, has_warranty: None },
            format!("item-{}", i),
            1,
        );
    }
    items
}

#[test]
fn unknown_item_gets_sorted_candidates_above_threshold() {
    let detector = SyncValidator::new(
        WalletDB::empty(),
        catalog_of(&["Milk", "Milky Way", "Bread", "Silk"]),
    );
    let matches = detector.find_similar_items("milk");
    // "Bread" scores far below the threshold; the others qualify.
    assert!(matches.len() >= 2);
    assert!(matches.iter().all(|m| m.name != "Bread"));
    assert_eq!(matches[0].name, "Milk");
    assert_eq!(matches[0].score_num, matches[0].score_den);
    // Scores come sorted, highest first.
    for pair in matches.windows(2) {
        let a = &pair[0];
        let b = &pair[1];
        assert!(a.score_num as u128 * b.score_den as u128 >= b.score_num as u128 * a.score_den as u128);
    }
}

#[test]
fn candidate_list_is_capped_at_five() {
    let detector = SyncValidator::new(
        WalletDB::empty(),
        catalog_of(&["milk", "milk1", "milk2", "milk3", "milk4", "milk5", "milk6"]),
    );
    let matches = detector.find_similar_items("milk");
    assert_eq!(matches.len(), 5);
}

#[test]
fn unresolved_line_with_candidates_raises_unknown_item_conflict() {
    let detector = SyncValidator::new(wallet_with(10_000), catalog_of(&["Milk", "Bread"]));
    let line = TransactionItemRef {
        item_id: None,
        name: "milkk".to_string(),
        quantity: Some(1),
        price: Some(10),
    };
    let txs = vec![expense("t1", 10, "a1", Some(vec![line]))];
    let conflicts = detector.validate_transactions(&txs);
    assert_eq!(conflicts.len(), 1);
    match &conflicts[0].conflict_type {
        ConflictType::UnknownItem { item_name, suggested_matches } => {
            assert_eq!(item_name, "milkk");
            assert_eq!(suggested_matches.len(), 1);
            assert_eq!(suggested_matches[0].name, "Milk");
        },
        _ => panic!("expected an unknown-item conflict"),
    }
}

#[test]
fn unresolved_line_without_candidates_is_not_flagged() {
    let detector = SyncValidator::new(wallet_with(10_000), catalog_of(&["Bread"]));
    let line = TransactionItemRef {
        item_id: None,
        name: "telescope".to_string(),
        quantity: Some(1),
        price: Some(10),
    };
    let txs = vec![expense("t1", 10, "a1", Some(vec![line]))];
    assert!(detector.validate_transactions(&txs).is_empty());
    // A resolved line is never flagged either.
    let resolved = TransactionItemRef {
        item_id: Some("item-0".to_string()),
        name: "Bread".to_string(),
        quantity: Some(1),
        price: Some(10),
    };
    let txs2 = vec![expense("t2", 10, "a1", Some(vec![resolved]))];
    assert!(detector.validate_transactions(&txs2).is_empty());
}

#[test]
fn detector_is_deterministic_over_the_same_snapshot() {
    let detector = SyncValidator::new(wallet_with(100), catalog_of(&["Milk"]));
    let line = TransactionItemRef {
        item_id: None,
        name: "milk".to_string(),
        quantity: Some(1),
        price: Some(10),
    };
    let txs = vec![expense("t1", 150, "a1", Some(vec![line]))];
    let first = detector.validate_transactions(&txs);
    let second = detector.validate_transactions(&txs);
    assert_eq!(first.len(), second.len());
    assert_eq!(first.len(), 2);
    assert_eq!(first[0].transaction_id, second[0].transaction_id);
}
