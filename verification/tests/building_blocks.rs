use orbit_sync::enums::LeakDateRange;
use orbit_sync::item_limits::{calculate_current_quantity, calculate_current_spending, get_range_edge};
use orbit_sync::items::{Item, ItemLimitWarning, LimitType, PurchaseHistoryInfo, RequestCreateItem, RequestEditItem};
use orbit_sync::items::ItemsDB;
use orbit_sync::pagination::PaginationResult;
use orbit_sync::strnum::{decimal_string, str_eq, to_hex};
use orbit_sync::trusted::{fresh_uuid, random_string};

#[test]
fn decimal_rendering_matches_formatting() {
    assert_eq!(decimal_string(0), "0");
    assert_eq!(decimal_string(7), "7");
    assert_eq!(decimal_string(42), "42");
    assert_eq!(decimal_string(100000), "100000");
    assert_eq!(decimal_string(999999), "999999");
    assert_eq!(decimal_string(u64::MAX), format!("{}", u64::MAX));
}

#[test]
fn hex_rendering_matches_formatting() {
    assert_eq!(to_hex(&vec![]), "");
    assert_eq!(to_hex(&vec![0x00, 0xab, 0x0f]), "00ab0f");
    assert_eq!(to_hex(&vec![0xff]), "ff");
}

#[test]
fn string_equality_is_by_characters() {
    assert!(str_eq("milk", "milk"));
    assert!(!str_eq("milk", "mill"));
    assert!(!str_eq("milk", "milky"));
    assert!(str_eq("", ""));
}

#[test]
fn random_string_has_the_asked_length_and_charset() {
    let s = random_string(14);
    assert_eq!(s.len(), 14);
    assert!(s.chars().all(|c| c.is_ascii_alphanumeric()));
    // Two draws almost surely differ; equal draws would mean the wrapper
    // ignores its randomness source.
    assert_ne!(random_string(24), random_string(24));
}

#[test]
fn fresh_uuid_is_hyphenated_and_fresh() {
    let a = fresh_uuid();
    assert_eq!(a.len(), 36);
    assert_eq!(a.chars().filter(|c| *c == '-').count(), 4);
    assert_ne!(a, fresh_uuid());
}

#[test]
fn pagination_cuts_the_asked_window() {
    let page = PaginationResult::from(vec![1, 2, 3, 4, 5], 2, 2);
    assert_eq!(page.items, vec![3, 4]);
    assert_eq!(page.total, 5);
    assert_eq!(page.page, 2);
    assert_eq!(page.limit, 2);
    assert_eq!(page.total_pages, 3);
    assert!(page.has_next);
    assert!(page.has_previous);

    let last = PaginationResult::from(vec![1, 2, 3, 4, 5], 2, 4);
    assert_eq!(last.items, vec![5]);
    assert!(!last.has_next);

    let past_the_end = PaginationResult::from(vec![1, 2, 3], 10, 5);
    assert!(past_the_end.items.is_empty());
    assert_eq!(past_the_end.total_pages, 1);

    let fresh: PaginationResult<i32> = PaginationResult::new();
    assert_eq!(fresh.total, 0);
    assert_eq!(fresh.page, 1);
    assert_eq!(fresh.limit, 10);
}

#[test]
fn range_edge_subtracts_the_window_and_floors_at_zero() {
    let week = 7 * 24 * 60 * 60 * 1000;
    assert_eq!(get_range_edge(week + 5, LeakDateRange::Week), 5);
    assert_eq!(get_range_edge(10, LeakDateRange::Month), 0);
    assert_eq!(get_range_edge(400 * 24 * 60 * 60 * 1000, LeakDateRange::Year), 35 * 24 * 60 * 60 * 1000);
}

fn purchase(date: u64, price: i64, quantity: u32) -> PurchaseHistoryInfo {
    PurchaseHistoryInfo {
        id: "p".to_string(),
        price,
        date,
        transaction_name: "shop".to_string(),
        quantity,
    }
}

#[test]
fn current_spending_sums_the_window_only() {
    let week = 7 * 24 * 60 * 60 * 1000;
    let history = vec![purchase(0, 100, 1), purchase(week, 250, 2), purchase(week + 10, 50, 1)];
    // The window ends at the last purchase; the first one falls outside it.
    assert_eq!(calculate_current_spending(LeakDateRange::Week, &history, 40), 250 + 50 + 40);
    assert_eq!(calculate_current_quantity(LeakDateRange::Week, &history, 3), 2 + 1 + 3);
    // No history: the new figures stand alone.
    assert_eq!(calculate_current_spending(LeakDateRange::Week, &[], 40), 40);
    assert_eq!(calculate_current_quantity(LeakDateRange::Week, &[], 3), 3);
}

fn leak_item(money_limit: Option<u32>, amount_limit: Option<u32>, history: Vec<PurchaseHistoryInfo>) -> Item {
    Item {
        id: "i1".to_string(),
        name: "Chocolate".to_string(),
        brand: None,
        has_warranty: None,
        is_spending_leak: Some(true),
        has_exceeded_spend_money_limit: None,
        spend_money_limit: money_limit,
        spend_amount_limit: amount_limit,
        leak_date_range: Some(LeakDateRange::Month),
        purchase_history: history,
        created_at: 0,
        updated_at: 0,
    }
}

#[test]
fn check_limits_warns_on_each_exceeded_limit() {
    let item = leak_item(Some(100), Some(3), vec![purchase(1_000, 80, 2)]);
    // 80 already spent + 2 * 30 = 140 > 100; 2 bought + 2 = 4 > 3.
    let warnings: Vec<ItemLimitWarning> = item.check_limits(2, 30);
    assert_eq!(warnings.len(), 2);
    assert_eq!(warnings[0].limit_type, LimitType::Money);
    assert_eq!(warnings[0].limit, 100);
    assert_eq!(warnings[0].current, 140);
    assert_eq!(warnings[0].exceeded, 40);
    assert_eq!(warnings[1].limit_type, LimitType::Quantity);
    assert_eq!(warnings[1].current, 4);
    assert_eq!(warnings[1].exceeded, 1);

    // Inside the limits: no warnings.
    assert!(item.check_limits(1, 10).is_empty());

    // Not marked as a leak: never checked.
    let mut quiet = leak_item(Some(1), Some(1), vec![purchase(1_000, 80, 2)]);
    quiet.is_spending_leak = Some(false);
    assert!(quiet.check_limits(5, 100).is_empty());
}

#[test]
fn catalog_sorts_items_by_lowercased_name() {
    let mut items = ItemsDB::new();
    for (i, name) in ["banana", "Apple", "cherry", "apricot"].iter().enumerate() {
        items.add_item_with(
            RequestCreateItem { name: name.to_string(), brand: None, has_warranty: None },
            format!("i{}", i),
            1,
        );
    }
    let sorted = items.get_all_sorted();
    let names: Vec<&str> = sorted.iter().map(|i| i.name.as_str()).collect();
    assert_eq!(names, vec!["Apple", "apricot", "banana", "cherry"]);
    // Sorting is a reordering: nothing lost, nothing added.
    assert_eq!(sorted.len(), items.data.len());
}

#[test]
fn catalog_add_edit_remove() {
    let mut items = ItemsDB::new();
    items.add_item_with(
        RequestCreateItem { name: "Milk".to_string(), brand: None, has_warranty: None },
        "i1".to_string(),
        1,
    );
    assert_eq!(items.data.len(), 1);
    assert_eq!(items.data[0].is_spending_leak, Some(false));

    let edited = items
        .edit_item_at(
            "i1",
            RequestEditItem {
                name: None,
                brand: Some("Farm".to_string()),
                has_warranty: None,
            },
            2,
        )
        .unwrap();
    assert_eq!(edited.name, "Milk");
    assert_eq!(edited.brand.as_deref(), Some("Farm"));

    items.add_purchase_to_item_at("i1", purchase(5, 25, 1), 5).unwrap();
    assert_eq!(items.data[0].purchase_history.len(), 1);
    assert!(items.add_purchase_to_item_at("ghost", purchase(5, 25, 1), 5).is_err());

    let removed = items.remove_item("i1").unwrap();
    assert_eq!(removed.name, "Milk");
    assert!(items.data.is_empty());
    assert!(items.remove_item("i1").is_err());
}
