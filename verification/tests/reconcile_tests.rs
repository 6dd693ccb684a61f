use tgtg_monitor::data::{
    Item, ItemMessage, ItemPrice, Location, Logo, PickupLocation, Store, TGTGListing,
};
use tgtg_monitor::reconcile::{commit, decide, is_visible, Action, Outcome};
use tgtg_monitor::store::NotificationStore;

fn listing(id: &str, name: &str, quantity: usize, deadline: Option<i64>) -> TGTGListing {
    TGTGListing {
        item: Item {
            item_id: id.to_string(),
            price_including_taxes: ItemPrice {
                code: "EUR".to_string(),
                minor_units: 399,
                decimals: 2,
            },
        },
        store: Store {
            store_name: "Corner Bakery".to_string(),
            logo_picture: Logo { current_url: "https://example.invalid/logo.png".to_string() },
            store_time_zone: "Europe/Berlin".to_string(),
        },
        display_name: name.to_string(),
        items_available: quantity,
        distance: 450,
        pickup_location: PickupLocation {
            location: Location { latitude_micro: 52_520_000, longitude_micro: 13_405_000 },
        },
        pickup_interval: None,
        purchase_end: deadline,
    }
}

#[test]
fn visibility_requires_deadline_and_quantity() {
    assert!(is_visible(&listing("a", "bread box", 3, Some(1_700_000_000))));
    assert!(!is_visible(&listing("a", "bread box", 0, Some(1_700_000_000))));
    assert!(!is_visible(&listing("a", "bread box", 3, None)));
    assert!(!is_visible(&listing("a", "bread box", 0, None)));
}

#[test]
fn visible_listing_creates_then_zero_quantity_deletes() {
    // Quantity 3 with a deadline: one create; a later cycle at quantity 0
    // deletes the same item's notification.
    let mut store = NotificationStore::new();
    let l = listing("item-1", "bread box", 3, Some(1_700_000_000));
    let action = decide(&store, &None, &l).expect("visible listing must produce an action");
    match &action {
        Action::Post { item_id, quantity } => {
            assert_eq!(item_id, "item-1");
            assert_eq!(*quantity, 3);
        },
        _ => panic!("expected a post"),
    }
    commit(&mut store, &action, &Outcome::Posted { message_id: 77 });
    assert_eq!(store.len(), 1);

    let gone = listing("item-1", "bread box", 0, Some(1_700_000_000));
    let action = decide(&store, &None, &gone).expect("drop to zero must produce an action");
    match &action {
        Action::Delete { message_id, item_id } => {
            assert_eq!(*message_id, 77);
            assert_eq!(item_id, "item-1");
        },
        _ => panic!("expected a delete"),
    }
    commit(&mut store, &action, &Outcome::Deleted);
    assert_eq!(store.len(), 0);
}

#[test]
fn example_scenario_three_cycles() {
    // Cycle 1: item A, quantity 2, deadline present: one post. Cycle 2: the
    // same snapshot: no call. Cycle 3: quantity 0: one delete, store empty.
    let mut store = NotificationStore::new();

    let cycle1 = listing("A", "fruit crate", 2, Some(1_800_000_000));
    let action = decide(&store, &None, &cycle1).expect("cycle 1 must post");
    assert!(matches!(&action, Action::Post { quantity: 2, .. }));
    commit(&mut store, &action, &Outcome::Posted { message_id: 4242 });
    let recorded = store.get(&"A".to_string()).expect("record must exist");
    assert_eq!(recorded.message_id, 4242);
    assert_eq!(recorded.quantity, 2);

    let cycle2 = listing("A", "fruit crate", 2, Some(1_800_000_000));
    assert!(decide(&store, &None, &cycle2).is_none());

    let cycle3 = listing("A", "fruit crate", 0, Some(1_800_000_000));
    let action = decide(&store, &None, &cycle3).expect("cycle 3 must delete");
    assert!(matches!(&action, Action::Delete { message_id: 4242, .. }));
    commit(&mut store, &action, &Outcome::Deleted);
    assert_eq!(store.len(), 0);
    assert!(store.get(&"A".to_string()).is_none());
}

#[test]
fn second_pass_issues_nothing() {
    // Idempotence on concrete values: after one successful pass, the same
    // snapshot produces zero actions.
    let mut store = NotificationStore::new();
    let snapshot = vec![
        listing("a", "bread", 2, Some(1_800_000_000)),
        listing("b", "soup", 5, Some(1_800_000_000)),
        listing("c", "flowers", 0, Some(1_800_000_000)),
    ];
    let mut next_message: u64 = 1;
    for l in &snapshot {
        if let Some(action) = decide(&store, &None, l) {
            let outcome = match &action {
                Action::Post { .. } => {
                    next_message += 1;
                    Outcome::Posted { message_id: next_message }
                },
                Action::Edit { .. } => Outcome::Edited,
                Action::Delete { .. } => Outcome::Deleted,
            };
            commit(&mut store, &action, &outcome);
        }
    }
    assert_eq!(store.len(), 2);
    for l in &snapshot {
        assert!(decide(&store, &None, l).is_none());
    }
}

#[test]
fn same_quantity_twice_posts_once_edits_never() {
    // Update suppression on concrete values.
    let mut store = NotificationStore::new();
    let mut posts = 0;
    let mut edits = 0;
    for _cycle in 0..2 {
        let l = listing("pasta-9", "pasta bag", 4, Some(1_800_000_000));
        if let Some(action) = decide(&store, &None, &l) {
            let outcome = match &action {
                Action::Post { .. } => {
                    posts += 1;
                    Outcome::Posted { message_id: 9 }
                },
                Action::Edit { .. } => {
                    edits += 1;
                    Outcome::Edited
                },
                Action::Delete { .. } => Outcome::Deleted,
            };
            commit(&mut store, &action, &outcome);
        }
    }
    assert_eq!(posts, 1);
    assert_eq!(edits, 0);
}

#[test]
fn quantity_change_edits_same_message() {
    let mut store = NotificationStore::new();
    let first = listing("x", "veggie box", 2, Some(1_800_000_000));
    let action = decide(&store, &None, &first).unwrap();
    commit(&mut store, &action, &Outcome::Posted { message_id: 501 });

    let second = listing("x", "veggie box", 6, Some(1_800_000_000));
    let action = decide(&store, &None, &second).expect("quantity change must edit");
    match &action {
        Action::Edit { message_id, item_id, quantity } => {
            assert_eq!(*message_id, 501);
            assert_eq!(item_id, "x");
            assert_eq!(*quantity, 6);
        },
        _ => panic!("expected an edit"),
    }
    commit(&mut store, &action, &Outcome::Edited);
    let recorded = store.get(&"x".to_string()).unwrap();
    assert_eq!(recorded.message_id, 501);
    assert_eq!(recorded.quantity, 6);
}

#[test]
fn failed_call_leaves_store_unchanged_and_retries() {
    let mut store = NotificationStore::new();
    let l = listing("retry-1", "rye loaf", 2, Some(1_800_000_000));
    let action = decide(&store, &None, &l).unwrap();
    commit(&mut store, &action, &Outcome::Failed);
    assert_eq!(store.len(), 0);
    // The next cycle decides the same post again.
    let again = decide(&store, &None, &l).unwrap();
    assert!(matches!(&again, Action::Post { quantity: 2, .. }));
}

#[test]
fn mismatched_outcome_kind_changes_nothing() {
    let mut store = NotificationStore::new();
    store.put("z".to_string(), ItemMessage { message_id: 3, quantity: 1 });
    let l = listing("z", "cake slice", 5, Some(1_800_000_000));
    let action = decide(&store, &None, &l).unwrap();
    assert!(matches!(&action, Action::Edit { .. }));
    // An edit answered as if it were a post must not be committed.
    commit(&mut store, &action, &Outcome::Posted { message_id: 999 });
    let recorded = store.get(&"z".to_string()).unwrap();
    assert_eq!(recorded.message_id, 3);
    assert_eq!(recorded.quantity, 1);
}

#[test]
fn no_deadline_with_record_deletes() {
    let mut store = NotificationStore::new();
    store.put("d".to_string(), ItemMessage { message_id: 8, quantity: 2 });
    let l = listing("d", "day-old rolls", 2, None);
    let action = decide(&store, &None, &l).unwrap();
    assert!(matches!(&action, Action::Delete { message_id: 8, .. }));
}
