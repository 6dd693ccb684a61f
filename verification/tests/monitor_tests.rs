use tgtg_monitor::config::TGTGConfig;
use tgtg_monitor::data::{
    Item, ItemPrice, Location, Logo, PickupLocation, Store, TGTGListing,
};
use tgtg_monitor::monitor::{ChannelMonitor, MonitorRegistry};
use tgtg_monitor::reconcile::{Action, Outcome};

fn offer(id: &str, name: &str, quantity: usize) -> TGTGListing {
    TGTGListing {
        item: Item {
            item_id: id.to_string(),
            price_including_taxes: ItemPrice {
                code: "EUR".to_string(),
                minor_units: 500,
                decimals: 2,
            },
        },
        store: Store {
            store_name: "Market".to_string(),
            logo_picture: Logo { current_url: "https://example.invalid/m.png".to_string() },
            store_time_zone: "Europe/Paris".to_string(),
        },
        display_name: name.to_string(),
        items_available: quantity,
        distance: 1200,
        pickup_location: PickupLocation {
            location: Location { latitude_micro: 48_856_000, longitude_micro: 2_352_000 },
        },
        pickup_interval: None,
        purchase_end: Some(1_900_000_000),
    }
}

fn run_cycle(registry: &mut MonitorRegistry, channel: u64, snapshot: &[TGTGListing]) -> Vec<Action> {
    let mut issued = Vec::new();
    let mut next_message: u64 = 1000;
    for l in snapshot {
        if let Some(action) = registry.decide_for(channel, l) {
            let outcome = match &action {
                Action::Post { .. } => {
                    next_message += 1;
                    Outcome::Posted { message_id: next_message }
                },
                Action::Edit { .. } => Outcome::Edited,
                Action::Delete { .. } => Outcome::Deleted,
            };
            registry.commit_for(channel, &action, &outcome);
            issued.push(action);
        }
    }
    issued
}

#[test]
fn fresh_monitor_has_empty_store() {
    let mut m = ChannelMonitor::init(5, TGTGConfig::new(1, 2));
    assert_eq!(m.channel_id(), 5);
    assert_eq!(m.outstanding(), 0);
    assert_eq!(m.config().latitude_micro, 1);
    let deletes = m.teardown();
    assert!(deletes.is_empty());
}

#[test]
fn duplicate_start_is_rejected() {
    let mut r = MonitorRegistry::new();
    assert!(r.start(9, TGTGConfig::new(1, 2)));
    assert!(r.is_active(9));
    // A second start for the same channel is a no-op, not a second loop.
    assert!(!r.start(9, TGTGConfig::new(3, 4)));
    assert!(r.is_active(9));
}

#[test]
fn stop_unknown_channel_reports_nothing_to_stop() {
    let mut r = MonitorRegistry::new();
    assert!(r.stop(4).is_none());
}

#[test]
fn teardown_deletes_every_outstanding_notification() {
    // Stopping with N records yields N deletes and an empty, removed handle.
    let mut r = MonitorRegistry::new();
    assert!(r.start(3, TGTGConfig::new(1, 2)));
    let snapshot =
        vec![offer("a", "bread", 1), offer("b", "soup", 2), offer("c", "cake", 3)];
    let issued = run_cycle(&mut r, 3, &snapshot);
    assert_eq!(issued.len(), 3);

    let deletes = r.stop(3).expect("channel was active");
    assert_eq!(deletes.len(), 3);
    let mut ids: Vec<String> = deletes
        .iter()
        .map(|a| match a {
            Action::Delete { item_id, .. } => item_id.clone(),
            _ => panic!("teardown must only delete"),
        })
        .collect();
    ids.sort();
    assert_eq!(ids, vec!["a".to_string(), "b".to_string(), "c".to_string()]);
    assert!(!r.is_active(3));
    assert!(r.stop(3).is_none());
}

#[test]
fn overlapping_items_keep_subscriptions_independent() {
    // Two channels watch overlapping items; each keeps its own records and
    // issues its own calls.
    let mut r = MonitorRegistry::new();
    assert!(r.start(1, TGTGConfig::new(1, 2)));
    assert!(r.start(2, TGTGConfig::new(3, 4)));

    let shared = vec![offer("same-item", "bread", 2)];
    let issued1 = run_cycle(&mut r, 1, &shared);
    assert_eq!(issued1.len(), 1);
    assert!(matches!(&issued1[0], Action::Post { .. }));

    // Channel 2 never saw the item: its own cycle still posts.
    let issued2 = run_cycle(&mut r, 2, &shared);
    assert_eq!(issued2.len(), 1);
    assert!(matches!(&issued2[0], Action::Post { .. }));

    // A repeated cycle for channel 1 is quiet; stopping channel 1 leaves
    // channel 2's record in place.
    assert!(run_cycle(&mut r, 1, &shared).is_empty());
    let deletes = r.stop(1).unwrap();
    assert_eq!(deletes.len(), 1);
    let deletes2 = r.stop(2).unwrap();
    assert_eq!(deletes2.len(), 1);
}

#[test]
fn cycle_through_registry_updates_quantity() {
    let mut r = MonitorRegistry::new();
    assert!(r.start(6, TGTGConfig::new(1, 2)));
    run_cycle(&mut r, 6, &[offer("q", "bread", 2)]);
    let issued = run_cycle(&mut r, 6, &[offer("q", "bread", 5)]);
    assert_eq!(issued.len(), 1);
    match &issued[0] {
        Action::Edit { quantity, .. } => assert_eq!(*quantity, 5),
        _ => panic!("expected an edit"),
    }
}
