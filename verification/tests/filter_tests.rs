use tgtg_monitor::data::{
    Item, ItemPrice, Location, Logo, PickupLocation, Store, TGTGListing,
};
use tgtg_monitor::filter::{filter_accepts, CompiledPattern};
use tgtg_monitor::reconcile::decide;
use tgtg_monitor::store::NotificationStore;

fn named_listing(id: &str, name: &str) -> TGTGListing {
    TGTGListing {
        item: Item {
            item_id: id.to_string(),
            price_including_taxes: ItemPrice {
                code: "EUR".to_string(),
                minor_units: 250,
                decimals: 2,
            },
        },
        store: Store {
            store_name: "Deli".to_string(),
            logo_picture: Logo { current_url: "https://example.invalid/deli.png".to_string() },
            store_time_zone: "Europe/Vienna".to_string(),
        },
        display_name: name.to_string(),
        items_available: 5,
        distance: 900,
        pickup_location: PickupLocation {
            location: Location { latitude_micro: 48_208_000, longitude_micro: 16_372_000 },
        },
        pickup_interval: None,
        purchase_end: Some(1_900_000_000),
    }
}

#[test]
fn invalid_pattern_is_rejected() {
    assert!(CompiledPattern::new("pizza(").is_err());
}

#[test]
fn pattern_matches_substring_of_name() {
    let p = CompiledPattern::new("pi.za").expect("valid pattern");
    assert!(p.is_match("hot pizza box"));
    assert!(p.is_match("pinza"));
    assert!(!p.is_match("burger menu"));
    assert_eq!(p.as_str(), "pi.za");
}

#[test]
fn absent_filter_accepts_everything() {
    assert!(filter_accepts(&None, "anything at all"));
    assert!(filter_accepts(&None, ""));
}

#[test]
fn present_filter_decides_by_match() {
    let p = CompiledPattern::new("bread").expect("valid pattern");
    let f = Some(p);
    assert!(filter_accepts(&f, "sourdough bread bag"));
    assert!(!filter_accepts(&f, "vegetable box"));
}

#[test]
fn filtered_out_listing_gets_no_action_despite_availability() {
    // A visible listing whose name the pattern rejects produces nothing.
    let store = NotificationStore::new();
    let f = Some(CompiledPattern::new("pizza").expect("valid pattern"));
    let l = named_listing("bx-1", "vegetable box");
    assert!(decide(&store, &f, &l).is_none());
    // The same listing under a matching name is posted.
    let l = named_listing("bx-1", "pizza slice box");
    assert!(decide(&store, &f, &l).is_some());
}

#[test]
fn anchored_search_is_not_required() {
    let p = CompiledPattern::new("^box$").expect("valid pattern");
    assert!(p.is_match("box"));
    assert!(!p.is_match("big box deal"));
}
