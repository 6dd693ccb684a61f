use tgtg_monitor::config::{ConfigTable, TGTGConfig};
use tgtg_monitor::filter::CompiledPattern;
use tgtg_monitor::DEFAULT_RADIUS;

#[test]
fn constructors_fill_fields() {
    let c = TGTGConfig::new(52_520_000, 13_405_000);
    assert_eq!(c.latitude_micro, 52_520_000);
    assert_eq!(c.longitude_micro, 13_405_000);
    assert_eq!(c.radius, DEFAULT_RADIUS);
    assert!(c.regex.is_none());

    let c = TGTGConfig::new_with_radius(1, -2, 5);
    assert_eq!(c.radius, 5);
    assert!(c.regex.is_none());

    let p = CompiledPattern::new("bread").unwrap();
    let c = TGTGConfig::new_full(1, -2, 5, p);
    assert_eq!(c.regex.as_ref().map(|r| r.as_str()), Some("bread"));
}

#[test]
fn set_coords_inserts_with_defaults() {
    let mut t = ConfigTable::new();
    assert!(!t.contains(7));
    t.set_coords(7, 100, 200);
    assert!(t.contains(7));
    let c = t.get(7).unwrap();
    assert_eq!(c.latitude_micro, 100);
    assert_eq!(c.longitude_micro, 200);
    assert_eq!(c.radius, DEFAULT_RADIUS);
    assert!(c.regex.is_none());
}

#[test]
fn set_coords_keeps_radius_and_filter() {
    let mut t = ConfigTable::new();
    let p = CompiledPattern::new("soup").unwrap();
    t.set_full(7, 1, 2, 9, p);
    t.set_coords(7, 300, 400);
    let c = t.get(7).unwrap();
    assert_eq!(c.latitude_micro, 300);
    assert_eq!(c.longitude_micro, 400);
    assert_eq!(c.radius, 9);
    assert_eq!(c.regex.as_ref().map(|r| r.as_str()), Some("soup"));
}

#[test]
fn set_coords_radius_keeps_filter() {
    let mut t = ConfigTable::new();
    let p = CompiledPattern::new("cake").unwrap();
    t.set_full(7, 1, 2, 9, p);
    t.set_coords_radius(7, 5, 6, 3);
    let c = t.get(7).unwrap();
    assert_eq!(c.radius, 3);
    assert_eq!(c.regex.as_ref().map(|r| r.as_str()), Some("cake"));
    // A first-time channel gets no filter.
    t.set_coords_radius(8, 5, 6, 2);
    assert!(t.get(8).unwrap().regex.is_none());
}

#[test]
fn set_pattern_needs_existing_location() {
    let mut t = ConfigTable::new();
    let p = CompiledPattern::new("fish").unwrap();
    assert!(!t.set_pattern(11, p));
    assert!(!t.contains(11));

    t.set_coords(11, 1, 2);
    let p = CompiledPattern::new("fish").unwrap();
    assert!(t.set_pattern(11, p));
    let c = t.get(11).unwrap();
    assert_eq!(c.regex.as_ref().map(|r| r.as_str()), Some("fish"));
    assert_eq!(c.latitude_micro, 1);
}

#[test]
fn channels_do_not_disturb_each_other() {
    let mut t = ConfigTable::new();
    t.set_coords(1, 10, 20);
    t.set_coords_radius(2, 30, 40, 8);
    t.set_coords(1, 50, 60);
    let c2 = t.get(2).unwrap();
    assert_eq!(c2.latitude_micro, 30);
    assert_eq!(c2.radius, 8);
    let c1 = t.get(1).unwrap();
    assert_eq!(c1.latitude_micro, 50);
}
