use captracker::coordinates::{numbers_equal, Coordinates};
use captracker::fmc::{RaceHandle, Rider, Snapshot};
use captracker::locations::{location_updates, sighting_of, team_number, LocationDeriver};
use captracker::nominatim::{Address, Location};
use captracker::Update;

fn place(lat: f32, lon: f32) -> Coordinates {
    Coordinates::new(lat.to_bits(), lon.to_bits())
}

fn rider(id: &str, number: Option<&str>, lat: Option<f32>, lon: Option<f32>) -> Rider {
    Rider {
        id: id.to_owned(),
        team_number: number.map(|n| n.to_owned()),
        latitude: lat.map(f32::to_bits),
        longitude: lon.map(f32::to_bits),
    }
}

fn snapshot(riders: Vec<Rider>) -> Snapshot {
    Snapshot { riders }
}

fn address(road: &str, lat: &str, lon: &str) -> Location {
    Location {
        address: Address {
            city: Some("Bourg-Saint-Maurice".to_owned()),
            country: Some("France".to_owned()),
            country_code: Some("fr".to_owned()),
            county: None,
            leisure: None,
            municipality: None,
            postcode: Some("73700".to_owned()),
            region: None,
            road: Some(road.to_owned()),
            state: None,
        },
        lat: lat.to_owned(),
        lon: lon.to_owned(),
        osm_id: Some(42),
        osm_type: Some("way".to_owned()),
        place_id: Some(7),
        boundingbox: None,
    }
}

fn deriver(cap: u64) -> LocationDeriver {
    location_updates(RaceHandle { slot: 0 }, cap)
}

#[test]
fn numbers_compare_as_single_precision_numbers_do() {
    let samples: Vec<f32> = vec![
        0.0,
        -0.0,
        1.0,
        -1.0,
        45.0,
        45.1,
        6.0,
        f32::MIN_POSITIVE,
        f32::MAX,
        f32::MIN,
        f32::INFINITY,
        f32::NEG_INFINITY,
        f32::NAN,
        -f32::NAN,
        f32::from_bits(0x7f80_0001),
        f32::from_bits(0x0000_0001),
        f32::from_bits(0x8000_0001),
    ];
    for a in &samples {
        for b in &samples {
            assert_eq!(numbers_equal(a.to_bits(), b.to_bits()), a == b);
        }
    }
}

#[test]
fn places_compare_as_pairs_of_numbers_do() {
    assert!(place(45.0, 6.0).same(&place(45.0, 6.0)));
    assert!(place(0.0, -0.0).same(&place(-0.0, 0.0)));
    assert!(!place(45.0, 6.0).same(&place(45.1, 6.0)));
    assert!(!place(45.0, 6.0).same(&place(45.0, 6.000001)));
    assert!(!place(f32::NAN, 6.0).same(&place(f32::NAN, 6.0)));
    let c = Coordinates::new(1, 2);
    assert_eq!(c.lat, 1);
    assert_eq!(c.lon, 2);
}

#[test]
fn team_number_reads_decimal_text() {
    assert_eq!(team_number(&rider("a", Some("7"), None, None)), Some(7));
    assert_eq!(team_number(&rider("a", Some("+7"), None, None)), Some(7));
    assert_eq!(team_number(&rider("a", Some("007"), None, None)), Some(7));
    assert_eq!(team_number(&rider("a", Some(""), None, None)), None);
    assert_eq!(team_number(&rider("a", Some("7a"), None, None)), None);
    assert_eq!(team_number(&rider("a", Some(" 7"), None, None)), None);
    assert_eq!(team_number(&rider("a", None, None, None)), None);
}

#[test]
fn sighting_needs_the_number_and_both_coordinates() {
    assert_eq!(
        sighting_of(&rider("a", Some("7"), Some(45.0), Some(6.0)), 7),
        Some(place(45.0, 6.0))
    );
    assert_eq!(sighting_of(&rider("a", Some("8"), Some(45.0), Some(6.0)), 7), None);
    assert_eq!(sighting_of(&rider("a", Some("x"), Some(45.0), Some(6.0)), 7), None);
    assert_eq!(sighting_of(&rider("a", None, Some(45.0), Some(6.0)), 7), None);
    assert_eq!(sighting_of(&rider("a", Some("7"), None, Some(6.0)), 7), None);
    assert_eq!(sighting_of(&rider("a", Some("7"), Some(45.0), None), 7), None);
}

#[test]
fn new_deriver_is_pending() {
    let d = deriver(7);
    assert_eq!(d.race(), RaceHandle { slot: 0 });
    assert_eq!(d.cap(), 7);
    assert_eq!(*d.current(), Update::Pending);
    assert_eq!(d.next_lookup(), None);
}

#[test]
fn pending_until_the_rider_is_seen() {
    let mut d = deriver(7);
    let others = snapshot(vec![
        rider("r1", Some("8"), Some(45.0), Some(6.0)),
        rider("r2", Some("seven"), Some(45.0), Some(6.0)),
        rider("r3", None, Some(45.0), Some(6.0)),
        rider("r4", Some("7"), None, None),
    ]);
    assert_eq!(d.observe(&others), 0);
    assert_eq!(d.observe(&snapshot(vec![])), 0);
    assert_eq!(d.next_lookup(), None);
    assert_eq!(*d.current(), Update::Pending);
    assert!(!d.resolved(Some(address("Rue A", "45.0", "6.0"))));
    assert_eq!(*d.current(), Update::Pending);
}

#[test]
fn first_sighting_is_resolved_and_a_repeat_is_not() {
    let first = snapshot(vec![rider("r1", Some("7"), Some(45.0), Some(6.0))]);
    let mut d = deriver(7);
    assert_eq!(*d.current(), Update::Pending);
    assert_eq!(d.observe(&first), 1);
    assert_eq!(d.next_lookup(), Some(place(45.0, 6.0)));
    assert_eq!(*d.current(), Update::Pending);
    let found = address("Rue A", "45.0", "6.0");
    assert!(d.resolved(Some(found.clone())));
    assert_eq!(*d.current(), Update::New(found.clone()));
    assert_eq!(d.next_lookup(), None);

    let again = snapshot(vec![rider("r1", Some("7"), Some(45.0), Some(6.0))]);
    assert_eq!(d.observe(&again), 0);
    assert_eq!(d.next_lookup(), None);
    assert!(!d.resolved(Some(address("Rue B", "0", "0"))));
    assert_eq!(*d.current(), Update::New(found));
}

#[test]
fn a_move_is_resolved_exactly_once() {
    let mut d = deriver(7);
    d.observe(&snapshot(vec![rider("r1", Some("7"), Some(45.0), Some(6.0))]));
    let before = address("Rue A", "45.0", "6.0");
    assert!(d.resolved(Some(before.clone())));

    let moved = snapshot(vec![
        rider("r0", Some("3"), Some(1.0), Some(2.0)),
        rider("r1", Some("7"), Some(45.1), Some(6.0)),
    ]);
    assert_eq!(d.observe(&moved), 1);
    assert_eq!(*d.current(), Update::New(before));
    assert_eq!(d.next_lookup(), Some(place(45.1, 6.0)));
    let after = address("Rue B", "45.1", "6.0");
    assert!(d.resolved(Some(after.clone())));
    assert_eq!(*d.current(), Update::New(after.clone()));
    assert_eq!(d.next_lookup(), None);
    assert_eq!(d.observe(&moved), 0);
    assert_eq!(*d.current(), Update::New(after));
}

#[test]
fn a_failed_lookup_keeps_the_last_address_until_the_rider_moves() {
    let mut d = deriver(7);
    d.observe(&snapshot(vec![rider("r1", Some("7"), Some(45.0), Some(6.0))]));
    let first = address("Rue A", "45.0", "6.0");
    assert!(d.resolved(Some(first.clone())));

    let moved = snapshot(vec![rider("r1", Some("7"), Some(45.1), Some(6.0))]);
    assert_eq!(d.observe(&moved), 1);
    assert!(!d.resolved(None));
    assert_eq!(*d.current(), Update::New(first.clone()));
    assert_eq!(d.next_lookup(), None);
    assert_eq!(d.observe(&moved), 0);
    assert_eq!(*d.current(), Update::New(first));

    let onward = snapshot(vec![rider("r1", Some("7"), Some(45.2), Some(6.0))]);
    assert_eq!(d.observe(&onward), 1);
    let third = address("Rue C", "45.2", "6.0");
    assert!(d.resolved(Some(third.clone())));
    assert_eq!(*d.current(), Update::New(third));
}

#[test]
fn a_failed_first_lookup_leaves_pending() {
    let mut d = deriver(7);
    d.observe(&snapshot(vec![rider("r1", Some("7"), Some(45.0), Some(6.0))]));
    assert!(!d.resolved(None));
    assert_eq!(*d.current(), Update::Pending);
}

#[test]
fn several_entries_of_one_rider_are_taken_in_order() {
    let mut d = deriver(7);
    let s = snapshot(vec![
        rider("a", Some("7"), Some(1.0), Some(1.0)),
        rider("b", Some("7"), Some(1.0), Some(1.0)),
        rider("c", Some("7"), Some(2.0), Some(1.0)),
        rider("d", Some("9"), Some(3.0), Some(1.0)),
        rider("e", Some("7"), Some(1.0), Some(1.0)),
    ]);
    assert_eq!(d.observe(&s), 3);
    assert_eq!(d.next_lookup(), Some(place(1.0, 1.0)));
    assert!(!d.resolved(None));
    assert_eq!(d.next_lookup(), Some(place(2.0, 1.0)));
    let second = address("Rue B", "2", "1");
    assert!(d.resolved(Some(second.clone())));
    assert_eq!(d.next_lookup(), Some(place(1.0, 1.0)));
    let third = address("Rue C", "1", "1");
    assert!(d.resolved(Some(third.clone())));
    assert_eq!(d.next_lookup(), None);
    assert_eq!(*d.current(), Update::New(third));
}

#[test]
fn the_two_zeros_are_one_place_and_what_is_no_number_is_none() {
    let mut d = deriver(7);
    assert_eq!(d.observe(&snapshot(vec![rider("a", Some("7"), Some(0.0), Some(0.0))])), 1);
    assert_eq!(d.observe(&snapshot(vec![rider("a", Some("7"), Some(-0.0), Some(0.0))])), 0);
    let lost = snapshot(vec![rider("a", Some("7"), Some(f32::NAN), Some(0.0))]);
    assert_eq!(d.observe(&lost), 1);
    assert_eq!(d.observe(&lost), 1);
}
