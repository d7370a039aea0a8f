//! Areas, labels, zones and persons.

use home_edge::area_registry_store::AreaRegistryStore;
use home_edge::ids::new_registry_id;
use home_edge::json::{to_text, Json};
use home_edge::label_registry_store::LabelRegistryStore;
use home_edge::person_store::{find_zone, Person, PersonStore};
use home_edge::storage::OnboardingState;
use home_edge::text::slugify;
use home_edge::zone_store::{
    home_zone_state, zone_to_state, StoredZone, ZoneError, ZoneStore, DEFAULT_RADIUS,
};

fn text_at<'a>(j: &'a Json, path: &[&str]) -> &'a str {
    let mut here = j;
    for name in path {
        here = here.get(name).expect("member");
    }
    here.as_str().expect("string")
}

fn real_at(j: &Json, path: &[&str]) -> f64 {
    let mut here = j;
    for name in path {
        here = here.get(name).expect("member");
    }
    here.as_real().expect("number").parse().expect("double")
}

// Areas

#[test]
fn empty_on_first_load() {
    let s = AreaRegistryStore::new();
    assert!(s.list().is_empty());
}

#[test]
fn seed_populates_from_names() {
    let mut s = AreaRegistryStore::new();
    assert!(s.seed_if_empty(&vec!["Living Room".to_string(), "Kitchen".to_string()], false));
    let areas = s.list();
    assert_eq!(areas.len(), 2);
    assert_eq!(areas[0].area_id, "living_room");
    assert_eq!(areas[0].name, "Living Room");
}

#[test]
fn seed_is_noop_when_registry_has_entries() {
    let mut s = AreaRegistryStore::new();
    s.create("Existing".into());
    assert!(!s.seed_if_empty(&vec!["Should not appear".to_string()], true));
    assert!(!s.seed_if_empty(&vec!["Should not appear".to_string()], false));
    let names: Vec<String> = s.list().into_iter().map(|a| a.name).collect();
    assert_eq!(names, vec!["Existing"]);
}

#[test]
fn seed_without_names_does_nothing() {
    let mut s = AreaRegistryStore::new();
    assert!(!s.seed_if_empty(&vec![], false));
    assert!(s.list().is_empty());
}

#[test]
fn seed_is_for_the_first_boot_only() {
    let mut s = AreaRegistryStore::new();
    assert!(!s.seed_if_empty(&vec!["Kitchen".to_string()], true));
    assert!(s.list().is_empty());
}

#[test]
fn the_zone_of_the_home_is_never_stored() {
    let mut s = ZoneStore::new();
    let z = s.create("Home".into(), None, None, None, None, None).expect("zone");
    assert_eq!(z.name, "Home");
    assert!(z.zone_id.starts_with("home_"));
    assert_eq!(z.zone_id.len(), 13);
    assert!(s.list().iter().all(|z| z.zone_id != "home"));
    assert!(!s.delete("home"));
    assert!(s.delete(&z.zone_id));
}

#[test]
fn create_deduplicates_area_id() {
    let mut s = AreaRegistryStore::new();
    let a1 = s.create("Office".into());
    let a2 = s.create("Office".into());
    assert_ne!(a1.area_id, a2.area_id);
    assert!(a2.area_id.starts_with("office_"));
    assert_eq!(a2.area_id.len(), "office_".len() + 8);
    assert!(a2.area_id["office_".len()..].chars().all(|c| c.is_ascii_hexdigit()));
}

#[test]
fn a_taken_slug_is_extended_by_the_start_of_the_random_text() {
    let mut s = AreaRegistryStore::new();
    let a1 = s.create_with("Office".into(), "0123456789abcdef");
    let a2 = s.create_with("Office".into(), "0123456789abcdef");
    assert_eq!(a1.area_id, "office");
    assert_eq!(a2.area_id, "office_01234567");
    assert_eq!(new_registry_id(&s.areas, "attic", "0123456789"), "attic");
}

#[test]
fn update_changes_name() {
    let mut s = AreaRegistryStore::new();
    let area = s.create("Old Name".into());
    let updated = s.update(&area.area_id, Some("New Name".into()), None, None, None, None);
    assert_eq!(updated.unwrap().name, "New Name");
    assert_eq!(s.list()[0].name, "New Name");
    assert_eq!(s.list()[0].area_id, "old_name");
}

#[test]
fn update_sets_and_clears_optional_fields() {
    let mut s = AreaRegistryStore::new();
    let area = s.create("Attic".into());
    let set = s
        .update(
            &area.area_id,
            None,
            Some(vec!["Loft".to_string()]),
            Some(Some("second".into())),
            Some(Some("mdi:home".into())),
            None,
        )
        .unwrap();
    assert_eq!(set.aliases, vec!["Loft"]);
    assert_eq!(set.floor_id.as_deref(), Some("second"));
    let cleared = s.update(&area.area_id, None, None, Some(None), None, None).unwrap();
    assert_eq!(cleared.floor_id, None);
    assert_eq!(cleared.icon.as_deref(), Some("mdi:home"));
    assert_eq!(cleared.name, "Attic");
}

#[test]
fn update_unknown_returns_none() {
    let mut s = AreaRegistryStore::new();
    let result = s.update("no_such_id", Some("X".into()), None, None, None, None);
    assert!(result.is_none());
}

#[test]
fn delete_removes_area() {
    let mut s = AreaRegistryStore::new();
    let area = s.create("Garage".into());
    assert!(s.delete(&area.area_id));
    assert!(s.list().is_empty());
}

#[test]
fn delete_unknown_returns_false() {
    let mut s = AreaRegistryStore::new();
    assert!(!s.delete("no_such_id"));
}

#[test]
fn slugify_basic() {
    assert_eq!(slugify("Living Room"), "living_room");
    assert_eq!(slugify("Büro"), "büro"); // non-ascii letters pass through
    assert_eq!(slugify("2nd Floor!"), "2nd_floor");
}

// Labels

#[test]
fn label_registry_store_create_and_list() {
    let mut s = LabelRegistryStore::new();
    let entry = s.create("Living Room".into(), None, None, None);
    assert_eq!(entry.label_id, "living_room");
    assert_eq!(entry.name, "Living Room");

    let labels = s.list();
    assert_eq!(labels.len(), 1);
    assert_eq!(labels[0].label_id, "living_room");
}

#[test]
fn duplicate_name_gets_suffix() {
    let mut s = LabelRegistryStore::new();
    let a = s.create("Test".into(), None, None, None);
    let b = s.create("Test".into(), None, None, None);
    assert_ne!(a.label_id, b.label_id);
    assert!(b.label_id.starts_with("test_"));
}

#[test]
fn label_registry_store_update_fields() {
    let mut s = LabelRegistryStore::new();
    let entry = s.create("Foo".into(), None, None, None);
    let updated = s
        .update(&entry.label_id, Some("Bar".into()), None, Some(Some("mdi:tag".into())), None)
        .unwrap();
    assert_eq!(updated.name, "Bar");
    assert_eq!(updated.icon.as_deref(), Some("mdi:tag"));
}

#[test]
fn label_registry_store_delete_existing() {
    let mut s = LabelRegistryStore::new();
    let entry = s.create("Delete Me".into(), None, None, None);
    assert!(s.delete(&entry.label_id));
    assert!(s.list().is_empty());
}

#[test]
fn delete_missing_returns_false() {
    let mut s = LabelRegistryStore::new();
    assert!(!s.delete("nonexistent"));
    assert!(s.update("nonexistent", None, None, None, None).is_none());
}

// Zones

fn work() -> ZoneStore {
    let mut s = ZoneStore::new();
    s.create("Work".into(), None, None, None, None, None).expect("zone");
    s
}

#[test]
fn empty_on_first_boot() {
    assert!(ZoneStore::new().list().is_empty());
}

#[test]
fn zone_store_create_and_list() {
    let mut s = ZoneStore::new();
    let z = s
        .create("Work".into(), Some("51.5".into()), Some("-0.1".into()), None, None, None)
        .expect("zone");
    assert_eq!(z.zone_id, "work");
    assert_eq!(z.radius.parse::<f64>().unwrap(), 100.0);
    assert_eq!(z.radius, DEFAULT_RADIUS);
    assert!(!z.passive);
    assert_eq!(s.list().len(), 1);
}

#[test]
fn create_deduplicates_zone_id() {
    let mut s = work();
    let z2 = s.create("Work".into(), None, None, None, None, None).expect("zone");
    assert_ne!(s.list()[0].zone_id, z2.zone_id);
    assert!(z2.zone_id.starts_with("work_"));
}

#[test]
fn zone_store_update_fields() {
    let mut s = work();
    let updated = s
        .update(
            "work",
            None,
            Some(Some("51.5".into())),
            Some(Some("-0.1".into())),
            Some("200.0".into()),
            None,
            None,
        )
        .unwrap();
    assert_eq!(updated.latitude.unwrap().parse::<f64>().unwrap(), 51.5);
    assert_eq!(updated.radius.parse::<f64>().unwrap(), 200.0);
    assert_eq!(updated.name, "Work");
}

#[test]
fn update_returns_none_for_missing() {
    assert!(ZoneStore::new().update("nonexistent", None, None, None, None, None, None).is_none());
}

#[test]
fn zone_store_delete_existing() {
    let mut s = work();
    assert!(s.delete("work"));
    assert!(s.list().is_empty());
}

#[test]
fn delete_home_returns_false() {
    assert!(!ZoneStore::new().delete("home"));
}

#[test]
fn home_zone_state_uses_onboarding_fields() {
    let mut o = OnboardingState::default();
    o.location_name = Some("Test Home".into());
    o.latitude = Some("48.8566".into());
    o.longitude = Some("2.3522".into());
    o.radius = "150.0".into();
    let state = home_zone_state(&o);
    assert_eq!(text_at(&state, &["entity_id"]), "zone.home");
    assert_eq!(text_at(&state, &["attributes", "friendly_name"]), "Test Home");
    assert_eq!(real_at(&state, &["attributes", "latitude"]), 48.8566);
    assert_eq!(real_at(&state, &["attributes", "radius"]), 150.0);
    assert_eq!(text_at(&state, &["attributes", "icon"]), "mdi:home");
}

#[test]
fn home_zone_without_a_name_is_called_home() {
    let state = home_zone_state(&OnboardingState::default());
    assert_eq!(text_at(&state, &["attributes", "friendly_name"]), "Home");
}

fn stored_zone(name: &str, lat: Option<&str>, lon: Option<&str>, radius: &str) -> StoredZone {
    StoredZone {
        zone_id: name.to_lowercase(),
        name: name.to_string(),
        latitude: lat.map(|v| v.to_string()),
        longitude: lon.map(|v| v.to_string()),
        radius: radius.to_string(),
        passive: false,
        icon: None,
    }
}

#[test]
fn zone_to_state_format() {
    let mut z = stored_zone("Work", Some("51.5"), Some("-0.1"), "200.0");
    z.icon = Some("mdi:briefcase".into());
    let state = zone_to_state(&z);
    assert_eq!(text_at(&state, &["entity_id"]), "zone.work");
    assert_eq!(text_at(&state, &["state"]), "0");
    assert_eq!(text_at(&state, &["attributes", "friendly_name"]), "Work");
    assert_eq!(real_at(&state, &["attributes", "radius"]), 200.0);
    let editable = state.get("attributes").unwrap().get("editable").unwrap().as_bool();
    assert_eq!(editable, Some(true));
}

#[test]
fn zone_to_state_null_coords_are_null_in_json() {
    let state = zone_to_state(&stored_zone("Draft", None, None, "100.0"));
    let attributes = state.get("attributes").unwrap();
    assert_eq!(to_text(attributes.get("latitude").unwrap()), "null");
    assert_eq!(to_text(attributes.get("longitude").unwrap()), "null");
}

#[test]
fn create_rejects_empty_slug() {
    let mut s = ZoneStore::new();
    let err = s.create("!!!".into(), None, None, None, None, None);
    assert!(err.is_err(), "should reject name that slugifies to empty");
    assert!(matches!(
        s.create("  ".into(), None, None, None, None, None),
        Err(ZoneError::EmptyZoneId)
    ));
    assert!(s.list().is_empty());
}

#[test]
fn slugify_ascii() {
    assert_eq!(slugify("Living Room"), "living_room");
    assert_eq!(slugify("Work"), "work");
    assert_eq!(slugify("My Home!"), "my_home");
}

#[test]
fn slugify_all_special_chars_produces_empty() {
    assert_eq!(slugify("!!!"), "");
    assert_eq!(slugify("---"), "");
}

#[test]
fn slugify_unicode_alphanumeric_passes_through() {
    let result = slugify("café");
    assert!(!result.is_empty());
    assert!(result.chars().all(|c| c.is_alphanumeric() || c == '_'));
}

// Persons

fn person(id: &str, name: &str, trackers: &[&str]) -> Person {
    Person {
        id: id.to_string(),
        name: name.to_string(),
        device_trackers: trackers.iter().map(|t| t.to_string()).collect(),
        user_id: None,
    }
}

fn haversine_m(lat1: f64, lon1: f64, lat2: f64, lon2: f64) -> f64 {
    let dlat = (lat2 - lat1).to_radians();
    let dlon = (lon2 - lon1).to_radians();
    let a = (dlat / 2.0).sin().powi(2)
        + lat1.to_radians().cos() * lat2.to_radians().cos() * (dlon / 2.0).sin().powi(2);
    2.0 * 6_371_000.0 * a.sqrt().atan2((1.0 - a).sqrt())
}

fn marks(lat: f64, lon: f64, zones: &[StoredZone]) -> Vec<bool> {
    zones
        .iter()
        .map(|z| match (&z.latitude, &z.longitude) {
            (Some(a), Some(b)) => {
                haversine_m(lat, lon, a.parse().unwrap(), b.parse().unwrap())
                    <= z.radius.parse::<f64>().unwrap()
            }
            _ => true,
        })
        .collect()
}

fn report(store: &mut PersonStore, device: &str, lat: f64, lon: f64, zones: &Vec<StoredZone>) {
    let inside = marks(lat, lon, zones);
    store.handle_location_update(
        device,
        &format!("{lat:?}"),
        &format!("{lon:?}"),
        &"5.0".to_string(),
        zones,
        &inside,
    );
}

#[test]
fn find_zone_inside() {
    let zones = vec![stored_zone("Work", Some("37.7749"), Some("-122.4194"), "200.0")];
    let inside = marks(37.7749, -122.4194, &zones);
    assert_eq!(find_zone(&zones, &inside), Some("Work".to_string()));
}

#[test]
fn find_zone_outside() {
    let zones = vec![stored_zone("Work", Some("37.7749"), Some("-122.4194"), "100.0")];
    let inside = marks(40.7128, -74.0060, &zones);
    assert_eq!(find_zone(&zones, &inside), None);
}

#[test]
fn a_zone_without_a_place_holds_nothing() {
    let zones = vec![
        stored_zone("Draft", None, None, "100.0"),
        stored_zone("Work", Some("1.0"), Some("1.0"), "100.0"),
        stored_zone("Later", Some("1.0"), Some("1.0"), "100.0"),
    ];
    assert_eq!(find_zone(&zones, &vec![true, true, true]), Some("Work".to_string()));
    assert_eq!(find_zone(&zones, &vec![true, false, true]), Some("Later".to_string()));
    assert_eq!(find_zone(&zones, &vec![true]), None);
}

#[test]
fn handle_location_update_sets_state() {
    let mut store = PersonStore::new();
    store.add_or_update(person("alice", "Alice", &["wh001"]));
    let zones = vec![stored_zone("Home", Some("37.7749"), Some("-122.4194"), "500.0")];
    report(&mut store, "wh001", 37.7749, -122.4194, &zones);
    let ps = store.get_state("alice").expect("state should be set");
    assert_eq!(ps.state, "Home");
    assert_eq!(ps.source.as_deref(), Some("wh001"));
    assert_eq!(ps.latitude.as_deref(), Some("37.7749"));
    assert_eq!(store.all_states().len(), 1);
}

#[test]
fn handle_location_update_not_home() {
    let mut store = PersonStore::new();
    store.add_or_update(person("bob", "Bob", &["wh002"]));
    let zones = vec![stored_zone("Home", Some("37.7749"), Some("-122.4194"), "100.0")];
    report(&mut store, "wh002", 40.7128, -74.0060, &zones);
    let ps = store.get_state("bob").expect("state should be set");
    assert_eq!(ps.state, "not_home");
}

#[test]
fn handle_location_update_ignores_unrelated_device() {
    let mut store = PersonStore::new();
    store.add_or_update(person("carol", "Carol", &["wh003"]));
    report(&mut store, "unrelated_device", 37.7749, -122.4194, &vec![]);
    assert!(store.get_state("carol").is_none());
}

#[test]
fn a_report_moves_all_whom_the_device_tracks_and_nobody_else() {
    let mut store = PersonStore::new();
    store.add_or_update(person("alice", "Alice", &["wh001"]));
    store.add_or_update(person("bob", "Bob", &["wh002", "wh001"]));
    store.add_or_update(person("carol", "Carol", &["wh003"]));
    report(&mut store, "wh003", 1.0, 1.0, &vec![]);
    let before = store.get_state("carol").unwrap();
    report(&mut store, "wh001", 2.0, 2.0, &vec![]);
    assert_eq!(store.get_state("alice").unwrap().latitude.as_deref(), Some("2.0"));
    assert_eq!(store.get_state("bob").unwrap().latitude.as_deref(), Some("2.0"));
    assert_eq!(store.get_state("carol").unwrap().latitude, before.latitude);
}

#[test]
fn add_or_update_replaces_existing() {
    let mut store = PersonStore::new();
    store.add_or_update(person("dave", "Dave Old", &[]));
    store.add_or_update(person("dave", "Dave New", &["wh004"]));
    let persons = store.all_persons();
    assert_eq!(persons.len(), 1);
    assert_eq!(persons[0].name, "Dave New");
    assert_eq!(persons[0].device_trackers, vec!["wh004"]);
}

#[test]
fn remove_person() {
    let mut store = PersonStore::new();
    store.add_or_update(person("eve", "Eve", &[]));
    assert!(store.remove("eve"));
    assert!(store.all_persons().is_empty());
    assert!(!store.remove("eve")); // already gone
}
