//! Modes, policies, onboarding, states, services and times.

use home_edge::app_core::{
    AppCore, AuthPolicy, CompatibilityPolicy, CompleteAnalyticsOutcome, CompleteCoreConfigOutcome,
    CompleteIntegrationOutcome, CreateOnboardingUserOutcome, OnboardingCoreConfigInput,
    OnboardingUserInput, PermissionFlags, RuntimeMode,
};
use home_edge::calendar::{civil_from_days, days_to_ymd, is_leap};
use home_edge::clock::{iso8601, now_iso8601, now_unix_ms};
use home_edge::epoch::iso_to_epoch;
use home_edge::ha_api::{api_config, api_core_state, api_state_get, api_state_set, api_states_list, api_status};
use home_edge::json::{to_text, Json};
use home_edge::service::{
    find_builtin_service, ServiceCall, ServiceData, ServiceError, ServiceRegistry, ServiceTarget,
};
use home_edge::state_store::{
    make_state, Context, State, StateAttributes, StateError, StateEvent, StateStore,
};
use home_edge::storage::{instance_id, seed_home_zone_coords_if_unset, OnboardingState};
use home_edge::text::{slugify, trim};
use home_edge::web::Reply;

fn sample_state(entity_id: &str) -> State {
    make_state(entity_id, "on", StateAttributes::empty())
}

fn raw_state(entity_id: &str, value: &str) -> State {
    State {
        entity_id: entity_id.into(),
        state: value.into(),
        attributes: vec![],
        last_changed: "".into(),
        last_reported: "".into(),
        last_updated: "".into(),
        context: Context::new("x".into()),
    }
}

fn obj(members: Vec<(&str, Json)>) -> Json {
    Json::Object(members.into_iter().map(|(k, v)| (k.to_string(), v)).collect())
}

fn json_reply(r: Reply) -> (u16, Json) {
    match r {
        Reply::Json(status, j) => (status, j),
        _ => panic!("no JSON reply"),
    }
}

fn message_of(j: &Json) -> String {
    j.get_str("message").expect("message").to_string()
}

// Modes and policies

#[test]
fn build_has_expected_default_mode() {
    assert_eq!(RuntimeMode::default_for_build(), RuntimeMode::UnprovisionedWifi);
}

#[test]
fn app_core_resolves_policy_for_current_mode() {
    let core = AppCore::new();
    let policy = core.transport_policy();
    assert_eq!(policy.compatibility_policy, CompatibilityPolicy::WifiHaCompat);
    assert_eq!(policy.auth_policy, AuthPolicy::OnboardingClaim);
}

#[test]
fn persisted_onboarding_maps_to_operational_mode() {
    assert_eq!(
        RuntimeMode::from_persisted_onboarding(true),
        RuntimeMode::operational_for_build()
    );
    assert_eq!(
        RuntimeMode::from_persisted_onboarding(false),
        RuntimeMode::default_for_build()
    );
}

#[test]
fn a_mode_survives_its_number() {
    for mode in [
        RuntimeMode::UnprovisionedWifi,
        RuntimeMode::UnprovisionedBle,
        RuntimeMode::WifiOperational,
    ] {
        assert_eq!(RuntimeMode::from_u8(mode.to_u8()), mode);
    }
}

#[test]
fn permissions_combine() {
    let both = PermissionFlags::read_state() | PermissionFlags::call_service();
    assert!(both.contains(PermissionFlags::read_state()));
    assert!(both.contains(PermissionFlags::call_service()));
    assert!(!both.contains(PermissionFlags::configure()));
    assert!(both.contains(PermissionFlags::none()));
}

#[test]
fn initialized_state_uses_unprovisioned_mode_when_not_onboarded() {
    let mut core = AppCore::new();
    core.sync_runtime_mode_from_onboarding(&OnboardingState::default());
    assert_eq!(core.runtime_mode(), RuntimeMode::UnprovisionedWifi);
}

#[test]
fn initialized_state_uses_operational_mode_when_onboarded() {
    let mut core = AppCore::new();
    let mut o = OnboardingState::default();
    o.onboarded = true;
    o.done = vec!["user".into(), "core_config".into()];
    core.sync_runtime_mode_from_onboarding(&o);
    assert_eq!(core.runtime_mode(), RuntimeMode::WifiOperational);
}

// Onboarding

fn owner() -> OnboardingUserInput {
    OnboardingUserInput {
        name: "Owner".into(),
        username: "owner".into(),
        password: "secret".into(),
        language: "en".into(),
    }
}

#[test]
fn onboarding_goes_through_its_steps_in_order() {
    let mut core = AppCore::new();
    let mut o = OnboardingState::default();
    let config = OnboardingCoreConfigInput::default();
    assert_eq!(
        core.complete_onboarding_core_config(&mut o, &config, 1),
        CompleteCoreConfigOutcome::UserStepRequired
    );
    assert_eq!(
        core.create_onboarding_user(&mut o, &owner(), 2),
        CreateOnboardingUserOutcome::Created
    );
    assert_eq!(
        core.create_onboarding_user(&mut o, &owner(), 3),
        CreateOnboardingUserOutcome::UserStepAlreadyDone
    );
    assert!(!o.onboarded);
    assert_eq!(
        core.complete_onboarding_core_config(&mut o, &config, 4),
        CompleteCoreConfigOutcome::Completed
    );
    assert!(o.onboarded);
    assert_eq!(o.updated_at_unix_ms, 4);
    assert_eq!(core.runtime_mode(), RuntimeMode::WifiOperational);
    assert_eq!(
        core.complete_onboarding_core_config(&mut o, &config, 5),
        CompleteCoreConfigOutcome::CoreConfigStepAlreadyDone
    );
    assert_eq!(
        core.complete_onboarding_analytics(&mut o, 6),
        CompleteAnalyticsOutcome::Completed
    );
    assert_eq!(
        core.complete_onboarding_analytics(&mut o, 7),
        CompleteAnalyticsOutcome::AlreadyDone
    );
    assert_eq!(
        core.complete_onboarding_integration(&mut o, 8),
        CompleteIntegrationOutcome::Completed
    );
    assert_eq!(
        core.complete_onboarding_integration(&mut o, 9),
        CompleteIntegrationOutcome::AlreadyDone
    );
    assert_eq!(o.done, vec!["user", "core_config", "analytics", "integration"]);
}

#[test]
fn an_instance_id_is_kept_or_made() {
    assert_eq!(instance_id(Some(" abc\n")), "abc");
    let fresh = instance_id(None);
    assert_eq!(fresh.len(), 36);
    assert_ne!(fresh, instance_id(None));
}

#[test]
fn a_configured_home_is_taken_once() {
    let mut o = OnboardingState::fresh(0);
    let radius = "50.0".to_string();
    let (lat, lon) = (Some("51.5".to_string()), Some("-0.1".to_string()));
    assert!(!seed_home_zone_coords_if_unset(&mut o, &lat, &None, &radius));
    assert_eq!(o.radius, "100.0");
    assert!(seed_home_zone_coords_if_unset(&mut o, &lat, &lon, &radius));
    assert_eq!((o.latitude.as_deref(), o.radius.as_str()), (Some("51.5"), "50.0"));
    let other = Some("1.0".to_string());
    assert!(!seed_home_zone_coords_if_unset(&mut o, &other, &other, &radius));
    assert_eq!(o.longitude.as_deref(), Some("-0.1"));
}

#[test]
fn white_space_is_what_unicode_says() {
    let listed = |n: u32| {
        (0x9..=0xd).contains(&n)
            || (0x2000..=0x200a).contains(&n)
            || [0x20, 0x85, 0xa0, 0x1680, 0x2028, 0x2029, 0x202f, 0x205f, 0x3000].contains(&n)
    };
    for n in 0..0x11_0000u32 {
        if let Some(c) = char::from_u32(n) {
            assert_eq!(c.is_whitespace(), listed(n), "{n:x}");
            if n < 128 {
                assert_eq!(c.is_alphanumeric(), c.is_ascii_alphanumeric());
            }
            assert!(!c.to_string().to_lowercase().contains(|l: char| l.is_ascii_uppercase()));
        }
    }
    assert_eq!(trim("\u{3000} a\u{a0}b \u{2028}"), "a\u{a0}b");
}

#[test]
fn slugs_stay_as_they_are() {
    assert_eq!(slugify("Living  Room #2_B"), "living__room_2_b");
    assert_eq!(slugify("living__room_2_b"), "living__room_2_b");
    assert_eq!(slugify("K\u{212a}\u{c9}"), "kk\u{e9}");
}

// States

#[test]
fn empty_store_returns_no_states() {
    let store = StateStore::new();
    assert!(store.all().is_empty());
}

#[test]
fn set_and_get_state() {
    let mut store = StateStore::new();
    assert!(store.set(sample_state("light.living_room")).is_ok());
    let s = store.get("light.living_room").unwrap();
    assert_eq!(s.entity_id, "light.living_room");
    assert_eq!(s.state, "on");
}

#[test]
fn all_returns_all_states() {
    let mut store = StateStore::new();
    assert!(store.set(sample_state("light.a")).is_ok());
    assert!(store.set(sample_state("light.b")).is_ok());
    assert_eq!(store.all().len(), 2);
}

#[test]
fn remove_state() {
    let mut store = StateStore::new();
    assert!(store.set(sample_state("light.a")).is_ok());
    assert!(store.remove("light.a"));
    assert!(store.get("light.a").is_none());
    assert!(!store.remove("light.a")); // already gone
}

#[test]
fn rejects_invalid_entity_id() {
    let mut store = StateStore::new();
    match store.set(raw_state("no_dot", "on")) {
        Err(StateError::InvalidEntityId(id)) => assert_eq!(id, "no_dot"),
        _ => panic!("must be refused"),
    }
    assert!(store.all().is_empty());
}

#[test]
fn rejects_state_too_long() {
    let mut store = StateStore::new();
    let r = store.set(raw_state("sensor.test", &"x".repeat(256)));
    assert!(matches!(r, Err(StateError::StateTooLong)));
    assert!(store.set(raw_state("sensor.test", &"x".repeat(255))).is_ok());
    // The limit counts bytes.
    assert!(store.set(raw_state("sensor.test", &"é".repeat(128))).is_err());
}

#[test]
fn entity_ids_are_checked() {
    for good in ["light.a", "sensor.a_b_2", "binary_sensor.x1"] {
        assert!(State::is_valid_entity_id(good), "{good}");
    }
    for bad in ["", ".", "light.", ".a", "light.A", "light._a", "light.a_", "light.a__b", "a.b.c"] {
        assert!(!State::is_valid_entity_id(bad), "{bad}");
    }
}

#[test]
fn a_change_tells_the_state_that_it_replaces() {
    let mut store = StateStore::new();
    let mut events: Vec<StateEvent> = vec![];
    assert!(store.offer(raw_state("light.a", "on"), &mut events));
    assert!(store.offer(raw_state("light.a", "off"), &mut events));
    assert!(!store.offer(raw_state("nothing", "off"), &mut events));
    assert_eq!(events.len(), 2);
    assert!(events[0].old_state.is_none());
    assert_eq!(events[1].old_state.as_ref().unwrap().state, "on");
    assert_eq!(events[1].state.state, "off");
}

// Times

#[test]
fn now_iso8601_has_correct_format() {
    let ts = now_iso8601();
    assert!(ts.ends_with("+00:00"), "must end with +00:00: {ts}");
    assert!(ts.contains('T'), "must contain T separator: {ts}");
    assert_eq!(ts.len(), 32, "must be 32 chars: {ts}");
}

#[test]
fn the_clock_is_past_the_year_2020() {
    assert!(now_unix_ms() > 1_577_836_800_000);
    assert!(iso_to_epoch(&now_iso8601()).unwrap().secs > 1_577_836_800);
}

#[test]
fn known_days_have_their_dates() {
    assert_eq!(days_to_ymd(0), (1970, 1, 1));
    assert_eq!(days_to_ymd(11_016), (2000, 2, 29));
    assert_eq!(days_to_ymd(20_000), (2024, 10, 4));
    for day in [0, 58, 59, 365, 789, 11_016, 11_017, 19_782, 20_000, 2_932_896] {
        assert_eq!(civil_from_days(day), days_to_ymd(day));
    }
    assert!(is_leap(2000));
    assert!(!is_leap(1900));
}

#[test]
fn times_are_written_and_read() {
    let ts = iso8601(1_709_164_800, 42);
    assert_eq!(ts, "2024-02-29T00:00:00.000042+00:00");
    let e = iso_to_epoch(&ts).unwrap();
    assert_eq!(e.secs, 1_709_164_800);
    assert_eq!(e.fraction.as_deref(), Some("000042"));
    let z = iso_to_epoch("1970-01-02T00:00:01Z").unwrap();
    assert_eq!(z.secs, 86_401);
    assert_eq!(z.fraction, None);
}

#[test]
fn texts_that_are_no_times_read_as_the_start() {
    for bad in ["", "yesterday", "2024-02", "2024-02-29T12:00"] {
        assert_eq!(iso_to_epoch(bad).unwrap().secs, 0, "{bad}");
    }
    assert!(iso_to_epoch("2024-00-01T00:00:00Z").is_none());
    assert!(iso_to_epoch("2024-14-01T00:00:00Z").is_none());
}

// Services

fn call(domain: &str, service: &str, ids: &[&str], brightness: Option<i64>) -> ServiceCall {
    ServiceCall {
        domain: domain.into(),
        service: service.into(),
        target: ServiceTarget {
            entity_ids: ids.iter().map(|i| i.to_string()).collect(),
            device_ids: vec![],
        },
        data: ServiceData { brightness },
        return_response: false,
    }
}

#[test]
fn a_call_changes_its_entities_and_no_others() {
    let mut states = StateStore::new();
    let _ = states.set(raw_state("light.b", "off"));
    let services = ServiceRegistry::new();
    let mut events: Vec<StateEvent> = vec![];
    let turn_on = call("light", "turn_on", &["light.a"], Some(200));
    let r = services.call(&mut states, &mut events, &turn_on);
    let outcome = match r {
        Ok(o) => o,
        Err(e) => panic!("{}", e.message()),
    };
    assert_eq!(outcome.changed_states.len(), 1);
    assert_eq!(events.len(), 1);
    assert_eq!(events[0].state.entity_id, "light.a");
    let a = states.get("light.a").unwrap();
    assert_eq!(a.state, "on");
    assert_eq!(to_text(&Json::Object(a.attributes)), "{\"brightness\":200}");
    assert_eq!(states.get("light.b").unwrap().state, "off");
    assert_eq!(outcome.context.id.len(), 32);
}

#[test]
fn calls_fail_as_they_should() {
    let mut states = StateStore::new();
    let mut events: Vec<StateEvent> = vec![];
    let services = ServiceRegistry::new();
    assert!(matches!(
        services.call(&mut states, &mut events, &call("light", "explode", &["light.a"], None)),
        Err(ServiceError::NotFound { .. })
    ));
    assert!(matches!(
        services.call(&mut states, &mut events, &call("light", "turn_on", &[], None)),
        Err(ServiceError::InvalidFormat(_))
    ));
    let mut asks = call("light", "turn_on", &["light.a"], None);
    asks.return_response = true;
    assert!(matches!(
        services.call(&mut states, &mut events, &asks),
        Err(ServiceError::ServiceValidation(_))
    ));
    assert!(states.all().is_empty());
    assert!(events.is_empty());
    // The entities before one that is none have changed.
    let turn_off = call("switch", "turn_off", &["switch.a", "bad"], None);
    let r = services.call(&mut states, &mut events, &turn_off);
    assert!(matches!(r, Err(ServiceError::InvalidFormat(_))));
    assert_eq!(states.get("switch.a").unwrap().state, "off");
}

#[test]
fn there_are_four_services() {
    let catalog = ServiceRegistry::new().describe();
    let names: Vec<String> = catalog
        .iter()
        .flat_map(|d| d.services.iter().map(move |s| format!("{}.{}", d.domain, s.service)))
        .collect();
    assert_eq!(
        names,
        vec!["light.turn_on", "light.turn_off", "switch.turn_on", "switch.turn_off"]
    );
    assert!(find_builtin_service("light", "turn_on").is_some());
    assert!(find_builtin_service("light", "toggle").is_none());
}

// The API

#[test]
fn get_api_status_returns_200_with_message() {
    let (status, j) = json_reply(api_status());
    assert_eq!(status, 200);
    assert_eq!(to_text(&j), "{\"message\":\"API running.\"}");
}

#[test]
fn get_api_core_state_returns_running() {
    let (status, j) = json_reply(api_core_state());
    assert_eq!(status, 200);
    assert_eq!(j.get_str("state"), Some("RUNNING"));
    let recorder = j.get("recorder_state").unwrap();
    assert_eq!(recorder.get("migration_in_progress").unwrap().as_bool(), Some(false));
    assert_eq!(recorder.get("migration_is_live").unwrap().as_bool(), Some(false));
}

#[test]
fn get_api_config_returns_required_fields() {
    let (status, j) = json_reply(api_config("Test Home"));
    assert_eq!(status, 200);
    for field in [
        "version",
        "location_name",
        "time_zone",
        "language",
        "latitude",
        "longitude",
        "elevation",
        "unit_system",
        "state",
        "components",
        "whitelist_external_dirs",
    ] {
        assert!(j.get(field).is_some(), "missing /api/config field: {field}");
    }
    assert_eq!(j.get_str("location_name"), Some("Test Home"));
}

#[test]
fn get_api_states_empty_returns_array() {
    let (status, j) = json_reply(api_states_list(&StateStore::new()));
    assert_eq!(status, 200);
    assert_eq!(to_text(&j), "[]");
}

fn post(states: &mut StateStore, id: &str, body: &Json) -> (u16, Json) {
    let mut events: Vec<StateEvent> = vec![];
    json_reply(api_state_set(states, &mut events, id, body))
}

#[test]
fn get_api_states_returns_posted_state() {
    let mut states = StateStore::new();
    let body = obj(vec![
        ("state", Json::str("on")),
        ("attributes", obj(vec![("brightness", Json::PosInt(255))])),
    ]);
    post(&mut states, "light.living_room", &body);
    let (_, j) = json_reply(api_states_list(&states));
    let arr = match j {
        Json::Array(a) => a,
        _ => panic!("must be a JSON array"),
    };
    assert_eq!(arr.len(), 1);
    assert_eq!(arr[0].get_str("entity_id"), Some("light.living_room"));
    assert_eq!(arr[0].get_str("state"), Some("on"));
    assert_eq!(to_text(arr[0].get("attributes").unwrap()), "{\"brightness\":255}");
}

#[test]
fn get_api_states_each_entry_has_required_fields() {
    let mut states = StateStore::new();
    post(&mut states, "sensor.temperature", &obj(vec![("state", Json::str("21.5"))]));
    let (_, entry) = json_reply(api_state_get(&states, "sensor.temperature"));
    for field in [
        "entity_id",
        "state",
        "attributes",
        "last_changed",
        "last_reported",
        "last_updated",
        "context",
    ] {
        assert!(entry.get(field).is_some(), "missing state field: {field}");
    }
    let context = entry.get("context").unwrap();
    assert!(context.get("id").is_some());
    assert!(context.get("parent_id").is_some());
    assert!(context.get("user_id").is_some());
}

#[test]
fn get_entity_state_missing_returns_404() {
    let (status, j) = json_reply(api_state_get(&StateStore::new(), "light.nonexistent"));
    assert_eq!(status, 404);
    assert_eq!(message_of(&j), "Entity not found.", "404 message must match HA exactly");
}

#[test]
fn get_entity_state_returns_state() {
    let mut states = StateStore::new();
    post(&mut states, "switch.kitchen", &obj(vec![("state", Json::str("off"))]));
    let (status, j) = json_reply(api_state_get(&states, "switch.kitchen"));
    assert_eq!(status, 200);
    assert_eq!(j.get_str("entity_id"), Some("switch.kitchen"));
    assert_eq!(j.get_str("state"), Some("off"));
}

#[test]
fn post_new_entity_state_returns_201() {
    let mut states = StateStore::new();
    let (status, j) = post(&mut states, "light.new_light", &obj(vec![("state", Json::str("on"))]));
    assert_eq!(status, 201);
    assert_eq!(j.get_str("entity_id"), Some("light.new_light"));
    assert_eq!(j.get_str("state"), Some("on"));
}

#[test]
fn post_existing_entity_state_returns_200() {
    let mut states = StateStore::new();
    post(&mut states, "light.existing", &obj(vec![("state", Json::str("on"))]));
    let (status, j) = post(&mut states, "light.existing", &obj(vec![("state", Json::str("off"))]));
    assert_eq!(status, 200);
    assert_eq!(j.get_str("state"), Some("off"));
}

#[test]
fn post_entity_state_missing_state_returns_400() {
    let mut states = StateStore::new();
    let (status, j) = post(&mut states, "light.test", &obj(vec![("attributes", obj(vec![]))]));
    assert_eq!(status, 400);
    assert_eq!(message_of(&j), "No state specified.");
}

#[test]
fn post_entity_state_too_long_returns_400() {
    let mut states = StateStore::new();
    let long = "x".repeat(256);
    let (status, j) = post(&mut states, "sensor.test", &obj(vec![("state", Json::str(&long))]));
    assert_eq!(status, 400);
    assert_eq!(message_of(&j), "Invalid state specified.");
}

#[test]
fn post_to_no_entity_returns_400() {
    let mut states = StateStore::new();
    let (status, j) = post(&mut states, "no_dot", &obj(vec![("state", Json::str("on"))]));
    assert_eq!(status, 400);
    assert_eq!(message_of(&j), "Invalid entity ID specified.");
    assert!(states.all().is_empty());
}
