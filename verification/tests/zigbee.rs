//! Zigbee devices, their entities and their states.

use home_edge::json::{to_text, Json};
use home_edge::logbook_store::LogbookStore;
use home_edge::state_store::{StateEvent, StateStore};
use home_edge::zigbee_device_store::{
    ZigbeeDeviceMetaUpdate, ZigbeeDeviceRecord, ZigbeeDeviceStore,
};
use home_edge::zigbee_entity_store::{
    ZigbeeEntityMetaUpdate, ZigbeeEntityRecord, ZigbeeEntityStore,
};
use home_edge::zigbee_integration::{
    bridge_config, entities_for_device, entity_view_for, handle_event, ias_device_class,
    mark_unavailable, push_state, restore_states_from_history, start_handle, AdapterType,
    BridgeCommand, ColorReadings, DeviceInfo, EndpointDesc, LatestValue, ZigbeeConfig, ZigbeeEvent,
};

fn record(
    entity_id: &str,
    domain: &str,
    device_class: Option<&str>,
    unit: Option<&str>,
) -> ZigbeeEntityRecord {
    ZigbeeEntityRecord {
        entity_id: entity_id.to_string(),
        ieee_addr: "0x0000000000000001".to_string(),
        domain: domain.to_string(),
        attribute_key: None,
        device_class: device_class.map(|s| s.to_string()),
        unit_of_measurement: unit.map(|s| s.to_string()),
        name_by_user: None,
        user_area_id: None,
        disabled: false,
        icon: None,
        hidden_by: None,
    }
}

fn no_colors() -> ColorReadings {
    ColorReadings { color_temp: None, color: None }
}

#[test]
fn entity_view_for_icon_selection() {
    let states = StateStore::new();
    let cases: &[(&str, &str, Option<&str>, &str)] = &[
        ("light.bulb", "light", None, "lightbulb"),
        ("sensor.temp", "sensor", Some("temperature"), "thermometer"),
        ("sensor.hum", "sensor", Some("humidity"), "water-percent"),
        ("sensor.lux", "sensor", Some("illuminance"), "weather-sunny"),
        ("sensor.bat", "sensor", Some("battery"), "battery"),
        ("sensor.volt", "sensor", Some("voltage"), "lightning-bolt"),
        ("sensor.press", "sensor", Some("atmospheric_pressure"), "gauge"),
        ("sensor.other", "sensor", None, "gauge"),
        ("sensor.energy", "sensor", Some("energy"), "lightning-bolt"),
        ("sensor.power", "sensor", Some("power"), "flash"),
        ("sensor.current", "sensor", Some("current"), "current-ac"),
        ("binary_sensor.occupancy", "binary_sensor", Some("occupancy"), "motion-sensor"),
        ("binary_sensor.motion", "binary_sensor", Some("motion"), "motion-sensor"),
        ("binary_sensor.door", "binary_sensor", Some("door"), "door-closed"),
        ("binary_sensor.window", "binary_sensor", Some("window"), "door-closed"),
        ("binary_sensor.opening", "binary_sensor", Some("opening"), "door-closed"),
        ("binary_sensor.smoke", "binary_sensor", Some("smoke"), "smoke-detector"),
        ("binary_sensor.moisture", "binary_sensor", Some("moisture"), "water"),
        ("binary_sensor.co", "binary_sensor", Some("carbon_monoxide"), "molecule-co"),
        ("binary_sensor.vibration", "binary_sensor", Some("vibration"), "vibrate"),
        ("binary_sensor.tamper", "binary_sensor", Some("tamper"), "shield-alert"),
        ("binary_sensor.bat_low", "binary_sensor", Some("battery"), "battery-alert"),
        ("binary_sensor.generic", "binary_sensor", None, "alert-circle-outline"),
    ];
    for (entity_id, domain, device_class, expected_icon) in cases {
        let rec = record(entity_id, domain, *device_class, None);
        let view = entity_view_for(&rec, &states, None);
        assert_eq!(
            view.icon_name, *expected_icon,
            "entity={entity_id} domain={domain} class={device_class:?}"
        );
    }
}

fn bulb() -> Vec<ZigbeeEntityRecord> {
    let mut e = record("light.test_bulb", "light", None, None);
    e.ieee_addr = "0x0000000000000002".to_string();
    vec![e]
}

#[test]
fn push_state_converts_color_temp_mireds_to_kelvin() {
    let raw = vec![
        ("state".to_string(), Json::str("ON")),
        ("brightness".to_string(), Json::PosInt(200)),
        // 370 mireds ≈ 2703 K
        ("color_temp".to_string(), Json::PosInt(370)),
    ];
    let mut states = StateStore::new();
    let mut events: Vec<StateEvent> = vec![];
    push_state(&raw, &bulb(), &no_colors(), &mut states, &mut events);
    let state = states.get("light.test_bulb").expect("light state should be set after push_state");
    assert_eq!(state.state, "on");
    let attributes = Json::Object(state.attributes);
    assert_eq!(attributes.get("brightness").unwrap().as_u64(), Some(200));
    // round(1_000_000 / 370) = 2703
    assert_eq!(attributes.get("color_temp_kelvin").unwrap().as_u64(), Some(2703));
    let mireds: f64 = attributes.get("color_temp").unwrap().as_real().unwrap().parse().unwrap();
    assert!((mireds - 370.0).abs() < 0.001);
}

#[test]
fn entity_view_for_webhook_id_is_none_for_zigbee() {
    let states = StateStore::new();
    let rec = record("sensor.test_temperature", "sensor", Some("temperature"), Some("°C"));
    let view = entity_view_for(&rec, &states, None);
    assert!(view.webhook_id.is_none(), "Zigbee entities must not have a webhook_id");
}

#[test]
fn ias_device_class_mapping() {
    assert_eq!(ias_device_class(Some(0x000d)), "motion");
    assert_eq!(ias_device_class(Some(0x0015)), "door");
    assert_eq!(ias_device_class(Some(0x0028)), "smoke");
    assert_eq!(ias_device_class(Some(0x002a)), "moisture");
    assert_eq!(ias_device_class(Some(0x002b)), "carbon_monoxide");
    assert_eq!(ias_device_class(Some(0x002c)), "safety");
    assert_eq!(ias_device_class(Some(0x002d)), "vibration");
    // Unknown / not-yet-reported type falls back to "opening"
    assert_eq!(ias_device_class(Some(0x010f)), "opening");
    assert_eq!(ias_device_class(None), "opening");
}

fn make_device_info(ieee: &str, name: &str, clusters: &[u16]) -> DeviceInfo {
    DeviceInfo {
        ieee_addr: ieee.to_string(),
        nwk_addr: 0x1234,
        friendly_name: name.to_string(),
        manufacturer: None,
        model: None,
        power_source: None,
        sw_build_id: None,
        endpoints: vec![EndpointDesc {
            endpoint: 1,
            profile_id: 0x0104,
            device_id: 0x0402,
            input_clusters: clusters.to_vec(),
            output_clusters: vec![],
        }],
        initial_state: vec![],
    }
}

fn class_of_contact(info: &DeviceInfo) -> String {
    let records = entities_for_device(info);
    let contact = records.iter().find(|r| r.attribute_key.as_deref() == Some("contact"));
    contact.expect("contact entity must exist for IAS device").device_class.clone().unwrap()
}

#[test]
fn entities_for_device_ias_zone_type_motion() {
    let mut info = make_device_info("0xAABBCCDDEEFF0011", "pir_sensor", &[0x0500]);
    info.initial_state.push(("zone_type".to_string(), Json::PosInt(0x000d)));
    assert_eq!(class_of_contact(&info), "motion");
}

#[test]
fn entities_for_device_ias_zone_type_fallback() {
    let info = make_device_info("0xAABBCCDDEEFF0022", "unknown_sensor", &[0x0500]);
    assert_eq!(class_of_contact(&info), "opening");
}

#[test]
fn each_entity_of_a_device_has_an_id_of_its_own() {
    let all = [
        0x0001, 0x0006, 0x0008, 0x0300, 0x0400, 0x0402, 0x0403, 0x0405, 0x0406, 0x0500, 0x0702,
        0x0B04,
    ];
    let records = entities_for_device(&make_device_info("0x1", "Büro Lamp", &all));
    assert_eq!(records.len(), 15);
    assert_eq!(records[0].entity_id, "light.büro_lamp");
    let mut ids: Vec<&str> = records.iter().map(|r| r.entity_id.as_str()).collect();
    ids.sort();
    ids.dedup();
    assert_eq!(ids.len(), 15);
    assert!(records.iter().all(|r| r.ieee_addr == "0x1"));
}

fn device(ieee: &str) -> ZigbeeDeviceRecord {
    ZigbeeDeviceRecord {
        ieee_addr: ieee.into(),
        friendly_name: "name".into(),
        manufacturer: None,
        model: None,
        power_source: None,
        sw_build_id: None,
        interview_complete: false,
        last_seen: None,
        name_by_user: None,
        user_area_id: None,
    }
}

#[test]
fn what_the_user_has_set_survives_a_report() {
    let mut store = ZigbeeDeviceStore::new();
    let mut other = device("0x2");
    other.friendly_name = "a".into();
    store.upsert(other);
    store.upsert(device("0x1"));
    let update = ZigbeeDeviceMetaUpdate {
        name_by_user: Some(Some("Alpha".into())),
        user_area_id: Some(Some("attic".into())),
    };
    assert!(store.update_meta("0x1", update));
    let mut report = device("0x1");
    report.interview_complete = true;
    store.upsert(report);
    let d = store.get_by_ieee("0x1").unwrap();
    assert_eq!(d.display_name(), "Alpha");
    assert!(d.interview_complete);
    // Sorted by the friendly names, whatever the user calls them.
    assert_eq!(store.list()[0].ieee_addr, "0x2");
    assert_eq!(store.list()[1].ieee_addr, "0x1");
    assert!(store.touch_last_seen("0x1", "now".into()));
    assert!(!store.touch_last_seen("0x9", "now".into()));
    assert!(store.remove("0x1"));
    assert!(!store.remove("0x1"));
}

#[test]
fn events_run_from_joining_to_leaving() {
    let mut devices = ZigbeeDeviceStore::new();
    let mut entities = ZigbeeEntityStore::new();
    let mut states = StateStore::new();
    let mut log = LogbookStore::new(10);
    let mut run = |event: ZigbeeEvent,
                   devices: &mut ZigbeeDeviceStore,
                   entities: &mut ZigbeeEntityStore,
                   states: &mut StateStore| {
        handle_event(event, &no_colors(), devices, entities, states, &mut log)
    };
    let joined = ZigbeeEvent::DeviceJoined { ieee_addr: "0x1".into() };
    run(joined, &mut devices, &mut entities, &mut states);
    assert_eq!(devices.list().len(), 1);
    let info = make_device_info("0x1", "Sensor", &[0x0402]);
    let done = ZigbeeEvent::DeviceInterviewComplete { info };
    run(done, &mut devices, &mut entities, &mut states);
    assert_eq!(entities.list().len(), 1);
    let changed = ZigbeeEvent::StateChanged {
        ieee_addr: "0x1".into(),
        delta: vec![("temperature".into(), Json::Float("21.5".into()))],
    };
    let outcome = run(changed, &mut devices, &mut entities, &mut states);
    assert_eq!(states.get("sensor.sensor_temperature").unwrap().state, "21.5");
    assert_eq!(outcome.history.len(), 1);
    assert_eq!(outcome.events.len(), 1);
    let changed = ZigbeeEvent::StateChanged {
        ieee_addr: "0x1".into(),
        delta: vec![("temperature".into(), Json::Float("22.5".into()))],
    };
    run(changed, &mut devices, &mut entities, &mut states);
    let left = ZigbeeEvent::DeviceLeft { ieee_addr: "0x1".into() };
    run(left, &mut devices, &mut entities, &mut states);
    // The entities stay, without a state.
    assert_eq!(entities.list().len(), 1);
    let gone = states.get("sensor.sensor_temperature").unwrap();
    assert_eq!(gone.state, "unavailable");
    for time in [&gone.last_changed, &gone.last_updated, &gone.last_reported] {
        assert_eq!((time.len(), &time[10..11], &time[26..]), (32, "T", "+00:00"));
    }
    // The first value replaced none.
    let entries = log.recent_n(10);
    assert_eq!(entries.len(), 1);
    assert_eq!(entries[0].entity_id, "sensor.sensor_temperature");
    assert_eq!((entries[0].old_state.as_str(), entries[0].new_state.as_str()), ("21.5", "22.5"));
}

#[test]
fn states_come_back_from_history_and_go_with_the_coordinator() {
    let entities = vec![record("sensor.a", "sensor", Some("temperature"), Some("°C"))];
    let latest = vec![LatestValue { entity_id: "sensor.a".into(), text: "20.5".into(), on: true }];
    let mut states = StateStore::new();
    let mut events: Vec<StateEvent> = vec![];
    assert_eq!(restore_states_from_history(&entities, &latest, &mut states, &mut events), 1);
    assert_eq!(states.get("sensor.a").unwrap().state, "20.5");
    mark_unavailable(&entities, &"later".to_string(), &mut states, &mut events);
    let s = states.get("sensor.a").unwrap();
    assert_eq!((s.state.as_str(), s.last_updated.as_str()), ("unavailable", "later"));
    assert_eq!(events.len(), 2);
}

#[test]
fn joining_is_permitted_for_a_while() {
    let config = ZigbeeConfig {
        serial_port: "/dev/ttyUSB0".into(),
        baudrate: 115_200,
        adapter: "EZSP".into(),
        rtscts: false,
        permit_join_on_startup: true,
        channel: 11,
        pan_id: None,
    };
    let bridge = bridge_config(&config);
    assert_eq!(bridge.adapter, AdapterType::Ezsp);
    assert_eq!(bridge.pan_id, 0x1a62);
    assert!(!bridge.mqtt_enabled);
    let mut handle = start_handle(&config);
    assert_eq!(handle.permit_join(60, 1000), BridgeCommand::PermitJoin { duration: 60 });
    assert_eq!(handle.permit_join_remaining_secs(1010), 50);
    assert_eq!(handle.permit_join_remaining_secs(1060), 0);
    handle.permit_join(0, 1000);
    assert_eq!(handle.permit_join_remaining_secs(1000), 0);
    assert_eq!(handle.stop(), BridgeCommand::Stop);
    assert!(handle.bridge_error().is_none());
}

#[test]
fn colours_are_shown_in_hexadecimal() {
    let mut states = StateStore::new();
    let mut events: Vec<StateEvent> = vec![];
    let raw = vec![("state".to_string(), Json::str("OFF"))];
    push_state(&raw, &bulb(), &no_colors(), &mut states, &mut events);
    let mut state = states.get("light.test_bulb").unwrap();
    let rgb = Json::Array(vec![Json::PosInt(255), Json::PosInt(0), Json::PosInt(16)]);
    state.attributes.push(("rgb_color".into(), rgb));
    let _ = states.set(state);
    let view = entity_view_for(&bulb()[0], &states, Some("Lamp".into()));
    assert_eq!(view.rgb_hex.as_deref(), Some("#ff0010"));
    assert_eq!(view.value, "off");
    assert_eq!(view.service_action, "toggle");
    assert_eq!(view.device_name.as_deref(), Some("Lamp"));
    assert_eq!(to_text(&Json::opt_str(&view.color_mode)), "null");
}

fn entity_of(ieee: &str, id: &str) -> ZigbeeEntityRecord {
    let mut e = record(id, "sensor", Some("temperature"), None);
    e.ieee_addr = ieee.into();
    e.attribute_key = Some("temperature".into());
    e
}

#[test]
fn registering_replaces_the_entities_of_the_device() {
    let mut store = ZigbeeEntityStore::new();
    store.register_bulk(vec![entity_of("0x1", "sensor.a"), entity_of("0x1", "sensor.b")]);
    store.register_bulk(vec![entity_of("0x2", "sensor.c")]);
    let update = ZigbeeEntityMetaUpdate {
        name_by_user: Some(Some("Mine".into())),
        user_area_id: Some(Some("attic".into())),
        disabled: None,
        unit_of_measurement: None,
        icon: None,
        hidden_by: None,
    };
    assert!(store.update_meta("sensor.b", update));
    store.register_bulk(vec![entity_of("0x1", "sensor.b"), entity_of("0x1", "sensor.d")]);
    let ids: Vec<String> =
        store.list_for_device("0x1").into_iter().map(|e| e.entity_id).collect();
    assert_eq!(ids, vec!["sensor.b", "sensor.d"]);
    let b = store.get("sensor.b").unwrap();
    assert_eq!(b.name_by_user.as_deref(), Some("Mine"));
    assert_eq!(b.user_area_id.as_deref(), Some("attic"));
    assert!(store.get("sensor.a").is_none());
    assert_eq!(store.list_for_device("0x2").len(), 1);
}

#[test]
fn disabled_entities_publish_no_state() {
    let mut states = StateStore::new();
    let mut events: Vec<StateEvent> = vec![];
    let mut hidden = entity_of("0x1", "sensor.a");
    hidden.disabled = true;
    let shown = entity_of("0x1", "sensor.b");
    let raw = vec![("temperature".to_string(), Json::PosInt(20))];
    push_state(&raw, &vec![hidden, shown], &no_colors(), &mut states, &mut events);
    assert!(states.get("sensor.a").is_none());
    assert_eq!(states.get("sensor.b").unwrap().state, "20");
    assert_eq!(events.len(), 1);
}

#[test]
fn disabled_entities_are_neither_restored_nor_gone() {
    let mut devices = ZigbeeDeviceStore::new();
    let mut entities = ZigbeeEntityStore::new();
    let mut states = StateStore::new();
    let mut log = LogbookStore::new(10);
    let mut hidden = entity_of("0x1", "sensor.a");
    hidden.disabled = true;
    entities.register_bulk(vec![hidden, entity_of("0x1", "sensor.b")]);
    let latest = |id: &str| LatestValue { entity_id: id.into(), text: "20.5".into(), on: true };
    let known = vec![latest("sensor.a"), latest("sensor.b")];
    let mut events: Vec<StateEvent> = vec![];
    let n = restore_states_from_history(&entities.list(), &known, &mut states, &mut events);
    assert_eq!((n, events.len()), (1, 1));
    assert!(states.get("sensor.a").is_none());
    let left = ZigbeeEvent::DeviceLeft { ieee_addr: "0x1".into() };
    let outcome =
        handle_event(left, &no_colors(), &mut devices, &mut entities, &mut states, &mut log);
    assert_eq!(outcome.events.len(), 1);
    assert!(states.get("sensor.a").is_none());
    assert_eq!(states.get("sensor.b").unwrap().state, "unavailable");
}
