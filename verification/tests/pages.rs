//! Pages, history, logbook, notifications, announcements and made-up data.

use home_edge::app_core::{AppCore, OnboardingCoreConfigInput, RuntimeMode, VERSION};
use home_edge::area_registry_store::AreaRegistryStore;
use home_edge::auth_store::verify_password;
use home_edge::config::{
    default_host, default_port, AppConfig, AreasConfig, HistoryConfig, HomeZoneConfig, MdnsConfig,
    ServerConfig, StorageConfig, UiConfig,
};
use home_edge::demo::{seed_home, seed_logbook, seed_notifications, seed_phone, seed_zigbee};
use home_edge::ha_auth::TokenStore;
use home_edge::history_store::{
    format_hhmm, render_binary_timeline, render_history_chart, render_sparkline, svg_path,
    timeline_segments, AxisLabel, HistoryRow, HistoryStore, Segment, Stripe,
};
use home_edge::http::{
    api_ble_pair, api_device_rename, areas_create, ble_scan_devices, build_area_cards,
    build_entity_groups, cards_of_area, complete_analytics, complete_core_config,
    complete_integration, create_onboarding_user, device_summaries, draws_history,
    entity_edit_location, entity_edit_update, entity_states, entity_to_view, extract_bearer,
    fallback_404, health, history_entities, history_limit, load_location_name,
    more_info_template, onboarding_installation_type, onboarding_integration_wait,
    onboarding_status, onboarding_steps, page_error, service_action_for, ui_service_call,
    EntityEditForm, OnboardingUserRequest, UiServiceForm, NAME_EMPTY, NAME_SAVED, NO_DEVICE,
};
use home_edge::json::{to_array, to_text, Json};
use home_edge::logbook_store::{entry_for, LogbookStore};
use home_edge::mobile_device_store::{MobileDeviceRegistration, MobileDeviceStore};
use home_edge::mobile_entity_store::{MobileEntityRecord, MobileEntityStore};
use home_edge::notification_store::NotificationStore;
use home_edge::service::ServiceRegistry;
use home_edge::state_store::{make_state, StateAttributes, StateEvent, StateStore};
use home_edge::storage::OnboardingState;
use home_edge::templates::is_html_template;
use home_edge::web::Reply;
use home_edge::zeroconf::{
    announce_addresses, announcement, build_service_info, truncate_instance_name, AnnounceError,
    HostAddress, ZEROCONF_TYPE,
};
use home_edge::zigbee_device_store::ZigbeeDeviceStore;
use home_edge::zigbee_entity_store::ZigbeeEntityStore;

fn config(product_name: &str) -> AppConfig {
    AppConfig {
        server: ServerConfig { host: default_host(), port: default_port(), log_level: "INFO".into() },
        storage: StorageConfig { data_dir: "/tmp/home-edge-test".into() },
        ui: UiConfig { product_name: product_name.into() },
        areas: AreasConfig::default(),
        history: HistoryConfig::default(),
        home_zone: HomeZoneConfig::default(),
        mdns: MdnsConfig::default(),
    }
}

fn json_reply(r: Reply) -> (u16, Json) {
    match r {
        Reply::Json(status, j) => (status, j),
        _ => panic!("no JSON reply"),
    }
}

fn html_reply(r: Reply) -> (u16, String) {
    match r {
        Reply::Html(status, html) => (status, html),
        _ => panic!("no page"),
    }
}

fn entity(entity_id: &str, entity_type: &str) -> MobileEntityRecord {
    MobileEntityRecord {
        webhook_id: "hook".into(),
        entity_type: entity_type.into(),
        sensor_unique_id: "u".into(),
        sensor_name: "Name".into(),
        entity_id: entity_id.into(),
        device_class: None,
        unit_of_measurement: None,
        icon: None,
        entity_category: None,
        state_class: None,
        disabled: false,
        name_by_user: None,
        user_area_id: None,
    }
}

// Entities on pages

#[test]
fn icons_follow_the_state_the_icon_and_the_class() {
    let mut states = StateStore::new();
    let mut icon = |e: &MobileEntityRecord, value: &str| {
        let _ = states.set(make_state(&e.entity_id, value, StateAttributes::empty()));
        entity_to_view(e, &states).icon_name
    };
    assert_eq!(icon(&entity("switch.a", "switch"), "on"), "toggle-switch");
    assert_eq!(icon(&entity("switch.a", "switch"), "off"), "toggle-switch-off");
    assert_eq!(icon(&entity("lock.a", "lock"), "unlocked"), "lock-open");
    assert_eq!(icon(&entity("cover.a", "cover"), "open"), "window-shutter-open");
    assert_eq!(icon(&entity("sensor.a", "sensor"), "1"), "sensor");
    assert_eq!(icon(&entity("binary_sensor.a", "binary_sensor"), "on"), "toggle");
    let mut battery = entity("sensor.b", "sensor");
    battery.icon = Some("mdi:battery-low".into());
    assert_eq!(icon(&battery, "1"), "battery");
    battery.icon = Some("mdi:rocket".into());
    battery.device_class = Some("temperature".into());
    assert_eq!(icon(&battery, "1"), "thermometer");
}

#[test]
fn a_view_reads_the_attributes() {
    let mut states = StateStore::new();
    let e = entity("light.a", "light");
    let missing = entity_to_view(&e, &states);
    assert_eq!(missing.value, "unavailable");
    assert!(missing.is_unavailable);
    assert_eq!(missing.min_color_temp_kelvin, 2000);
    assert_eq!(missing.max_color_temp_kelvin, 6535);
    let attributes = StateAttributes {
        members: vec![
            ("brightness".into(), Json::PosInt(300)),
            ("percentage".into(), Json::PosInt(40)),
            ("color_temp_kelvin".into(), Json::PosInt(2700)),
            ("options".into(), Json::Array(vec![Json::str("a"), Json::Null, Json::str("b")])),
            ("temperature".into(), Json::Float("21.5".into())),
        ],
    };
    let _ = states.set(make_state("light.a", "on", attributes));
    let view = entity_to_view(&e, &states);
    assert_eq!(view.brightness, Some(255));
    assert_eq!(view.fan_percentage, Some(40));
    assert_eq!(view.color_temp_kelvin, Some(2700));
    assert_eq!(view.options, vec!["a", "b"]);
    assert_eq!(to_text(&view.target_temperature.unwrap()), "21.5");
    assert_eq!(view.service_action, "toggle");
    assert_eq!(view.webhook_id.as_deref(), Some("hook"));
    assert_eq!(service_action_for("button"), "press");
    assert_eq!(service_action_for("climate"), "");
}

#[test]
fn cards_are_in_order_and_leave_out_what_is_disabled() {
    let mut areas = AreaRegistryStore::new();
    areas.create("Kitchen".into());
    areas.create("Attic".into());
    let placed = |id: &str, area: Option<&str>| {
        let mut e = entity(id, "sensor");
        e.user_area_id = area.map(|a| a.to_string());
        e
    };
    let mut hidden = placed("sensor.hidden", Some("attic"));
    hidden.disabled = true;
    let entities = vec![
        placed("sensor.a", None),
        placed("sensor.b", Some("kitchen")),
        placed("sensor.c", Some("attic")),
        placed("sensor.d", Some("kitchen")),
        placed("sensor.e", Some("cellar")),
        hidden,
    ];
    let cards = build_area_cards(&areas, &entities, &StateStore::new());
    let shown: Vec<(String, Vec<String>)> = cards
        .iter()
        .map(|c| {
            (c.area_name.clone(), c.entities.iter().map(|e| e.entity_id.clone()).collect())
        })
        .collect();
    assert_eq!(
        shown,
        vec![
            ("Attic".to_string(), vec!["sensor.c".to_string()]),
            ("Kitchen".to_string(), vec!["sensor.b".to_string(), "sensor.d".to_string()]),
            ("Unassigned".to_string(), vec!["sensor.a".to_string(), "sensor.e".to_string()]),
        ]
    );
    let kitchen = cards_of_area(cards, "Kitchen");
    assert_eq!(kitchen.len(), 1);
}

fn phone(devices: &mut MobileDeviceStore, id: &str) -> String {
    devices
        .register(MobileDeviceRegistration {
            app_id: "app".into(),
            app_name: "App".into(),
            app_version: "1".into(),
            device_name: "Phone".into(),
            manufacturer: "M".into(),
            model: "X".into(),
            os_name: "OS".into(),
            os_version: None,
            device_id: Some(id.into()),
            supports_encryption: false,
            owner_username: None,
        })
        .webhook_id
}

#[test]
fn devices_are_shown_with_their_entities() {
    let mut devices = MobileDeviceStore::new();
    let first = phone(&mut devices, "one");
    phone(&mut devices, "two");
    let mut a = entity("sensor.a", "sensor");
    a.webhook_id = first.clone();
    a.name_by_user = Some("Zebra".into());
    let mut b = entity("sensor.b", "sensor");
    b.webhook_id = first;
    b.sensor_name = "Apple".into();
    let entities = vec![a, b];
    let states = StateStore::new();
    let groups = build_entity_groups(&devices.all(), &entities, &states);
    assert_eq!(groups.len(), 1);
    assert_eq!(groups[0].entities.len(), 2);
    let text = to_text(&device_summaries(&devices.all(), &entities));
    assert!(text.contains("\"entity_count\":2"));
    assert!(text.contains("\"entity_count\":0"));
    let listed = history_entities(&entities);
    let names: Vec<&str> = listed.iter().map(|e| e.display_name.as_str()).collect();
    assert_eq!(names, vec!["Apple", "Zebra"]);
    assert!(to_text(&to_array(&listed)).contains("\"entity_type\":\"sensor\""));
    assert!(to_text(&entity_states(&entities, &states)).contains("unavailable"));
}

#[test]
fn forms_edit_entities_and_devices() {
    let form = EntityEditForm {
        display_name: "  ".into(),
        area_id: "".into(),
        unit_override: " W ".into(),
        disabled: Some("true".into()),
    };
    let u = entity_edit_update(&form);
    assert_eq!(u.name_by_user, None);
    assert_eq!(u.user_area_id, Some(None));
    assert_eq!(u.unit_of_measurement, Some(Some("W".to_string())));
    assert_eq!(u.disabled, Some(true));
    assert_eq!(entity_edit_location("w", "sensor.a"), "/devices/w/entities/sensor.a?saved=true");
    let mut devices = MobileDeviceStore::new();
    let id = phone(&mut devices, "one");
    assert_eq!(html_reply(api_device_rename(&mut devices, &id, " ")).1, NAME_EMPTY);
    assert_eq!(html_reply(api_device_rename(&mut devices, "x", "New")).1, NO_DEVICE);
    assert_eq!(html_reply(api_device_rename(&mut devices, &id, " New ")).1, NAME_SAVED);
    assert_eq!(devices.all()[0].device_name, "New");
    let mut areas = AreaRegistryStore::new();
    assert!(matches!(areas_create(&mut areas, "  "), Reply::Redirect(303, _)));
    assert!(areas.list().is_empty());
    areas_create(&mut areas, " Attic ");
    assert_eq!(areas.list()[0].name, "Attic");
}

#[test]
fn templates_are_chosen_by_type() {
    assert_eq!(more_info_template("light"), "more_info/_light.html");
    assert_eq!(more_info_template("vacuum"), "more_info/_default.html");
    assert!(draws_history("sensor", 2));
    assert!(!draws_history("sensor", 1));
    assert!(!draws_history("light", 5));
    assert!(is_html_template("a.html"));
    assert!(!is_html_template("html"));
    assert!(!is_html_template("a.txt"));
}

#[test]
fn error_pages_are_escaped() {
    let (status, html) = html_reply(page_error(500, "<b>&"));
    assert_eq!(status, 500);
    assert!(html.contains("<p>&lt;b&gt;&amp;</p>"));
    assert!(html.contains("event:'connected'"));
    assert_eq!(html_reply(fallback_404()).0, 404);
    let mut o = OnboardingState::default();
    assert_eq!(load_location_name(&None, "Edge"), "Edge");
    o.location_name = Some("Here".into());
    assert_eq!(load_location_name(&Some(o), "Edge"), "Here");
}

fn ui_form(entity_id: &str) -> UiServiceForm {
    UiServiceForm {
        entity_id: entity_id.into(),
        brightness: None,
        color_temp_kelvin: None,
        option: None,
        position: None,
        hvac_mode: None,
        temperature: None,
        percentage: None,
    }
}

#[test]
fn a_form_calls_a_service() {
    let core = AppCore::new();
    let cfg = config("Test");
    let services = ServiceRegistry::new();
    let mut states = StateStore::new();
    let mut events: Vec<StateEvent> = vec![];
    let mut run = |form: &UiServiceForm, service: &str| {
        let reply = ui_service_call(
            &core,
            &cfg,
            &services,
            &mut states,
            &mut events,
            "light",
            service,
            form,
        );
        match reply {
            Reply::Empty(status) => {
                (status, states.get("light.a").map(|s| to_text(&Json::Object(s.attributes))))
            }
            _ => panic!("no status"),
        }
    };
    let mut form = ui_form("light.a");
    form.brightness = Some("-5".into());
    assert_eq!(run(&form, "turn_on"), (204, Some("{\"brightness\":-5}".to_string())));
    form.brightness = Some("bright".into());
    assert_eq!(run(&form, "turn_on").0, 204);
    assert_eq!(run(&form, "dance").0, 404);
    assert_eq!(run(&ui_form("no entity"), "turn_on").0, 500);
    assert_eq!(run(&ui_form("{{ template }}"), "turn_on").0, 400);
}

#[test]
fn bluetooth_is_made_up() {
    let found = ble_scan_devices();
    assert_eq!(found[0].name, "HA Sensor A3F2");
    assert_eq!(found[1].rssi, -77);
    let (_, html) = html_reply(api_ble_pair("<x>"));
    assert!(html.contains("&lt;x&gt; paired"));
    assert_ne!(html, html_reply(api_ble_pair("<x>")).1);
}

// Onboarding over HTTP

fn user_request() -> OnboardingUserRequest {
    OnboardingUserRequest {
        client_id: "client".into(),
        name: "Owner".into(),
        username: "owner".into(),
        password: "secret".into(),
        language: "en".into(),
    }
}

#[test]
fn onboarding_is_answered_step_by_step() {
    let mut core = AppCore::new();
    let mut o = OnboardingState::default();
    let mut tokens = TokenStore::new();
    let (status, j) = json_reply(onboarding_status(&mut core, &o));
    assert_eq!(status, 200);
    assert!(to_text(&j).starts_with("[{\"done\":false,\"step\":\"user\"}"));
    assert_eq!(json_reply(onboarding_installation_type(&mut core, &o)).0, 200);
    let mut empty = user_request();
    empty.language = "".into();
    let r = create_onboarding_user(&mut core, &mut o, &mut tokens, &empty, 1);
    assert_eq!(json_reply(r).0, 400);
    let config = OnboardingCoreConfigInput::default();
    assert_eq!(json_reply(complete_core_config(&mut core, &mut o, &config, 1)).0, 403);
    let r = create_onboarding_user(&mut core, &mut o, &mut tokens, &user_request(), 2);
    let (status, j) = json_reply(r);
    assert_eq!(status, 200);
    let code = j.get_str("auth_code").unwrap().to_string();
    let access = tokens.exchange_code("client", &code).expect("tokens").0;
    let r = create_onboarding_user(&mut core, &mut o, &mut tokens, &user_request(), 3);
    assert_eq!(json_reply(r).0, 403);
    assert_eq!(json_reply(complete_core_config(&mut core, &mut o, &config, 4)).0, 200);
    assert!(matches!(onboarding_installation_type(&mut core, &o), Reply::Empty(401)));
    let header = format!("Bearer {access}");
    assert_eq!(json_reply(complete_analytics(&mut core, &mut o, &tokens, None, 5)).0, 401);
    let r = complete_analytics(&mut core, &mut o, &tokens, Some("Bearer x"), 5);
    assert_eq!(json_reply(r).0, 401);
    let r = complete_analytics(&mut core, &mut o, &tokens, Some(&header), 5);
    assert_eq!(json_reply(r).0, 200);
    let r = complete_analytics(&mut core, &mut o, &tokens, Some(&header), 6);
    assert_eq!(json_reply(r).0, 403);
    let mut connect = |o: &mut OnboardingState, client: &str| {
        json_reply(complete_integration(&mut core, o, &mut tokens, Some(&header), client, "u", 7)).0
    };
    assert_eq!(connect(&mut o, ""), 400);
    assert_eq!(connect(&mut o, "client"), 200);
    assert_eq!(connect(&mut o, "client"), 403);
    assert_eq!(
        to_text(&json_reply(onboarding_integration_wait()).1),
        "{\"integration_loaded\":true}"
    );
    let steps = onboarding_steps(&core.onboarding_progress(&o));
    assert!(steps.iter().all(|s| s.done));
    assert_eq!(to_text(&json_reply(health()).1), "{\"milestone\":\"m0\",\"status\":\"ok\"}");
    assert_eq!(extract_bearer(Some("Bearer abc")).as_deref(), Some("abc"));
    assert_eq!(extract_bearer(Some("Basic abc")), None);
}

// History

#[test]
fn readings_are_listed_oldest_first() {
    let mut history = HistoryStore::new(50);
    history.record_at("sensor.steps", "1000.0".into(), 1);
    history.record_at("sensor.steps", "1500.0".into(), 2);
    let entries = history.last_n("sensor.steps", history_limit(None));
    assert_eq!(
        to_text(&to_array(&entries)),
        "[{\"ts\":1,\"value\":1000.0},{\"ts\":2,\"value\":1500.0}]"
    );
    assert_eq!(history_limit(Some(5000)), 1000);
    assert_eq!(history_limit(Some(5)), 5);
}

#[test]
fn a_full_buffer_loses_its_oldest_reading() {
    let row = |id: &str, ts: u64| HistoryRow {
        entity_id: id.into(),
        ts,
        value: format!("{ts}.0"),
    };
    let rows = vec![row("a", 1), row("a", 2), row("a", 3), row("b", 9)];
    let store = HistoryStore::warmed(2, rows);
    let ts: Vec<u64> = store.last_n("a", 10).iter().map(|e| e.ts).collect();
    assert_eq!(ts, vec![2, 3]);
    assert_eq!(store.last_n("a", 1)[0].ts, 3);
    assert_eq!(store.since("a", 3).len(), 1);
    assert!(store.last_n("c", 1).is_empty());
    assert_eq!(store.entity_ids_since(0), vec!["a", "b"]);
    assert_eq!(
        store.latest_values(),
        vec![("a".to_string(), "3.0".to_string()), ("b".to_string(), "9.0".to_string())]
    );
    let none = HistoryStore::warmed(0, vec![row("a", 1), row("a", 2)]);
    assert!(none.last_n("a", 10).is_empty());
}

#[test]
fn drawings_are_put_together() {
    assert_eq!(format_hhmm(86_400 + 3_600 * 7 + 60 * 5 + 9), "07:05");
    let p = |x: &str, y: &str| (x.to_string(), y.to_string());
    let points = vec![p("1.0", "2.0"), p("3.0", "4.0")];
    assert_eq!(svg_path(&points), "M 1.0 2.0 L 3.0 4.0");
    let spark = render_sparkline(&points, "56.0", 320, 60);
    assert!(spark.starts_with("<svg width=\"320\" height=\"60\" viewBox=\"0 0 320 60\""));
    assert!(spark.contains("id=\"sg_320_60\""));
    assert!(spark.contains("d=\"M 1.0 2.0 L 3.0 4.0 L 3.0 56.0 L 1.0 56.0 Z\""));
    assert!(render_sparkline(&vec![p("1.0", "2.0")], "56.0", 320, 60).contains("No data yet"));
    let labels = vec![AxisLabel {
        x: "18.0".into(),
        y: "17.0".into(),
        anchor: "end".into(),
        value: "7.5".into(),
    }];
    let chart = render_history_chart(&points, "100.0", &labels, 400, 120);
    assert!(chart.contains("text-anchor=\"end\" fill=\"#999\" font-size=\"9\">7.5</text>\n</svg>"));
}

#[test]
fn timelines_have_their_stretches() {
    let entries = vec![(5, true), (20, false), (30, true), (200, false)];
    let r = timeline_segments(&entries, 10, 100);
    assert_eq!(
        r,
        vec![
            Segment { start: 10, end: 20, on: true },
            Segment { start: 20, end: 30, on: false },
            Segment { start: 30, end: 100, on: true },
        ]
    );
    assert!(render_binary_timeline(&None, 400, 28, "28.0").contains("No data"));
    let stripes = vec![Stripe { x: "0.0".into(), width: "9.5".into(), on: true }];
    let svg = render_binary_timeline(&Some(stripes), 400, 28, "28.0");
    assert!(svg.contains("<rect x=\"0.0\" y=\"0\" width=\"9.5\" height=\"28.0\" fill=\"#f59e0b\"/>"));
}

// Logbook and notifications

#[test]
fn the_logbook_names_entities() {
    let mut states = StateStore::new();
    let mut events: Vec<StateEvent> = vec![];
    states.offer(make_state("light.a", "on", StateAttributes::empty()), &mut events);
    let named = StateAttributes { members: vec![("friendly_name".into(), Json::str("Lamp"))] };
    states.offer(make_state("light.a", "off", named), &mut events);
    let first = entry_for(&events[0], 7);
    assert_eq!((first.display_name.as_str(), first.old_state.as_str()), ("light.a", ""));
    let second = entry_for(&events[1], 8);
    assert_eq!((second.display_name.as_str(), second.old_state.as_str()), ("Lamp", "on"));
    let mut log = LogbookStore::new(1);
    log.record(first);
    log.record(second);
    assert_eq!(log.recent_n(5).len(), 1);
    assert_eq!(log.get_filtered(Some("LIGHT"), 5)[0].ts, 8);
    assert!(log.get_filtered(Some("switch"), 5).is_empty());
}

#[test]
fn notifications_come_newest_first() {
    let mut store = NotificationStore::new();
    store.create_at("old".into(), None, "a".into(), 1);
    store.create_at("new".into(), Some("Title".into()), "b".into(), 3);
    store.create_at("middle".into(), None, "c".into(), 2);
    let messages: Vec<String> = store.all().into_iter().map(|n| n.message).collect();
    assert_eq!(messages, vec!["new", "middle", "old"]);
    store.create_at("newer".into(), None, "a".into(), 4);
    assert_eq!(store.all()[0].message, "newer");
    assert_eq!(store.all().len(), 3);
    assert!(store.dismiss("a"));
    assert!(!store.dismiss("a"));
    let n = store.create("x".into(), None, None);
    assert_eq!(n.notification_id.len(), 36);
    assert_eq!(n.status, "unread");
}

// Announcements

fn address(text: &str, is_ipv4: bool) -> HostAddress {
    address_on("wlan0", text, is_ipv4)
}

fn address_on(interface: &str, text: &str, is_ipv4: bool) -> HostAddress {
    HostAddress {
        interface: interface.into(),
        text: text.into(),
        is_ipv4,
        is_loopback: text == "127.0.0.1",
        is_unspecified: text == "0.0.0.0",
    }
}

fn service(o: &OnboardingState, id: &str, ip: &str) -> mdns_sd::ServiceInfo {
    match build_service_info(&config("Home Edge"), o, id, &vec![address(ip, true)]) {
        Ok(s) => s.info,
        Err(e) => panic!("no service: {e:?}"),
    }
}

#[test]
fn builds_home_assistant_service_info() {
    let mut o = OnboardingState::default();
    o.location_name = Some("My Home".into());
    let service = service(&o, "123e4567-e89b-12d3-a456-426614174000", "192.168.1.20");
    assert_eq!(service.get_type(), ZEROCONF_TYPE);
    assert_eq!(service.get_fullname(), "My Home._home-assistant._tcp.local.");
    assert_eq!(service.get_hostname(), "123e4567-e89b-12d3-a456-426614174000.local.");
    assert_eq!(service.get_port(), 8124);
    assert_eq!(service.get_property_val_str("location_name"), Some("My Home"));
    assert_eq!(
        service.get_property_val_str("uuid"),
        Some("123e4567-e89b-12d3-a456-426614174000")
    );
    assert_eq!(service.get_property_val_str("version"), Some(VERSION));
    assert_eq!(service.get_property_val_str("internal_url"), Some("http://192.168.1.20:8124"));
    assert_eq!(service.get_property_val_str("base_url"), Some("http://192.168.1.20:8124"));
    assert_eq!(service.get_property_val_str("requires_api_password"), Some("true"));
}

#[test]
fn falls_back_to_product_name_when_location_name_missing() {
    let service = service(&OnboardingState::default(), "instance-1", "10.0.0.5");
    assert_eq!(service.get_property_val_str("location_name"), Some("Home Edge"));
    assert_eq!(service.get_fullname(), "Home Edge._home-assistant._tcp.local.");
}

#[test]
fn addresses_are_chosen() {
    let all = vec![
        address("127.0.0.1", true),
        address("fe80::1", false),
        address("10.0.0.5", true),
        address("fe80::1", false),
        address("0.0.0.0", true),
    ];
    let chosen = announce_addresses(&all, &vec![]);
    let texts: Vec<&str> = chosen.iter().map(|a| a.text.as_str()).collect();
    assert_eq!(texts, vec!["fe80::1", "10.0.0.5"]);
    let o = OnboardingState::default();
    let a = announcement(&config("Edge"), &o, "i", &chosen);
    assert_eq!(a.addresses, vec!["fe80::1", "10.0.0.5"]);
    assert_eq!(a.host_name, "i.local.");
    assert!(a.properties.iter().any(|p| p.1 == "http://10.0.0.5:8124"));
    let service = match build_service_info(&config("Edge"), &o, "i", &chosen) {
        Ok(s) => s,
        Err(e) => panic!("no service: {e:?}"),
    };
    assert_eq!(service.info.get_addresses().len(), 2);
    let mut found = service.record.addresses;
    found.sort();
    assert_eq!(found, vec!["10.0.0.5", "fe80::1"]);
    assert_eq!(service.record.host_name, "i.local.");
    assert_eq!(service.record.full_name, "Edge._home-assistant._tcp.local.");
    assert_eq!(service.record.properties, a.properties);
    assert!(matches!(
        build_service_info(&config("Edge"), &o, "i", &vec![]),
        Err(AnnounceError::NoAddress)
    ));
    assert!(matches!(
        build_service_info(&config(&"x".repeat(300)), &o, "i", &chosen),
        Err(AnnounceError::NoRecord)
    ));
    assert!(matches!(
        build_service_info(&config("Edge"), &o, "i", &vec![address("nowhere", true)]),
        Err(AnnounceError::NoRecord)
    ));
    // 255 bytes are the most that a property takes, with its name.
    let fits = "x".repeat(255 - "location_name=".len());
    assert!(build_service_info(&config(&fits), &o, "i", &chosen).is_ok());
    assert!(build_service_info(&config(&format!("{fits}x")), &o, "i", &chosen).is_err());
}

#[test]
fn services_escape_their_names() {
    let o = OnboardingState::default();
    let chosen = vec![address("10.0.0.5", true)];
    let service = match build_service_info(&config("a.b\\c"), &o, "x.local", &chosen) {
        Ok(s) => s.record,
        Err(e) => panic!("no service: {e:?}"),
    };
    assert_eq!(service.full_name, "a\\.b\\\\c._home-assistant._tcp.local.");
    assert_eq!(service.host_name, "x.local.");
    assert_eq!(service.port, 8124);
}

#[test]
fn excluded_interfaces_are_not_announced() {
    let all = vec![
        address_on("lo", "127.0.0.1", true),
        address_on("usb0", "192.168.7.2", true),
        address_on("wlan0", "10.0.0.5", true),
        address_on("wlan0", "10.0.0.5", true),
    ];
    let excluded: Vec<String> = vec!["usb".into(), "rndis".into(), "ncm".into()];
    let chosen = announce_addresses(&all, &excluded);
    let texts: Vec<&str> = chosen.iter().map(|a| a.text.as_str()).collect();
    assert_eq!(texts, vec!["10.0.0.5"]);
}

#[test]
fn entities_are_listed_by_their_readings() {
    let mut s = HistoryStore::new(10);
    s.record("sensor.a", "1.0".into());
    assert_eq!(s.entity_ids_since(0), vec!["sensor.a"]);
    assert!(s.entity_ids_since(u64::MAX).is_empty());
    s.record_at("sensor.b", "1.0".into(), 5);
    assert_eq!(s.entity_ids_since(6), vec!["sensor.a"]);
    assert_eq!(s.entity_ids_since(5), vec!["sensor.a", "sensor.b"]);
}

#[test]
fn a_history_of_no_capacity_keeps_nothing() {
    let mut s = HistoryStore::new(0);
    s.record("sensor.a", "1.0".into());
    assert!(s.last_n("sensor.a", 10).is_empty());
    assert!(s.entity_ids_since(0).is_empty());
    assert!(s.latest_values().is_empty());
}

#[test]
fn long_names_are_cut_between_characters() {
    assert_eq!(truncate_instance_name("short"), "short");
    let long = "é".repeat(40);
    let cut = truncate_instance_name(&long);
    assert_eq!(cut.len(), 62);
    assert!(long.starts_with(&cut));
}

// Made-up data

#[test]
fn made_up_data_fills_the_stores() {
    let mut core = AppCore::new();
    let mut o = OnboardingState::default();
    let mut areas = AreaRegistryStore::new();
    let ids = seed_home(&mut core, &mut o, &mut areas, 5);
    assert_eq!(core.runtime_mode(), RuntimeMode::WifiOperational);
    assert!(verify_password("demo", &o.user.as_ref().unwrap().password));
    assert_eq!(ids.living_room, "living_room");
    assert_eq!(areas.list().len(), 3);
    let mut devices = MobileDeviceStore::new();
    let mut entities = MobileEntityStore::new();
    let mut states = StateStore::new();
    let mut events: Vec<StateEvent> = vec![];
    let ts = "2024-02-29T00:00:00.000000+00:00".to_string();
    let r = seed_phone(
        &mut devices,
        &mut entities,
        &mut states,
        &mut events,
        &ts,
        &ids.living_room,
    );
    assert!(r.is_ok());
    assert_eq!(entities.all().len(), 4);
    assert!(entities.all().iter().all(|e| e.user_area_id.as_deref() == Some("living_room")));
    assert_eq!(states.get("sensor.nathans_iphone_steps").unwrap().state, "4231");
    let mut zigbee_devices = ZigbeeDeviceStore::new();
    let mut zigbee_entities = ZigbeeEntityStore::new();
    seed_zigbee(
        &mut zigbee_devices,
        &mut zigbee_entities,
        &mut states,
        &mut events,
        &ts,
        &ids,
    );
    assert_eq!(zigbee_devices.list().len(), 3);
    assert_eq!(zigbee_entities.list().len(), 6);
    assert_eq!(states.get("light.tradfri_living_room").unwrap().state, "on");
    assert_eq!(events.len(), 10);
    let mut notifications = NotificationStore::new();
    seed_notifications(&mut notifications);
    assert_eq!(notifications.all().len(), 2);
    let mut log = LogbookStore::new(100);
    seed_logbook(&mut log, 10_000);
    assert_eq!(log.recent_n(1)[0].ts, 9_880);
    assert_eq!(log.recent_n(100).len(), 10);
}

#[test]
fn a_reading_is_noted_now() {
    let mut history = HistoryStore::new(2);
    let ts = history.record("sensor.a", "1.0".into());
    history.record("sensor.a", "2.0".into());
    history.record("sensor.a", "3.0".into());
    let kept = history.last_n("sensor.a", 10);
    assert_eq!(kept.len(), 2);
    assert_eq!((kept[0].value.as_str(), kept[1].value.as_str()), ("2.0", "3.0"));
    assert!(kept[0].ts >= ts && ts > 1_600_000_000);
    assert!(history.last_n("sensor.b", 10).is_empty());
}
