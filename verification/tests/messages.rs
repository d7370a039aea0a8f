//! Webhooks and the WebSocket API.

use std::collections::HashSet;

use home_edge::app_core::AppCore;
use home_edge::area_registry_store::AreaRegistryStore;
use home_edge::config::{
    AppConfig, AreasConfig, HistoryConfig, HomeZoneConfig, MdnsConfig, ServerConfig, StorageConfig,
    UiConfig,
};
use home_edge::ha_auth::TokenStore;
use home_edge::ha_webhook::{
    mqtt_discovery_info, parse_sensor_command, webhook_handle, WebhookStore, ZonesSource,
};
use home_edge::ha_ws::{
    auth_required_msg, compressed_state, current_user, entities_event, handle_auth_phase,
    handle_command_phase, hex_string, md5_hex, state_changed_event, storage_failure,
    CallServiceRequest, Phase, WsAction, WsSource,
};
use home_edge::history_store::HistoryStore;
use home_edge::http::history_limit;
use home_edge::json::{parse, to_array, to_text, Json};
use home_edge::mobile_device_store::{MobileDeviceRecord, MobileDeviceRegistration, MobileDeviceStore};
use home_edge::mobile_entity_store::MobileEntityStore;
use home_edge::service::ServiceRegistry;
use home_edge::state_store::{make_state, StateAttributes, StateEvent, StateStore};
use home_edge::storage::OnboardingState;
use home_edge::web::Reply;
use home_edge::zone_store::ZoneStore;

fn obj(members: Vec<(&str, Json)>) -> Json {
    Json::Object(members.into_iter().map(|(k, v)| (k.to_string(), v)).collect())
}

fn s(t: &str) -> Json {
    Json::str(t)
}

// Webhooks

struct Hooks {
    webhooks: WebhookStore,
    devices: MobileDeviceStore,
    entities: MobileEntityStore,
    states: StateStore,
    events: Vec<StateEvent>,
    readings: Vec<(String, String)>,
    source: Option<ZonesSource>,
}

impl Hooks {
    fn new() -> Hooks {
        Hooks {
            webhooks: WebhookStore::new(),
            devices: MobileDeviceStore::new(),
            entities: MobileEntityStore::new(),
            states: StateStore::new(),
            events: vec![],
            readings: vec![],
            source: None,
        }
    }

    fn device(&mut self) -> MobileDeviceRecord {
        self.devices.register(MobileDeviceRegistration {
            app_id: "io.homeassistant.companion.test".into(),
            app_name: "HA Test".into(),
            app_version: "1.0".into(),
            device_name: "Test Phone".into(),
            manufacturer: "Test".into(),
            model: "Model X".into(),
            os_name: "TestOS".into(),
            os_version: Some("1.0".into()),
            device_id: Some("test-device-001".into()),
            supports_encryption: false,
            owner_username: None,
        })
    }

    fn post(&mut self, id: &str, content_type: Option<&str>, body: Option<Json>) -> (u16, Json) {
        let device = self.devices.get_by_webhook_id(id);
        let text = match &body {
            Some(j) => to_text(j),
            None => "no JSON".to_string(),
        };
        let r = webhook_handle(
            &mut self.webhooks,
            &mut self.entities,
            &mut self.states,
            &mut self.events,
            &mut self.readings,
            id,
            &device,
            content_type,
            text.as_bytes(),
            "Test Home",
            &self.source,
        );
        match r {
            Reply::Json(status, j) => (status, j),
            _ => panic!("no JSON reply"),
        }
    }

    fn json(&mut self, id: &str, body: Json) -> (u16, Json) {
        self.post(id, Some("application/json"), Some(body))
    }

    fn sensor(&mut self, id: &str, members: Vec<(&str, Json)>) -> (u16, Json) {
        self.json(id, obj(vec![("type", s("register_sensor")), ("data", obj(members))]))
    }
}

#[test]
fn post_webhook_unknown_id_returns_200() {
    let mut h = Hooks::new();
    let (status, j) = h.json("unknown-webhook-id", obj(vec![("action", s("call_service"))]));
    assert_eq!(status, 200);
    assert_eq!(to_text(&j), "{}");
    assert!(!h.webhooks.is_registered("unknown-webhook-id"));
}

#[test]
fn get_webhook_returns_200() {
    let mut h = Hooks::new();
    assert_eq!(h.post("some-webhook-id", None, None).0, 200);
}

#[test]
fn put_webhook_returns_200() {
    let mut h = Hooks::new();
    assert_eq!(h.json("some-webhook-id", obj(vec![])).0, 200);
}

#[test]
fn webhook_does_not_require_auth() {
    let mut h = Hooks::new();
    assert_eq!(h.json("any-id", obj(vec![("test", Json::Bool(true))])).0, 200);
}

#[test]
fn webhook_stores_payload_for_registered_id() {
    let mut h = Hooks::new();
    h.webhooks.register("test-hook-123".to_string());
    h.json("test-hook-123", obj(vec![("type", s("fire_event")), ("data", obj(vec![]))]));
    assert_eq!(h.webhooks.received.len(), 1);
    let received = &h.webhooks.received[0];
    assert_eq!(received.webhook_id, "test-hook-123");
    assert_eq!(received.payloads.len(), 1);
    assert_eq!(received.payloads[0].get_str("type"), Some("fire_event"));
}

#[test]
fn a_message_of_a_device_that_is_no_json_is_refused() {
    let mut h = Hooks::new();
    let id = h.device().webhook_id;
    assert_eq!(h.post(&id, Some("application/json; charset=utf-8"), None).0, 400);
    assert_eq!(h.post(&id, Some("text/plain"), None).0, 200);
    assert_eq!(h.webhooks.received[0].payloads.len(), 1);
}

fn mqtt() -> Json {
    match mqtt_discovery_info() {
        Reply::Json(200, j) => j,
        _ => panic!("no JSON reply"),
    }
}

#[test]
fn get_mqtt_discovery_returns_info() {
    let j = mqtt();
    assert_eq!(j.get_str("discovery_prefix"), Some("homeassistant"));
    assert!(j.get("topic_pattern").is_some());
}

#[test]
fn mqtt_discovery_topic_pattern_uses_prefix() {
    let j = mqtt();
    let prefix = j.get_str("discovery_prefix").unwrap();
    assert!(j.get_str("topic_pattern").unwrap().starts_with(prefix));
}

#[test]
fn numeric_sensor_with_state_class_is_recorded_in_history() {
    let mut h = Hooks::new();
    let id = h.device().webhook_id;
    let (status, _) = h.sensor(
        &id,
        vec![
            ("type", s("sensor")),
            ("unique_id", s("battery_level")),
            ("name", s("Battery")),
            ("state", s("85")),
            ("state_class", s("measurement")),
            ("unit_of_measurement", s("%")),
        ],
    );
    assert_eq!(status, 201);
    let item = obj(vec![
        ("type", s("sensor")),
        ("unique_id", s("battery_level")),
        ("state", s("90")),
    ]);
    let (status, j) = h.json(
        &id,
        obj(vec![("type", s("update_sensor_states")), ("data", Json::Array(vec![item]))]),
    );
    assert_eq!(status, 200);
    assert_eq!(to_text(&j), "{\"battery_level\":{\"success\":true}}");
    let entity_id = h.entities.list_by_webhook_id(&id)[0].entity_id.clone();
    assert_eq!(
        h.readings,
        vec![(entity_id.clone(), "85".to_string()), (entity_id.clone(), "90".to_string())]
    );
    assert_eq!(h.states.get(&entity_id).unwrap().state, "90");
    assert_eq!(h.events.len(), 2);
}

#[test]
fn numeric_sensor_with_unit_only_is_recorded_in_history() {
    let mut h = Hooks::new();
    let id = h.device().webhook_id;
    let (status, _) = h.sensor(
        &id,
        vec![
            ("type", s("sensor")),
            ("unique_id", s("temperature")),
            ("name", s("Temperature")),
            ("state", s("21.5")),
            ("unit_of_measurement", s("°C")),
        ],
    );
    assert_eq!(status, 201);
    assert!(!h.readings.is_empty());
}

#[test]
fn non_numeric_sensor_without_state_class_is_not_recorded() {
    let mut h = Hooks::new();
    let id = h.device().webhook_id;
    let (status, _) = h.sensor(
        &id,
        vec![
            ("type", s("sensor")),
            ("unique_id", s("activity")),
            ("name", s("Activity")),
            ("state", s("walking")),
        ],
    );
    assert_eq!(status, 201);
    assert!(h.readings.is_empty());
}

#[test]
fn binary_sensor_is_not_recorded_in_history() {
    let mut h = Hooks::new();
    let id = h.device().webhook_id;
    let (status, _) = h.sensor(
        &id,
        vec![
            ("type", s("binary_sensor")),
            ("unique_id", s("charging")),
            ("name", s("Charging")),
            ("state", s("on")),
        ],
    );
    assert_eq!(status, 201);
    assert!(h.readings.is_empty());
}

#[test]
fn sensor_messages_are_checked() {
    let good = || {
        vec![("type", s("sensor")), ("unique_id", s("u")), ("name", s("N"))]
    };
    assert!(parse_sensor_command(&obj(good()), true).is_some());
    let with = |name: &'static str, value: Json| {
        let mut m = good();
        m.retain(|p| p.0 != name);
        m.push((name, value));
        obj(m)
    };
    assert!(parse_sensor_command(&with("type", s("light")), true).is_none());
    assert!(parse_sensor_command(&with("unique_id", s("")), true).is_none());
    assert!(parse_sensor_command(&with("name", s("")), true).is_none());
    assert!(parse_sensor_command(&with("icon", Json::PosInt(1)), true).is_none());
    assert!(parse_sensor_command(&with("device_class", Json::PosInt(1)), true).is_none());
    let nameless = obj(vec![("type", s("sensor")), ("unique_id", s("u"))]);
    assert!(parse_sensor_command(&nameless, true).is_none());
    assert_eq!(parse_sensor_command(&nameless, false).unwrap().name, "u");
    assert_eq!(
        parse_sensor_command(&nameless, false).unwrap().icon.as_deref(),
        Some("mdi:cellphone")
    );
    let classed = obj(vec![
        ("type", s("binary_sensor")),
        ("unique_id", s("u")),
        ("name", s("N")),
        ("state_class", s("measurement")),
    ]);
    assert!(parse_sensor_command(&classed, true).is_none());
    assert!(parse_sensor_command(&Json::Null, true).is_none());
}

#[test]
fn updates_are_answered_one_by_one() {
    let mut h = Hooks::new();
    let id = h.device().webhook_id;
    h.sensor(
        &id,
        vec![
            ("type", s("binary_sensor")),
            ("unique_id", s("door")),
            ("name", s("Door")),
            ("state", Json::Bool(true)),
            ("disabled", Json::Bool(true)),
        ],
    );
    let door = h.entities.all()[0].entity_id.clone();
    assert_eq!(h.states.get(&door).unwrap().state, "on");
    let item = |unique: &str, state: Json| {
        obj(vec![("type", s("binary_sensor")), ("unique_id", s(unique)), ("state", state)])
    };
    let items = vec![
        item("door", Json::Bool(false)),
        item("window", Json::Bool(true)),
    ];
    let (_, j) = h.json(
        &id,
        obj(vec![("type", s("update_sensor_states")), ("data", Json::Array(items))]),
    );
    assert_eq!(
        to_text(&j),
        "{\"door\":{\"is_disabled\":true,\"success\":true},\"window\":{\"error\":{\"code\":\"not_registered\",\"message\":\"binary_sensor window is not registered\"},\"success\":false}}"
    );
    assert_eq!(h.states.get(&door).unwrap().state, "off");
    let (_, j) = h.json(
        &id,
        obj(vec![
            ("type", s("update_sensor_states")),
            ("data", Json::Array(vec![item("door", Json::Array(vec![Json::PosInt(1)]))])),
        ]),
    );
    assert_eq!(
        j.get("door").unwrap().get("error").unwrap().get_str("message"),
        Some("unsupported sensor state payload: [1]")
    );
    // One item that names no sensor, and nothing is done.
    let (_, j) = h.json(
        &id,
        obj(vec![
            ("type", s("update_sensor_states")),
            ("data", Json::Array(vec![item("door", Json::Bool(true)), Json::Null])),
        ]),
    );
    assert_eq!(to_text(&j), "{}");
    assert_eq!(h.states.get(&door).unwrap().state, "off");
}

#[test]
fn edge_history_endpoint_returns_readings_for_numeric_sensor() {
    let mut h = Hooks::new();
    let id = h.device().webhook_id;
    let data = obj(vec![
        ("type", s("sensor")),
        ("unique_id", s("steps")),
        ("name", s("Steps")),
        ("state", s("1000")),
        ("state_class", s("total_increasing")),
        ("unit_of_measurement", s("steps")),
    ]);
    let register = obj(vec![("type", s("register_sensor")), ("data", data)]);
    assert_eq!(h.json(&id, register).0, 201);
    let item =
        obj(vec![("type", s("sensor")), ("unique_id", s("steps")), ("state", s("1500"))]);
    let update =
        obj(vec![("type", s("update_sensor_states")), ("data", Json::Array(vec![item]))]);
    assert_eq!(h.json(&id, update).0, 200);
    let entities = h.entities.list_by_webhook_id(&id);
    let entity = entities
        .iter()
        .find(|e| e.sensor_unique_id == "steps")
        .expect("registered sensor should appear in entity store");
    let mut history = HistoryStore::new(50);
    for (entity_id, text) in &h.readings {
        if let Ok(v) = text.parse::<f64>() {
            history.record(entity_id, format!("{v:?}"));
        }
    }
    let entries = to_array(&history.last_n(&entity.entity_id, history_limit(None)));
    let entries = match entries {
        Json::Array(v) => v,
        _ => panic!("response must be a JSON array"),
    };
    assert!(!entries.is_empty(), "history array must be non-empty for numeric sensor");
    assert!(entries[0].get("ts").is_some(), "entry must have 'ts' field");
    assert!(entries[0].get("value").is_some(), "entry must have 'value' field");
    let values: Vec<String> =
        entries.iter().map(|e| to_text(e.get("value").unwrap())).collect();
    assert_eq!(values, vec!["1000.0", "1500.0"]);
}

#[test]
fn a_device_is_told_of_zones_and_of_the_configuration() {
    let mut h = Hooks::new();
    let id = h.device().webhook_id;
    let (_, j) = h.json(&id, obj(vec![("type", s("get_zones"))]));
    assert_eq!(to_text(&j), "[]");
    let mut zones = ZoneStore::new();
    let _ = zones.create("Work".into(), Some("1.0".into()), Some("2.0".into()), None, None, None);
    let _ = zones.create("Draft".into(), None, None, None, None, None);
    h.source = Some(ZonesSource { onboarding: OnboardingState::default(), zones: zones.list() });
    let (_, j) = h.json(&id, obj(vec![("type", s("get_zones"))]));
    let ids: Vec<String> = match j {
        Json::Array(v) => v.iter().map(|z| z.get_str("entity_id").unwrap().to_string()).collect(),
        _ => panic!("no array"),
    };
    assert_eq!(ids, vec!["zone.home", "zone.work"]);
    let (_, j) = h.json(&id, obj(vec![("type", s("get_config"))]));
    assert_eq!(j.get_str("webhook_id"), Some(id.as_str()));
    assert_eq!(j.get_str("location_name"), Some("Test Home"));
    assert_eq!(h.json(&id, obj(vec![("type", s("update_location"))])).0, 200);
}

// The WebSocket API

struct Socket {
    source: WsSource,
    tokens: TokenStore,
    phase: Phase,
    states: StateStore,
    events: Vec<StateEvent>,
    areas: AreaRegistryStore,
    zones: ZoneStore,
    subscriptions: HashSet<u64>,
}

impl Socket {
    fn new() -> Socket {
        Socket {
            source: WsSource {
                core: AppCore::new(),
                config: AppConfig {
                    server: ServerConfig {
                        host: "127.0.0.1".into(),
                        port: 0,
                        log_level: "INFO".into(),
                    },
                    storage: StorageConfig { data_dir: "/nowhere".into() },
                    ui: UiConfig { product_name: "Test Home".into() },
                    areas: AreasConfig::default(),
                    history: HistoryConfig::default(),
                    home_zone: HomeZoneConfig::default(),
                    mdns: MdnsConfig::default(),
                },
                services: ServiceRegistry::new(),
                devices: Some(vec![]),
                entities: Some(vec![]),
                user: None,
                areas_loaded: true,
                zones_loaded: true,
            },
            tokens: TokenStore::new(),
            phase: Phase::Auth,
            states: StateStore::new(),
            events: vec![],
            areas: AreaRegistryStore::new(),
            zones: ZoneStore::new(),
            subscriptions: HashSet::new(),
        }
    }

    fn access_token(&mut self) -> String {
        let code = self.tokens.issue_auth_code("client");
        self.tokens.exchange_code("client", &code).expect("tokens").0
    }

    fn auth(&mut self, message: Option<Json>) -> Json {
        let text = match &message {
            Some(j) => to_text(j),
            None => "no JSON".to_string(),
        };
        let (reply, phase) = handle_auth_phase(&text, &self.tokens);
        self.phase = phase;
        reply
    }

    fn act(&mut self, id: u64, kind: &str, extra: Vec<(&str, Json)>) -> (Json, WsAction) {
        let mut members = vec![("id", Json::PosInt(id)), ("type", s(kind))];
        members.extend(extra);
        self.send(obj(members), Err("no call".into())).expect("reply")
    }

    fn send(
        &mut self,
        message: Json,
        call: Result<CallServiceRequest, String>,
    ) -> Option<(Json, WsAction)> {
        handle_command_phase(
            &to_text(&message),
            call,
            &self.source,
            &mut self.states,
            &mut self.events,
            &mut self.areas,
            &mut self.zones,
            &mut self.subscriptions,
        )
    }

    fn command(&mut self, id: u64, kind: &str, extra: Vec<(&str, Json)>) -> Json {
        self.act(id, kind, extra).0
    }
}

fn error_code(j: &Json) -> &str {
    j.get("error").expect("error").get_str("code").expect("code")
}

#[test]
fn ws_connect_receives_auth_required_with_version() {
    let msg = auth_required_msg();
    assert_eq!(msg.get_str("type"), Some("auth_required"));
    assert!(msg.get("ha_version").is_some());
}

#[test]
fn ws_auth_handshake_valid_token() {
    let mut ws = Socket::new();
    let token = ws.access_token();
    let msg = ws.auth(Some(obj(vec![("type", s("auth")), ("access_token", s(&token))])));
    assert_eq!(msg.get_str("type"), Some("auth_ok"));
    assert!(msg.get("ha_version").is_some(), "auth_ok must include ha_version");
    assert_eq!(ws.phase, Phase::Active);
}

#[test]
fn ws_auth_invalid_token_receives_auth_invalid() {
    let mut ws = Socket::new();
    let msg =
        ws.auth(Some(obj(vec![("type", s("auth")), ("access_token", s("totally-fake-token"))])));
    assert_eq!(msg.get_str("type"), Some("auth_invalid"));
    assert!(msg.get("message").is_some());
    assert_eq!(ws.phase, Phase::Auth);
}

#[test]
fn bad_auth_messages_are_told_apart() {
    let mut ws = Socket::new();
    let text = |j: Json| j.get_str("message").unwrap().to_string();
    assert!(text(ws.auth(None)).ends_with("expected JSON"));
    assert!(text(ws.auth(Some(obj(vec![])))).ends_with("expected type auth"));
    assert_eq!(
        text(ws.auth(Some(obj(vec![("type", s("auth")), ("access_token", Json::PosInt(1))])))),
        "Auth message incorrectly formatted"
    );
    assert_eq!(
        text(ws.auth(Some(obj(vec![("type", s("auth"))])))),
        "Invalid access token or password"
    );
}

#[test]
fn ws_ping_returns_pong_result() {
    let mut ws = Socket::new();
    assert_eq!(to_text(&ws.command(1, "ping", vec![])), "{\"id\":1,\"type\":\"pong\"}");
}

#[test]
fn ws_get_states_returns_array() {
    let mut ws = Socket::new();
    let resp = ws.command(2, "get_states", vec![]);
    assert_eq!(to_text(resp.get("id").unwrap()), "2");
    assert_eq!(resp.get_str("type"), Some("result"));
    assert_eq!(resp.get("success").unwrap().as_bool(), Some(true));
    assert!(matches!(resp.get("result"), Some(Json::Array(_))));
}

#[test]
fn ws_get_config_returns_config() {
    let mut ws = Socket::new();
    let resp = ws.command(3, "get_config", vec![]);
    assert_eq!(to_text(resp.get("id").unwrap()), "3");
    assert_eq!(resp.get("success").unwrap().as_bool(), Some(true));
    let result = resp.get("result").unwrap();
    assert!(result.get("version").is_some());
    assert!(result.get("location_name").is_some());
}

#[test]
fn ws_unknown_command_returns_error() {
    let mut ws = Socket::new();
    let resp = ws.command(99, "render_template", vec![]);
    assert_eq!(to_text(resp.get("id").unwrap()), "99");
    assert_eq!(resp.get("success").unwrap().as_bool(), Some(false));
    assert_eq!(error_code(&resp), "unknown_command");
}

#[test]
fn ws_result_message_has_required_fields() {
    let mut ws = Socket::new();
    let resp = ws.command(5, "ping", vec![]);
    assert_eq!(to_text(resp.get("id").unwrap()), "5");
    assert_eq!(resp.get_str("type"), Some("pong"));
}

#[test]
fn messages_that_are_no_commands_are_not_answered() {
    let mut ws = Socket::new();
    assert!(ws.send(obj(vec![("type", s("ping"))]), Err("".into())).is_none());
    assert!(ws.send(obj(vec![("id", Json::PosInt(1))]), Err("".into())).is_none());
    assert!(ws.send(Json::Null, Err("".into())).is_none());
}

#[test]
fn services_are_called_over_the_socket() {
    let mut ws = Socket::new();
    let call = |service: &str| CallServiceRequest {
        domain: "light".into(),
        service: service.into(),
        service_data: vec![("brightness".into(), Json::PosInt(10))],
        target: Some(obj(vec![("entity_id", s("light.a"))])),
        return_response: false,
    };
    let message = || obj(vec![("id", Json::PosInt(7)), ("type", s("call_service"))]);
    let (resp, _) = ws.send(message(), Ok(call("turn_on"))).unwrap();
    assert_eq!(resp.get("success").unwrap().as_bool(), Some(true));
    assert!(resp.get("result").unwrap().get("context").is_some());
    assert_eq!(ws.states.get("light.a").unwrap().state, "on");
    let (resp, _) = ws.send(message(), Ok(call("dance"))).unwrap();
    assert_eq!(error_code(&resp), "not_found");
    let (resp, _) = ws.send(message(), Err("missing field `domain`".into())).unwrap();
    assert_eq!(
        resp.get("error").unwrap().get_str("message"),
        Some("Invalid call_service payload: missing field `domain`")
    );
    let services = ws.command(8, "get_services", vec![]);
    let light = services.get("result").unwrap().get("light").unwrap();
    assert!(light.get("turn_on").unwrap().get("fields").is_some());
}

#[test]
fn subscriptions_begin_and_end() {
    let mut ws = Socket::new();
    let (_, action) = ws.act(4, "subscribe_events", vec![("event_type", s("state_changed"))]);
    match action {
        WsAction::SubscribeEvents(filter) => assert_eq!(filter.as_deref(), Some("state_changed")),
        _ => panic!("no subscription"),
    }
    let (_, action) = ws.act(5, "subscribe_entities", vec![]);
    assert!(matches!(action, WsAction::SubscribeEntities));
    assert_eq!(ws.subscriptions.len(), 2);
    let (_, action) =
        ws.act(6, "unsubscribe_events", vec![("subscription", Json::PosInt(4))]);
    assert!(matches!(action, WsAction::Unsubscribe(4)));
    let resp = ws.command(7, "unsubscribe_events", vec![("subscription", Json::PosInt(4))]);
    assert_eq!(error_code(&resp), "not_found");
    let resp = ws.command(8, "unsubscribe_events", vec![]);
    assert_eq!(error_code(&resp), "invalid_format");
    assert_eq!(ws.subscriptions.len(), 1);
}

#[test]
fn areas_are_managed_over_the_socket() {
    let mut ws = Socket::new();
    assert_eq!(error_code(&ws.command(1, "config/area_registry/create", vec![])), "invalid_format");
    let (resp, action) =
        ws.act(2, "config/area_registry/create", vec![("name", s("Living Room"))]);
    assert!(matches!(action, WsAction::SaveAreas));
    assert_eq!(resp.get("result").unwrap().get_str("area_id"), Some("living_room"));
    let resp = ws.command(
        3,
        "config/area_registry/update",
        vec![("area_id", s("living_room")), ("icon", s("mdi:sofa")), ("floor_id", Json::Null)],
    );
    assert_eq!(resp.get("result").unwrap().get_str("icon"), Some("mdi:sofa"));
    let resp = ws.command(4, "config/area_registry/list", vec![]);
    assert!(to_text(&resp).contains("mdi:sofa"));
    let gone = |ws: &mut Socket| {
        ws.command(5, "config/area_registry/delete", vec![("area_id", s("living_room"))])
    };
    assert_eq!(gone(&mut ws).get("success").unwrap().as_bool(), Some(true));
    assert_eq!(error_code(&gone(&mut ws)), "not_found");
    ws.source.areas_loaded = false;
    assert_eq!(error_code(&ws.command(6, "config/area_registry/create", vec![])), "invalid_format");
    let resp = ws.command(7, "config/area_registry/create", vec![("name", s("X"))]);
    assert_eq!(to_text(&resp), to_text(&storage_failure(7, "config/area_registry/create")));
}

#[test]
fn zones_are_managed_over_the_socket() {
    let mut ws = Socket::new();
    let resp = ws.command(
        1,
        "zone/create",
        vec![("name", s("Work")), ("latitude", Json::PosInt(51)), ("longitude", Json::Float("-0.1".into()))],
    );
    let zone = resp.get("result").unwrap();
    assert_eq!(zone.get_str("id"), Some("work"));
    assert_eq!(to_text(zone.get("latitude").unwrap()), "51.0");
    assert_eq!(to_text(zone.get("radius").unwrap()), "100.0");
    let resp = ws.command(
        2,
        "zone/update",
        vec![("zone_id", s("work")), ("longitude", Json::Null), ("passive", Json::Bool(true))],
    );
    let zone = resp.get("result").unwrap();
    assert_eq!(to_text(zone.get("longitude").unwrap()), "null");
    assert_eq!(zone.get("passive").unwrap().as_bool(), Some(true));
    let home = vec![("zone_id", s("home"))];
    assert_eq!(error_code(&ws.command(3, "zone/update", home)), "not_allowed");
    let home = vec![("zone_id", s("home"))];
    assert_eq!(error_code(&ws.command(4, "zone/delete", home)), "not_allowed");
    assert_eq!(error_code(&ws.command(5, "zone/delete", vec![])), "invalid_format");
    assert_eq!(error_code(&ws.command(6, "zone/create", vec![("name", s("!!!"))])), "internal_error");
    let resp = ws.command(7, "zone/list", vec![]);
    assert!(matches!(resp.get("result").unwrap().get("items"), Some(Json::Array(v)) if v.len() == 1));
    let resp = ws.command(8, "zone/delete", vec![("zone_id", s("work"))]);
    assert_eq!(resp.get("success").unwrap().as_bool(), Some(true));
}

#[test]
fn the_registries_show_devices_and_entities() {
    let mut ws = Socket::new();
    let mut h = Hooks::new();
    let device = h.device();
    h.sensor(
        &device.webhook_id,
        vec![("type", s("sensor")), ("unique_id", s("u")), ("name", s("N")), ("state", s("1"))],
    );
    ws.source.devices = Some(h.devices.all());
    ws.source.entities = Some(h.entities.all());
    let resp = ws.command(1, "config/device_registry/list", vec![]);
    assert!(to_text(&resp).contains("Test Phone"));
    let resp = ws.command(2, "config/entity_registry/list", vec![]);
    assert!(to_text(&resp).contains("\"device_id\":\"test-device-001\""));
    let resp = ws.command(3, "config/entity_registry/list_for_display", vec![]);
    assert!(to_text(&resp).contains("\"di\":\"test-device-001\""));
    ws.source.entities = None;
    let resp = ws.command(4, "config/entity_registry/list", vec![]);
    assert_eq!(error_code(&resp), "internal_error");
    for kind in ["get_panels", "frontend/get_themes", "frontend/get_user_data", "lovelace/config"] {
        assert_eq!(ws.command(5, kind, vec![]).get("success").unwrap().as_bool(), Some(true));
    }
}

#[test]
fn a_user_has_a_stable_id() {
    assert_eq!(hex_string(md5_hex(b"")), "6c62272e07bb014262b821756295c58d");
    assert_eq!(hex_string(md5_hex(b"a")), "d228cb696f1a8caf78912b704e4a8964");
    assert_eq!(hex_string(255), "ff");
    assert_eq!(current_user(&None).get_str("name"), Some("Admin"));
}

#[test]
fn subscribers_are_told_of_changes() {
    let mut states = StateStore::new();
    let mut events: Vec<StateEvent> = vec![];
    states.offer(make_state("light.a", "on", StateAttributes::empty()), &mut events);
    let small = compressed_state(&events[0].state, &"1.5".to_string(), &"2.5".to_string());
    assert_eq!(to_text(&small), "{\"a\":{},\"lc\":1.5,\"lu\":2.5,\"s\":\"on\"}");
    let event = entities_event(3, vec![("light.a".to_string(), small)]);
    assert_eq!(
        to_text(&event),
        "{\"event\":{\"a\":{\"light.a\":{\"a\":{},\"lc\":1.5,\"lu\":2.5,\"s\":\"on\"}},\"c\":{},\"r\":[]},\"id\":3,\"type\":\"event\"}"
    );
    assert!(state_changed_event(3, &Some("other".into()), &events[0], "now").is_none());
    let told = state_changed_event(3, &None, &events[0], "now").unwrap();
    let data = told.get("event").unwrap().get("data").unwrap();
    assert_eq!(data.get("new_state").unwrap().get_str("state"), Some("on"));
    assert_eq!(to_text(data.get("old_state").unwrap()), "null");
}

#[test]
fn messages_are_read_as_json() {
    let read = parse(b"{\"b\": [1, -2, 1.50, true, null], \"a\": \"x\\u00e9\"}").expect("JSON");
    assert_eq!(to_text(&read), "{\"a\":\"xé\",\"b\":[1,-2,1.5,true,null]}");
    assert_eq!(read.get_str("a"), Some("xé"));
    assert!(parse(b"{").is_none());
    assert!(parse(b"").is_none());
    let tokens = TokenStore::new();
    let (reply, phase) = handle_auth_phase("hello", &tokens);
    assert_eq!(phase, Phase::Auth);
    assert_eq!(
        reply.get_str("message"),
        Some("Auth message incorrectly formatted: expected JSON")
    );
}
