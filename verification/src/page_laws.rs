//! What pages show and what forms ask for: laws over views, cards and requests.

use vstd::prelude::*;
use vstd::string::*;

use crate::app_core::OnboardingProgress;
use crate::area_registry_store::AreaModel;
use crate::entity_view::{AreaCard, EntityView};
use crate::ha_auth::TokenModel;
use crate::http::{
    account_asked, are_cards, are_groups, area_name_of, assigned, bearer_fault, bearer_of,
    class_icon, device_entities, device_summary_json, devices_with_entities, enabled,
    entity_state_json, form_update, incomplete, is_ui_call, known_icon, lists_all, more_info_of,
    named_cards, rename_result, shows, shows_all, state_icon, steps_json, tap_service,
    ui_call_result, ui_data, with_value, DeviceEntityGroup, EntityEditForm, ListedEntity,
    OnboardingUserRequest, UiServiceForm,
};
use crate::json;
use crate::json::{Json, JsonView, Members, ToJson};
use crate::keyed;
use crate::mobile_device_store::MobileDeviceRecord;
use crate::mobile_entity_store::{EntityMetaUpdate, MobileEntityRecord};
use crate::order;
use crate::service;
use crate::service::{ServiceCall, ServiceError, ServiceOutcome};
use crate::service_laws::is_whole;
use crate::state_store::{StateRun, StateView};
use crate::text;
use crate::value_laws::{lemma_more, lemma_with};
use crate::web;
use crate::web::ReplyView;
use crate::zigbee_entity_store::ZigbeeEntityModel;
use crate::zigbee_integration::{hs_attr, icon_of, rgb_attr, rgb_text};

verus! {

/// Whether a level that is shown is the one that an attribute gives, cut off at the most there can
/// be.
pub open spec fn is_level(attribute: Option<JsonView>, most: int, shown: Option<u8>) -> bool {
    match attribute {
        Some(JsonView::PosInt(n)) => shown is Some && shown->0 == if n <= most {
            n as int
        } else {
            most
        },
        _ => shown is None,
    }
}

/// What a page shows of an entity of a device that has a state: the value of the state, the name
/// that the user has given or else that of the sensor, and what the attributes give. Without a state
/// it shows that the entity is unavailable.
pub proof fn law_entity_shown(
    v: EntityView,
    e: MobileEntityRecord,
    states: Map<Seq<char>, StateView>,
)
    requires
        shows(v, e, states),
    ensures
        v.entity_id@ == e.entity_id@,
        v.webhook_id.deep_view() == Some(e.webhook_id@),
        v.entity_type@ == e.entity_type@,
        v.display_name@ == if e.name_by_user is Some {
            e.name_by_user->0@
        } else {
            e.sensor_name@
        },
        v.disabled == e.disabled,
        e.unit_of_measurement is Some ==> v.unit@ == e.unit_of_measurement->0@,
        e.unit_of_measurement is None ==> v.unit@.len() == 0,
        e.device_class is Some ==> v.device_class@ == e.device_class->0@,
        e.device_class is None ==> v.device_class@.len() == 0,
        e.user_area_id is Some ==> v.user_area_id@ == e.user_area_id->0@,
        e.user_area_id is None ==> v.user_area_id@.len() == 0,
        v.is_unavailable <==> v.value@ == "unavailable"@ || v.value@ == "unknown"@,
        states.contains_key(e.entity_id@) ==> {
            let s = states[e.entity_id@];
            &&& v.value@ == s.state
            &&& is_level(json::member(s.attributes, "brightness"@), 255, v.brightness)
            &&& is_level(json::member(s.attributes, "current_position"@), 100, v.current_position)
            &&& is_level(json::member(s.attributes, "percentage"@), 100, v.fan_percentage)
            &&& match json::member(s.attributes, "color_temp_kelvin"@) {
                Some(JsonView::PosInt(n)) => n < 65536 ==> v.color_temp_kelvin == Some(n as u16),
                _ => v.color_temp_kelvin is None,
            }
            &&& match json::member(s.attributes, "min_color_temp_kelvin"@) {
                Some(JsonView::PosInt(n)) => n < 65536 ==> v.min_color_temp_kelvin == n,
                _ => v.min_color_temp_kelvin == 2000,
            }
            &&& match json::member(s.attributes, "max_color_temp_kelvin"@) {
                Some(JsonView::PosInt(n)) => n < 65536 ==> v.max_color_temp_kelvin == n,
                _ => v.max_color_temp_kelvin == 6535,
            }
            &&& is_number_shown(
                json::member(s.attributes, "current_temperature"@),
                v.current_temperature,
            )
            &&& is_number_shown(json::member(s.attributes, "temperature"@), v.target_temperature)
        },
        !states.contains_key(e.entity_id@) ==> {
            &&& v.value@ == "unavailable"@
            &&& v.brightness is None && v.color_temp_kelvin is None && v.current_position is None
                && v.fan_percentage is None && v.current_temperature is None
                && v.target_temperature is None
        },
{
}

/// Whether a number that is shown is the one that an attribute gives.
pub open spec fn is_number_shown(attribute: Option<JsonView>, shown: Option<Json>) -> bool {
    match attribute {
        Some(JsonView::PosInt(n)) => shown is Some && shown->0@ == JsonView::PosInt(n),
        Some(JsonView::NegInt(n)) => shown is Some && shown->0@ == JsonView::NegInt(n),
        Some(JsonView::Float(t)) => shown is Some && shown->0@ == JsonView::Float(t),
        _ => shown is None,
    }
}

proof fn lemma_types()
    ensures
        "light"@.len() == 5 && "light"@[0] == 'l' && "light"@[1] == 'i' && "light"@[2] == 'g',
        "switch"@.len() == 6 && "switch"@[0] == 's' && "switch"@[1] == 'w' && "switch"@[2] == 'i',
        "cover"@.len() == 5 && "cover"@[0] == 'c' && "cover"@[1] == 'o' && "cover"@[2] == 'v',
        "lock"@.len() == 4 && "lock"@[0] == 'l' && "lock"@[1] == 'o' && "lock"@[2] == 'c',
        "fan"@.len() == 3 && "fan"@[0] == 'f' && "fan"@[1] == 'a' && "fan"@[2] == 'n',
        "button"@.len() == 6 && "button"@[0] == 'b' && "button"@[1] == 'u' && "button"@[2] == 't',
        "scene"@.len() == 5 && "scene"@[0] == 's' && "scene"@[1] == 'c' && "scene"@[2] == 'e',
        "script"@.len() == 6 && "script"@[0] == 's' && "script"@[1] == 'c' && "script"@[2] == 'r',
        "select"@.len() == 6 && "select"@[0] == 's' && "select"@[1] == 'e' && "select"@[2] == 'l',
        "climate"@.len() == 7 && "climate"@[0] == 'c' && "climate"@[1] == 'l' && "climate"@[2] == 'i',
        "sensor"@.len() == 6 && "sensor"@[0] == 's' && "sensor"@[1] == 'e' && "sensor"@[2] == 'n',
        "binary_sensor"@.len() == 13 && "binary_sensor"@[0] == 'b' && "binary_sensor"@[1] == 'i' && "binary_sensor"@[2] == 'n',
{
    reveal_strlit("light");
    reveal_strlit("switch");
    reveal_strlit("cover");
    reveal_strlit("lock");
    reveal_strlit("fan");
    reveal_strlit("button");
    reveal_strlit("scene");
    reveal_strlit("script");
    reveal_strlit("select");
    reveal_strlit("climate");
    reveal_strlit("sensor");
    reveal_strlit("binary_sensor");
}

proof fn lemma_classes()
    ensures
        "battery"@.len() == 7 && "battery"@[0] == 'b' && "battery"@[1] == 'a' && "battery"@[2] == 't',
        "temperature"@.len() == 11 && "temperature"@[0] == 't' && "temperature"@[1] == 'e' && "temperature"@[2] == 'm',
        "humidity"@.len() == 8 && "humidity"@[0] == 'h' && "humidity"@[1] == 'u' && "humidity"@[2] == 'm',
        "moisture"@.len() == 8 && "moisture"@[0] == 'm' && "moisture"@[1] == 'o' && "moisture"@[2] == 'i',
        "power"@.len() == 5 && "power"@[0] == 'p' && "power"@[1] == 'o' && "power"@[2] == 'w',
        "energy"@.len() == 6 && "energy"@[0] == 'e' && "energy"@[1] == 'n' && "energy"@[2] == 'e',
        "current"@.len() == 7 && "current"@[0] == 'c' && "current"@[1] == 'u' && "current"@[2] == 'r',
        "voltage"@.len() == 7 && "voltage"@[0] == 'v' && "voltage"@[1] == 'o' && "voltage"@[2] == 'l',
{
    reveal_strlit("battery");
    reveal_strlit("temperature");
    reveal_strlit("humidity");
    reveal_strlit("moisture");
    reveal_strlit("power");
    reveal_strlit("energy");
    reveal_strlit("current");
    reveal_strlit("voltage");
}

proof fn lemma_icon_keys()
    ensures
        "battery"@.len() == 7 && "battery"@[0] == 'b' && "battery"@[1] == 'a' && "battery"@[2] == 't',
        "battery-high"@.len() == 12 && "battery-high"@[0] == 'b' && "battery-high"@[1] == 'a' && "battery-high"@[2] == 't',
        "battery-medium"@.len() == 14 && "battery-medium"@[0] == 'b' && "battery-medium"@[1] == 'a' && "battery-medium"@[2] == 't',
        "battery-low"@.len() == 11 && "battery-low"@[0] == 'b' && "battery-low"@[1] == 'a' && "battery-low"@[2] == 't',
        "battery-charging"@.len() == 16 && "battery-charging"@[0] == 'b' && "battery-charging"@[1] == 'a' && "battery-charging"@[2] == 't',
        "thermometer"@.len() == 11 && "thermometer"@[0] == 't' && "thermometer"@[1] == 'h' && "thermometer"@[2] == 'e',
        "temperature-celsius"@.len() == 19 && "temperature-celsius"@[0] == 't' && "temperature-celsius"@[1] == 'e' && "temperature-celsius"@[2] == 'm',
        "temperature-fahrenheit"@.len() == 22 && "temperature-fahrenheit"@[0] == 't' && "temperature-fahrenheit"@[1] == 'e' && "temperature-fahrenheit"@[2] == 'm',
        "water"@.len() == 5 && "water"@[0] == 'w' && "water"@[1] == 'a' && "water"@[2] == 't',
        "water-percent"@.len() == 13 && "water-percent"@[0] == 'w' && "water-percent"@[1] == 'a' && "water-percent"@[2] == 't',
        "water-drop"@.len() == 10 && "water-drop"@[0] == 'w' && "water-drop"@[1] == 'a' && "water-drop"@[2] == 't',
        "flash"@.len() == 5 && "flash"@[0] == 'f' && "flash"@[1] == 'l' && "flash"@[2] == 'a',
        "lightning-bolt"@.len() == 14 && "lightning-bolt"@[0] == 'l' && "lightning-bolt"@[1] == 'i' && "lightning-bolt"@[2] == 'g',
        "power"@.len() == 5 && "power"@[0] == 'p' && "power"@[1] == 'o' && "power"@[2] == 'w',
        "power-plug"@.len() == 10 && "power-plug"@[0] == 'p' && "power-plug"@[1] == 'o' && "power-plug"@[2] == 'w',
        "toggle-switch"@.len() == 13 && "toggle-switch"@[0] == 't' && "toggle-switch"@[1] == 'o' && "toggle-switch"@[2] == 'g',
        "toggle-switch-off"@.len() == 17 && "toggle-switch-off"@[0] == 't' && "toggle-switch-off"@[1] == 'o' && "toggle-switch-off"@[2] == 'g',
        "bluetooth"@.len() == 9 && "bluetooth"@[0] == 'b' && "bluetooth"@[1] == 'l' && "bluetooth"@[2] == 'u',
{
    reveal_strlit("battery");
    reveal_strlit("battery-high");
    reveal_strlit("battery-medium");
    reveal_strlit("battery-low");
    reveal_strlit("battery-charging");
    reveal_strlit("thermometer");
    reveal_strlit("temperature-celsius");
    reveal_strlit("temperature-fahrenheit");
    reveal_strlit("water");
    reveal_strlit("water-percent");
    reveal_strlit("water-drop");
    reveal_strlit("flash");
    reveal_strlit("lightning-bolt");
    reveal_strlit("power");
    reveal_strlit("power-plug");
    reveal_strlit("toggle-switch");
    reveal_strlit("toggle-switch-off");
    reveal_strlit("bluetooth");
}

proof fn lemma_watched()
    ensures
        "motion"@.len() == 6 && "motion"@[0] == 'm' && "motion"@[1] == 'o' && "motion"@[2] == 't',
        "occupancy"@.len() == 9 && "occupancy"@[0] == 'o' && "occupancy"@[1] == 'c' && "occupancy"@[2] == 'c',
        "door"@.len() == 4 && "door"@[0] == 'd' && "door"@[1] == 'o' && "door"@[2] == 'o',
        "opening"@.len() == 7 && "opening"@[0] == 'o' && "opening"@[1] == 'p' && "opening"@[2] == 'e',
        "window"@.len() == 6 && "window"@[0] == 'w' && "window"@[1] == 'i' && "window"@[2] == 'n',
        "smoke"@.len() == 5 && "smoke"@[0] == 's' && "smoke"@[1] == 'm' && "smoke"@[2] == 'o',
        "moisture"@.len() == 8 && "moisture"@[0] == 'm' && "moisture"@[1] == 'o' && "moisture"@[2] == 'i',
        "carbon_monoxide"@.len() == 15 && "carbon_monoxide"@[0] == 'c' && "carbon_monoxide"@[1] == 'a' && "carbon_monoxide"@[2] == 'r',
        "vibration"@.len() == 9 && "vibration"@[0] == 'v' && "vibration"@[1] == 'i' && "vibration"@[2] == 'b',
        "tamper"@.len() == 6 && "tamper"@[0] == 't' && "tamper"@[1] == 'a' && "tamper"@[2] == 'm',
        "battery"@.len() == 7 && "battery"@[0] == 'b' && "battery"@[1] == 'a' && "battery"@[2] == 't',
        "safety"@.len() == 6 && "safety"@[0] == 's' && "safety"@[1] == 'a' && "safety"@[2] == 'f',
        "temperature"@.len() == 11 && "temperature"@[0] == 't' && "temperature"@[1] == 'e' && "temperature"@[2] == 'm',
        "humidity"@.len() == 8 && "humidity"@[0] == 'h' && "humidity"@[1] == 'u' && "humidity"@[2] == 'm',
        "illuminance"@.len() == 11 && "illuminance"@[0] == 'i' && "illuminance"@[1] == 'l' && "illuminance"@[2] == 'l',
        "voltage"@.len() == 7 && "voltage"@[0] == 'v' && "voltage"@[1] == 'o' && "voltage"@[2] == 'l',
        "energy"@.len() == 6 && "energy"@[0] == 'e' && "energy"@[1] == 'n' && "energy"@[2] == 'e',
        "power"@.len() == 5 && "power"@[0] == 'p' && "power"@[1] == 'o' && "power"@[2] == 'w',
        "current"@.len() == 7 && "current"@[0] == 'c' && "current"@[1] == 'u' && "current"@[2] == 'r',
{
    reveal_strlit("motion");
    reveal_strlit("occupancy");
    reveal_strlit("door");
    reveal_strlit("opening");
    reveal_strlit("window");
    reveal_strlit("smoke");
    reveal_strlit("moisture");
    reveal_strlit("carbon_monoxide");
    reveal_strlit("vibration");
    reveal_strlit("tamper");
    reveal_strlit("battery");
    reveal_strlit("safety");
    reveal_strlit("temperature");
    reveal_strlit("humidity");
    reveal_strlit("illuminance");
    reveal_strlit("voltage");
    reveal_strlit("energy");
    reveal_strlit("power");
    reveal_strlit("current");
}

/// The icons that a device may ask for are drawn by what they stand for.
pub proof fn law_known_icons(key: Seq<char>)
    ensures
        key == "battery"@ ==> known_icon(key) == Some("battery"@),
        key == "battery-high"@ ==> known_icon(key) == Some("battery"@),
        key == "battery-medium"@ ==> known_icon(key) == Some("battery"@),
        key == "battery-low"@ ==> known_icon(key) == Some("battery"@),
        key == "battery-charging"@ ==> known_icon(key) == Some("battery"@),
        key == "thermometer"@ ==> known_icon(key) == Some("thermometer"@),
        key == "temperature-celsius"@ ==> known_icon(key) == Some("thermometer"@),
        key == "temperature-fahrenheit"@ ==> known_icon(key) == Some("thermometer"@),
        key == "water"@ ==> known_icon(key) == Some("water"@),
        key == "water-percent"@ ==> known_icon(key) == Some("water"@),
        key == "water-drop"@ ==> known_icon(key) == Some("water"@),
        key == "flash"@ ==> known_icon(key) == Some("lightning"@),
        key == "lightning-bolt"@ ==> known_icon(key) == Some("lightning"@),
        key == "power"@ ==> known_icon(key) == Some("lightning"@),
        key == "power-plug"@ ==> known_icon(key) == Some("lightning"@),
        key == "toggle-switch"@ ==> known_icon(key) == Some("toggle"@),
        key == "toggle-switch-off"@ ==> known_icon(key) == Some("toggle"@),
        key == "bluetooth"@ ==> known_icon(key) == Some("bluetooth"@),
{
    lemma_icon_keys();
}

/// A sensor without an icon of its own is drawn by what it measures; else a binary sensor is drawn
/// as a toggle, and any other as a sensor.
pub proof fn law_class_icons(class: Seq<char>, kind: Seq<char>)
    ensures
        class == "battery"@ ==> class_icon(Some(class), kind) == "battery"@,
        class == "temperature"@ ==> class_icon(Some(class), kind) == "thermometer"@,
        class == "humidity"@ || class == "moisture"@ ==> class_icon(Some(class), kind) == "water"@,
        class == "power"@ || class == "energy"@ || class == "current"@ || class == "voltage"@
            ==> class_icon(Some(class), kind) == "lightning"@,
        kind == "binary_sensor"@ ==> class_icon(None, kind) == "toggle"@,
        kind != "binary_sensor"@ ==> class_icon(None, kind) == "sensor"@,
{
    lemma_classes();
}

/// What a Zigbee entity is drawn as: a light as a bulb, a switch by whether it is on, and a sensor by
/// what it measures or watches.
pub proof fn law_zigbee_icons(e: ZigbeeEntityModel, class: Seq<char>, value: Seq<char>)
    ensures
        e.domain == "light"@ ==> icon_of(e, value) == "lightbulb"@,
        e.domain == "switch"@ ==> icon_of(e, value) == if value == "on"@ {
            "toggle-switch"@
        } else {
            "toggle-switch-off"@
        },
        e.domain == "sensor"@ && e.device_class == Some(class) ==> {
            let icon = icon_of(e, value);
            &&& class == "temperature"@ ==> icon == "thermometer"@
            &&& class == "humidity"@ ==> icon == "water-percent"@
            &&& class == "illuminance"@ ==> icon == "weather-sunny"@
            &&& class == "battery"@ ==> icon == "battery"@
            &&& class == "voltage"@ ==> icon == "lightning-bolt"@
            &&& class == "energy"@ ==> icon == "lightning-bolt"@
            &&& class == "power"@ ==> icon == "flash"@
            &&& class == "current"@ ==> icon == "current-ac"@
        },
        e.domain == "binary_sensor"@ && e.device_class == Some(class) ==> {
            let icon = icon_of(e, value);
            &&& class == "motion"@ ==> icon == "motion-sensor"@
            &&& class == "occupancy"@ ==> icon == "motion-sensor"@
            &&& class == "door"@ ==> icon == "door-closed"@
            &&& class == "opening"@ ==> icon == "door-closed"@
            &&& class == "window"@ ==> icon == "door-closed"@
            &&& class == "smoke"@ ==> icon == "smoke-detector"@
            &&& class == "moisture"@ ==> icon == "water"@
            &&& class == "carbon_monoxide"@ ==> icon == "molecule-co"@
            &&& class == "vibration"@ ==> icon == "vibrate"@
            &&& class == "tamper"@ ==> icon == "shield-alert"@
            &&& class == "battery"@ ==> icon == "battery-alert"@
            &&& class == "safety"@ ==> icon == "shield-account"@
        },
        e.domain == "sensor"@ && e.device_class is None ==> icon_of(e, value) == "gauge"@,
{
    lemma_types();
    lemma_watched();
}

/// What an entity of a device is drawn as, and what a tap on it calls.
pub proof fn law_state_icons(e: MobileEntityRecord, value: Seq<char>)
    ensures
        ({
            let t = e.entity_type@;
            let icon = state_icon(e, value);
            let tap = tap_service(t);
            &&& t == "light"@ ==> icon == "lightbulb"@ && tap == "toggle"@
            &&& t == "switch"@ ==> icon == (if value == "on"@ {
                "toggle-switch"@
            } else {
                "toggle-switch-off"@
            }) && tap == "toggle"@
            &&& t == "cover"@ ==> icon == (if value == "open"@ {
                "window-shutter-open"@
            } else {
                "window-shutter"@
            }) && tap.len() == 0
            &&& t == "lock"@ ==> icon == (if value == "unlocked"@ {
                "lock-open"@
            } else {
                "lock"@
            }) && tap.len() == 0
            &&& t == "fan"@ ==> icon == "fan"@ && tap == "toggle"@
            &&& t == "button"@ ==> icon == "power"@ && tap == "press"@
            &&& t == "scene"@ ==> icon == "palette"@ && tap == "activate"@
            &&& t == "script"@ ==> icon == "script-text"@ && tap == "trigger"@
            &&& t == "select"@ ==> icon == "format-list"@ && tap.len() == 0
            &&& t == "climate"@ ==> icon == "thermometer"@ && tap.len() == 0
            &&& t == "sensor"@ || t == "binary_sensor"@ ==> tap.len() == 0 && icon == {
                let key = match e.icon {
                    Some(mdi) => if "mdi:"@.is_prefix_of(mdi@) {
                        known_icon(mdi@.skip(4))
                    } else {
                        known_icon(mdi@)
                    },
                    None => None,
                };
                if key is Some {
                    key->0
                } else {
                    class_icon(e.device_class.deep_view(), t)
                }
            }
        }),
{
    lemma_types();
    reveal_strlit("mdi:");
    reveal_strlit("");
}

/// The page with more on an entity is that of its kind, for the kinds that have one.
pub proof fn law_more_info(t: Seq<char>)
    ensures
        t == "light"@ ==> more_info_of(t) == "more_info/_"@ + "light"@ + ".html"@,
        t == "switch"@ ==> more_info_of(t) == "more_info/_"@ + "switch"@ + ".html"@,
        t == "cover"@ ==> more_info_of(t) == "more_info/_"@ + "cover"@ + ".html"@,
        t == "lock"@ ==> more_info_of(t) == "more_info/_"@ + "lock"@ + ".html"@,
        t == "fan"@ ==> more_info_of(t) == "more_info/_"@ + "fan"@ + ".html"@,
        t == "button"@ ==> more_info_of(t) == "more_info/_"@ + "button"@ + ".html"@,
        t == "scene"@ ==> more_info_of(t) == "more_info/_"@ + "scene"@ + ".html"@,
        t == "script"@ ==> more_info_of(t) == "more_info/_"@ + "script"@ + ".html"@,
        t == "select"@ ==> more_info_of(t) == "more_info/_"@ + "select"@ + ".html"@,
        t == "climate"@ ==> more_info_of(t) == "more_info/_"@ + "climate"@ + ".html"@,
        t == "sensor"@ ==> more_info_of(t) == "more_info/_"@ + "sensor"@ + ".html"@,
        t == "binary_sensor"@ ==> more_info_of(t) == "more_info/_"@ + "binary_sensor"@ + ".html"@,
{
}

/// The colours that attributes give, and how they are written.
pub proof fn law_colours(attrs: Members, a: Seq<JsonView>, c: (u8, u8, u8), r: u8, g: u8, b: u8)
    ensures
        json::member(attrs, "rgb_color"@) == Some(
            JsonView::Array(
                seq![
                    JsonView::PosInt(r as u64),
                    JsonView::PosInt(g as u64),
                    JsonView::PosInt(b as u64),
                ],
            ),
        ) ==> rgb_attr(attrs) == Some((r, g, b)),
        json::member(attrs, "rgb_color"@) is None ==> rgb_attr(attrs) is None,
        json::member(attrs, "hs_color"@) == Some(JsonView::Array(a)) && a.len() == 2 && (
        a[0] is PosInt || a[0] is Float) && (a[1] is PosInt || a[1] is Float) ==> hs_attr(attrs)
            == Some((a[0], a[1])),
        json::member(attrs, "hs_color"@) is None ==> hs_attr(attrs) is None,
        rgb_text((r, g, b)).len() == 7,
        rgb_text((r, g, b))[0] == '#',
        is_hex_pair(r, rgb_text((r, g, b))[1], rgb_text((r, g, b))[2]),
        is_hex_pair(g, rgb_text((r, g, b))[3], rgb_text((r, g, b))[4]),
        is_hex_pair(b, rgb_text((r, g, b))[5], rgb_text((r, g, b))[6]),
{
    reveal_strlit("#");
    assert("#"@.len() == 1 && "#"@[0] == '#');
    let rgb = seq![
        JsonView::PosInt(r as u64),
        JsonView::PosInt(g as u64),
        JsonView::PosInt(b as u64),
    ];
    assert(rgb[0] == JsonView::PosInt(r as u64) && rgb[1] == JsonView::PosInt(g as u64) && rgb[2]
        == JsonView::PosInt(b as u64));
    assert((r as u64) % 256 == r && (g as u64) % 256 == g && (b as u64) % 256 == b);
}

/// What a hexadecimal digit stands for.
pub open spec fn hex_value(c: char) -> int {
    if '0' <= c && c <= '9' {
        c as int - '0' as int
    } else {
        c as int - 'a' as int + 10
    }
}

/// Whether two hexadecimal digits stand for a byte.
pub open spec fn is_hex_pair(b: u8, high: char, low: char) -> bool {
    16 * hex_value(high) + hex_value(low) == b
}

/// The name of an area is found by its id.
pub proof fn law_area_named(areas: Seq<AreaModel>, i: int)
    requires
        0 <= i < areas.len(),
        forall|j: int| i < j < areas.len() ==> (#[trigger] areas[j]).area_id != areas[i].area_id,
    ensures
        area_name_of(areas, areas[i].area_id) == Some(areas[i].name),
    decreases areas.len(),
{
    let n = (areas.len() - 1) as int;
    if i < n {
        let front = areas.drop_last();
        assert(front[i] == areas[i]);
        assert forall|j: int| i < j < front.len() implies (#[trigger] front[j]).area_id
            != front[i].area_id by {
            assert(front[j] == areas[j]);
        }
        law_area_named(front, i);
        assert(areas[n].area_id != areas[i].area_id);
    }
}

/// An area that is not known has no name.
pub proof fn law_area_unnamed(areas: Seq<AreaModel>, id: Seq<char>)
    requires
        forall|j: int| 0 <= j < areas.len() ==> (#[trigger] areas[j]).area_id != id,
    ensures
        area_name_of(areas, id) is None,
    decreases areas.len(),
{
    if areas.len() > 0 {
        let front = areas.drop_last();
        assert forall|j: int| 0 <= j < front.len() implies (#[trigger] front[j]).area_id != id by {
            assert(front[j] == areas[j]);
        }
        law_area_unnamed(front, id);
        assert(areas[areas.len() - 1].area_id != id);
    }
}

/// Whether an entity is on the card of a name: it is enabled, and its area has the name; one without
/// an area, or with one that is not known, is on the card of those that are not assigned.
pub open spec fn is_on_card(
    e: MobileEntityRecord,
    areas: Seq<AreaModel>,
    name: Seq<char>,
) -> bool {
    let area = if e.user_area_id is Some {
        area_name_of(areas, e.user_area_id->0@)
    } else {
        None
    };
    !e.disabled && name == if area is Some {
        area->0
    } else {
        "Unassigned"@
    }
}

/// The entities on a card, in order.
pub open spec fn on_card(
    entities: Seq<MobileEntityRecord>,
    areas: Seq<AreaModel>,
    name: Seq<char>,
) -> Seq<MobileEntityRecord> {
    entities.filter(|e: MobileEntityRecord| is_on_card(e, areas, name))
}

/// The card of an area shows every enabled entity that the user has assigned to it, in order, and no
/// other.
pub proof fn law_card_entities(
    cards: Seq<AreaCard>,
    entities: Seq<MobileEntityRecord>,
    areas: Seq<AreaModel>,
    states: Map<Seq<char>, StateView>,
    c: int,
)
    requires
        are_cards(cards, entities, areas, states),
        0 <= c < cards.len(),
    ensures
        ({
            let on_it = on_card(entities, areas, cards[c].area_name@);
            &&& on_it.len() > 0
            &&& cards[c].entities@.len() == on_it.len()
            &&& forall|k: int|
                0 <= k < on_it.len() ==> shows(#[trigger] cards[c].entities@[k], on_it[k], states)
        }),
{
    let name = cards[c].area_name@;
    assert(crate::http::card_right(cards[c], entities, areas, states));
    lemma_assigned(entities, areas, name);
}

proof fn lemma_assigned(entities: Seq<MobileEntityRecord>, areas: Seq<AreaModel>, name: Seq<char>)
    ensures
        assigned(entities, areas, name) == on_card(entities, areas, name),
    decreases entities.len(),
{
    reveal(Seq::filter);
    if entities.len() > 0 {
        lemma_assigned(entities.drop_last(), areas, name);
    }
}

/// The entities that a webhook provides, in order.
pub open spec fn provided(
    entities: Seq<MobileEntityRecord>,
    webhook_id: Seq<char>,
) -> Seq<MobileEntityRecord> {
    entities.filter(|e: MobileEntityRecord| e.webhook_id@ == webhook_id)
}

/// The entities of a device are those that its webhook provides, in order.
pub proof fn law_device_entities(entities: Seq<MobileEntityRecord>, webhook_id: Seq<char>)
    ensures
        device_entities(entities, webhook_id) == provided(entities, webhook_id),
    decreases entities.len(),
{
    reveal(Seq::filter);
    if entities.len() > 0 {
        law_device_entities(entities.drop_last(), webhook_id);
    }
}

/// The devices that are shown with their entities are those that have any, in order, each with its
/// own.
pub proof fn law_device_groups(
    groups: Seq<DeviceEntityGroup>,
    devices: Seq<MobileDeviceRecord>,
    entities: Seq<MobileEntityRecord>,
    states: Map<Seq<char>, StateView>,
    k: int,
)
    requires
        are_groups(groups, devices_with_entities(devices, entities), entities, states),
        0 <= k < groups.len(),
    ensures
        ({
            let shown = devices.filter(
                |d: MobileDeviceRecord| device_entities(entities, d.webhook_id@).len() > 0,
            );
            &&& groups.len() == shown.len()
            &&& groups[k].webhook_id@ == shown[k].webhook_id@
            &&& groups[k].device_name@ == shown[k].device_name@
            &&& shows_all(
                groups[k].entities@,
                device_entities(entities, shown[k].webhook_id@),
                states,
            )
        }),
{
    lemma_devices(devices, entities);
    assert(crate::http::is_group(
        groups[k],
        devices_with_entities(devices, entities)[k],
        entities,
        states,
    ));
}

proof fn lemma_devices(devices: Seq<MobileDeviceRecord>, entities: Seq<MobileEntityRecord>)
    ensures
        devices_with_entities(devices, entities) == devices.filter(
            |d: MobileDeviceRecord| device_entities(entities, d.webhook_id@).len() > 0,
        ),
    decreases devices.len(),
{
    reveal(Seq::filter);
    if devices.len() > 0 {
        lemma_devices(devices.drop_last(), entities);
    }
}

/// What is told of a device, and how many entities it has.
pub proof fn law_device_told(d: MobileDeviceRecord, entities: Seq<MobileEntityRecord>)
    requires
        entities.len() <= u64::MAX,
    ensures
        ({
            let told = device_summary_json(d, entities);
            &&& told.field("webhook_id"@) == Some(JsonView::Str(d.webhook_id@))
            &&& told.field("device_name"@) == Some(JsonView::Str(d.device_name@))
            &&& told.field("manufacturer"@) == Some(JsonView::Str(d.manufacturer@))
            &&& told.field("model"@) == Some(JsonView::Str(d.model@))
            &&& told.field("os_name"@) == Some(JsonView::Str(d.os_name@))
            &&& told.field("entity_count"@) matches Some(JsonView::PosInt(n)) && n
                == provided(entities, d.webhook_id@).len()
        }),
{
    law_device_entities(entities, d.webhook_id@);
    lemma_fewer(entities, d.webhook_id@);
    reveal_strlit("webhook_id");
    reveal_strlit("device_name");
    reveal_strlit("manufacturer");
    reveal_strlit("model");
    reveal_strlit("os_name");
    reveal_strlit("entity_count");
    assert("webhook_id"@.len() == 10 && "device_name"@.len() == 11 && "manufacturer"@.len() == 12
        && "model"@.len() == 5 && "os_name"@.len() == 7 && "entity_count"@.len() == 12);
    assert("manufacturer"@[0] == 'm' && "entity_count"@[0] == 'e');
    reveal_with_fuel(json::member_from, 7);
}

proof fn lemma_fewer(entities: Seq<MobileEntityRecord>, webhook_id: Seq<char>)
    ensures
        device_entities(entities, webhook_id).len() <= entities.len(),
    decreases entities.len(),
{
    if entities.len() > 0 {
        lemma_fewer(entities.drop_last(), webhook_id);
    }
}

/// What is told of the state of an entity: its id, its name, its kind and the value that is stored,
/// or that it is unavailable.
pub proof fn law_entity_told(e: MobileEntityRecord, states: Map<Seq<char>, StateView>)
    ensures
        ({
            let told = entity_state_json(e, states);
            &&& told.field("entity_id"@) == Some(JsonView::Str(e.entity_id@))
            &&& told.field("display_name"@) == Some(
                JsonView::Str(
                    if e.name_by_user is Some {
                        e.name_by_user->0@
                    } else {
                        e.sensor_name@
                    },
                ),
            )
            &&& told.field("entity_type"@) == Some(JsonView::Str(e.entity_type@))
            &&& told.field("state"@) == Some(
                JsonView::Str(
                    if states.contains_key(e.entity_id@) {
                        states[e.entity_id@].state
                    } else {
                        "unavailable"@
                    },
                ),
            )
        }),
{
    reveal_strlit("entity_id");
    reveal_strlit("display_name");
    reveal_strlit("entity_type");
    reveal_strlit("state");
    assert("entity_id"@.len() == 9 && "display_name"@.len() == 12 && "entity_type"@.len() == 11
        && "state"@.len() == 5);
    reveal_with_fuel(json::member_from, 5);
}

/// What a form for an entity changes: a name and a unit that are not blank, without the space around
/// them; the area, which a blank field takes away; and whether the entity is disabled.
pub proof fn law_form_update(u: EntityMetaUpdate, form: EntityEditForm)
    requires
        form_update(u, form),
    ensures
        text::trimmed(form.display_name@).len() > 0 ==> u.name_by_user is Some
            && u.name_by_user->0@ == text::trimmed(form.display_name@),
        text::trimmed(form.display_name@).len() == 0 ==> u.name_by_user is None,
        form.area_id@.len() > 0 ==> (u.user_area_id matches Some(Some(a)) && a@ == form.area_id@),
        form.area_id@.len() == 0 ==> (u.user_area_id matches Some(None)),
        text::trimmed(form.unit_override@).len() > 0 ==> (u.unit_of_measurement matches Some(Some(a))
            && a@ == text::trimmed(form.unit_override@)),
        text::trimmed(form.unit_override@).len() == 0 ==> u.unit_of_measurement is None,
        u.disabled == Some(form.disabled is Some && form.disabled->0@ == "true"@),
{
}

/// A device that is renamed has the name given, without the space around it; all else of it stays,
/// and so do the other devices. A blank name and a device that is not known change nothing.
pub proof fn law_renamed(
    before: Seq<MobileDeviceRecord>,
    after: Seq<MobileDeviceRecord>,
    webhook_id: Seq<char>,
    device_name: Seq<char>,
    r: ReplyView,
)
    requires
        rename_result(before, after, webhook_id, device_name, r),
    ensures
        r matches ReplyView::Html(200, _),
        text::trimmed(device_name).len() == 0 ==> after == before,
        keyed::key_pos(before, webhook_id) is None ==> after == before,
        text::trimmed(device_name).len() > 0 ==> (keyed::key_pos(before, webhook_id) matches Some(i)
            ==> {
            &&& after.len() == before.len()
            &&& after[i].webhook_id@ == webhook_id
            &&& after[i].device_name@ == text::trimmed(device_name)
            &&& after[i].secret == before[i].secret
            &&& after[i].app_id == before[i].app_id
            &&& after[i].manufacturer == before[i].manufacturer
            &&& after[i].model == before[i].model
            &&& after[i].device_id == before[i].device_id
            &&& after[i].owner_username == before[i].owner_username
            &&& forall|j: int| 0 <= j < before.len() && j != i ==> #[trigger] after[j] == before[j]
        }),
{
    keyed::lemma_key_pos(before, webhook_id);
}

proof fn lemma_data_names()
    ensures
        "entity_id"@.len() == 9,
        "device_id"@ != "entity_id"@,
        "device_id"@.len() == 9,
        "brightness"@.len() == 10,
        "color_temp_kelvin"@.len() == 17,
        "option"@.len() == 6,
        "position"@.len() == 8,
        "hvac_mode"@.len() == 9,
        "hvac_mode"@ != "entity_id"@,
        "hvac_mode"@ != "device_id"@,
        "temperature"@.len() == 11,
        "percentage"@.len() == 10,
        "percentage"@ != "brightness"@,
{
    reveal_strlit("entity_id");
    reveal_strlit("device_id");
    reveal_strlit("brightness");
    reveal_strlit("color_temp_kelvin");
    reveal_strlit("option");
    reveal_strlit("position");
    reveal_strlit("hvac_mode");
    reveal_strlit("temperature");
    reveal_strlit("percentage");
    assert("entity_id"@[0] == 'e' && "device_id"@[0] == 'd' && "hvac_mode"@[0] == 'h');
    assert("percentage"@[0] == 'p' && "brightness"@[0] == 'b');
}

/// A form of the user interface names its entity, and gives what its fields say: whole numbers for
/// the brightness and the colour temperature, levels for a position and a speed, and texts that are
/// not empty for an option and a mode.
pub proof fn law_form_data(form: UiServiceForm)
    ensures
        ({
            let d = ui_data(form);
            &&& json::member(d, "entity_id"@) == Some(JsonView::Str(form.entity_id@))
            &&& json::member(d, "device_id"@) is None
            &&& match form.brightness {
                Some(t) => match text::signed_of(t@) {
                    Some(n) => json::member(d, "brightness"@) matches Some(j) && is_whole(
                        j,
                        n as int,
                    ),
                    None => json::member(d, "brightness"@) is None,
                },
                None => json::member(d, "brightness"@) is None,
            }
            &&& match form.color_temp_kelvin {
                Some(t) => match text::signed_of(t@) {
                    Some(n) => json::member(d, "color_temp_kelvin"@) matches Some(j) && is_whole(
                        j,
                        n as int,
                    ),
                    None => json::member(d, "color_temp_kelvin"@) is None,
                },
                None => json::member(d, "color_temp_kelvin"@) is None,
            }
            &&& match form.position {
                Some(t) => json::member(d, "position"@) == match text::number_of(t@) {
                    Some(n) => if n <= 255 {
                        Some(JsonView::PosInt(n))
                    } else {
                        None
                    },
                    None => None,
                },
                None => json::member(d, "position"@) is None,
            }
            &&& match form.percentage {
                Some(t) => json::member(d, "percentage"@) == match text::number_of(t@) {
                    Some(n) => if n <= 255 {
                        Some(JsonView::PosInt(n))
                    } else {
                        None
                    },
                    None => None,
                },
                None => json::member(d, "percentage"@) is None,
            }
            &&& json::member(d, "option"@) == if form.option is Some && form.option->0@.len() > 0 {
                Some(JsonView::Str(form.option->0@))
            } else {
                None
            }
            &&& json::member(d, "hvac_mode"@) == if form.hvac_mode is Some
                && form.hvac_mode->0@.len() > 0 {
                Some(JsonView::Str(form.hvac_mode->0@))
            } else {
                None
            }
            &&& json::member(d, "temperature"@) == if form.temperature is Some {
                Some(JsonView::Float(form.temperature->0@))
            } else {
                None
            }
        }),
{
    lemma_data_names();
    reveal_with_fuel(json::member_from, 2);
    let d0 = json::no_members().push(("entity_id"@, JsonView::Str(form.entity_id@)));
    let v1 = crate::http::whole_value(form.brightness);
    let d1 = with_value(d0, "brightness"@, v1);
    lemma_with(d0, "brightness"@, v1->0);
    let v2 = crate::http::whole_value(form.color_temp_kelvin);
    let d2 = with_value(d1, "color_temp_kelvin"@, v2);
    lemma_with(d1, "color_temp_kelvin"@, v2->0);
    let v3 = crate::http::text_value(form.option);
    let d3 = with_value(d2, "option"@, v3);
    lemma_with(d2, "option"@, v3->0);
    let v4 = crate::http::byte_value(form.position);
    let d4 = with_value(d3, "position"@, v4);
    lemma_with(d3, "position"@, v4->0);
    let v5 = crate::http::text_value(form.hvac_mode);
    let d5 = with_value(d4, "hvac_mode"@, v5);
    lemma_with(d4, "hvac_mode"@, v5->0);
    let v6 = crate::http::real_value(form.temperature);
    let d6 = with_value(d5, "temperature"@, v6);
    lemma_with(d5, "temperature"@, v6->0);
    let v7 = crate::http::byte_value(form.percentage);
    lemma_with(d6, "percentage"@, v7->0);
    assert(forall|n: Seq<char>|
        n != "entity_id"@ ==> #[trigger] json::member(d0, n) is None);
}

/// A call that a form makes is for the entity of the form, and its brightness is the one of the
/// form. It is answered with 204 where it is carried out, and with 404 where there is no such
/// service.
pub proof fn law_form_call(
    form: UiServiceForm,
    domain: Seq<char>,
    name: Seq<char>,
    before: StateRun,
    after: StateRun,
    r: ReplyView,
)
    requires
        ui_call_result(form, domain, name, before, after, r),
        !service::has_template(form.entity_id@),
    ensures
        exists|call: ServiceCall, res: Result<ServiceOutcome, ServiceError>|
            {
                &&& #[trigger] service::call_result(before, after, call, res)
                &&& call.domain@ == domain
                &&& call.service@ == name
                &&& call.target.entity_ids.deep_view() == seq![form.entity_id@]
                &&& call.target.device_ids.deep_view().len() == 0
                &&& form.brightness is None ==> call.data.brightness is None
                &&& form.brightness is Some ==> call.data.brightness == text::signed_of(
                    form.brightness->0@,
                )
                &&& r == ReplyView::Empty(
                    if res is Ok {
                        204
                    } else if res->Err_0 is NotFound {
                        404
                    } else {
                        500
                    },
                )
            },
{
    law_form_data(form);
    let data = ui_data(form);
    let ids = seq![form.entity_id@];
    assert(service::target_from_parts(None, Some(data)) == Ok::<
        (Seq<Seq<char>>, Seq<Seq<char>>),
        Seq<char>,
    >((ids, Seq::empty())));
    let (call, res) = choose|call: ServiceCall, res: Result<ServiceOutcome, ServiceError>|
        is_ui_call(call, domain, name, ids, Seq::empty(), data)
            && #[trigger] crate::http::ui_call_carried_out(call, res, before, after, r);
    assert(service::call_result(before, after, call, res));
}

/// The steps of onboarding are told in order, each with whether it is done.
pub proof fn law_steps_told(p: OnboardingProgress)
    ensures
        steps_json(p) matches JsonView::Array(told) && {
            &&& told.len() == 4
            &&& told[0].field("step"@) == Some(JsonView::Str("user"@))
            &&& told[0].field("done"@) == Some(JsonView::Bool(p.user_done))
            &&& told[1].field("step"@) == Some(JsonView::Str("core_config"@))
            &&& told[1].field("done"@) == Some(JsonView::Bool(p.core_config_done))
            &&& told[2].field("step"@) == Some(JsonView::Str("analytics"@))
            &&& told[2].field("done"@) == Some(JsonView::Bool(p.analytics_done))
            &&& told[3].field("step"@) == Some(JsonView::Str("integration"@))
            &&& told[3].field("done"@) == Some(JsonView::Bool(p.integration_done))
        },
{
    reveal_strlit("step");
    reveal_strlit("done");
    assert("step"@[0] == 's' && "done"@[0] == 'd');
    reveal_with_fuel(json::member_from, 3);
}

/// An account that is asked for has what the request gives, and the request is complete where no
/// field of it is empty.
pub proof fn law_account_asked(req: OnboardingUserRequest)
    ensures
        account_asked(req).name@ == req.name@,
        account_asked(req).username@ == req.username@,
        account_asked(req).password@ == req.password@,
        account_asked(req).language@ == req.language@,
        !incomplete(req) <==> req.client_id@.len() > 0 && req.name@.len() > 0
            && req.username@.len() > 0 && req.password@.len() > 0 && req.language@.len() > 0,
{
}

/// A header lets a request in if it is `Bearer `, and then a token that is known.
pub proof fn law_bearer(header: &str, token: Seq<char>, tokens: TokenModel)
    ensures
        header@ == "Bearer "@ + token ==> bearer_of(Some(header)) == Some(token) && (bearer_fault(
            Some(header),
            tokens,
        ) is None <==> tokens.access_tokens.contains_key(token)),
        bearer_of(None) is None,
        bearer_fault(None, tokens) is Some,
        bearer_of(Some(header)) matches Some(t) ==> header@ == "Bearer "@ + t,
{
    if header@ == "Bearer "@ + token {
        assert("Bearer "@.is_prefix_of(header@)) by {
            assert(header@.take("Bearer "@.len() as int) =~= "Bearer "@);
        }
        assert(header@.skip("Bearer "@.len() as int) =~= token);
    }
    if let Some(t) = bearer_of(Some(header)) {
        assert(header@ =~= "Bearer "@ + t);
    }
}

/// The page of an error shows what it says, and that of a device that is paired its name and its id.
pub proof fn law_messages_shown(msg: Seq<char>, name: Seq<char>, id: Seq<char>)
    ensures
        text::has_text(crate::http::error_page(msg), web::html_escaped(msg, false)),
        text::has_text(crate::http::paired_page(name, id), web::html_escaped(name, true)),
        text::has_text(crate::http::paired_page(name, id), id),
{
    let m = web::html_escaped(msg, false);
    lemma_more(crate::http::ERROR_PAGE_HEAD@, m);
    lemma_more(crate::http::ERROR_PAGE_HEAD@ + m, crate::http::ERROR_PAGE_TAIL@);
    let n = web::html_escaped(name, true);
    let a = crate::http::PAIRED_HEAD@;
    lemma_more(a, n);
    lemma_more(a + n, crate::http::PAIRED_MIDDLE@);
    lemma_more(a + n + crate::http::PAIRED_MIDDLE@, id);
    lemma_more(a + n + crate::http::PAIRED_MIDDLE@ + id, "</code></div>"@);
}

/// Cards are in the order of their names, and the one of those that are not assigned comes last.
pub proof fn law_card_order(
    cards: Seq<AreaCard>,
    entities: Seq<MobileEntityRecord>,
    areas: Seq<AreaModel>,
    states: Map<Seq<char>, StateView>,
    i: int,
    j: int,
)
    requires
        are_cards(cards, entities, areas, states),
        0 <= i < j < cards.len(),
    ensures
        cards[i].area_name@ != "Unassigned"@,
        cards[j].area_name@ != "Unassigned"@ ==> order::text_lt(
            cards[i].area_name@,
            cards[j].area_name@,
        ),
{
    assert(crate::http::card_lt(cards[i].area_name@, cards[j].area_name@));
}

/// The cards of a name are all those with it, and no other.
pub proof fn law_cards_named(s: Seq<AreaCard>, name: Seq<char>, i: int)
    ensures
        0 <= i < s.len() && s[i].area_name@ == name ==> named_cards(s, name).contains(s[i]),
        0 <= i < named_cards(s, name).len() ==> named_cards(s, name)[i].area_name@ == name
            && s.contains(named_cards(s, name)[i]),
    decreases s.len(),
{
    reveal(Seq::filter);
    if s.len() > 0 {
        let front = s.drop_last();
        let all = named_cards(s, name);
        let part = named_cards(front, name);
        law_cards_named(front, name, i);
        if 0 <= i < s.len() && s[i].area_name@ == name {
            if i < front.len() {
                assert(front[i] == s[i]);
                let k = choose|k: int| 0 <= k < part.len() && part[k] == s[i];
                assert(all[k] == part[k]);
            } else {
                assert(all[all.len() - 1] == s[i]);
            }
        }
        if 0 <= i < all.len() {
            if i < part.len() {
                assert(all[i] == part[i]);
                let k = choose|k: int| 0 <= k < front.len() && front[k] == part[i];
                assert(s[k] == all[i]);
            } else {
                assert(s[s.len() - 1] == all[i]);
            }
        }
    }
}

/// The entities that are listed are those that are enabled, by their names.
pub proof fn law_entities_listed(
    s: Seq<ListedEntity>,
    entities: Seq<MobileEntityRecord>,
    i: int,
)
    requires
        lists_all(s, enabled(entities)),
    ensures
        s.len() == entities.filter(|e: MobileEntityRecord| !e.disabled).len(),
        0 <= i < s.len() ==> {
            let e = entities.filter(|e: MobileEntityRecord| !e.disabled)[i];
            &&& s[i].entity_id@ == e.entity_id@
            &&& s[i].entity_type@ == e.entity_type@
            &&& s[i].display_name@ == if e.name_by_user is Some {
                e.name_by_user->0@
            } else {
                e.sensor_name@
            }
        },
{
    if 0 <= i < s.len() {
        assert(crate::http::lists(s[i], enabled(entities)[i]));
    }
}

/// A binary sensor without a class is drawn as an alert, and an entity of another domain as a home.
pub proof fn law_plain_icons(e: ZigbeeEntityModel, value: Seq<char>)
    ensures
        e.domain == "binary_sensor"@ && e.device_class is None ==> icon_of(e, value)
            == "alert-circle-outline"@,
        e.domain != "light"@ && e.domain != "switch"@ && e.domain != "sensor"@ && e.domain
            != "binary_sensor"@ ==> icon_of(e, value) == "home"@,
{
    lemma_types();
    lemma_watched();
    reveal_strlit("");
}

/// What is told of an entity that is listed.
pub proof fn law_listed_told(l: ListedEntity)
    ensures
        l.json().field("entity_id"@) == Some(JsonView::Str(l.entity_id@)),
        l.json().field("display_name"@) == Some(JsonView::Str(l.display_name@)),
        l.json().field("entity_type"@) == Some(JsonView::Str(l.entity_type@)),
{
    reveal_strlit("entity_id");
    reveal_strlit("display_name");
    reveal_strlit("entity_type");
    assert("entity_id"@.len() == 9 && "display_name"@.len() == 12 && "entity_type"@.len() == 11);
    reveal_with_fuel(json::member_from, 4);
}

/// What a page reads of attributes: levels that are whole numbers, cut off at the most there can be,
/// colour temperatures, texts, numbers, and lists of texts.
pub proof fn law_attributes_read(attrs: Members, name: Seq<char>, most: u8)
    ensures
        is_level(
            json::member(attrs, name),
            most as int,
            crate::entity_view::level_attr(attrs, name, most),
        ),
        match json::member(attrs, name) {
            Some(JsonView::PosInt(n)) => n < 65536 ==> crate::entity_view::kelvin_attr(attrs, name)
                == Some(n as u16),
            _ => crate::entity_view::kelvin_attr(attrs, name) is None,
        },
        match json::member(attrs, name) {
            Some(JsonView::Str(s)) => crate::entity_view::str_attr(attrs, name) == Some(s),
            _ => crate::entity_view::str_attr(attrs, name) is None,
        },
        match json::member(attrs, name) {
            Some(JsonView::PosInt(n)) => crate::entity_view::number_attr(attrs, name) == Some(
                JsonView::PosInt(n),
            ),
            Some(JsonView::NegInt(n)) => crate::entity_view::number_attr(attrs, name) == Some(
                JsonView::NegInt(n),
            ),
            Some(JsonView::Float(t)) => crate::entity_view::number_attr(attrs, name) == Some(
                JsonView::Float(t),
            ),
            _ => crate::entity_view::number_attr(attrs, name) is None,
        },
        match json::member(attrs, name) {
            Some(JsonView::Array(items)) => (forall|k: int|
                0 <= k < items.len() ==> (#[trigger] items[k]) is Str) ==> {
                let texts = crate::entity_view::texts_attr(attrs, name);
                &&& texts.len() == items.len()
                &&& forall|k: int|
                    0 <= k < items.len() ==> JsonView::Str(#[trigger] texts[k]) == items[k]
            },
            _ => crate::entity_view::texts_attr(attrs, name).len() == 0,
        },
{
    if let Some(JsonView::Array(items)) = json::member(attrs, name) {
        crate::socket_laws::lemma_texts(items);
    }
}

/// What an entity offers to choose from is what its attributes list.
pub proof fn law_choices_shown(
    v: EntityView,
    e: MobileEntityRecord,
    states: Map<Seq<char>, StateView>,
    items: Seq<JsonView>,
    k: int,
)
    requires
        shows(v, e, states),
        states.contains_key(e.entity_id@),
        forall|k: int| 0 <= k < items.len() ==> (#[trigger] items[k]) is Str,
        0 <= k < items.len(),
    ensures
        json::member(states[e.entity_id@].attributes, "options"@) == Some(JsonView::Array(items))
            ==> v.options@.len() == items.len() && JsonView::Str(v.options@[k]@) == items[k],
        json::member(states[e.entity_id@].attributes, "hvac_modes"@) == Some(JsonView::Array(items))
            ==> v.hvac_modes@.len() == items.len() && JsonView::Str(v.hvac_modes@[k]@) == items[k],
{
    crate::socket_laws::lemma_texts(items);
    let texts = crate::entity_view::texts_of(items);
    assert(JsonView::Str(texts[k]) == items[k]);
    if json::member(states[e.entity_id@].attributes, "options"@) == Some(JsonView::Array(items)) {
        assert(v.options.deep_view() == texts);
        assert(v.options.deep_view()[k] == v.options@[k]@);
    }
    if json::member(states[e.entity_id@].attributes, "hvac_modes"@) == Some(
        JsonView::Array(items),
    ) {
        assert(v.hvac_modes.deep_view() == texts);
        assert(v.hvac_modes.deep_view()[k] == v.hvac_modes@[k]@);
    }
}

} // verus!
