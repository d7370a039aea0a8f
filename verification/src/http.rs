//! What the pages show, and the answers of the user interface.

use vstd::prelude::*;
use vstd::string::*;

use crate::app_core;
use crate::app_core::{
    AppCore, CompleteAnalyticsOutcome, CompleteCoreConfigOutcome, CompleteIntegrationOutcome,
    Consistency, CreateOnboardingUserOutcome, DeadlineClass, OnboardingCoreConfigInput,
    OnboardingProgress, OnboardingUserInput, OperationError, OperationMeta, OperationRequest,
    OperationResult,
};
use crate::area_registry_store::{AreaModel, AreaRegistryStore, StoredArea};
use crate::config::AppConfig;
use crate::entity_view;
use crate::entity_view::{
    get_kelvin, get_level, get_number, get_texts, text_or_empty, AreaCard, EntityView,
};
use crate::ha_auth;
use crate::ha_auth::{TokenModel, TokenStore};
use crate::history_store::HistoryEntry;
use crate::ids;
use crate::ids::new_simple_uuid;
use crate::json;
use crate::json::{empty_object, put_member, Json, JsonView, Members, ObjectBuilder, Real, ToJson};
use crate::keyed;
use crate::keyed::Keyed;
use crate::mobile_device_store::{MobileDeviceRecord, MobileDeviceStore};
use crate::mobile_entity_store::{EntityMetaUpdate, MobileEntityRecord};
use crate::order;
use crate::order::{sort_by_key, text_less};
use crate::service;
use crate::service::{
    ServiceCall, ServiceData, ServiceError, ServiceOutcome, ServiceRegistry, ServiceTarget,
};
use crate::state_store;
use crate::state_store::{StateEvent, StateRun, StateStore, StateView};
use crate::storage::OnboardingState;
use crate::text;
use crate::text::{
    chars_of, concat, copy_range, opt_is, parse_number, parse_signed, starts_with, str_eq,
    string_of, trim,
};
use crate::web;
use crate::web::{html_escape, html_escape_text, Reply, ReplyView};
use crate::zigbee_integration;

verus! {

/// The service that a tap on an entity of a type calls; empty where there is none.
pub open spec fn tap_service(entity_type: Seq<char>) -> Seq<char> {
    if entity_type == "light"@ || entity_type == "switch"@ || entity_type == "fan"@ {
        "toggle"@
    } else if entity_type == "button"@ {
        "press"@
    } else if entity_type == "scene"@ {
        "activate"@
    } else if entity_type == "script"@ {
        "trigger"@
    } else {
        ""@
    }
}

/// The service that a tap on an entity of a type calls; empty where there is none.
pub fn service_action_for(entity_type: &str) -> (r: &'static str)
    ensures
        r@ == tap_service(entity_type@),
{
    if str_eq(entity_type, "light") || str_eq(entity_type, "switch") || str_eq(entity_type, "fan") {
        "toggle"
    } else if str_eq(entity_type, "button") {
        "press"
    } else if str_eq(entity_type, "scene") {
        "activate"
    } else if str_eq(entity_type, "script") {
        "trigger"
    } else {
        ""
    }
}

/// A text without a prefix, if it starts with it.
pub open spec fn without_prefix(s: Seq<char>, prefix: Seq<char>) -> Option<Seq<char>> {
    if prefix.is_prefix_of(s) {
        Some(s.skip(prefix.len() as int))
    } else {
        None
    }
}

/// A text without a prefix, if it starts with it.
pub fn strip_prefix(s: &str, prefix: &str) -> (r: Option<String>)
    ensures
        r.deep_view() == without_prefix(s@, prefix@),
{
    if !starts_with(s, prefix) {
        return None;
    }
    let cs: Vec<char> = chars_of(s);
    let n: usize = chars_of(prefix).len();
    let rest: Vec<char> = copy_range(&cs, n, cs.len());
    assert(rest@ =~= s@.skip(n as int));
    Some(string_of(rest.as_slice()))
}

/// The icon that the pages have for the icon of a device, if they have one.
pub open spec fn known_icon(key: Seq<char>) -> Option<Seq<char>> {
    if key == "battery"@ || key == "battery-high"@ || key == "battery-medium"@ || key
        == "battery-low"@ || key == "battery-charging"@ {
        Some("battery"@)
    } else if key == "thermometer"@ || key == "temperature-celsius"@ || key
        == "temperature-fahrenheit"@ {
        Some("thermometer"@)
    } else if key == "water"@ || key == "water-percent"@ || key == "water-drop"@ {
        Some("water"@)
    } else if key == "flash"@ || key == "lightning-bolt"@ || key == "power"@ || key
        == "power-plug"@ {
        Some("lightning"@)
    } else if key == "toggle-switch"@ || key == "toggle-switch-off"@ {
        Some("toggle"@)
    } else if key == "bluetooth"@ {
        Some("bluetooth"@)
    } else {
        None
    }
}

fn find_known_icon(key: &str) -> (r: Option<&'static str>)
    ensures
        match r {
            Some(s) => known_icon(key@) == Some(s@),
            None => known_icon(key@) is None,
        },
{
    if str_eq(key, "battery") || str_eq(key, "battery-high") || str_eq(key, "battery-medium")
        || str_eq(key, "battery-low") || str_eq(key, "battery-charging") {
        Some("battery")
    } else if str_eq(key, "thermometer") || str_eq(key, "temperature-celsius") || str_eq(
        key,
        "temperature-fahrenheit",
    ) {
        Some("thermometer")
    } else if str_eq(key, "water") || str_eq(key, "water-percent") || str_eq(key, "water-drop") {
        Some("water")
    } else if str_eq(key, "flash") || str_eq(key, "lightning-bolt") || str_eq(key, "power")
        || str_eq(key, "power-plug") {
        Some("lightning")
    } else if str_eq(key, "toggle-switch") || str_eq(key, "toggle-switch-off") {
        Some("toggle")
    } else if str_eq(key, "bluetooth") {
        Some("bluetooth")
    } else {
        None
    }
}

/// The icon for a device class.
pub open spec fn class_icon(device_class: Option<Seq<char>>, entity_type: Seq<char>) -> Seq<char> {
    if device_class == Some("battery"@) {
        "battery"@
    } else if device_class == Some("temperature"@) {
        "thermometer"@
    } else if device_class == Some("humidity"@) || device_class == Some("moisture"@) {
        "water"@
    } else if device_class == Some("power"@) || device_class == Some("energy"@) || device_class
        == Some("current"@) || device_class == Some("voltage"@) {
        "lightning"@
    } else if entity_type == "binary_sensor"@ {
        "toggle"@
    } else {
        "sensor"@
    }
}

/// The icon of an entity: by the icon that the device gives, if it is known, or else by its class.
pub open spec fn plain_icon(e: MobileEntityRecord) -> Seq<char> {
    let known = match e.icon {
        Some(mdi) => known_icon(
            match without_prefix(mdi@, "mdi:"@) {
                Some(key) => key,
                None => mdi@,
            },
        ),
        None => None,
    };
    match known {
        Some(icon) => icon,
        None => class_icon(e.device_class.deep_view(), e.entity_type@),
    }
}

/// The icon of an entity: by the icon that the device gives, if it is known, or else by its class.
pub fn entity_icon_name(entity: &MobileEntityRecord) -> (r: &'static str)
    ensures
        r@ == plain_icon(*entity),
{
    let known: Option<&'static str> = match &entity.icon {
        Some(mdi) => match strip_prefix(mdi.as_str(), "mdi:") {
            Some(key) => find_known_icon(key.as_str()),
            None => find_known_icon(mdi.as_str()),
        },
        None => None,
    };
    if let Some(icon) = known {
        return icon;
    }
    let class: &Option<String> = &entity.device_class;
    if opt_is(class, "battery") {
        "battery"
    } else if opt_is(class, "temperature") {
        "thermometer"
    } else if opt_is(class, "humidity") || opt_is(class, "moisture") {
        "water"
    } else if opt_is(class, "power") || opt_is(class, "energy") || opt_is(class, "current")
        || opt_is(class, "voltage") {
        "lightning"
    } else if str_eq(entity.entity_type.as_str(), "binary_sensor") {
        "toggle"
    } else {
        "sensor"
    }
}

/// The icon of an entity with a given state value.
pub open spec fn state_icon(e: MobileEntityRecord, value: Seq<char>) -> Seq<char> {
    let t = e.entity_type@;
    if t == "light"@ {
        "lightbulb"@
    } else if t == "switch"@ {
        if value == "on"@ {
            "toggle-switch"@
        } else {
            "toggle-switch-off"@
        }
    } else if t == "cover"@ {
        if value == "open"@ {
            "window-shutter-open"@
        } else {
            "window-shutter"@
        }
    } else if t == "lock"@ {
        if value == "unlocked"@ {
            "lock-open"@
        } else {
            "lock"@
        }
    } else if t == "fan"@ {
        "fan"@
    } else if t == "button"@ {
        "power"@
    } else if t == "scene"@ {
        "palette"@
    } else if t == "script"@ {
        "script-text"@
    } else if t == "select"@ {
        "format-list"@
    } else if t == "climate"@ {
        "thermometer"@
    } else {
        plain_icon(e)
    }
}

/// The icon of an entity with a given state value.
pub fn entity_icon_name_with_state(entity: &MobileEntityRecord, value: &str) -> (r: &'static str)
    ensures
        r@ == state_icon(*entity, value@),
{
    let t: &str = entity.entity_type.as_str();
    if str_eq(t, "light") {
        "lightbulb"
    } else if str_eq(t, "switch") {
        if str_eq(value, "on") {
            "toggle-switch"
        } else {
            "toggle-switch-off"
        }
    } else if str_eq(t, "cover") {
        if str_eq(value, "open") {
            "window-shutter-open"
        } else {
            "window-shutter"
        }
    } else if str_eq(t, "lock") {
        if str_eq(value, "unlocked") {
            "lock-open"
        } else {
            "lock"
        }
    } else if str_eq(t, "fan") {
        "fan"
    } else if str_eq(t, "button") {
        "power"
    } else if str_eq(t, "scene") {
        "palette"
    } else if str_eq(t, "script") {
        "script-text"
    } else if str_eq(t, "select") {
        "format-list"
    } else if str_eq(t, "climate") {
        "thermometer"
    } else {
        entity_icon_name(entity)
    }
}

/// Whether a view is what pages show of an entity.
pub open spec fn shows(
    r: EntityView,
    e: MobileEntityRecord,
    states: Map<Seq<char>, StateView>,
) -> bool {
    let value = zigbee_integration::shown_value(states, e.entity_id@);
    let attrs = zigbee_integration::shown_attributes(states, e.entity_id@);
    &&& r.entity_id == e.entity_id
    &&& r.webhook_id == Some(e.webhook_id)
    &&& r.display_name@ == e.shown_name()
    &&& r.entity_type == e.entity_type
    &&& r.icon_name@ == state_icon(e, value)
    &&& r.value@ == value
    &&& r.unit@ == text::or_empty(e.unit_of_measurement.deep_view())
    &&& r.device_class@ == text::or_empty(e.device_class.deep_view())
    &&& r.user_area_id@ == text::or_empty(e.user_area_id.deep_view())
    &&& r.unit_of_measurement == e.unit_of_measurement
    &&& r.disabled == e.disabled
    &&& r.service_action@ == tap_service(e.entity_type@)
    &&& service::opt_json(r.current_temperature) == entity_view::number_attr(
        attrs,
        "current_temperature"@,
    )
    &&& service::opt_json(r.target_temperature) == entity_view::number_attr(
        attrs,
        "temperature"@,
    )
    &&& r.hvac_modes.deep_view() == entity_view::texts_attr(attrs, "hvac_modes"@)
    &&& r.brightness == entity_view::level_attr(attrs, "brightness"@, 255)
    &&& r.color_temp_kelvin == entity_view::kelvin_attr(attrs, "color_temp_kelvin"@)
    &&& r.min_color_temp_kelvin == match entity_view::kelvin_attr(
        attrs,
        "min_color_temp_kelvin"@,
    ) {
        Some(k) => k,
        None => 2000,
    }
    &&& r.max_color_temp_kelvin == match entity_view::kelvin_attr(
        attrs,
        "max_color_temp_kelvin"@,
    ) {
        Some(k) => k,
        None => 6535,
    }
    &&& r.color_mode is None
    &&& r.hs_color is None
    &&& r.rgb_color is None
    &&& r.rgb_hex is None
    &&& r.supported_color_modes@.len() == 0
    &&& r.options.deep_view() == entity_view::texts_attr(attrs, "options"@)
    &&& r.current_position == entity_view::level_attr(attrs, "current_position"@, 100)
    &&& r.fan_percentage == entity_view::level_attr(attrs, "percentage"@, 100)
    &&& r.device_name is None
    &&& r.is_unavailable == (value == "unavailable"@ || value == "unknown"@)
}

/// What pages show of an entity.
pub fn entity_to_view(entity: &MobileEntityRecord, states: &StateStore) -> (r: EntityView)
    ensures
        shows(r, *entity, states@),
{
    let (value, attrs): (String, Vec<(String, Json)>) = match states.get(
        entity.entity_id.as_str(),
    ) {
        Some(s) => (s.state, s.attributes),
        None => ("unavailable".to_owned(), Vec::new()),
    };
    let icon: &str = entity_icon_name_with_state(entity, value.as_str());
    let is_unavailable: bool = str_eq(value.as_str(), "unavailable") || str_eq(
        value.as_str(),
        "unknown",
    );
    EntityView {
        entity_id: entity.entity_id.clone(),
        webhook_id: Some(entity.webhook_id.clone()),
        display_name: entity.display_name().to_owned(),
        entity_type: entity.entity_type.clone(),
        icon_name: icon.to_owned(),
        value,
        unit: text_or_empty(&entity.unit_of_measurement),
        device_class: text_or_empty(&entity.device_class),
        user_area_id: text_or_empty(&entity.user_area_id),
        unit_of_measurement: entity.unit_of_measurement.clone(),
        disabled: entity.disabled,
        service_action: service_action_for(entity.entity_type.as_str()).to_owned(),
        current_temperature: get_number(&attrs, "current_temperature"),
        target_temperature: get_number(&attrs, "temperature"),
        hvac_modes: get_texts(&attrs, "hvac_modes"),
        brightness: get_level(&attrs, "brightness", 255),
        color_temp_kelvin: get_kelvin(&attrs, "color_temp_kelvin"),
        min_color_temp_kelvin: match get_kelvin(&attrs, "min_color_temp_kelvin") {
            Some(k) => k,
            None => 2000,
        },
        max_color_temp_kelvin: match get_kelvin(&attrs, "max_color_temp_kelvin") {
            Some(k) => k,
            None => 6535,
        },
        color_mode: None,
        hs_color: None,
        rgb_color: None,
        rgb_hex: None,
        supported_color_modes: Vec::new(),
        options: get_texts(&attrs, "options"),
        current_position: get_level(&attrs, "current_position", 100),
        fan_percentage: get_level(&attrs, "percentage", 100),
        device_name: None,
        is_unavailable,
    }
}

/// The name of the area with an id: the last one, if there are several.
pub open spec fn area_name_of(areas: Seq<AreaModel>, id: Seq<char>) -> Option<Seq<char>>
    decreases areas.len(),
{
    if areas.len() == 0 {
        None
    } else if areas.last().area_id == id {
        Some(areas.last().name)
    } else {
        area_name_of(areas.drop_last(), id)
    }
}

/// The name of the card that an entity stands on: that of its area, or `Unassigned`.
pub open spec fn card_name(areas: Seq<AreaModel>, e: MobileEntityRecord) -> Seq<char> {
    match e.user_area_id {
        Some(id) => match area_name_of(areas, id@) {
            Some(name) => name,
            None => "Unassigned"@,
        },
        None => "Unassigned"@,
    }
}

fn find_card_name(areas: &AreaRegistryStore, e: &MobileEntityRecord) -> (r: String)
    ensures
        r@ == card_name(areas.models(), *e),
{
    let id: &String = match &e.user_area_id {
        Some(id) => id,
        None => {
            return "Unassigned".to_owned();
        },
    };
    let ghost models = areas.models();
    let mut i: usize = areas.areas.len();
    assert(models.take(i as int) =~= models);
    while i > 0
        invariant
            i <= areas.areas@.len(),
            models == areas.models(),
            e.user_area_id == Some(*id),
            area_name_of(models, id@) == area_name_of(models.take(i as int), id@),
        decreases i,
    {
        proof {
            assert(models.take(i as int).drop_last() =~= models.take(i - 1));
            assert(models.take(i as int).last() == areas.areas@[i - 1]@);
        }
        if str_eq(areas.areas[i - 1].area_id.as_str(), id.as_str()) {
            return areas.areas[i - 1].name.clone();
        }
        i -= 1;
    }
    "Unassigned".to_owned()
}

/// The order of cards: by name, and `Unassigned` last.
pub open spec fn card_lt(a: Seq<char>, b: Seq<char>) -> bool {
    a != "Unassigned"@ && (b == "Unassigned"@ || order::text_lt(a, b))
}

fn card_before(a: &str, b: &str) -> (r: bool)
    ensures
        r == card_lt(a@, b@),
{
    !str_eq(a, "Unassigned") && (str_eq(b, "Unassigned") || text_less(a, b))
}

/// Whether cards stand in their order.
pub open spec fn cards_ordered(s: Seq<AreaCard>) -> bool {
    forall|i: int, j: int|
        0 <= i < j < s.len() ==> card_lt(
            (#[trigger] s[i]).area_name@,
            (#[trigger] s[j]).area_name@,
        )
}

/// The entities that stand on the card of a name: those of the area that are not disabled.
pub open spec fn assigned(
    entities: Seq<MobileEntityRecord>,
    areas: Seq<AreaModel>,
    name: Seq<char>,
) -> Seq<MobileEntityRecord>
    decreases entities.len(),
{
    if entities.len() == 0 {
        entities
    } else {
        let before = assigned(entities.drop_last(), areas, name);
        if !entities.last().disabled && card_name(areas, entities.last()) == name {
            before.push(entities.last())
        } else {
            before
        }
    }
}

/// Whether views are what pages show of entities, one for each.
pub open spec fn shows_all(
    views: Seq<EntityView>,
    entities: Seq<MobileEntityRecord>,
    states: Map<Seq<char>, StateView>,
) -> bool {
    &&& views.len() == entities.len()
    &&& forall|k: int|
        0 <= k < views.len() ==> #[trigger] shows(views[k], entities[k], states)
}

/// Whether a card shows the entities that stand on it, of which there is one at least.
pub open spec fn card_right(
    c: AreaCard,
    entities: Seq<MobileEntityRecord>,
    areas: Seq<AreaModel>,
    states: Map<Seq<char>, StateView>,
) -> bool {
    let on_it = assigned(entities, areas, c.area_name@);
    on_it.len() > 0 && shows_all(c.entities@, on_it, states)
}

/// Whether there is a card of a name.
pub open spec fn has_card(cards: Seq<AreaCard>, name: Seq<char>) -> bool {
    exists|i: int| 0 <= i < cards.len() && (#[trigger] cards[i]).area_name@ == name
}

/// Whether cards are those of entities: in order, each right, and one for each entity that is not
/// disabled.
pub open spec fn are_cards(
    cards: Seq<AreaCard>,
    entities: Seq<MobileEntityRecord>,
    areas: Seq<AreaModel>,
    states: Map<Seq<char>, StateView>,
) -> bool {
    &&& cards_ordered(cards)
    &&& forall|i: int|
        0 <= i < cards.len() ==> card_right(#[trigger] cards[i], entities, areas, states)
    &&& forall|i: int|
        0 <= i < entities.len() && !(#[trigger] entities[i]).disabled ==> has_card(
            cards,
            card_name(areas, entities[i]),
        )
}

/// Puts a view on the card of a name, which is made where there is none. Says which it is, and
/// whether it was there.
fn put_on_card(cards: &mut Vec<AreaCard>, name: String, view: EntityView) -> (r: (usize, bool))
    requires
        cards_ordered(old(cards)@),
    ensures
        cards_ordered(final(cards)@),
        r.0 < final(cards)@.len(),
        final(cards)@[r.0 as int].area_name@ == name@,
        if r.1 {
            &&& r.0 < old(cards)@.len()
            &&& old(cards)@[r.0 as int].area_name@ == name@
            &&& final(cards)@ == old(cards)@.update(r.0 as int, final(cards)@[r.0 as int])
            &&& final(cards)@[r.0 as int].entities@ == old(cards)@[r.0 as int].entities@.push(view)
        } else {
            &&& r.0 <= old(cards)@.len()
            &&& !has_card(old(cards)@, name@)
            &&& final(cards)@ == old(cards)@.insert(r.0 as int, final(cards)@[r.0 as int])
            &&& final(cards)@[r.0 as int].entities@ == Seq::empty().push(view)
        },
{
    let ghost before = cards@;
    let mut i: usize = 0;
    while i < cards.len() && !card_before(name.as_str(), cards[i].area_name.as_str())
        invariant
            i <= cards@.len(),
            cards@ == before,
            before == old(cards)@,
            cards_ordered(before),
            forall|k: int| 0 <= k < i ==> card_lt((#[trigger] before[k]).area_name@, name@),
        decreases cards@.len() - i,
    {
        if str_eq(cards[i].area_name.as_str(), name.as_str()) {
            let mut slot: AreaCard = AreaCard { area_name: name, entities: Vec::new() };
            std::mem::swap(&mut cards[i], &mut slot);
            slot.entities.push(view);
            cards[i] = slot;
            proof {
                assert(cards@ =~= before.update(i as int, cards@[i as int]));
                assert forall|a: int, b: int| 0 <= a < b < cards@.len() implies card_lt(
                    (#[trigger] cards@[a]).area_name@,
                    (#[trigger] cards@[b]).area_name@,
                ) by {
                    assert(card_lt(before[a].area_name@, before[b].area_name@));
                }
            }
            return (i, true);
        }
        proof {
            lemma_card_total(before[i as int].area_name@, name@);
        }
        i += 1;
    }
    let ghost wanted = name@;
    let mut entities: Vec<EntityView> = Vec::new();
    entities.push(view);
    assert(entities@ =~= Seq::empty().push(view));
    proof {
        if has_card(before, wanted) {
            let k = choose|k: int| 0 <= k < before.len() && (#[trigger] before[k]).area_name@
                == wanted;
            lemma_card_irreflexive(wanted);
            if k >= i && k > i {
                assert(card_lt(before[i as int].area_name@, before[k].area_name@));
                lemma_card_transitive(wanted, before[i as int].area_name@, wanted);
            }
        }
    }
    cards.insert(i, AreaCard { area_name: name, entities });
    proof {
        assert forall|a: int, b: int| 0 <= a < b < cards@.len() implies card_lt(
            (#[trigger] cards@[a]).area_name@,
            (#[trigger] cards@[b]).area_name@,
        ) by {
            if a < i && b > i {
                assert(card_lt(before[a].area_name@, before[b - 1].area_name@));
            } else if a < i && b < i {
                assert(card_lt(before[a].area_name@, before[b].area_name@));
            } else if a == i && b > i {
                if b - 1 > i {
                    assert(card_lt(before[i as int].area_name@, before[b - 1].area_name@));
                    lemma_card_transitive(
                        wanted,
                        before[i as int].area_name@,
                        before[b - 1].area_name@,
                    );
                }
            } else if a > i {
                assert(card_lt(before[a - 1].area_name@, before[b - 1].area_name@));
            }
        }
    }
    (i, false)
}

proof fn lemma_card_irreflexive(a: Seq<char>)
    ensures
        !card_lt(a, a),
{
    order::law_text_irreflexive(a);
}

proof fn lemma_card_transitive(a: Seq<char>, b: Seq<char>, c: Seq<char>)
    requires
        card_lt(a, b),
        card_lt(b, c),
    ensures
        card_lt(a, c),
{
    if c != "Unassigned"@ {
        order::law_text_transitive(a, b, c);
    }
}

proof fn lemma_card_total(a: Seq<char>, b: Seq<char>)
    requires
        a != b,
        !card_lt(b, a),
    ensures
        card_lt(a, b),
{
    order::law_text_total(a, b);
}

/// The cards of the dashboard: the entities that are not disabled, by area.
pub fn build_area_cards(
    areas: &AreaRegistryStore,
    all_entities: &Vec<MobileEntityRecord>,
    states: &StateStore,
) -> (r: Vec<AreaCard>)
    ensures
        are_cards(r@, all_entities@, areas.models(), states@),
{
    let ghost models = areas.models();
    let ghost all = all_entities@;
    let mut cards: Vec<AreaCard> = Vec::new();
    let mut i: usize = 0;
    assert(all.take(0) =~= Seq::empty());
    while i < all_entities.len()
        invariant
            i <= all_entities@.len(),
            all == all_entities@,
            models == areas.models(),
            are_cards(cards@, all.take(i as int), models, states@),
        decreases all_entities@.len() - i,
    {
        let ghost before = cards@;
        let ghost seen = all.take(i as int);
        let ghost next = all.take(i + 1);
        proof {
            assert(next.drop_last() =~= seen);
            assert(next.last() == all[i as int]);
        }
        let e: &MobileEntityRecord = &all_entities[i];
        if !e.disabled {
            let name: String = find_card_name(areas, e);
            let ghost wanted = name@;
            let view: EntityView = entity_to_view(e, states);
            let (k, found): (usize, bool) = put_on_card(&mut cards, name, view);
            proof {
                lemma_card_added(before, cards@, k as int, found, view, seen, *e, models, states@);
                assert(next =~= seen.push(*e));
            }
        } else {
            proof {
                lemma_disabled_skipped(cards@, seen, *e, models, states@);
                assert(next =~= seen.push(*e));
            }
        }
        i += 1;
    }
    assert(all.take(i as int) =~= all);
    cards
}

proof fn lemma_assigned_push(
    seen: Seq<MobileEntityRecord>,
    e: MobileEntityRecord,
    areas: Seq<AreaModel>,
    name: Seq<char>,
)
    ensures
        assigned(seen.push(e), areas, name) == (if !e.disabled && card_name(areas, e) == name {
            assigned(seen, areas, name).push(e)
        } else {
            assigned(seen, areas, name)
        }),
{
    assert(seen.push(e).drop_last() =~= seen);
}

proof fn lemma_disabled_skipped(
    cards: Seq<AreaCard>,
    seen: Seq<MobileEntityRecord>,
    e: MobileEntityRecord,
    areas: Seq<AreaModel>,
    states: Map<Seq<char>, StateView>,
)
    requires
        are_cards(cards, seen, areas, states),
        e.disabled,
    ensures
        are_cards(cards, seen.push(e), areas, states),
{
    let next = seen.push(e);
    assert forall|i: int| 0 <= i < cards.len() implies card_right(
        #[trigger] cards[i],
        next,
        areas,
        states,
    ) by {
        lemma_assigned_push(seen, e, areas, cards[i].area_name@);
        assert(card_right(cards[i], seen, areas, states));
    }
    assert forall|i: int| 0 <= i < next.len() && !(#[trigger] next[i]).disabled implies has_card(
        cards,
        card_name(areas, next[i]),
    ) by {
        assert(next[i] == seen[i]);
    }
}

/// Nothing stands on a card that is not there.
proof fn lemma_no_card(
    cards: Seq<AreaCard>,
    seen: Seq<MobileEntityRecord>,
    areas: Seq<AreaModel>,
    name: Seq<char>,
)
    requires
        forall|i: int|
            0 <= i < seen.len() && !(#[trigger] seen[i]).disabled ==> has_card(
                cards,
                card_name(areas, seen[i]),
            ),
        !has_card(cards, name),
    ensures
        assigned(seen, areas, name).len() == 0,
    decreases seen.len(),
{
    if seen.len() > 0 {
        let front = seen.drop_last();
        assert forall|i: int| 0 <= i < front.len() && !(#[trigger] front[i]).disabled implies
            has_card(cards, card_name(areas, front[i])) by {
            assert(front[i] == seen[i]);
        }
        lemma_no_card(cards, front, areas, name);
        assert(seen[seen.len() - 1] == seen.last());
    }
}

proof fn lemma_card_added(
    before: Seq<AreaCard>,
    after: Seq<AreaCard>,
    k: int,
    found: bool,
    view: EntityView,
    seen: Seq<MobileEntityRecord>,
    e: MobileEntityRecord,
    areas: Seq<AreaModel>,
    states: Map<Seq<char>, StateView>,
)
    requires
        are_cards(before, seen, areas, states),
        cards_ordered(after),
        !e.disabled,
        shows(view, e, states),
        0 <= k < after.len(),
        after[k].area_name@ == card_name(areas, e),
        if found {
            &&& k < before.len()
            &&& before[k].area_name@ == card_name(areas, e)
            &&& after == before.update(k, after[k])
            &&& after[k].entities@ == before[k].entities@.push(view)
        } else {
            &&& k <= before.len()
            &&& !has_card(before, card_name(areas, e))
            &&& after == before.insert(k, after[k])
            &&& after[k].entities@ == Seq::empty().push(view)
        },
    ensures
        are_cards(after, seen.push(e), areas, states),
{
    let next = seen.push(e);
    let name = card_name(areas, e);
    lemma_card_irreflexive(name);
    assert forall|i: int| 0 <= i < after.len() implies card_right(
        #[trigger] after[i],
        next,
        areas,
        states,
    ) by {
        lemma_assigned_push(seen, e, areas, after[i].area_name@);
        if i == k {
            let on_it = assigned(next, areas, name);
            if found {
                assert(card_right(before[k], seen, areas, states));
                let earlier = assigned(seen, areas, name);
                assert forall|m: int| 0 <= m < after[k].entities@.len() implies #[trigger] shows(
                    after[k].entities@[m],
                    on_it[m],
                    states,
                ) by {
                    if m < earlier.len() {
                        assert(shows(before[k].entities@[m], earlier[m], states));
                    }
                }
            } else {
                lemma_no_card(before, seen, areas, name);
                assert(on_it =~= Seq::empty().push(e));
            }
        } else {
            let j = if found || i < k {
                i
            } else {
                i - 1
            };
            assert(after[i] == before[j]);
            assert(card_right(before[j], seen, areas, states));
            assert(after[i].area_name@ != name) by {
                if i < k {
                    assert(card_lt(after[i].area_name@, after[k].area_name@));
                } else {
                    assert(card_lt(after[k].area_name@, after[i].area_name@));
                }
            }
        }
    }
    assert forall|i: int| 0 <= i < next.len() && !(#[trigger] next[i]).disabled implies has_card(
        after,
        card_name(areas, next[i]),
    ) by {
        if i < seen.len() {
            assert(next[i] == seen[i]);
            let m = choose|m: int|
                0 <= m < before.len() && (#[trigger] before[m]).area_name@ == card_name(
                    areas,
                    seen[i],
                );
            let j = if found || m < k {
                m
            } else {
                m + 1
            };
            assert(after[j].area_name@ == before[m].area_name@);
        } else {
            assert(after[k].area_name@ == name);
        }
    }
}

/// The entities on the cards of the dashboard are those that are not disabled, each once, on the
/// card of its area.
pub proof fn law_cards(
    cards: Seq<AreaCard>,
    entities: Seq<MobileEntityRecord>,
    areas: Seq<AreaModel>,
    states: Map<Seq<char>, StateView>,
    i: int,
)
    requires
        are_cards(cards, entities, areas, states),
        0 <= i < entities.len(),
    ensures
        !entities[i].disabled ==> exists|c: int|
            0 <= c < cards.len() && (#[trigger] cards[c]).area_name@ == card_name(
                areas,
                entities[i],
            ) && assigned(entities, areas, cards[c].area_name@).contains(entities[i]),
        forall|c: int, d: int|
            0 <= c < d < cards.len() ==> (#[trigger] cards[c]).area_name@ != (
            #[trigger] cards[d]).area_name@,
{
    if !entities[i].disabled {
        lemma_assigned_contains(entities, areas, i);
        assert(has_card(cards, card_name(areas, entities[i])));
    }
    assert forall|c: int, d: int| 0 <= c < d < cards.len() implies (#[trigger] cards[c]).area_name@
        != (#[trigger] cards[d]).area_name@ by {
        assert(card_lt(cards[c].area_name@, cards[d].area_name@));
        lemma_card_irreflexive(cards[c].area_name@);
    }
}

proof fn lemma_assigned_contains(
    entities: Seq<MobileEntityRecord>,
    areas: Seq<AreaModel>,
    i: int,
)
    requires
        0 <= i < entities.len(),
        !entities[i].disabled,
    ensures
        assigned(entities, areas, card_name(areas, entities[i])).contains(entities[i]),
    decreases entities.len(),
{
    let name = card_name(areas, entities[i]);
    let r = assigned(entities, areas, name);
    if i == entities.len() - 1 {
        assert(r[r.len() - 1] == entities[i]);
    } else {
        let front = entities.drop_last();
        lemma_assigned_contains(front, areas, i);
        let f = assigned(front, areas, name);
        let k = choose|k: int| 0 <= k < f.len() && f[k] == entities[i];
        assert(r[k] == entities[i]);
    }
}

/// The cards of a name among others, in order.
pub open spec fn named_cards(s: Seq<AreaCard>, name: Seq<char>) -> Seq<AreaCard> {
    s.filter(|c: AreaCard| c.area_name@ == name)
}

/// The cards of an area.
pub fn cards_of_area(cards: Vec<AreaCard>, area_name: &str) -> (r: Vec<AreaCard>)
    ensures
        r@ == named_cards(cards@, area_name@),
{
    let ghost all = cards@;
    let ghost p = |c: AreaCard| c.area_name@ == area_name@;
    let mut out: Vec<AreaCard> = Vec::new();
    proof {
        reveal(Seq::filter);
        assert(all.take(0) =~= Seq::empty());
    }
    for card in it: cards
        invariant
            it.seq() == all,
            p == (|c: AreaCard| c.area_name@ == area_name@),
            out@ == all.take(it.index() as int).filter(p),
    {
        proof {
            reveal(Seq::filter);
            let i = it.index() as int;
            assert(all.take(i + 1).drop_last() =~= all.take(i));
            assert(all.take(i + 1).last() == all[i]);
        }
        if str_eq(card.area_name.as_str(), area_name) {
            out.push(card);
        }
    }
    assert(all.take(all.len() as int) =~= all);
    out
}

/// The entities of a device.
pub open spec fn device_entities(
    entities: Seq<MobileEntityRecord>,
    webhook_id: Seq<char>,
) -> Seq<MobileEntityRecord>
    decreases entities.len(),
{
    if entities.len() == 0 {
        entities
    } else if entities.last().webhook_id@ == webhook_id {
        device_entities(entities.drop_last(), webhook_id).push(entities.last())
    } else {
        device_entities(entities.drop_last(), webhook_id)
    }
}

/// What pages show of the entities of a device.
pub fn device_views(
    entities: &Vec<MobileEntityRecord>,
    webhook_id: &str,
    states: &StateStore,
) -> (r: Vec<EntityView>)
    ensures
        shows_all(r@, device_entities(entities@, webhook_id@), states@),
{
    let ghost all = entities@;
    let mut out: Vec<EntityView> = Vec::new();
    let mut i: usize = 0;
    assert(all.take(0) =~= Seq::empty());
    while i < entities.len()
        invariant
            i <= entities.len(),
            all == entities@,
            shows_all(out@, device_entities(all.take(i as int), webhook_id@), states@),
        decreases entities.len() - i,
    {
        proof {
            assert(all.take(i + 1).drop_last() =~= all.take(i as int));
            assert(all.take(i + 1).last() == all[i as int]);
        }
        if str_eq(entities[i].webhook_id.as_str(), webhook_id) {
            let ghost before = out@;
            let ghost earlier = device_entities(all.take(i as int), webhook_id@);
            out.push(entity_to_view(&entities[i], states));
            proof {
                let now = device_entities(all.take(i + 1), webhook_id@);
                assert forall|k: int| 0 <= k < out@.len() implies #[trigger] shows(
                    out@[k],
                    now[k],
                    states@,
                ) by {
                    if k < before.len() {
                        assert(shows(before[k], earlier[k], states@));
                    }
                }
            }
        }
        i += 1;
    }
    assert(all.take(i as int) =~= all);
    out
}

/// How many entities a device has.
pub fn device_entity_count(entities: &Vec<MobileEntityRecord>, webhook_id: &str) -> (r: usize)
    ensures
        r == device_entities(entities@, webhook_id@).len(),
{
    let ghost all = entities@;
    let mut n: usize = 0;
    let mut i: usize = 0;
    assert(all.take(0) =~= Seq::empty());
    while i < entities.len()
        invariant
            i <= entities.len(),
            all == entities@,
            n <= i,
            n == device_entities(all.take(i as int), webhook_id@).len(),
        decreases entities.len() - i,
    {
        proof {
            assert(all.take(i + 1).drop_last() =~= all.take(i as int));
            assert(all.take(i + 1).last() == all[i as int]);
        }
        if str_eq(entities[i].webhook_id.as_str(), webhook_id) {
            n += 1;
        }
        i += 1;
    }
    assert(all.take(i as int) =~= all);
    n
}

/// The entities of a device, as pages show them.
pub struct DeviceEntityGroup {
    pub webhook_id: String,
    pub device_name: String,
    pub entities: Vec<EntityView>,
}

/// The devices that have entities.
pub open spec fn devices_with_entities(
    devices: Seq<MobileDeviceRecord>,
    entities: Seq<MobileEntityRecord>,
) -> Seq<MobileDeviceRecord>
    decreases devices.len(),
{
    if devices.len() == 0 {
        devices
    } else if device_entities(entities, devices.last().webhook_id@).len() > 0 {
        devices_with_entities(devices.drop_last(), entities).push(devices.last())
    } else {
        devices_with_entities(devices.drop_last(), entities)
    }
}

/// Whether a group is that of a device.
pub open spec fn is_group(
    g: DeviceEntityGroup,
    d: MobileDeviceRecord,
    entities: Seq<MobileEntityRecord>,
    states: Map<Seq<char>, StateView>,
) -> bool {
    &&& g.webhook_id == d.webhook_id
    &&& g.device_name == d.device_name
    &&& shows_all(g.entities@, device_entities(entities, d.webhook_id@), states)
}

/// Whether groups are those of devices, one for each.
pub open spec fn are_groups(
    groups: Seq<DeviceEntityGroup>,
    devices: Seq<MobileDeviceRecord>,
    entities: Seq<MobileEntityRecord>,
    states: Map<Seq<char>, StateView>,
) -> bool {
    &&& groups.len() == devices.len()
    &&& forall|k: int|
        0 <= k < groups.len() ==> #[trigger] is_group(groups[k], devices[k], entities, states)
}

/// The entities of each device that has some.
pub fn build_entity_groups(
    devices: &Vec<MobileDeviceRecord>,
    all_entities: &Vec<MobileEntityRecord>,
    states: &StateStore,
) -> (r: Vec<DeviceEntityGroup>)
    ensures
        are_groups(
            r@,
            devices_with_entities(devices@, all_entities@),
            all_entities@,
            states@,
        ),
{
    let ghost all = devices@;
    let mut out: Vec<DeviceEntityGroup> = Vec::new();
    let mut i: usize = 0;
    assert(all.take(0) =~= Seq::empty());
    while i < devices.len()
        invariant
            i <= devices.len(),
            all == devices@,
            are_groups(
                out@,
                devices_with_entities(all.take(i as int), all_entities@),
                all_entities@,
                states@,
            ),
        decreases devices.len() - i,
    {
        proof {
            assert(all.take(i + 1).drop_last() =~= all.take(i as int));
            assert(all.take(i + 1).last() == all[i as int]);
        }
        let d: &MobileDeviceRecord = &devices[i];
        let entities: Vec<EntityView> = device_views(all_entities, d.webhook_id.as_str(), states);
        if entities.len() > 0 {
            let ghost before = out@;
            let ghost earlier = devices_with_entities(all.take(i as int), all_entities@);
            out.push(
                DeviceEntityGroup {
                    webhook_id: d.webhook_id.clone(),
                    device_name: d.device_name.clone(),
                    entities,
                },
            );
            proof {
                let now = devices_with_entities(all.take(i + 1), all_entities@);
                assert forall|k: int| 0 <= k < out@.len() implies #[trigger] is_group(
                    out@[k],
                    now[k],
                    all_entities@,
                    states@,
                ) by {
                    if k < before.len() {
                        assert(is_group(before[k], earlier[k], all_entities@, states@));
                    }
                }
            }
        }
        i += 1;
    }
    assert(all.take(i as int) =~= all);
    out
}

/// What pages show of a device.
pub open spec fn device_summary_json(
    d: MobileDeviceRecord,
    entities: Seq<MobileEntityRecord>,
) -> JsonView {
    JsonView::Object(
        json::no_members().push(("webhook_id"@, JsonView::Str(d.webhook_id@))).push(
            ("device_name"@, JsonView::Str(d.device_name@)),
        ).push(("manufacturer"@, JsonView::Str(d.manufacturer@))).push(
            ("model"@, JsonView::Str(d.model@)),
        ).push(("os_name"@, JsonView::Str(d.os_name@))).push(
            (
                "entity_count"@,
                JsonView::PosInt(device_entities(entities, d.webhook_id@).len() as u64),
            ),
        ),
    )
}

/// What pages show of all devices.
pub open spec fn device_summaries_json(
    devices: Seq<MobileDeviceRecord>,
    entities: Seq<MobileEntityRecord>,
) -> JsonView {
    JsonView::Array(
        Seq::new(devices.len(), |i: int| device_summary_json(devices[i], entities)),
    )
}

/// What pages show of all devices.
pub fn device_summaries(
    devices: &Vec<MobileDeviceRecord>,
    entities: &Vec<MobileEntityRecord>,
) -> (r: Json)
    ensures
        r@ == device_summaries_json(devices@, entities@),
{
    let mut out: Vec<Json> = Vec::new();
    let mut i: usize = 0;
    while i < devices.len()
        invariant
            i <= devices.len(),
            out@.len() == i,
            forall|k: int|
                0 <= k < i ==> (#[trigger] out@[k])@ == device_summary_json(devices@[k], entities@),
        decreases devices.len() - i,
    {
        let d: &MobileDeviceRecord = &devices[i];
        let count: usize = device_entity_count(entities, d.webhook_id.as_str());
        let item: Json = ObjectBuilder::new().text("webhook_id", d.webhook_id.as_str()).text(
            "device_name",
            d.display_name(),
        ).text("manufacturer", d.manufacturer.as_str()).text("model", d.model.as_str()).text(
            "os_name",
            d.os_name.as_str(),
        ).field("entity_count", Json::PosInt(count as u64)).done();
        out.push(item);
        i += 1;
    }
    proof {
        json::lemma_items_view(out@);
        assert(json::items_view(out@) =~= Seq::new(
            devices@.len(),
            |i: int| device_summary_json(devices@[i], entities@),
        ));
    }
    Json::Array(out)
}

/// An entity in a list to choose from, which is found by the name to show.
pub struct ListedEntity {
    pub entity_id: String,
    pub display_name: String,
    pub entity_type: String,
}

impl Keyed for ListedEntity {
    open spec fn key(&self) -> Seq<char> {
        self.display_name@
    }

    fn key_str(&self) -> (r: &str) {
        self.display_name.as_str()
    }
}

impl ToJson for ListedEntity {
    open spec fn json(&self) -> JsonView {
        JsonView::Object(
            json::no_members().push(("entity_id"@, JsonView::Str(self.entity_id@))).push(
                ("display_name"@, JsonView::Str(self.display_name@)),
            ).push(("entity_type"@, JsonView::Str(self.entity_type@))),
        )
    }

    fn to_json(&self) -> (r: Json) {
        ObjectBuilder::new().text("entity_id", self.entity_id.as_str()).text(
            "display_name",
            self.display_name.as_str(),
        ).text("entity_type", self.entity_type.as_str()).done()
    }
}

/// Whether an item of a list stands for an entity.
pub open spec fn lists(l: ListedEntity, e: MobileEntityRecord) -> bool {
    &&& l.entity_id == e.entity_id
    &&& l.display_name@ == e.shown_name()
    &&& l.entity_type == e.entity_type
}

/// The entities that are not disabled.
pub open spec fn enabled(entities: Seq<MobileEntityRecord>) -> Seq<MobileEntityRecord> {
    entities.filter(|e: MobileEntityRecord| !e.disabled)
}

/// Whether a list stands for entities, one for each.
pub open spec fn lists_all(s: Seq<ListedEntity>, entities: Seq<MobileEntityRecord>) -> bool {
    s.len() == entities.len() && forall|i: int|
        0 <= i < s.len() ==> lists(#[trigger] s[i], entities[i])
}

/// The entities that the history page offers: those that are not disabled, by the name to show.
pub fn history_entities(entities: &Vec<MobileEntityRecord>) -> (r: Vec<ListedEntity>)
    ensures
        exists|s: Seq<ListedEntity>|
            lists_all(s, enabled(entities@)) && #[trigger] order::sorted_from(r@, s),
{
    let ghost all = entities@;
    let ghost p = |e: MobileEntityRecord| !e.disabled;
    let mut out: Vec<ListedEntity> = Vec::new();
    let mut i: usize = 0;
    proof {
        reveal(Seq::filter);
        assert(all.take(0) =~= Seq::empty());
    }
    while i < entities.len()
        invariant
            i <= entities.len(),
            all == entities@,
            p == (|e: MobileEntityRecord| !e.disabled),
            lists_all(out@, all.take(i as int).filter(p)),
        decreases entities.len() - i,
    {
        proof {
            reveal(Seq::filter);
            assert(all.take(i + 1).drop_last() =~= all.take(i as int));
            assert(all.take(i + 1).last() == all[i as int]);
        }
        let e: &MobileEntityRecord = &entities[i];
        if !e.disabled {
            out.push(
                ListedEntity {
                    entity_id: e.entity_id.clone(),
                    display_name: e.display_name().to_owned(),
                    entity_type: e.entity_type.clone(),
                },
            );
        }
        i += 1;
    }
    assert(all.take(i as int) =~= all);
    sort_by_key(out)
}

/// An entity with its state, as the developer page shows it.
pub open spec fn entity_state_json(
    e: MobileEntityRecord,
    states: Map<Seq<char>, StateView>,
) -> JsonView {
    JsonView::Object(
        json::no_members().push(("entity_id"@, JsonView::Str(e.entity_id@))).push(
            ("display_name"@, JsonView::Str(e.shown_name())),
        ).push(("entity_type"@, JsonView::Str(e.entity_type@))).push(
            (
                "state"@,
                JsonView::Str(zigbee_integration::shown_value(states, e.entity_id@)),
            ),
        ),
    )
}

/// All entities with their states, as the developer page shows them; the disabled ones too.
pub fn entity_states(entities: &Vec<MobileEntityRecord>, states: &StateStore) -> (r: Json)
    ensures
        r@ == JsonView::Array(
            Seq::new(entities@.len(), |i: int| entity_state_json(entities@[i], states@)),
        ),
{
    let mut out: Vec<Json> = Vec::new();
    let mut i: usize = 0;
    while i < entities.len()
        invariant
            i <= entities.len(),
            out@.len() == i,
            forall|k: int|
                0 <= k < i ==> (#[trigger] out@[k])@ == entity_state_json(entities@[k], states@),
        decreases entities.len() - i,
    {
        let view: EntityView = entity_to_view(&entities[i], states);
        out.push(
            ObjectBuilder::new().text("entity_id", view.entity_id.as_str()).text(
                "display_name",
                view.display_name.as_str(),
            ).text("entity_type", view.entity_type.as_str()).text(
                "state",
                view.value.as_str(),
            ).done(),
        );
        i += 1;
    }
    proof {
        json::lemma_items_view(out@);
        assert(json::items_view(out@) =~= Seq::new(
            entities@.len(),
            |i: int| entity_state_json(entities@[i], states@),
        ));
    }
    Json::Array(out)
}

/// The template that shows more of an entity of a type.
pub open spec fn more_info_of(entity_type: Seq<char>) -> Seq<char> {
    if entity_type == "light"@ || entity_type == "switch"@ || entity_type == "cover"@ || entity_type
        == "lock"@ || entity_type == "fan"@ || entity_type == "sensor"@ || entity_type
        == "binary_sensor"@ || entity_type == "button"@ || entity_type == "scene"@ || entity_type
        == "script"@ || entity_type == "select"@ || entity_type == "climate"@ {
        "more_info/_"@ + entity_type + ".html"@
    } else {
        "more_info/_default.html"@
    }
}

/// The template that shows more of an entity of a type.
pub fn more_info_template(entity_type: &str) -> (r: String)
    ensures
        r@ == more_info_of(entity_type@),
{
    if str_eq(entity_type, "light") || str_eq(entity_type, "switch") || str_eq(entity_type, "cover")
        || str_eq(entity_type, "lock") || str_eq(entity_type, "fan") || str_eq(
        entity_type,
        "sensor",
    ) || str_eq(entity_type, "binary_sensor") || str_eq(entity_type, "button") || str_eq(
        entity_type,
        "scene",
    ) || str_eq(entity_type, "script") || str_eq(entity_type, "select") || str_eq(
        entity_type,
        "climate",
    ) {
        concat(concat("more_info/_", entity_type).as_str(), ".html")
    } else {
        "more_info/_default.html".to_owned()
    }
}

/// Whether the page with more of an entity draws its history: that of a sensor with two readings
/// at least.
pub fn draws_history(entity_type: &str, readings: usize) -> (r: bool)
    ensures
        r == (entity_type@ == "sensor"@ && readings >= 2),
{
    str_eq(entity_type, "sensor") && readings >= 2
}

/// What is wrong, as JSON.
pub struct ErrorResponse {
    pub error: String,
}

/// What is wrong, as JSON.
pub open spec fn error_json(error: Seq<char>) -> JsonView {
    JsonView::Object(json::no_members().push(("error"@, JsonView::Str(error))))
}

impl ErrorResponse {
    /// What is wrong.
    pub fn new(error: String) -> (r: Self)
        ensures
            r.error == error,
    {
        ErrorResponse { error }
    }
}

impl ToJson for ErrorResponse {
    open spec fn json(&self) -> JsonView {
        error_json(self.error@)
    }

    fn to_json(&self) -> (r: Json) {
        ObjectBuilder::new().text("error", self.error.as_str()).done()
    }
}

fn error_reply(status: u16, error: &str) -> (r: Reply)
    ensures
        r@ == ReplyView::Json(status, error_json(error@)),
{
    Reply::Json(status, ErrorResponse::new(error.to_owned()).to_json())
}

/// The answer that something has gone wrong inside.
pub fn internal_error(error: &str) -> (r: Reply)
    ensures
        r@ == ReplyView::Json(500, error_json(error@)),
{
    error_reply(500, error)
}

/// The answer that a request is not allowed.
pub fn forbidden(msg: &str) -> (r: Reply)
    ensures
        r@ == ReplyView::Json(403, error_json(msg@)),
{
    error_reply(403, msg)
}

/// The answer that a request comes from nobody known.
pub fn unauthorized(msg: &str) -> (r: Reply)
    ensures
        r@ == ReplyView::Json(401, error_json(msg@)),
{
    error_reply(401, msg)
}

/// The answer that sends the browser elsewhere.
pub fn redirect(path: &str) -> (r: Reply)
    ensures
        r@ == ReplyView::Redirect(303, path@),
{
    Reply::Redirect(303, path.to_owned())
}

pub const ERROR_PAGE_HEAD: &'static str = "<!doctype html><html lang=\"en\"><head><meta charset=\"utf-8\"><meta name=\"viewport\" content=\"width=device-width,initial-scale=1\"><title>Error</title><script>(function(){try{window.webkit.messageHandlers.externalBus.postMessage({type:'connection-status',payload:{event:'connected'}});}catch(e){}})()</script><style>body{font-family:-apple-system,BlinkMacSystemFont,sans-serif;padding:32px 24px;color:#333;background:#f5f5f5}h2{font-weight:400;color:#c62828}a{color:#009ac7;text-decoration:none}</style></head><body><h2>Error</h2><p>";

pub const ERROR_PAGE_TAIL: &'static str = "</p><p><a href=\"javascript:history.back()\">\u{2190} Go back</a></p></body></html>";

/// A page that says what is wrong.
pub open spec fn error_page(msg: Seq<char>) -> Seq<char> {
    ERROR_PAGE_HEAD@ + web::html_escaped(msg, false) + ERROR_PAGE_TAIL@
}

/// The answer with a page that says what is wrong.
pub fn page_error(status: u16, msg: &str) -> (r: Reply)
    ensures
        r@ == ReplyView::Html(status, error_page(msg@)),
{
    let mut html: String = ERROR_PAGE_HEAD.to_owned();
    html.append(html_escape_text(msg).as_str());
    html.append(ERROR_PAGE_TAIL);
    Reply::Html(status, html)
}

/// The answer to a request for a page that there is not.
pub fn fallback_404() -> (r: Reply)
    ensures
        r@ == ReplyView::Html(404, error_page("Page not found"@)),
{
    page_error(404, "Page not found")
}

/// The name of the home: as onboarding has it, or else that of the product.
pub fn load_location_name(onboarding: &Option<OnboardingState>, product_name: &str) -> (r: String)
    ensures
        r@ == match *onboarding {
            Some(o) => match o.location_name {
                Some(n) => n@,
                None => product_name@,
            },
            None => product_name@,
        },
{
    match onboarding {
        Some(o) => match &o.location_name {
            Some(n) => n.clone(),
            None => product_name.to_owned(),
        },
        None => product_name.to_owned(),
    }
}

/// What the form that edits an entity holds.
pub struct EntityEditForm {
    pub display_name: String,
    pub area_id: String,
    pub unit_override: String,
    pub disabled: Option<String>,
}

/// Whether a change is the one that a form asks for: blank fields stay as they are, but for the
/// area, which is taken away.
pub open spec fn form_update(u: EntityMetaUpdate, form: EntityEditForm) -> bool {
    &&& u.name_by_user.deep_view() == (if text::trimmed(form.display_name@).len() == 0 {
        None
    } else {
        Some(text::trimmed(form.display_name@))
    })
    &&& u.user_area_id.deep_view() == Some(
        if form.area_id@.len() == 0 {
            None
        } else {
            Some(form.area_id@)
        },
    )
    &&& u.unit_of_measurement.deep_view() == (if text::trimmed(form.unit_override@).len() == 0 {
        None
    } else {
        Some(Some(text::trimmed(form.unit_override@)))
    })
    &&& u.disabled == Some(form.disabled.deep_view() == Some("true"@))
}

/// The change that a form asks for.
pub fn entity_edit_update(form: &EntityEditForm) -> (r: EntityMetaUpdate)
    ensures
        form_update(r, *form),
{
    let name: String = trim(form.display_name.as_str());
    let unit: String = trim(form.unit_override.as_str());
    EntityMetaUpdate {
        name_by_user: if name.as_str().is_empty() {
            None
        } else {
            Some(name)
        },
        user_area_id: if form.area_id.as_str().is_empty() {
            Some(None)
        } else {
            Some(Some(form.area_id.clone()))
        },
        unit_of_measurement: if unit.as_str().is_empty() {
            None
        } else {
            Some(Some(unit))
        },
        disabled: Some(opt_is(&form.disabled, "true")),
    }
}

/// Where the browser goes when an entity has been edited.
pub fn entity_edit_location(webhook_id: &str, entity_id: &str) -> (r: String)
    ensures
        r@ == "/devices/"@ + webhook_id@ + "/entities/"@ + entity_id@ + "?saved=true"@,
{
    let mut out: String = "/devices/".to_owned();
    out.append(webhook_id);
    out.append("/entities/");
    out.append(entity_id);
    out.append("?saved=true");
    out
}

/// What the form that renames a device is answered, and what it does.
pub open spec fn rename_result(
    before: Seq<MobileDeviceRecord>,
    after: Seq<MobileDeviceRecord>,
    webhook_id: Seq<char>,
    device_name: Seq<char>,
    r: ReplyView,
) -> bool {
    let name = text::trimmed(device_name);
    if name.len() == 0 {
        after == before && r == ReplyView::Html(200, NAME_EMPTY@)
    } else {
        match keyed::key_pos(before, webhook_id) {
            None => after == before && r == ReplyView::Html(200, NO_DEVICE@),
            Some(i) => {
                &&& r == ReplyView::Html(200, NAME_SAVED@)
                &&& after.len() == before.len()
                &&& after[i].device_name@ == name
                &&& after == before.update(
                    i,
                    MobileDeviceRecord { device_name: after[i].device_name, ..before[i] },
                )
            },
        }
    }
}

pub const NAME_EMPTY: &'static str = "<span style='color:#9b1c1c'>Name cannot be empty</span>";

pub const NO_DEVICE: &'static str = "<span style='color:#9b1c1c'>Device not found</span>";

pub const NAME_SAVED: &'static str = "<span class='badge badge-success' style='padding:6px 12px'>\u{2713} Saved</span>";

/// Renames a device, as a form asks for.
pub fn api_device_rename(
    devices: &mut MobileDeviceStore,
    webhook_id: &str,
    device_name: &str,
) -> (r: Reply)
    ensures
        rename_result(
            old(devices).devices@,
            final(devices).devices@,
            webhook_id@,
            device_name@,
            r@,
        ),
{
    let name: String = trim(device_name);
    if name.as_str().is_empty() {
        return Reply::Html(200, NAME_EMPTY.to_owned());
    }
    proof {
        keyed::lemma_key_pos(devices.devices@, webhook_id@);
    }
    if devices.rename(webhook_id, name) {
        Reply::Html(200, NAME_SAVED.to_owned())
    } else {
        Reply::Html(200, NO_DEVICE.to_owned())
    }
}

/// What making an area by a form does: the areas with one more, unless the name is blank.
pub fn areas_create(areas: &mut AreaRegistryStore, name: &str) -> (r: Reply)
    ensures
        r@ == ReplyView::Redirect(303, "/areas"@),
        if text::trimmed(name@).len() == 0 {
            *final(areas) == *old(areas)
        } else {
            exists|area: AreaModel|
                {
                    &&& #[trigger] ids::is_registry_id(
                        old(areas).areas@,
                        text::slug_of(text::lowercased(text::trimmed(name@))),
                        area.area_id,
                    )
                    &&& area == crate::area_registry_store::bare_area(
                        area.area_id,
                        text::trimmed(name@),
                    )
                    &&& final(areas).models() == old(areas).models().push(area)
                }
        },
{
    let trimmed: String = trim(name);
    if !trimmed.as_str().is_empty() {
        let area: StoredArea = areas.create(trimmed);
        assert(ids::is_registry_id(
            old(areas).areas@,
            text::slug_of(text::lowercased(text::trimmed(name@))),
            area@.area_id,
        ));
    }
    redirect("/areas")
}

/// A Bluetooth device that has been found.
pub struct BleDevice {
    pub name: String,
    pub rssi: i32,
}

/// The Bluetooth devices that a scan finds: two made-up ones.
pub fn ble_scan_devices() -> (r: Vec<BleDevice>)
    ensures
        r@.len() == 2,
        r@[0].name@ == "HA Sensor A3F2"@,
        r@[0].rssi == -62,
        r@[1].name@ == "HA Sensor B8D1"@,
        r@[1].rssi == -77,
{
    let mut out: Vec<BleDevice> = Vec::new();
    out.push(BleDevice { name: "HA Sensor A3F2".to_owned(), rssi: -62 });
    out.push(BleDevice { name: "HA Sensor B8D1".to_owned(), rssi: -77 });
    out
}

pub const PAIRED_HEAD: &'static str = "<div class='ble-device-row' style='background:#dcfce7'><svg width='22' height='22' style='color:#16a34a;fill:currentColor'><use href='#icon-check'/></svg><span class='ble-device-name'>";

pub const PAIRED_MIDDLE: &'static str = " paired</span><code style='font-size:.75rem;color:#5a6778'>";

/// The answer that a Bluetooth device has been paired under an id.
pub open spec fn paired_page(name: Seq<char>, id: Seq<char>) -> Seq<char> {
    PAIRED_HEAD@ + web::html_escaped(name, true) + PAIRED_MIDDLE@ + id + "</code></div>"@
}

/// The answer that a Bluetooth device has been paired, under a made-up id.
pub fn api_ble_pair(name: &str) -> (r: Reply)
    ensures
        exists|id: Seq<char>|
            ids::is_hex_text(id, 8) && r@ == ReplyView::Html(200, #[trigger] paired_page(name@, id)),
{
    let random: String = new_simple_uuid();
    let cs: Vec<char> = chars_of(random.as_str());
    let head: Vec<char> = copy_range(&cs, 0, 8);
    let id: String = string_of(head.as_slice());
    assert(ids::is_hex_text(id@, 8)) by {
        assert forall|i: int| 0 <= i < 8 implies ids::is_lower_hex(#[trigger] id@[i]) by {
            assert(id@[i] == random@[i]);
        }
    }
    let mut html: String = PAIRED_HEAD.to_owned();
    html.append(html_escape(name).as_str());
    html.append(PAIRED_MIDDLE);
    html.append(id.as_str());
    html.append("</code></div>");
    assert(html@ == paired_page(name@, id@));
    Reply::Html(200, html)
}

/// How many readings a request for history gets: as many as it asks for, or a hundred, and a
/// thousand at most.
pub fn history_limit(last: Option<usize>) -> (r: usize)
    ensures
        r == match last {
            Some(n) => if n < 1000 {
                n as int
            } else {
                1000
            },
            None => 100,
        },
{
    match last {
        Some(n) => if n < 1000 {
            n
        } else {
            1000
        },
        None => 100,
    }
}

impl ToJson for HistoryEntry {
    open spec fn json(&self) -> JsonView {
        JsonView::Object(
            json::no_members().push(("ts"@, JsonView::PosInt(self.ts))).push(
                ("value"@, JsonView::Float(self.value@)),
            ),
        )
    }

    fn to_json(&self) -> (r: Json) {
        let value: Json = Json::Float(self.value.clone());
        assert(value@ == JsonView::Float(self.value@));
        ObjectBuilder::new().field("ts", Json::PosInt(self.ts)).field("value", value).done()
    }
}

/// The answer that the controller is well.
pub fn health() -> (r: Reply)
    ensures
        r@ == ReplyView::Json(
            200,
            JsonView::Object(
                json::no_members().push(("status"@, JsonView::Str("ok"@))).push(
                    ("milestone"@, JsonView::Str("m0"@)),
                ),
            ),
        ),
{
    Reply::Json(200, ObjectBuilder::new().text("status", "ok").text("milestone", "m0").done())
}

/// What a form that calls a service holds. The temperature comes as a number, if it is one.
pub struct UiServiceForm {
    pub entity_id: String,
    pub brightness: Option<String>,
    pub color_temp_kelvin: Option<String>,
    pub option: Option<String>,
    pub position: Option<String>,
    pub hvac_mode: Option<String>,
    pub temperature: Option<Real>,
    pub percentage: Option<String>,
}

/// Members with one more, if there is a value for it.
pub open spec fn with_value(s: Members, name: Seq<char>, value: Option<JsonView>) -> Members {
    match value {
        Some(v) => json::with_member(s, name, v),
        None => s,
    }
}

/// The whole number that a field holds, if it holds one.
pub open spec fn whole_value(field: Option<String>) -> Option<JsonView> {
    match field {
        Some(t) => match text::signed_of(t@) {
            Some(n) => Some(json::int_json(n as int)),
            None => None,
        },
        None => None,
    }
}

/// The number up to 255 that a field holds, if it holds one.
pub open spec fn byte_value(field: Option<String>) -> Option<JsonView> {
    match field {
        Some(t) => match text::number_of(t@) {
            Some(n) => if n <= 255 {
                Some(JsonView::PosInt(n))
            } else {
                None
            },
            None => None,
        },
        None => None,
    }
}

/// The text that a field holds, unless it is empty.
pub open spec fn text_value(field: Option<String>) -> Option<JsonView> {
    match field {
        Some(t) => if t@.len() > 0 {
            Some(JsonView::Str(t@))
        } else {
            None
        },
        None => None,
    }
}

/// The number that a field holds, if it holds one.
pub open spec fn real_value(field: Option<Real>) -> Option<JsonView> {
    match field {
        Some(t) => Some(JsonView::Float(t@)),
        None => None,
    }
}

/// The service data that a form asks for.
pub open spec fn ui_data(form: UiServiceForm) -> Members {
    let d = json::no_members().push(("entity_id"@, JsonView::Str(form.entity_id@)));
    let d = with_value(d, "brightness"@, whole_value(form.brightness));
    let d = with_value(d, "color_temp_kelvin"@, whole_value(form.color_temp_kelvin));
    let d = with_value(d, "option"@, text_value(form.option));
    let d = with_value(d, "position"@, byte_value(form.position));
    let d = with_value(d, "hvac_mode"@, text_value(form.hvac_mode));
    let d = with_value(d, "temperature"@, real_value(form.temperature));
    with_value(d, "percentage"@, byte_value(form.percentage))
}

fn put_whole(data: &mut Vec<(String, Json)>, name: &str, field: &Option<String>)
    ensures
        json::members_view(final(data)@) == with_value(
            json::members_view(old(data)@),
            name@,
            whole_value(*field),
        ),
{
    if let Some(t) = field {
        if let Some(n) = parse_signed(t.as_str()) {
            put_member(data, name, Json::from_i64(n));
        }
    }
}

fn put_byte(data: &mut Vec<(String, Json)>, name: &str, field: &Option<String>)
    ensures
        json::members_view(final(data)@) == with_value(
            json::members_view(old(data)@),
            name@,
            byte_value(*field),
        ),
{
    if let Some(t) = field {
        if let Some(n) = parse_number(t.as_str()) {
            if n <= 255 {
                put_member(data, name, Json::PosInt(n));
            }
        }
    }
}

fn put_text(data: &mut Vec<(String, Json)>, name: &str, field: &Option<String>)
    ensures
        json::members_view(final(data)@) == with_value(
            json::members_view(old(data)@),
            name@,
            text_value(*field),
        ),
{
    if let Some(t) = field {
        if !t.as_str().is_empty() {
            put_member(data, name, Json::str(t.as_str()));
        }
    }
}

fn put_real(data: &mut Vec<(String, Json)>, name: &str, field: &Option<Real>)
    ensures
        json::members_view(final(data)@) == with_value(
            json::members_view(old(data)@),
            name@,
            real_value(*field),
        ),
{
    if let Some(t) = field {
        let value: Json = Json::Float(t.clone());
        assert(value@ == JsonView::Float(t@));
        put_member(data, name, value);
    }
}

/// The service data that a form asks for.
pub fn ui_service_data(form: &UiServiceForm) -> (r: Vec<(String, Json)>)
    ensures
        json::members_view(r@) == ui_data(*form),
{
    let mut data: Vec<(String, Json)> = Vec::new();
    let first: Json = Json::str(form.entity_id.as_str());
    assert(json::json_view(first) == JsonView::Str(form.entity_id@));
    data.push(("entity_id".to_owned(), first));
    proof {
        json::lemma_members_view(data@);
        assert(json::members_view(data@) =~= json::no_members().push(
            ("entity_id"@, JsonView::Str(form.entity_id@)),
        ));
    }
    put_whole(&mut data, "brightness", &form.brightness);
    put_whole(&mut data, "color_temp_kelvin", &form.color_temp_kelvin);
    put_text(&mut data, "option", &form.option);
    put_byte(&mut data, "position", &form.position);
    put_text(&mut data, "hvac_mode", &form.hvac_mode);
    put_real(&mut data, "temperature", &form.temperature);
    put_byte(&mut data, "percentage", &form.percentage);
    data
}

/// The status that a form is answered when its call gave a result.
pub open spec fn call_status(res: Result<ServiceOutcome, ServiceError>) -> u16 {
    match res {
        Ok(_) => 204,
        Err(ServiceError::NotFound { .. }) => 404,
        Err(_) => 500,
    }
}

/// Whether a call is the one that a form asks for.
pub open spec fn is_ui_call(
    call: ServiceCall,
    domain: Seq<char>,
    service_name: Seq<char>,
    entity_ids: Seq<Seq<char>>,
    device_ids: Seq<Seq<char>>,
    data: Members,
) -> bool {
    &&& call.domain@ == domain
    &&& call.service@ == service_name
    &&& call.target.entity_ids.deep_view() == entity_ids
    &&& call.target.device_ids.deep_view() == device_ids
    &&& match service::brightness_of(data) {
        Ok(Some(n)) => call.data.brightness == Some(n as i64),
        _ => call.data.brightness is None,
    }
    &&& !call.return_response
}

/// Whether a call has been carried out and answered.
pub open spec fn ui_call_carried_out(
    call: ServiceCall,
    res: Result<ServiceOutcome, ServiceError>,
    before: StateRun,
    after: StateRun,
    r: ReplyView,
) -> bool {
    service::call_result(before, after, call, res) && r == ReplyView::Empty(call_status(res))
}

/// What a form that calls a service is answered, and what it does to the states.
pub open spec fn ui_call_result(
    form: UiServiceForm,
    domain: Seq<char>,
    service_name: Seq<char>,
    before: StateRun,
    after: StateRun,
    r: ReplyView,
) -> bool {
    match service::target_from_parts(None, Some(ui_data(form))) {
        Err(_) => after == before && r == ReplyView::Empty(400),
        Ok((entity_ids, device_ids)) => exists|
            call: ServiceCall,
            res: Result<ServiceOutcome, ServiceError>,
        |
            is_ui_call(call, domain, service_name, entity_ids, device_ids, ui_data(form))
                && #[trigger] ui_call_carried_out(call, res, before, after, r),
    }
}

/// Calls a service, as a form asks for.
pub fn ui_service_call(
    core: &AppCore,
    config: &AppConfig,
    services: &ServiceRegistry,
    states: &mut StateStore,
    events: &mut Vec<StateEvent>,
    domain: &str,
    service_name: &str,
    form: &UiServiceForm,
) -> (r: Reply)
    ensures
        ui_call_result(
            *form,
            domain@,
            service_name@,
            state_store::run_of(*old(states), old(events)@),
            state_store::run_of(*final(states), final(events)@),
            r@,
        ),
        old(states).wf() ==> final(states).wf(),
{
    let data: Vec<(String, Json)> = ui_service_data(form);
    let target: ServiceTarget = match ServiceTarget::from_parts(None, Some(&data)) {
        Ok(t) => t,
        Err(_) => {
            return Reply::Empty(400);
        },
    };
    let service_data: ServiceData = match ServiceData::from_json(&data) {
        Ok(d) => d,
        Err(_) => ServiceData { brightness: None },
    };
    let call: ServiceCall = ServiceCall {
        domain: domain.to_owned(),
        service: service_name.to_owned(),
        target,
        data: service_data,
        return_response: false,
    };
    let ghost call0 = call;
    let ghost before = state_store::run_of(*states, events@);
    let result: OperationResult = core.execute(
        config,
        states,
        events,
        services,
        OperationRequest::CallService {
            call,
            meta: OperationMeta {
                request_id: 0,
                consistency: Consistency::LivePreferred,
                deadline: DeadlineClass::Interactive,
                allow_cached: true,
                allow_deferred: false,
            },
        },
    );
    let ghost after = state_store::run_of(*states, events@);
    let ghost res = choose|res: Result<ServiceOutcome, ServiceError>| #[trigger]
        service::call_result(before, after, call0, res) && app_core::reported(res, result);
    let r: Reply = match result {
        OperationResult::ServiceCallCompleted(_) => Reply::Empty(204),
        OperationResult::Error(OperationError::NotFound) => Reply::Empty(404),
        _ => Reply::Empty(500),
    };
    assert(ui_call_carried_out(call0, res, before, after, r@));
    r
}

/// The steps of onboarding, and which of them are done.
pub open spec fn steps_json(p: OnboardingProgress) -> JsonView {
    JsonView::Array(
        Seq::empty().push(step_json("user"@, p.user_done)).push(
            step_json("core_config"@, p.core_config_done),
        ).push(step_json("analytics"@, p.analytics_done)).push(
            step_json("integration"@, p.integration_done),
        ),
    )
}

/// A step of onboarding, and whether it is done.
pub open spec fn step_json(step: Seq<char>, done: bool) -> JsonView {
    JsonView::Object(
        json::no_members().push(("step"@, JsonView::Str(step))).push(("done"@, JsonView::Bool(done))),
    )
}

fn step(name: &str, done: bool) -> (r: Json)
    ensures
        r@ == step_json(name@, done),
{
    ObjectBuilder::new().text("step", name).field("done", Json::Bool(done)).done()
}

/// Answers which steps of onboarding are done.
pub fn onboarding_status(core: &mut AppCore, state: &OnboardingState) -> (r: Reply)
    ensures
        r@ == ReplyView::Json(200, steps_json(app_core::progress_of(state@))),
        final(core).mode() == app_core::mode_of_onboarding(state@.onboarded),
{
    let p: OnboardingProgress = core.onboarding_progress(state);
    let mut v: Vec<Json> = Vec::new();
    v.push(step("user", p.user_done));
    v.push(step("core_config", p.core_config_done));
    v.push(step("analytics", p.analytics_done));
    v.push(step("integration", p.integration_done));
    proof {
        json::lemma_items_view(v@);
        assert(json::items_view(v@) =~= Seq::empty().push(step_json("user"@, p.user_done)).push(
            step_json("core_config"@, p.core_config_done),
        ).push(step_json("analytics"@, p.analytics_done)).push(
            step_json("integration"@, p.integration_done),
        ));
    }
    Reply::Json(200, Json::Array(v))
}

/// Answers what is being installed, until onboarding is complete.
pub fn onboarding_installation_type(core: &mut AppCore, state: &OnboardingState) -> (r: Reply)
    ensures
        r@ == if state@.onboarded {
            ReplyView::Empty(401)
        } else {
            ReplyView::Json(
                200,
                JsonView::Object(
                    json::no_members().push(("installation_type"@, JsonView::Str("Home Edge"@))),
                ),
            )
        },
        final(core).mode() == app_core::mode_of_onboarding(state@.onboarded),
{
    let p: OnboardingProgress = core.onboarding_progress(state);
    if p.onboarded {
        Reply::Empty(401)
    } else {
        Reply::Json(200, ObjectBuilder::new().text("installation_type", "Home Edge").done())
    }
}

/// A request for the owner's account.
pub struct OnboardingUserRequest {
    pub client_id: String,
    pub name: String,
    pub username: String,
    pub password: String,
    pub language: String,
}

/// Whether a request for the owner's account leaves something out.
pub open spec fn incomplete(req: OnboardingUserRequest) -> bool {
    req.client_id@.len() == 0 || req.name@.len() == 0 || req.username@.len() == 0
        || req.password@.len() == 0 || req.language@.len() == 0
}

/// The account that a request asks for.
pub open spec fn account_asked(req: OnboardingUserRequest) -> OnboardingUserInput {
    OnboardingUserInput {
        name: req.name,
        username: req.username,
        password: req.password,
        language: req.language,
    }
}

/// The answer with a one-time code.
pub open spec fn code_json(code: Seq<char>) -> JsonView {
    JsonView::Object(json::no_members().push(("auth_code"@, JsonView::Str(code))))
}

/// Creates the owner's account, as a request asks for, and answers with a one-time code.
pub fn create_onboarding_user(
    core: &mut AppCore,
    state: &mut OnboardingState,
    tokens: &mut TokenStore,
    body: &OnboardingUserRequest,
    now_ms: u128,
) -> (r: Reply)
    ensures
        if incomplete(*body) {
            &&& r@ == ReplyView::Json(400, error_json("missing required onboarding user fields"@))
            &&& *final(core) == *old(core)
            &&& *final(state) == *old(state)
            &&& *final(tokens) == *old(tokens)
        } else if app_core::user_step_over(old(state)@) {
            &&& r@ == ReplyView::Json(403, error_json("User step already done"@))
            &&& final(core).mode() == app_core::mode_of_onboarding(old(state)@.onboarded)
            &&& *final(state) == *old(state)
            &&& *final(tokens) == *old(tokens)
        } else {
            &&& app_core::user_created(
                old(state)@,
                final(state)@,
                account_asked(*body),
                now_ms,
            )
            &&& final(core).mode() == app_core::mode_of_onboarding(final(state)@.onboarded)
            &&& exists|code: Seq<char>|
                {
                    &&& ids::is_hyphenated(code)
                    &&& final(tokens)@ == #[trigger] old(tokens)@.with_code(code, body.client_id@)
                    &&& r@ == ReplyView::Json(200, code_json(code))
                }
        },
{
    if body.client_id.as_str().is_empty() || body.name.as_str().is_empty()
        || body.username.as_str().is_empty() || body.password.as_str().is_empty()
        || body.language.as_str().is_empty() {
        return error_reply(400, "missing required onboarding user fields");
    }
    let input: OnboardingUserInput = OnboardingUserInput {
        name: body.name.clone(),
        username: body.username.clone(),
        password: body.password.clone(),
        language: body.language.clone(),
    };
    match core.create_onboarding_user(state, &input, now_ms) {
        CreateOnboardingUserOutcome::Created => {
            let code: String = tokens.issue_auth_code(body.client_id.as_str());
            Reply::Json(200, ObjectBuilder::new().text("auth_code", code.as_str()).done())
        },
        CreateOnboardingUserOutcome::UserStepAlreadyDone => forbidden("User step already done"),
    }
}

/// Configures the home, as a request asks for.
pub fn complete_core_config(
    core: &mut AppCore,
    state: &mut OnboardingState,
    input: &OnboardingCoreConfigInput,
    now_ms: u128,
) -> (r: Reply)
    ensures
        final(core).mode() == app_core::mode_of_onboarding(final(state)@.onboarded),
        if old(state)@.has_done("core_config"@) {
            &&& r@ == ReplyView::Json(403, error_json("Core config step already done"@))
            &&& *final(state) == *old(state)
        } else if !old(state)@.has_done("user"@) {
            &&& r@ == ReplyView::Json(403, error_json("User step must be completed first"@))
            &&& *final(state) == *old(state)
        } else {
            &&& r@ == ReplyView::Json(200, ha_auth::empty_json())
            &&& final(state)@ == app_core::with_core_config(old(state)@, *input, now_ms)
        },
{
    match core.complete_onboarding_core_config(state, input, now_ms) {
        CompleteCoreConfigOutcome::Completed => Reply::Json(200, empty_object()),
        CompleteCoreConfigOutcome::CoreConfigStepAlreadyDone => forbidden(
            "Core config step already done",
        ),
        CompleteCoreConfigOutcome::UserStepRequired => forbidden(
            "User step must be completed first",
        ),
    }
}

/// The token in an authorization header.
pub open spec fn bearer_of(header: Option<&str>) -> Option<Seq<char>> {
    match header {
        Some(h) => without_prefix(h@, "Bearer "@),
        None => None,
    }
}

/// The token in an authorization header.
pub fn extract_bearer(header: Option<&str>) -> (r: Option<String>)
    ensures
        r.deep_view() == bearer_of(header),
{
    match header {
        Some(h) => strip_prefix(h, "Bearer "),
        None => None,
    }
}

/// Why a request is not let in, if it is not.
pub open spec fn bearer_fault(header: Option<&str>, tokens: TokenModel) -> Option<Seq<char>> {
    match bearer_of(header) {
        None => Some("Missing or invalid Bearer token"@),
        Some(t) => if tokens.access_tokens.contains_key(t) {
            None
        } else {
            Some("Invalid access token"@)
        },
    }
}

fn check_bearer(header: Option<&str>, tokens: &TokenStore) -> (r: Option<&'static str>)
    ensures
        match r {
            Some(m) => bearer_fault(header, tokens@) == Some(m@),
            None => bearer_fault(header, tokens@) is None,
        },
{
    match extract_bearer(header) {
        None => Some("Missing or invalid Bearer token"),
        Some(t) => if tokens.validate_access_token(t.as_str()).is_none() {
            Some("Invalid access token")
        } else {
            None
        },
    }
}

/// Notes that the question about analytics is answered, for a client with an access token.
pub fn complete_analytics(
    core: &mut AppCore,
    state: &mut OnboardingState,
    tokens: &TokenStore,
    header: Option<&str>,
    now_ms: u128,
) -> (r: Reply)
    ensures
        match bearer_fault(header, tokens@) {
            Some(m) => {
                &&& r@ == ReplyView::Json(401, error_json(m))
                &&& *final(state) == *old(state)
                &&& *final(core) == *old(core)
            },
            None => {
                &&& final(core).mode() == app_core::mode_of_onboarding(final(state)@.onboarded)
                &&& if old(state)@.has_done("analytics"@) {
                    &&& r@ == ReplyView::Json(403, error_json("Analytics step already done"@))
                    &&& *final(state) == *old(state)
                } else {
                    &&& r@ == ReplyView::Json(200, ha_auth::empty_json())
                    &&& final(state)@ == app_core::with_step(old(state)@, "analytics"@, now_ms)
                }
            },
        },
{
    if let Some(m) = check_bearer(header, tokens) {
        return unauthorized(m);
    }
    match core.complete_onboarding_analytics(state, now_ms) {
        CompleteAnalyticsOutcome::Completed => Reply::Json(200, empty_object()),
        CompleteAnalyticsOutcome::AlreadyDone => forbidden("Analytics step already done"),
    }
}

/// Notes that an app has been connected, for a client with an access token, and answers with a
/// one-time code.
pub fn complete_integration(
    core: &mut AppCore,
    state: &mut OnboardingState,
    tokens: &mut TokenStore,
    header: Option<&str>,
    client_id: &str,
    redirect_uri: &str,
    now_ms: u128,
) -> (r: Reply)
    ensures
        match bearer_fault(header, old(tokens)@) {
            Some(m) => {
                &&& r@ == ReplyView::Json(401, error_json(m))
                &&& *final(state) == *old(state)
                &&& *final(core) == *old(core)
                &&& *final(tokens) == *old(tokens)
            },
            None => if client_id@.len() == 0 || redirect_uri@.len() == 0 {
                &&& r@ == ReplyView::Json(
                    400,
                    error_json("client_id and redirect_uri are required"@),
                )
                &&& *final(state) == *old(state)
                &&& *final(core) == *old(core)
                &&& *final(tokens) == *old(tokens)
            } else if old(state)@.has_done("integration"@) {
                &&& r@ == ReplyView::Json(403, error_json("Integration step already done"@))
                &&& *final(state) == *old(state)
                &&& final(core).mode() == app_core::mode_of_onboarding(old(state)@.onboarded)
                &&& *final(tokens) == *old(tokens)
            } else {
                &&& final(state)@ == app_core::with_step(old(state)@, "integration"@, now_ms)
                &&& final(core).mode() == app_core::mode_of_onboarding(final(state)@.onboarded)
                &&& exists|code: Seq<char>|
                    {
                        &&& ids::is_hyphenated(code)
                        &&& final(tokens)@ == #[trigger] old(tokens)@.with_code(code, client_id@)
                        &&& r@ == ReplyView::Json(200, code_json(code))
                    }
            },
        },
{
    if let Some(m) = check_bearer(header, tokens) {
        return unauthorized(m);
    }
    if client_id.is_empty() || redirect_uri.is_empty() {
        return error_reply(400, "client_id and redirect_uri are required");
    }
    match core.complete_onboarding_integration(state, now_ms) {
        CompleteIntegrationOutcome::Completed => {
            let code: String = tokens.issue_auth_code(client_id);
            Reply::Json(200, ObjectBuilder::new().text("auth_code", code.as_str()).done())
        },
        CompleteIntegrationOutcome::AlreadyDone => forbidden("Integration step already done"),
    }
}

/// The answer that an integration is loaded; nothing is loaded later here.
pub fn onboarding_integration_wait() -> (r: Reply)
    ensures
        r@ == ReplyView::Json(
            200,
            JsonView::Object(
                json::no_members().push(("integration_loaded"@, JsonView::Bool(true))),
            ),
        ),
{
    Reply::Json(200, ObjectBuilder::new().field("integration_loaded", Json::Bool(true)).done())
}

/// A step on the onboarding page, and whether it is done.
pub struct OnboardingStep {
    pub done: bool,
    pub label: &'static str,
}

/// The steps on the onboarding page.
pub fn onboarding_steps(p: &OnboardingProgress) -> (r: Vec<OnboardingStep>)
    ensures
        r@.len() == 4,
        r@[0].done == p.user_done && r@[0].label@ == "Create owner account"@,
        r@[1].done == p.core_config_done && r@[1].label@ == "Configure your home"@,
        r@[2].done == p.analytics_done && r@[2].label@ == "Analytics preference"@,
        r@[3].done == p.integration_done && r@[3].label@ == "Connect Home Assistant app"@,
{
    let mut v: Vec<OnboardingStep> = Vec::new();
    v.push(OnboardingStep { done: p.user_done, label: "Create owner account" });
    v.push(OnboardingStep { done: p.core_config_done, label: "Configure your home" });
    v.push(OnboardingStep { done: p.analytics_done, label: "Analytics preference" });
    v.push(OnboardingStep { done: p.integration_done, label: "Connect Home Assistant app" });
    v
}

} // verus!
