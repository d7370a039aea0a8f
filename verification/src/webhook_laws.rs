//! What messages of devices do: laws over the states of sensors and the answers.

use vstd::prelude::*;
use vstd::string::*;

use crate::ha_webhook::{
    item_result, items_result, mobile_webhook_result, parsed_sensor, sensor_applied,
    sensor_registered, update_outcome, webhook_result, with_opt, zones_json, HookModel, SensorModel,
    Stamp, UpdateModel, WebhookStore, ZonesSource,
};
use crate::json;
use crate::json::JsonView;
use crate::keyed;
use crate::mobile_device_store::MobileDeviceRecord;
use crate::mobile_entity_store;
use crate::mobile_entity_store::{MobileEntityRecord, MobileEntityRegistration, MobileEntry};
use crate::order;
use crate::state_store;
use crate::state_store::{StateRun, StateView};
use crate::text;
use crate::value_laws::{lemma_negative_short, lemma_number_short, lemma_with, lemma_words_short};
use crate::web::ReplyView;

verus! {

/// Whether a value is the text of what a sensor of a kind says: a text itself, the digits of a whole
/// number, `on` and `off` for the truth values of a binary sensor and their names for those of
/// another, and `unknown` only where nothing is said.
pub open spec fn tells(kind: Seq<char>, said: Option<JsonView>, value: Seq<char>) -> bool {
    match said {
        None => value == "unknown"@,
        Some(JsonView::Null) => value == "unknown"@,
        Some(JsonView::Bool(true)) => value == if kind == "binary_sensor"@ {
            "on"@
        } else {
            "true"@
        },
        Some(JsonView::Bool(false)) => value == if kind == "binary_sensor"@ {
            "off"@
        } else {
            "false"@
        },
        Some(JsonView::Str(s)) => value == s,
        Some(JsonView::PosInt(n)) => value == text::decimal(n as nat),
        Some(JsonView::NegInt(n)) => value == if n < 0 {
            "-"@ + text::decimal((-n) as nat)
        } else {
            text::decimal(n as nat)
        },
        Some(JsonView::Float(t)) => value == json::serde_text(JsonView::Float(t)),
        Some(JsonView::Array(_)) => false,
        Some(JsonView::Object(_)) => false,
    }
}

/// Whether what a sensor says is a value that a state can hold, whatever its size: a text or a
/// number with a fraction may be too long.
pub open spec fn is_short(said: Option<JsonView>) -> bool {
    match said {
        Some(JsonView::Str(s)) => text::byte_count(s) <= 255,
        Some(JsonView::Float(t)) => text::byte_count(json::serde_text(JsonView::Float(t))) <= 255,
        Some(JsonView::Array(_)) => false,
        Some(JsonView::Object(_)) => false,
        _ => true,
    }
}

/// What a sensor says becomes the state of its entity, and the value of the state is the text of
/// what it says. The change is told of, with the state before. A list and an object are refused, and
/// so is a value that is too long; then all stays as it was. No other entity is touched.
pub proof fn law_sensor_shown(
    run: StateRun,
    c: SensorModel,
    record: MobileEntityRecord,
    stamp: Stamp,
    other: Seq<char>,
)
    ensures
        ({
            let (after, r) = sensor_applied(run, c, record, stamp);
            let id = record.entity_id@;
            &&& r matches Ok(value) ==> {
                &&& tells(record.entity_type@, c.state, value)
                &&& after.states.contains_key(id)
                &&& after.states[id].entity_id == id
                &&& after.states[id].state == value
                &&& after.states[id].last_changed == stamp.timestamp
                &&& after.states[id].last_updated == stamp.timestamp
                &&& after.states[id].last_reported == stamp.timestamp
                &&& after.states[id].context == stamp.context
                &&& after.events.len() == run.events.len() + 1
                &&& after.events[run.events.len() as int].0 == after.states[id]
                &&& after.events[run.events.len() as int].1 == state_store::state_in(run.states, id)
            }
            &&& r is Err ==> after == run
            &&& r is Ok <==> state_store::valid_entity_id(id) && is_short(c.state)
            &&& other != id ==> state_store::state_in(after.states, other) == state_store::state_in(
                run.states,
                other,
            )
        }),
{
    lemma_words_short();
    if let Some(JsonView::PosInt(n)) = c.state {
        lemma_number_short(n);
    }
    if let Some(JsonView::NegInt(n)) = c.state {
        if n < 0 {
            lemma_negative_short(n);
        } else {
            lemma_number_short(n as u64);
        }
    }
}

proof fn lemma_names()
    ensures
        "friendly_name"@.len() == 13,
        "device_class"@.len() == 12,
        "unit_of_measurement"@.len() == 19,
        "icon"@.len() == 4,
        "entity_category"@.len() == 15,
        "state_class"@.len() == 11,
{
    reveal_strlit("friendly_name");
    reveal_strlit("device_class");
    reveal_strlit("unit_of_measurement");
    reveal_strlit("icon");
    reveal_strlit("entity_category");
    reveal_strlit("state_class");
}

/// A text of a message or, where it gives none, of the registration, as a member of attributes.
pub open spec fn given_or_known(
    given: Option<Seq<char>>,
    known: Option<Seq<char>>,
    own: Option<JsonView>,
) -> Option<JsonView> {
    if given is Some {
        Some(JsonView::Str(given->0))
    } else if known is Some {
        Some(JsonView::Str(known->0))
    } else {
        own
    }
}

/// The attributes of the state of a sensor are those of the message, with the name that the message
/// gives and with the classes, the unit, the icon and the category of the message or, where it gives
/// none, of the registration.
pub proof fn law_sensor_attributes(
    run: StateRun,
    c: SensorModel,
    record: MobileEntityRecord,
    stamp: Stamp,
    other: Seq<char>,
)
    requires
        sensor_applied(run, c, record, stamp).1 is Ok,
    ensures
        ({
            let a = sensor_applied(run, c, record, stamp).0.states[record.entity_id@].attributes;
            let own = c.attributes;
            &&& json::member(a, "friendly_name"@) == Some(JsonView::Str(c.name))
            &&& json::member(a, "device_class"@) == given_or_known(
                c.device_class,
                record.device_class.deep_view(),
                json::member(own, "device_class"@),
            )
            &&& json::member(a, "unit_of_measurement"@) == given_or_known(
                c.unit_of_measurement,
                record.unit_of_measurement.deep_view(),
                json::member(own, "unit_of_measurement"@),
            )
            &&& json::member(a, "icon"@) == given_or_known(
                c.icon,
                record.icon.deep_view(),
                json::member(own, "icon"@),
            )
            &&& json::member(a, "entity_category"@) == given_or_known(
                c.entity_category,
                record.entity_category.deep_view(),
                json::member(own, "entity_category"@),
            )
            &&& json::member(a, "state_class"@) == given_or_known(
                c.state_class,
                record.state_class.deep_view(),
                json::member(own, "state_class"@),
            )
            &&& other != "friendly_name"@ && other != "device_class"@ && other
                != "unit_of_measurement"@ && other != "icon"@ && other != "entity_category"@ && other
                != "state_class"@ ==> json::member(a, other) == json::member(own, other)
        }),
{
    lemma_names();
    let a0 = c.attributes;
    let a1 = json::with_member(a0, "friendly_name"@, JsonView::Str(c.name));
    lemma_with(a0, "friendly_name"@, JsonView::Str(c.name));
    let v2 = crate::ha_webhook::first_of(c.device_class, record.device_class.deep_view());
    let a2 = with_opt(a1, "device_class"@, v2);
    lemma_with(a1, "device_class"@, JsonView::Str(v2->0));
    let v3 = crate::ha_webhook::first_of(
        c.unit_of_measurement,
        record.unit_of_measurement.deep_view(),
    );
    let a3 = with_opt(a2, "unit_of_measurement"@, v3);
    lemma_with(a2, "unit_of_measurement"@, JsonView::Str(v3->0));
    let v4 = crate::ha_webhook::first_of(c.icon, record.icon.deep_view());
    let a4 = with_opt(a3, "icon"@, v4);
    lemma_with(a3, "icon"@, JsonView::Str(v4->0));
    let v5 = crate::ha_webhook::first_of(c.entity_category, record.entity_category.deep_view());
    let a5 = with_opt(a4, "entity_category"@, v5);
    lemma_with(a4, "entity_category"@, JsonView::Str(v5->0));
    let v6 = crate::ha_webhook::first_of(c.state_class, record.state_class.deep_view());
    lemma_with(a5, "state_class"@, JsonView::Str(v6->0));
}

/// A message on a sensor is understood if it names a kind that there is, an id and, where one is
/// asked for, a name, and if each further text is a text or null; only a plain sensor has a state
/// class. What is understood is what the message holds.
pub proof fn law_sensor_parsed(j: JsonView, require_name: bool)
    ensures
        parsed_sensor(j, require_name) matches Some(c) ==> {
            &&& j.field("type"@) == Some(JsonView::Str(c.entity_type))
            &&& c.entity_type == "sensor"@ || c.entity_type == "binary_sensor"@
            &&& j.field("unique_id"@) == Some(JsonView::Str(c.unique_id))
            &&& c.unique_id.len() > 0
            &&& c.name.len() > 0
            &&& match j.field("name"@) {
                Some(JsonView::Str(n)) => c.name == n,
                _ => !require_name && c.name == c.unique_id,
            }
            &&& c.state == j.field("state"@)
            &&& match j.field("attributes"@) {
                Some(JsonView::Object(m)) => c.attributes == m,
                _ => c.attributes.len() == 0,
            }
            &&& is_given(j.field("device_class"@), c.device_class)
            &&& is_given(j.field("unit_of_measurement"@), c.unit_of_measurement)
            &&& is_given(j.field("entity_category"@), c.entity_category)
            &&& is_given(j.field("state_class"@), c.state_class)
            &&& c.state_class is Some ==> c.entity_type == "sensor"@
            &&& match j.field("icon"@) {
                Some(JsonView::Str(s)) => c.icon == Some(s),
                _ => c.icon == Some("mdi:cellphone"@),
            }
            &&& c.disabled <==> j.field("disabled"@) == Some(JsonView::Bool(true))
        },
        (j.field("type"@) == Some(JsonView::Str("sensor"@)) || j.field("type"@) == Some(
            JsonView::Str("binary_sensor"@),
        )) && (j.field("unique_id"@) matches Some(JsonView::Str(u)) && u.len() > 0) && (j.field(
            "name"@,
        ) matches Some(JsonView::Str(n)) && n.len() > 0) && is_text(j.field("device_class"@))
            && is_text(j.field("unit_of_measurement"@)) && is_text(j.field("entity_category"@))
            && is_text(j.field("icon"@)) && (is_text(j.field("state_class"@)) && (j.field("type"@)
            == Some(JsonView::Str("sensor"@)) || !(j.field("state_class"@) matches Some(
            JsonView::Str(_),
        )))) ==> parsed_sensor(j, require_name) is Some,
{
}

/// Whether a member is a text, null or not there.
pub open spec fn is_text(j: Option<JsonView>) -> bool {
    match j {
        None => true,
        Some(JsonView::Null) => true,
        Some(JsonView::Str(_)) => true,
        Some(_) => false,
    }
}

/// Whether a text is the one that a member gives.
pub open spec fn is_given(j: Option<JsonView>, t: Option<Seq<char>>) -> bool {
    match j {
        Some(JsonView::Str(s)) => t == Some(s),
        None => t is None,
        Some(JsonView::Null) => t is None,
        Some(_) => false,
    }
}

/// The record that a message of a device speaks of: the one of its webhook with the kind and the id
/// that the message names.
pub open spec fn spoken_of(
    entities: Seq<MobileEntry>,
    webhook_id: Seq<char>,
    item: JsonView,
) -> Option<MobileEntityRecord> {
    match (item.field("type"@), item.field("unique_id"@)) {
        (Some(JsonView::Str(kind)), Some(JsonView::Str(unique_id))) => match keyed::key_get(
            entities,
            kind + ":"@ + webhook_id + ":"@ + unique_id,
        ) {
            Some(e) => Some(e.record),
            None => None,
        },
        _ => None,
    }
}

/// Whether the value of an entity is what a message says.
pub open spec fn shown_by(
    states: Map<Seq<char>, StateView>,
    record: MobileEntityRecord,
    item: JsonView,
) -> bool {
    &&& states.contains_key(record.entity_id@)
    &&& states[record.entity_id@].entity_id == record.entity_id@
    &&& tells(record.entity_type@, item.field("state"@), states[record.entity_id@].state)
}

/// A device that registers a sensor finds it stored, with what the message says of it, and the value
/// of its entity is what the message gives as the state. The answer is 201. A value that cannot be
/// held is answered with 400, and the state stays; the sensor is stored all the same.
pub proof fn law_sensor_registered(
    before: HookModel,
    after: HookModel,
    device: MobileDeviceRecord,
    payload: JsonView,
    data: JsonView,
    product_name: Seq<char>,
    source: Option<ZonesSource>,
    r: ReplyView,
)
    requires
        mobile_webhook_result(before, after, device, payload, product_name, source, r),
        payload.field("type"@) == Some(JsonView::Str("register_sensor"@)),
        payload.field("data"@) == Some(data),
        parsed_sensor(data, true) is Some,
        device.webhook_id@.len() > 0,
        order::ascending(before.entities),
    ensures
        ({
            let c = parsed_sensor(data, true)->0;
            let known = spoken_of(before.entities, device.webhook_id@, data);
            &&& spoken_of(after.entities, device.webhook_id@, data) is Some
            &&& {
                let record = spoken_of(after.entities, device.webhook_id@, data)->0;
                &&& record.webhook_id@ == device.webhook_id@
                &&& record.entity_type@ == c.entity_type
                &&& record.sensor_unique_id@ == c.unique_id
                &&& record.sensor_name@ == c.name
                &&& record.device_class.deep_view() == c.device_class
                &&& record.unit_of_measurement.deep_view() == c.unit_of_measurement
                &&& record.icon.deep_view() == c.icon
                &&& record.entity_category.deep_view() == c.entity_category
                &&& record.state_class.deep_view() == c.state_class
                &&& record.disabled == c.disabled
                &&& known is Some ==> record.entity_id@ == known->0.entity_id@
                    && record.name_by_user == known->0.name_by_user && record.user_area_id
                    == known->0.user_area_id
                &&& known is None ==> state_store::valid_entity_id(record.entity_id@)
                    && record.name_by_user is None && record.user_area_id is None
                &&& if state_store::valid_entity_id(record.entity_id@) && is_short(
                    data.field("state"@),
                ) {
                    &&& shown_by(after.run.states, record, data)
                    &&& r == ReplyView::Json(
                        201,
                        JsonView::Object(
                            Seq::<(Seq<char>, JsonView)>::empty().push(
                                ("success"@, JsonView::Bool(true)),
                            ),
                        ),
                    )
                    &&& if record.state_class is Some || record.unit_of_measurement is Some {
                        after.readings == before.readings.push(
                            (record.entity_id@, after.run.states[record.entity_id@].state),
                        )
                    } else {
                        after.readings == before.readings
                    }
                } else {
                    &&& after.run == before.run
                    &&& after.readings == before.readings
                    &&& r matches ReplyView::Json(400, _)
                }
            }
        }),
{
    let c = parsed_sensor(data, true)->0;
    let webhook_id = device.webhook_id@;
    let (reg, entry, stamp) = choose|
        reg: MobileEntityRegistration,
        entry: MobileEntry,
        stamp: Stamp,
    |
        #[trigger] sensor_registered(before, after, webhook_id, c, reg, entry, stamp, r);
    assert(mobile_entity_store::registration_fault(reg) is None);
    crate::ha_webhook::law_registered_sensor_known(
        before,
        after,
        webhook_id,
        c,
        reg,
        entry,
        stamp,
        r,
    );
    law_sensor_shown(before.run, c, entry.record, stamp, ""@);
    mobile_entity_store::law_entity_id_valid(webhook_id, c.entity_type, c.unique_id);
}

/// Whether a message tells of a state that is taken: it speaks of a record, is understood and gives
/// a value that can be held.
pub open spec fn is_taken(
    entities: Seq<MobileEntry>,
    webhook_id: Seq<char>,
    item: JsonView,
) -> bool {
    let record = spoken_of(entities, webhook_id, item);
    &&& record is Some
    &&& parsed_sensor(item, false) is Some
    &&& state_store::valid_entity_id(record->0.entity_id@)
    &&& is_short(item.field("state"@))
}

proof fn lemma_item(
    u: UpdateModel,
    entities: Seq<MobileEntry>,
    webhook_id: Seq<char>,
    item: JsonView,
    stamp: Stamp,
)
    requires
        crate::ha_webhook::names_sensor(item),
    ensures
        ({
            let after = item_result(u, entities, webhook_id, item, stamp);
            let record = spoken_of(entities, webhook_id, item);
            &&& is_taken(entities, webhook_id, item) ==> {
                &&& shown_by(after.run.states, record->0, item)
                &&& after.run.events.len() == u.run.events.len() + 1
                &&& after.readings == if record->0.state_class is Some
                    || record->0.unit_of_measurement is Some {
                    u.readings.push(
                        (record->0.entity_id@, after.run.states[record->0.entity_id@].state),
                    )
                } else {
                    u.readings
                }
            }
            &&& !is_taken(entities, webhook_id, item) ==> after.run == u.run && after.readings
                == u.readings
            &&& forall|other: Seq<char>|
                record is None || other != record->0.entity_id@ ==> #[trigger] state_store::state_in(
                    after.run.states,
                    other,
                ) == state_store::state_in(u.run.states, other)
        }),
{
    let record = spoken_of(entities, webhook_id, item);
    if record is Some && parsed_sensor(item, false) is Some {
        let c = parsed_sensor(item, false)->0;
        law_sensor_shown(u.run, c, record->0, stamp, ""@);
        assert forall|other: Seq<char>| other != record->0.entity_id@ implies
            #[trigger] state_store::state_in(
            item_result(u, entities, webhook_id, item, stamp).run.states,
            other,
        ) == state_store::state_in(u.run.states, other) by {
            law_sensor_shown(u.run, c, record->0, stamp, other);
        }
    }
}

proof fn lemma_items(
    u: UpdateModel,
    entities: Seq<MobileEntry>,
    webhook_id: Seq<char>,
    items: Seq<JsonView>,
    stamps: Seq<Stamp>,
    i: int,
)
    requires
        0 <= i < items.len() == stamps.len(),
        crate::ha_webhook::all_named(items),
        is_taken(entities, webhook_id, items[i]),
        forall|j: int|
            i < j < items.len() && spoken_of(entities, webhook_id, #[trigger] items[j]) is Some
                ==> spoken_of(entities, webhook_id, items[j])->0.entity_id@ != spoken_of(
                entities,
                webhook_id,
                items[i],
            )->0.entity_id@,
    ensures
        shown_by(
            items_result(u, entities, webhook_id, items, stamps).run.states,
            spoken_of(entities, webhook_id, items[i])->0,
            items[i],
        ),
    decreases items.len(),
{
    let n = (items.len() - 1) as int;
    let front = items.drop_last();
    let v = items_result(u, entities, webhook_id, front, stamps.drop_last());
    lemma_item(v, entities, webhook_id, items[n], stamps[n]);
    if i < n {
        assert forall|j: int| 0 <= j < front.len() implies crate::ha_webhook::names_sensor(
            #[trigger] front[j],
        ) by {
            assert(front[j] == items[j]);
        }
        assert(front[i] == items[i]);
        assert forall|j: int|
            i < j < front.len() && spoken_of(entities, webhook_id, #[trigger] front[j]) is Some
            implies spoken_of(entities, webhook_id, front[j])->0.entity_id@ != spoken_of(
            entities,
            webhook_id,
            front[i],
        )->0.entity_id@ by {
            assert(front[j] == items[j]);
        }
        lemma_items(u, entities, webhook_id, front, stamps.drop_last(), i);
        let id = spoken_of(entities, webhook_id, items[i])->0.entity_id@;
        let after = items_result(u, entities, webhook_id, items, stamps);
        assert(state_store::state_in(after.run.states, id) == state_store::state_in(
            v.run.states,
            id,
        ));
    }
}

proof fn lemma_items_else(
    u: UpdateModel,
    entities: Seq<MobileEntry>,
    webhook_id: Seq<char>,
    items: Seq<JsonView>,
    stamps: Seq<Stamp>,
    other: Seq<char>,
)
    requires
        items.len() == stamps.len(),
        crate::ha_webhook::all_named(items),
        forall|j: int|
            0 <= j < items.len() && is_taken(entities, webhook_id, #[trigger] items[j])
                ==> spoken_of(entities, webhook_id, items[j])->0.entity_id@ != other,
    ensures
        state_store::state_in(
            items_result(u, entities, webhook_id, items, stamps).run.states,
            other,
        ) == state_store::state_in(u.run.states, other),
    decreases items.len(),
{
    if items.len() > 0 {
        let n = (items.len() - 1) as int;
        let front = items.drop_last();
        let v = items_result(u, entities, webhook_id, front, stamps.drop_last());
        assert(forall|j: int| 0 <= j < front.len() ==> #[trigger] front[j] == items[j]);
        lemma_item(v, entities, webhook_id, items[n], stamps[n]);
        lemma_items_else(u, entities, webhook_id, front, stamps.drop_last(), other);
        assert(is_taken(entities, webhook_id, items[n]) ==> spoken_of(
            entities,
            webhook_id,
            items[n],
        )->0.entity_id@ != other);
        let after = items_result(u, entities, webhook_id, items, stamps);
        assert(state_store::state_in(after.run.states, other) == state_store::state_in(
            v.run.states,
            other,
        ));
    }
}

/// After a device has updated its sensors, the value of each is what the last message on it says.
/// An entity that no message tells of stays as it was, and no sensor is added or lost.
pub proof fn law_sensors_updated(
    before: HookModel,
    after: HookModel,
    device: MobileDeviceRecord,
    payload: JsonView,
    items: Seq<JsonView>,
    product_name: Seq<char>,
    source: Option<ZonesSource>,
    r: ReplyView,
    i: int,
    other: Seq<char>,
)
    requires
        mobile_webhook_result(before, after, device, payload, product_name, source, r),
        payload.field("type"@) == Some(JsonView::Str("update_sensor_states"@)),
        payload.field("data"@) == Some(JsonView::Array(items)),
        forall|j: int|
            0 <= j < items.len() ==> ((#[trigger] items[j]).field("type"@) matches Some(
                JsonView::Str(_),
            )) && (items[j].field("unique_id"@) matches Some(JsonView::Str(_))),
        0 <= i < items.len(),
    ensures
        is_taken(before.entities, device.webhook_id@, items[i]) && (forall|j: int|
            i < j < items.len() && spoken_of(
                before.entities,
                device.webhook_id@,
                #[trigger] items[j],
            ) is Some ==> spoken_of(before.entities, device.webhook_id@, items[j])->0.entity_id@
                != spoken_of(before.entities, device.webhook_id@, items[i])->0.entity_id@)
            ==> shown_by(
            after.run.states,
            spoken_of(before.entities, device.webhook_id@, items[i])->0,
            items[i],
        ),
        (forall|j: int|
            0 <= j < items.len() && is_taken(
                before.entities,
                device.webhook_id@,
                #[trigger] items[j],
            ) ==> spoken_of(before.entities, device.webhook_id@, items[j])->0.entity_id@ != other)
            ==> state_store::state_in(after.run.states, other) == state_store::state_in(
            before.run.states,
            other,
        ),
        after.entities == before.entities,
        r matches ReplyView::Json(200, _),
{
    reveal_strlit("register_sensor");
    reveal_strlit("update_sensor_states");
    assert("register_sensor"@.len() == 15 && "update_sensor_states"@.len() == 20);
    assert(crate::ha_webhook::all_named(items));
    let id = device.webhook_id@;
    let stamps = choose|stamps: Seq<Stamp>|
        #[trigger] update_outcome(before, after, id, items, stamps, r);
    let u = UpdateModel {
        run: before.run,
        readings: before.readings,
        response: json::no_members(),
    };
    if is_taken(before.entities, id, items[i]) && (forall|j: int|
        i < j < items.len() && spoken_of(before.entities, id, #[trigger] items[j]) is Some
            ==> spoken_of(before.entities, id, items[j])->0.entity_id@ != spoken_of(
            before.entities,
            id,
            items[i],
        )->0.entity_id@) {
        lemma_items(u, before.entities, id, items, stamps, i);
    }
    if forall|j: int|
        0 <= j < items.len() && is_taken(before.entities, id, #[trigger] items[j]) ==> spoken_of(
            before.entities,
            id,
            items[j],
        )->0.entity_id@ != other {
        lemma_items_else(u, before.entities, id, items, stamps, other);
    }
}

proof fn lemma_answer_names()
    ensures
        "success"@.len() == 7,
        "error"@.len() == 5,
        "code"@.len() == 4,
        "message"@.len() == 7,
        "is_disabled"@.len() == 11,
        "success"@ != "message"@,
        "not_registered"@ != "invalid_format"@,
{
    reveal_strlit("success");
    reveal_strlit("error");
    reveal_strlit("code");
    reveal_strlit("message");
    reveal_strlit("is_disabled");
    reveal_strlit("not_registered");
    reveal_strlit("invalid_format");
    assert("success"@[0] == 's' && "message"@[0] == 'm');
    assert("not_registered"@[0] == 'n' && "invalid_format"@[0] == 'i');
}

/// Whether an answer is the one that a message on a sensor gets: success where the state is taken,
/// and whether the sensor is disabled; else an error that tells an unknown sensor from a bad message.
pub open spec fn answers(
    entities: Seq<MobileEntry>,
    webhook_id: Seq<char>,
    item: JsonView,
    answer: JsonView,
) -> bool {
    let record = spoken_of(entities, webhook_id, item);
    if is_taken(entities, webhook_id, item) {
        &&& answer.field("success"@) == Some(JsonView::Bool(true))
        &&& answer.field("error"@) is None
        &&& answer.field("is_disabled"@) == if record->0.disabled {
            Some(JsonView::Bool(true))
        } else {
            None
        }
    } else {
        &&& answer.field("success"@) == Some(JsonView::Bool(false))
        &&& answer.field("error"@) is Some
        &&& answer.field("error"@)->0.field("code"@) == Some(
            JsonView::Str(
                if record is None {
                    "not_registered"@
                } else {
                    "invalid_format"@
                },
            ),
        )
    }
}

proof fn lemma_item_answer(
    u: UpdateModel,
    entities: Seq<MobileEntry>,
    webhook_id: Seq<char>,
    item: JsonView,
    stamp: Stamp,
)
    requires
        crate::ha_webhook::names_sensor(item),
    ensures
        ({
            let after = item_result(u, entities, webhook_id, item, stamp).response;
            let unique_id = item.str_field("unique_id"@)->0;
            &&& json::member(after, unique_id) is Some
            &&& answers(entities, webhook_id, item, json::member(after, unique_id)->0)
            &&& forall|other: Seq<char>|
                other != unique_id ==> #[trigger] json::member(after, other) == json::member(
                    u.response,
                    other,
                )
        }),
{
    lemma_answer_names();
    reveal_with_fuel(json::member_from, 4);
    let unique_id = item.str_field("unique_id"@)->0;
    let record = spoken_of(entities, webhook_id, item);
    let after = item_result(u, entities, webhook_id, item, stamp).response;
    if record is Some && parsed_sensor(item, false) is Some {
        let c = parsed_sensor(item, false)->0;
        law_sensor_shown(u.run, c, record->0, stamp, ""@);
    }
    let answer = if record is None {
        crate::ha_webhook::failure_json(
            "not_registered"@,
            item.str_field("type"@)->0 + " "@ + unique_id + " is not registered"@,
        )
    } else if parsed_sensor(item, false) is None {
        crate::ha_webhook::failure_json(
            "invalid_format"@,
            "invalid sensor payload for "@ + item.str_field("type"@)->0 + " "@ + unique_id,
        )
    } else {
        let c = parsed_sensor(item, false)->0;
        match sensor_applied(u.run, c, record->0, stamp).1 {
            Ok(_) => crate::ha_webhook::updated_json(record->0.disabled),
            Err(m) => crate::ha_webhook::failure_json("invalid_format"@, m),
        }
    };
    assert(after == json::with_member(u.response, unique_id, answer));
    lemma_with(u.response, unique_id, answer);
}

proof fn lemma_items_answer(
    u: UpdateModel,
    entities: Seq<MobileEntry>,
    webhook_id: Seq<char>,
    items: Seq<JsonView>,
    stamps: Seq<Stamp>,
    i: int,
)
    requires
        0 <= i < items.len() == stamps.len(),
        crate::ha_webhook::all_named(items),
        forall|j: int|
            i < j < items.len() ==> (#[trigger] items[j]).field("unique_id"@) != items[i].field(
                "unique_id"@,
            ),
    ensures
        ({
            let after = items_result(u, entities, webhook_id, items, stamps).response;
            let told = json::member(after, items[i].str_field("unique_id"@)->0);
            told is Some && answers(entities, webhook_id, items[i], told->0)
        }),
    decreases items.len(),
{
    let n = (items.len() - 1) as int;
    let front = items.drop_last();
    let v = items_result(u, entities, webhook_id, front, stamps.drop_last());
    assert(crate::ha_webhook::names_sensor(items[n]));
    lemma_item_answer(v, entities, webhook_id, items[n], stamps[n]);
    if i < n {
        assert(forall|j: int| 0 <= j < front.len() ==> #[trigger] front[j] == items[j]);
        assert(crate::ha_webhook::names_sensor(items[i]));
        lemma_items_answer(u, entities, webhook_id, front, stamps.drop_last(), i);
        assert(items[n].field("unique_id"@) != items[i].field("unique_id"@));
    }
}

/// The answer to an update of sensors tells of each sensor, under its id, how the last message on it
/// fared.
pub proof fn law_update_answered(
    before: HookModel,
    after: HookModel,
    device: MobileDeviceRecord,
    payload: JsonView,
    items: Seq<JsonView>,
    product_name: Seq<char>,
    source: Option<ZonesSource>,
    r: ReplyView,
    i: int,
)
    requires
        mobile_webhook_result(before, after, device, payload, product_name, source, r),
        payload.field("type"@) == Some(JsonView::Str("update_sensor_states"@)),
        payload.field("data"@) == Some(JsonView::Array(items)),
        forall|j: int|
            0 <= j < items.len() ==> ((#[trigger] items[j]).field("type"@) matches Some(
                JsonView::Str(_),
            )) && (items[j].field("unique_id"@) matches Some(JsonView::Str(_))),
        0 <= i < items.len(),
        forall|j: int|
            i < j < items.len() ==> (#[trigger] items[j]).field("unique_id"@) != items[i].field(
                "unique_id"@,
            ),
    ensures
        r matches ReplyView::Json(200, told) && {
            let answer = told.field(items[i].field("unique_id"@)->0->Str_0);
            answer is Some && answers(before.entities, device.webhook_id@, items[i], answer->0)
        },
{
    reveal_strlit("register_sensor");
    reveal_strlit("update_sensor_states");
    assert("register_sensor"@.len() == 15 && "update_sensor_states"@.len() == 20);
    assert(crate::ha_webhook::all_named(items));
    let id = device.webhook_id@;
    let stamps = choose|stamps: Seq<Stamp>|
        #[trigger] update_outcome(before, after, id, items, stamps, r);
    let u = UpdateModel {
        run: before.run,
        readings: before.readings,
        response: json::no_members(),
    };
    lemma_items_answer(u, before.entities, id, items, stamps, i);
}

/// A device that asks for its configuration is told its webhook and its secret, and the name of the
/// place. It has no cloud hook, no remote address and no user. Nothing changes.
pub proof fn law_config_told(
    before: HookModel,
    after: HookModel,
    device: MobileDeviceRecord,
    payload: JsonView,
    product_name: Seq<char>,
    source: Option<ZonesSource>,
    r: ReplyView,
)
    requires
        mobile_webhook_result(before, after, device, payload, product_name, source, r),
        payload.field("type"@) == Some(JsonView::Str("get_config"@)),
    ensures
        after == before,
        r matches ReplyView::Json(200, told) && {
            &&& told.field("webhook_id"@) == Some(JsonView::Str(device.webhook_id@))
            &&& told.field("secret"@) == match device.secret {
                Some(s) => Some(JsonView::Str(s@)),
                None => Some(JsonView::Null),
            }
            &&& told.field("location_name"@) == Some(JsonView::Str(product_name))
            &&& told.field("cloudhook_url"@) == Some(JsonView::Null)
            &&& told.field("remote_ui_url"@) == Some(JsonView::Null)
            &&& told.field("user_id"@) == Some(JsonView::Null)
        },
{
    reveal_strlit("register_sensor");
    reveal_strlit("update_sensor_states");
    reveal_strlit("get_config");
    assert("register_sensor"@.len() == 15 && "update_sensor_states"@.len() == 20
        && "get_config"@.len() == 10);
    reveal_strlit("webhook_id");
    reveal_strlit("secret");
    reveal_strlit("location_name");
    reveal_strlit("cloudhook_url");
    reveal_strlit("remote_ui_url");
    reveal_strlit("user_id");
    reveal_strlit("entities");
    assert("webhook_id"@.len() == 10 && "secret"@.len() == 6 && "location_name"@.len() == 13
        && "cloudhook_url"@.len() == 13 && "remote_ui_url"@.len() == 13 && "user_id"@.len() == 7
        && "entities"@.len() == 8);
    assert("location_name"@[0] == 'l' && "cloudhook_url"@[0] == 'c' && "remote_ui_url"@[0] == 'r');
    reveal_with_fuel(json::member_from, 8);
}

/// Whether an item tells of a zone: its id, its name and its place.
pub open spec fn tells_zone(
    item: JsonView,
    id: Seq<char>,
    name: Seq<char>,
    latitude: Option<Seq<char>>,
    longitude: Option<Seq<char>>,
    radius: Seq<char>,
    passive: bool,
    icon: Option<Seq<char>>,
) -> bool {
    &&& item.field("entity_id"@) == Some(JsonView::Str("zone."@ + id))
    &&& item.field("state"@) == Some(JsonView::Str("0"@))
    &&& item.field("attributes"@) matches Some(a) && {
        &&& a.field("friendly_name"@) == Some(JsonView::Str(name))
        &&& a.field("latitude"@) == match latitude {
            Some(x) => Some(JsonView::Float(x)),
            None => Some(JsonView::Null),
        }
        &&& a.field("longitude"@) == match longitude {
            Some(x) => Some(JsonView::Float(x)),
            None => Some(JsonView::Null),
        }
        &&& a.field("radius"@) == Some(JsonView::Float(radius))
        &&& a.field("passive"@) == Some(JsonView::Bool(passive))
        &&& a.field("icon"@) == match icon {
            Some(x) => Some(JsonView::Str(x)),
            None => Some(JsonView::Null),
        }
    }
}

proof fn lemma_zone(
    entity_id: Seq<char>,
    name: Seq<char>,
    latitude: Option<Seq<char>>,
    longitude: Option<Seq<char>>,
    radius: Seq<char>,
    passive: bool,
    icon: Option<Seq<char>>,
    id: Seq<char>,
)
    requires
        entity_id == "zone."@ + id,
    ensures
        tells_zone(
            crate::zone_store::zone_state_json(
                entity_id,
                name,
                latitude,
                longitude,
                radius,
                passive,
                icon,
            ),
            id,
            name,
            latitude,
            longitude,
            radius,
            passive,
            icon,
        ),
{
    reveal_strlit("entity_id");
    reveal_strlit("state");
    reveal_strlit("attributes");
    reveal_strlit("friendly_name");
    reveal_strlit("latitude");
    reveal_strlit("longitude");
    reveal_strlit("radius");
    reveal_strlit("passive");
    reveal_strlit("persons");
    reveal_strlit("editable");
    reveal_strlit("icon");
    assert("entity_id"@.len() == 9 && "state"@.len() == 5 && "attributes"@.len() == 10);
    assert("friendly_name"@.len() == 13 && "latitude"@.len() == 8 && "longitude"@.len() == 9
        && "radius"@.len() == 6 && "passive"@.len() == 7 && "persons"@.len() == 7
        && "editable"@.len() == 8 && "icon"@.len() == 4);
    assert("passive"@[1] == 'a' && "persons"@[1] == 'e');
    assert("latitude"@[0] == 'l' && "editable"@[0] == 'e');
    reveal_with_fuel(json::member_from, 9);
}

proof fn lemma_placed(zones: Seq<crate::zone_store::StoredZone>, k: int)
    requires
        0 <= k < zones.len(),
        zones[k].latitude is Some,
        zones[k].longitude is Some,
    ensures
        exists|i: int|
            0 <= i < crate::ha_webhook::placed_zones(zones).len()
                && #[trigger] crate::ha_webhook::placed_zones(zones)[i]
                == crate::ha_webhook::zone_json(zones[k]),
    decreases zones.len(),
{
    let n = (zones.len() - 1) as int;
    let all = crate::ha_webhook::placed_zones(zones);
    let front = zones.drop_last();
    let part = crate::ha_webhook::placed_zones(front);
    if k == n {
        assert(all[all.len() - 1] == crate::ha_webhook::zone_json(zones[k]));
    } else {
        assert(front[k] == zones[k]);
        lemma_placed(front, k);
        let i = choose|i: int|
            0 <= i < part.len() && #[trigger] part[i] == crate::ha_webhook::zone_json(front[k]);
        assert(all[i] == part[i]);
    }
}

/// A device that asks for the zones is told of the home zone first, which has the name and the place
/// of the installation, and then of each zone with a place. Nothing changes.
pub proof fn law_zones_told(
    before: HookModel,
    after: HookModel,
    device: MobileDeviceRecord,
    payload: JsonView,
    product_name: Seq<char>,
    source: ZonesSource,
    r: ReplyView,
    k: int,
)
    requires
        mobile_webhook_result(before, after, device, payload, product_name, Some(source), r),
        payload.field("type"@) == Some(JsonView::Str("get_zones"@)),
    ensures
        after == before,
        r matches ReplyView::Json(200, JsonView::Array(told)) && {
            let o = source.onboarding@;
            &&& told.len() >= 1
            &&& tells_zone(
                told[0],
                "home"@,
                if o.location_name is Some {
                    o.location_name->0
                } else {
                    "Home"@
                },
                o.latitude,
                o.longitude,
                o.radius,
                false,
                Some("mdi:home"@),
            )
            &&& 0 <= k < source.zones@.len() && source.zones@[k].latitude is Some
                && source.zones@[k].longitude is Some ==> exists|i: int|
                0 < i < told.len() && tells_zone(
                    #[trigger] told[i],
                    source.zones@[k].zone_id@,
                    source.zones@[k].name@,
                    source.zones@[k].latitude.deep_view(),
                    source.zones@[k].longitude.deep_view(),
                    source.zones@[k].radius@,
                    source.zones@[k].passive,
                    source.zones@[k].icon.deep_view(),
                )
        },
{
    reveal_strlit("register_sensor");
    reveal_strlit("update_sensor_states");
    reveal_strlit("get_config");
    reveal_strlit("get_zones");
    assert("register_sensor"@.len() == 15 && "update_sensor_states"@.len() == 20
        && "get_config"@.len() == 10 && "get_zones"@.len() == 9);
    reveal_strlit("zone.home");
    reveal_strlit("zone.");
    reveal_strlit("home");
    assert("zone.home"@ =~= "zone."@ + "home"@);
    let o = source.onboarding@;
    lemma_zone(
        "zone.home"@,
        if o.location_name is Some {
            o.location_name->0
        } else {
            "Home"@
        },
        o.latitude,
        o.longitude,
        o.radius,
        false,
        Some("mdi:home"@),
        "home"@,
    );
    let told = zones_json(Some(source))->Array_0;
    if 0 <= k < source.zones@.len() && source.zones@[k].latitude is Some
        && source.zones@[k].longitude is Some {
        let z = source.zones@[k];
        lemma_placed(source.zones@, k);
        let part = crate::ha_webhook::placed_zones(source.zones@);
        let i = choose|i: int|
            0 <= i < part.len() && #[trigger] part[i] == crate::ha_webhook::zone_json(z);
        lemma_zone(
            "zone."@ + z.zone_id@,
            z.name@,
            z.latitude.deep_view(),
            z.longitude.deep_view(),
            z.radius@,
            z.passive,
            z.icon.deep_view(),
            z.zone_id@,
        );
        assert(told[i + 1] == part[i]);
    }
}

/// What a device posts to its webhook is kept, last, and its webhook is known from then on. A message
/// that says that it is JSON and is not is answered with 400 and not kept. For a webhook without a
/// device the answer is empty, and what was posted is kept just where the webhook is known.
pub proof fn law_webhook_answered(
    hooks0: WebhookStore,
    hooks1: WebhookStore,
    before: HookModel,
    after: HookModel,
    webhook_id: Seq<char>,
    device: Option<MobileDeviceRecord>,
    content_type: &str,
    body: Option<JsonView>,
    product_name: Seq<char>,
    source: Option<ZonesSource>,
    r: ReplyView,
)
    requires
        webhook_result(
            hooks0,
            hooks1,
            before,
            after,
            webhook_id,
            device,
            Some(content_type),
            body,
            product_name,
            source,
            r,
        ),
    ensures
        ({
            let says_json = text::has_text(content_type@, "application/json"@);
            let payload = if says_json && body is Some {
                body->0
            } else {
                JsonView::Null
            };
            &&& device is Some && says_json && body is None ==> hooks1 == hooks0 && after == before
                && (r matches ReplyView::Json(400, _))
            &&& device is Some && (says_json ==> body is Some) ==> {
                &&& hooks1.knows(webhook_id)
                &&& hooks1.posted(webhook_id) == hooks0.posted(webhook_id).push(payload)
                &&& mobile_webhook_result(
                    before,
                    after,
                    device->0,
                    payload,
                    product_name,
                    source,
                    r,
                )
            }
            &&& device is None ==> {
                &&& after == before
                &&& r == ReplyView::Json(200, JsonView::Object(Seq::empty()))
                &&& if hooks0.knows(webhook_id) {
                    hooks1.posted(webhook_id) == hooks0.posted(webhook_id).push(payload)
                } else {
                    hooks1 == hooks0
                }
            }
        }),
{
}

/// Why a state of a sensor is refused: its entity id is none, or its value is too long.
pub proof fn law_refusal_told(
    run: StateRun,
    c: SensorModel,
    record: MobileEntityRecord,
    stamp: Stamp,
)
    requires
        sensor_applied(run, c, record, stamp).1 is Err,
        !(c.state matches Some(JsonView::Array(_))),
        !(c.state matches Some(JsonView::Object(_))),
    ensures
        sensor_applied(run, c, record, stamp).1 matches Err(m) && m
            == if !state_store::valid_entity_id(record.entity_id@) {
            "Invalid entity ID: "@ + record.entity_id@
        } else {
            "State value exceeds maximum length of 255"@
        },
{
}

} // verus!
