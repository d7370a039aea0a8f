//! What Zigbee reports show: laws over the states of entities.

use vstd::prelude::*;
use vstd::string::*;

use crate::ids;
use crate::json;
use crate::json::{Json, JsonView, Members};
use crate::keyed;
use crate::keyed::Keyed;
use crate::logbook_store::LogModel;
use crate::order;
use crate::state_store;
use crate::state_store::{StateRun, StateView};
use crate::text;
use crate::value_laws::{lemma_ascii_bytes, lemma_number_short, lemma_with, lemma_words_short};
use crate::zigbee_device_store;
use crate::zigbee_device_store::ZigbeeDeviceRecord;
use crate::zigbee_entity_store::{ZigbeeEntityModel, ZigbeeEntityRecord};
use crate::zigbee_integration::{
    and_if, color_temp_in, device_entities, endpoints_have, entities_at, event_result, gone,
    gone_state, gone_to, heard_of, ias_class, id_base, interviewed_record, is_stamp, joined_record,
    kelvin_of, law_kelvin_nearest, log_changes, models, new_entity, plain_context, published_value,
    pushed, pushed_to, reading_of, readings_of, reported_attributes, restorable, restored,
    state_class_of, unavailable_all, with_color, with_reported, with_text, zone_type_of,
    ColorReadings, DeviceInfo, EndpointDesc, LatestValue, ReadingModel, Stamp, ZigbeeEvent,
    MAX_WHOLE_MIREDS,
};

verus! {

/// Whether no two entities share an id.
pub open spec fn distinct_ids(ents: Seq<ZigbeeEntityModel>) -> bool {
    forall|i: int, j: int|
        0 <= i < j < ents.len() ==> (#[trigger] ents[i]).entity_id != (#[trigger] ents[j]).entity_id
}

/// The state that a report makes for an entity, with a value.
spec fn made(
    e: ZigbeeEntityModel,
    v: Seq<char>,
    raw: Members,
    readings: ColorReadings,
    stamp: Stamp,
) -> StateView {
    state_store::state_at(
        e.entity_id,
        v,
        reported_attributes(e, raw, readings),
        plain_context(stamp.1),
        stamp.0,
    )
}

proof fn lemma_untouched(
    run: StateRun,
    ents: Seq<ZigbeeEntityModel>,
    raw: Members,
    readings: ColorReadings,
    stamps: Seq<Stamp>,
    id: Seq<char>,
)
    requires
        forall|i: int| 0 <= i < ents.len() ==> (#[trigger] ents[i]).entity_id != id,
    ensures
        state_store::state_in(pushed(run, ents, raw, readings, stamps).states, id)
            == state_store::state_in(run.states, id),
    decreases ents.len(),
{
    if ents.len() > 0 {
        let n = (ents.len() - 1) as int;
        let front = ents.take(n);
        assert forall|i: int| 0 <= i < front.len() implies (#[trigger] front[i]).entity_id != id by {
            assert(front[i] == ents[i]);
        }
        lemma_untouched(run, front, raw, readings, stamps, id);
        assert(ents[n].entity_id != id);
    }
}

proof fn lemma_pushed_at(
    run: StateRun,
    ents: Seq<ZigbeeEntityModel>,
    raw: Members,
    readings: ColorReadings,
    stamps: Seq<Stamp>,
    i: int,
)
    requires
        distinct_ids(ents),
        0 <= i < ents.len(),
    ensures
        ({
            let e = ents[i];
            let v = published_value(e, raw);
            let s = made(e, v->0, raw, readings, stamps[i]);
            state_store::state_in(pushed(run, ents, raw, readings, stamps).states, e.entity_id)
                == if v is Some && state_store::storable(s) {
                Some(s)
            } else {
                state_store::state_in(run.states, e.entity_id)
            }
        }),
    decreases ents.len(),
{
    let n = (ents.len() - 1) as int;
    let front = ents.take(n);
    assert forall|a: int, b: int| 0 <= a < b < front.len() implies (#[trigger] front[a]).entity_id
        != (#[trigger] front[b]).entity_id by {
        assert(front[a] == ents[a] && front[b] == ents[b]);
    }
    if i == n {
        assert forall|k: int| 0 <= k < front.len() implies (#[trigger] front[k]).entity_id
            != ents[i].entity_id by {
            assert(front[k] == ents[k]);
        }
        lemma_untouched(run, front, raw, readings, stamps, ents[i].entity_id);
    } else {
        assert(front[i] == ents[i]);
        lemma_pushed_at(run, front, raw, readings, stamps, i);
        assert(ents[i].entity_id != ents[n].entity_id);
    }
}

/// A report shows in the state of each enabled entity that it speaks of. A light and a switch show
/// the reported state in lower case. Any other entity shows the value of its attribute: the text
/// of a string, `on` for true and `off` for false, and the digits of a whole number. An entity that
/// is disabled, or that the report does not speak of, stays as it was.
pub proof fn law_report_shown(
    run0: StateRun,
    run1: StateRun,
    ents: Seq<ZigbeeEntityModel>,
    raw: Members,
    readings: ColorReadings,
    i: int,
)
    requires
        pushed_to(run0, run1, ents, raw, readings),
        distinct_ids(ents),
        0 <= i < ents.len(),
        state_store::valid_entity_id(ents[i].entity_id),
    ensures
        ({
            let e = ents[i];
            let before = state_store::state_in(run0.states, e.entity_id);
            let after = state_store::state_in(run1.states, e.entity_id);
            let is_actuator = e.domain == "light"@ || e.domain == "switch"@;
            &&& e.disabled ==> after == before
            &&& !e.disabled && is_actuator ==> match json::member(raw, "state"@) {
                Some(JsonView::Str(s)) => text::byte_count(text::lowercased(s)) <= 255
                    ==> after is Some && after->0.state == text::lowercased(s),
                _ => after == before,
            }
            &&& !e.disabled && !is_actuator ==> match e.attribute_key {
                Some(k) => match json::member(raw, k) {
                    Some(JsonView::Bool(b)) => after is Some && (b ==> after->0.state == "on"@) && (
                    !b ==> after->0.state == "off"@),
                    Some(JsonView::Str(s)) => text::byte_count(s) <= 255 ==> after is Some
                        && after->0.state == s,
                    Some(JsonView::PosInt(n)) => after is Some && after->0.state == text::decimal(
                        n as nat,
                    ),
                    Some(_) => true,
                    None => after == before,
                },
                None => after == before,
            }
            &&& after != before ==> {
                &&& after is Some
                &&& after->0.entity_id == e.entity_id
                &&& after->0.attributes == reported_attributes(e, raw, readings)
                &&& state_store::is_timestamp(after->0.last_changed)
                &&& after->0.last_updated == after->0.last_changed
                &&& after->0.last_reported == after->0.last_changed
                &&& ids::is_hyphenated(after->0.context.id)
                &&& after->0.context.parent_id is None
                &&& after->0.context.user_id is None
            }
        }),
{
    let stamps = choose|stamps: Seq<Stamp>|
        {
            &&& stamps.len() == ents.len()
            &&& forall|i: int| 0 <= i < stamps.len() ==> is_stamp(#[trigger] stamps[i])
            &&& run1 == #[trigger] pushed(run0, ents, raw, readings, stamps)
        };
    lemma_pushed_at(run0, ents, raw, readings, stamps, i);
    lemma_words_short();
    assert(is_stamp(stamps[i]));
    let e = ents[i];
    if let Some(k) = e.attribute_key {
        if let Some(JsonView::PosInt(n)) = json::member(raw, k) {
            lemma_number_short(n);
        }
    }
}

/// The names of attributes differ.
proof fn lemma_attribute_names()
    ensures
        "unit_of_measurement"@.len() == 19,
        "device_class"@.len() == 12,
        "state_class"@.len() == 11,
        "friendly_name"@.len() == 13,
        "brightness"@.len() == 10,
        "color_mode"@.len() == 10,
        "color"@.len() == 5,
        "color_temp_kelvin"@.len() == 17,
        "color_temp"@.len() == 10,
        "hs_color"@.len() == 8,
        "rgb_color"@.len() == 9,
        "restored"@.len() == 8,
        "brightness"@ != "color_mode"@,
        "brightness"@ != "color_temp"@,
        "color_mode"@ != "color_temp"@,
{
    reveal_strlit("unit_of_measurement");
    reveal_strlit("device_class");
    reveal_strlit("state_class");
    reveal_strlit("friendly_name");
    reveal_strlit("brightness");
    reveal_strlit("color_mode");
    reveal_strlit("color");
    reveal_strlit("color_temp_kelvin");
    reveal_strlit("color_temp");
    reveal_strlit("hs_color");
    reveal_strlit("rgb_color");
    reveal_strlit("restored");
    assert("brightness"@[0] == 'b');
    assert("color_mode"@[0] == 'c');
    assert("color_temp"@[0] == 'c');
    assert("color_mode"@[6] == 'm');
    assert("color_temp"@[6] == 't');
}

/// A text as JSON, where there is one.
pub open spec fn text_or_none(s: Option<Seq<char>>) -> Option<JsonView> {
    match s {
        Some(v) => Some(JsonView::Str(v)),
        None => None,
    }
}

/// The attributes of a reported state tell the unit and the class of the entity, as far as it has
/// them, and the name that the user has given it. A sensor tells that it counts up, for energy, or
/// that it measures, for all else.
pub proof fn law_reported_attributes(
    e: ZigbeeEntityModel,
    raw: Members,
    readings: ColorReadings,
)
    ensures
        ({
            let a = reported_attributes(e, raw, readings);
            &&& json::member(a, "unit_of_measurement"@) == text_or_none(e.unit_of_measurement)
            &&& json::member(a, "device_class"@) == text_or_none(e.device_class)
            &&& e.name_by_user matches Some(name) ==> json::member(a, "friendly_name"@) == Some(
                JsonView::Str(name),
            )
            &&& json::member(a, "friendly_name"@) == Some(JsonView::Str(e.shown_name()))
            &&& e.domain == "sensor"@ ==> json::member(a, "state_class"@) == Some(
                JsonView::Str(
                    if e.device_class == Some("energy"@) {
                        "total_increasing"@
                    } else {
                        "measurement"@
                    },
                ),
            )
        }),
{
    lemma_attribute_names();
    let s0 = json::no_members();
    let s1 = with_text(s0, "unit_of_measurement"@, e.unit_of_measurement);
    let s2 = with_text(s1, "device_class"@, e.device_class);
    if e.unit_of_measurement is Some {
        lemma_with(s0, "unit_of_measurement"@, JsonView::Str(e.unit_of_measurement->0));
    }
    if e.device_class is Some {
        lemma_with(s1, "device_class"@, JsonView::Str(e.device_class->0));
    }
    let own = if e.domain == "sensor"@ {
        lemma_with(s2, "state_class"@, JsonView::Str(state_class_of(e.device_class)));
        json::with_member(s2, "state_class"@, JsonView::Str(state_class_of(e.device_class)))
    } else if e.domain == "light"@ {
        lemma_color(s2, raw, readings);
        with_color(s2, raw, readings)
    } else {
        s2
    };
    lemma_with(own, "friendly_name"@, JsonView::Str(e.shown_name()));
}

/// What the colour of a light adds to attributes.
proof fn lemma_color(s: Members, raw: Members, readings: ColorReadings)
    ensures
        ({
            let a = with_color(s, raw, readings);
            let t = color_temp_in(raw, readings);
            &&& forall|n: Seq<char>|
                #![trigger json::member(a, n)]
                n.len() == 19 || n.len() == 12 || n.len() == 13 ==> json::member(a, n)
                    == json::member(s, n)
            &&& json::member(a, "brightness"@) == (match json::member(raw, "brightness"@) {
                Some(v) => Some(v),
                None => json::member(s, "brightness"@),
            })
            &&& json::member(a, "color_mode"@) == (match json::member(raw, "color_mode"@) {
                Some(v) => Some(v),
                None => json::member(s, "color_mode"@),
            })
            &&& json::member(a, "color"@) == (match json::member(raw, "color"@) {
                Some(v) => Some(v),
                None => json::member(s, "color"@),
            })
            &&& match t {
                Some((kelvin, mireds)) => json::member(a, "color_temp_kelvin"@) == Some(
                    JsonView::PosInt(kelvin),
                ) && json::member(a, "color_temp"@) == Some(JsonView::Float(mireds)),
                None => json::member(a, "color_temp_kelvin"@) == json::member(
                    s,
                    "color_temp_kelvin"@,
                ),
            }
            &&& (json::member(raw, "color"@) matches Some(JsonView::Object(_)))
                && readings.color is Some ==> {
                let c = readings.color->0;
                &&& json::member(a, "hs_color"@) == Some(
                    JsonView::Array(
                        Seq::empty().push(JsonView::Float(c.hue@)).push(
                            JsonView::Float(c.saturation@),
                        ),
                    ),
                )
                &&& json::member(a, "rgb_color"@) == Some(
                    JsonView::Array(
                        Seq::empty().push(JsonView::PosInt(c.red as u64)).push(
                            JsonView::PosInt(c.green as u64),
                        ).push(JsonView::PosInt(c.blue as u64)),
                    ),
                )
            }
        }),
{
    lemma_attribute_names();
    let s1 = with_reported(s, raw, "brightness"@);
    let s2 = with_reported(s1, raw, "color_mode"@);
    let s3 = with_reported(s2, raw, "color"@);
    if json::member(raw, "brightness"@) is Some {
        lemma_with(s, "brightness"@, json::member(raw, "brightness"@)->0);
    }
    if json::member(raw, "color_mode"@) is Some {
        lemma_with(s1, "color_mode"@, json::member(raw, "color_mode"@)->0);
    }
    if json::member(raw, "color"@) is Some {
        lemma_with(s2, "color"@, json::member(raw, "color"@)->0);
    }
    let t = color_temp_in(raw, readings);
    let s4 = match t {
        Some((kelvin, mireds)) => {
            let k = json::with_member(s3, "color_temp_kelvin"@, JsonView::PosInt(kelvin));
            lemma_with(s3, "color_temp_kelvin"@, JsonView::PosInt(kelvin));
            lemma_with(k, "color_temp"@, JsonView::Float(mireds));
            json::with_member(k, "color_temp"@, JsonView::Float(mireds))
        },
        None => s3,
    };
    if (json::member(raw, "color"@) matches Some(JsonView::Object(_))) && readings.color is Some {
        let c = readings.color->0;
        let hs = JsonView::Array(
            Seq::empty().push(JsonView::Float(c.hue@)).push(JsonView::Float(c.saturation@)),
        );
        let rgb = JsonView::Array(
            Seq::empty().push(JsonView::PosInt(c.red as u64)).push(
                JsonView::PosInt(c.green as u64),
            ).push(JsonView::PosInt(c.blue as u64)),
        );
        lemma_with(s4, "hs_color"@, hs);
        lemma_with(json::with_member(s4, "hs_color"@, hs), "rgb_color"@, rgb);
    }
}

/// The attributes of a reported light tell its brightness, its colour mode and its colour as they
/// were reported. A colour temperature of whole mireds is told in mireds and in the nearest number
/// of kelvin, of which a million is the product. A colour is told in hue and saturation and in red,
/// green and blue.
pub proof fn law_reported_light(
    e: ZigbeeEntityModel,
    raw: Members,
    readings: ColorReadings,
)
    requires
        e.domain == "light"@,
    ensures
        ({
            let a = reported_attributes(e, raw, readings);
            &&& json::member(a, "brightness"@) == json::member(raw, "brightness"@)
            &&& json::member(a, "color_mode"@) == json::member(raw, "color_mode"@)
            &&& json::member(a, "color"@) == json::member(raw, "color"@)
            &&& match json::member(raw, "color_temp"@) {
                Some(JsonView::PosInt(n)) => 0 < n < MAX_WHOLE_MIREDS ==> {
                    &&& json::member(a, "color_temp"@) == Some(
                        JsonView::Float(text::decimal(n as nat) + ".0"@),
                    )
                    &&& json::member(a, "color_temp_kelvin"@) matches Some(JsonView::PosInt(k))
                        && 2 * k * n <= 2_000_000 + n && 2_000_000 < 2 * k * n + n
                },
                None => json::member(a, "color_temp_kelvin"@) is None,
                _ => true,
            }
            &&& (json::member(raw, "color"@) matches Some(JsonView::Object(_)))
                && readings.color is Some ==> {
                let c = readings.color->0;
                &&& json::member(a, "hs_color"@) matches Some(JsonView::Array(hs)) && hs.len() == 2
                    && hs[0] == JsonView::Float(c.hue@) && hs[1] == JsonView::Float(c.saturation@)
                &&& json::member(a, "rgb_color"@) matches Some(JsonView::Array(rgb)) && rgb.len()
                    == 3 && rgb[0] == JsonView::PosInt(c.red as u64) && rgb[1] == JsonView::PosInt(
                    c.green as u64,
                ) && rgb[2] == JsonView::PosInt(c.blue as u64)
            }
        }),
{
    lemma_attribute_names();
    reveal_strlit("light");
    reveal_strlit("sensor");
    let s0 = json::no_members();
    let s1 = with_text(s0, "unit_of_measurement"@, e.unit_of_measurement);
    let s2 = with_text(s1, "device_class"@, e.device_class);
    if e.unit_of_measurement is Some {
        lemma_with(s0, "unit_of_measurement"@, JsonView::Str(e.unit_of_measurement->0));
    }
    if e.device_class is Some {
        lemma_with(s1, "device_class"@, JsonView::Str(e.device_class->0));
    }
    assert("light"@.len() == 5 && "sensor"@.len() == 6);
    lemma_color(s2, raw, readings);
    lemma_with(
        with_color(s2, raw, readings),
        "friendly_name"@,
        JsonView::Str(e.shown_name()),
    );
    if let Some(JsonView::PosInt(n)) = json::member(raw, "color_temp"@) {
        if 0 < n < MAX_WHOLE_MIREDS {
            law_kelvin_nearest(n as nat);
            let k = kelvin_of(n as nat);
            assert(k <= 2_000_000) by {
                assert(2 * k * n <= 2_000_000 + n);
                assert(k <= 1_000_001) by (nonlinear_arith)
                    requires
                        2 * k * n <= 2_000_000 + n,
                        n >= 1,
                ;
            }
        }
    }
}

proof fn lemma_reading_listed(ents: Seq<ZigbeeEntityModel>, raw: Members, i: int)
    requires
        0 <= i < ents.len(),
    ensures
        reading_of(ents[i], raw) is Some ==> readings_of(ents, raw).contains(
            (ents[i].entity_id, reading_of(ents[i], raw)->0),
        ),
        forall|k: int|
            0 <= k < readings_of(ents, raw).len() ==> exists|j: int|
                0 <= j < ents.len() && (#[trigger] readings_of(ents, raw)[k]) == (
                    (#[trigger] ents[j]).entity_id,
                    reading_of(ents[j], raw)->0,
                ) && reading_of(ents[j], raw) is Some,
    decreases ents.len(),
{
    let front = ents.drop_last();
    let r = readings_of(ents, raw);
    let before = readings_of(front, raw);
    let n = (ents.len() - 1) as int;
    if front.len() > 0 {
        lemma_reading_listed(
            front,
            raw,
            if i < n {
                i
            } else {
                0
            },
        );
    } else {
        assert(before =~= Seq::empty());
    }
    if reading_of(ents.last(), raw) is Some {
        assert(r == before.push((ents.last().entity_id, reading_of(ents.last(), raw)->0)));
        assert(r[before.len() as int] == (ents[n].entity_id, reading_of(ents[n], raw)->0));
    }
    if i < n && reading_of(ents[i], raw) is Some {
        let x = (ents[i].entity_id, reading_of(ents[i], raw)->0);
        assert(front[i] == ents[i]);
        let k = choose|k: int| 0 <= k < before.len() && before[k] == x;
        assert(r[k] == x);
    }
    assert forall|k: int| 0 <= k < r.len() implies exists|j: int|
        0 <= j < ents.len() && (#[trigger] r[k]) == (
            (#[trigger] ents[j]).entity_id,
            reading_of(ents[j], raw)->0,
        ) && reading_of(ents[j], raw) is Some by {
        if k < before.len() {
            assert(r[k] == before[k]);
            let j = choose|j: int|
                0 <= j < front.len() && before[k] == (
                    (#[trigger] front[j]).entity_id,
                    reading_of(front[j], raw)->0,
                ) && reading_of(front[j], raw) is Some;
            assert(ents[j] == front[j]);
        } else {
            assert(ents[n] == ents.last());
        }
    }
}

/// What a report leaves for the history. A sensor leaves its number, or its text where it is one. A
/// binary sensor leaves `On` for true and `Off` for false. A light and a switch leave `On` and
/// `Off` for these states, in whatever case. Nothing is left of an entity that the report does not
/// speak of.
pub proof fn law_readings(ents: Seq<ZigbeeEntityModel>, raw: Members, i: int)
    requires
        0 <= i < ents.len(),
    ensures
        ({
            let e = ents[i];
            let r = readings_of(ents, raw);
            let told = match e.attribute_key {
                Some(k) => json::member(raw, k),
                None => None,
            };
            &&& e.domain == "sensor"@ ==> match told {
                Some(JsonView::Str(s)) => r.contains((e.entity_id, ReadingModel::Text(s))),
                Some(JsonView::PosInt(n)) => r.contains(
                    (e.entity_id, ReadingModel::Number(JsonView::PosInt(n))),
                ),
                Some(JsonView::NegInt(n)) => r.contains(
                    (e.entity_id, ReadingModel::Number(JsonView::NegInt(n))),
                ),
                Some(JsonView::Float(t)) => r.contains(
                    (e.entity_id, ReadingModel::Number(JsonView::Float(t))),
                ),
                _ => true,
            }
            &&& e.domain == "binary_sensor"@ ==> match told {
                Some(JsonView::Bool(b)) => (b ==> r.contains((e.entity_id, ReadingModel::On))) && (!b
                    ==> r.contains((e.entity_id, ReadingModel::Off))),
                Some(JsonView::Str(s)) => {
                    &&& text::lowercased(s) == "on"@ || text::lowercased(s) == "true"@
                        ==> r.contains((e.entity_id, ReadingModel::On))
                    &&& text::lowercased(s) == "off"@ || text::lowercased(s) == "false"@
                        ==> r.contains((e.entity_id, ReadingModel::Off))
                },
                _ => true,
            }
            &&& e.domain == "light"@ || e.domain == "switch"@ ==> match json::member(
                raw,
                "state"@,
            ) {
                Some(JsonView::Str(s)) => {
                    &&& text::lowercased(s) == "on"@ ==> r.contains((e.entity_id, ReadingModel::On))
                    &&& text::lowercased(s) == "off"@ ==> r.contains(
                        (e.entity_id, ReadingModel::Off),
                    )
                },
                _ => true,
            }
            &&& raw.len() == 0 ==> r.len() == 0
        }),
{
    reveal_strlit("sensor");
    reveal_strlit("binary_sensor");
    reveal_strlit("light");
    reveal_strlit("switch");
    reveal_strlit("on");
    reveal_strlit("off");
    reveal_strlit("true");
    reveal_strlit("false");
    assert("sensor"@.len() == 6 && "binary_sensor"@.len() == 13 && "light"@.len() == 5
        && "switch"@.len() == 6);
    assert("sensor"@[1] == 'e' && "switch"@[1] == 'w');
    assert("on"@.len() == 2 && "off"@.len() == 3 && "true"@.len() == 4 && "false"@.len() == 5);
    lemma_reading_listed(ents, raw, i);
    let r = readings_of(ents, raw);
    if raw.len() == 0 && r.len() > 0 {
        let j = choose|j: int|
            0 <= j < ents.len() && r[0] == (
                (#[trigger] ents[j]).entity_id,
                reading_of(ents[j], raw)->0,
            ) && reading_of(ents[j], raw) is Some;
        assert(json::member(raw, "state"@) is None);
    }
}

proof fn lemma_restored_untouched(
    run: StateRun,
    ents: Seq<ZigbeeEntityModel>,
    latest: Seq<LatestValue>,
    ts: Seq<char>,
    context_ids: Seq<Seq<char>>,
    stamps: Seq<Stamp>,
    id: Seq<char>,
)
    requires
        forall|i: int| 0 <= i < ents.len() ==> (#[trigger] ents[i]).entity_id != id,
    ensures
        state_store::state_in(restored(run, ents, latest, ts, context_ids).0.states, id)
            == state_store::state_in(run.states, id),
        state_store::state_in(gone(run, ents, stamps).states, id) == state_store::state_in(
            run.states,
            id,
        ),
    decreases ents.len(),
{
    if ents.len() > 0 {
        let n = (ents.len() - 1) as int;
        let front = ents.take(n);
        assert forall|i: int| 0 <= i < front.len() implies (#[trigger] front[i]).entity_id != id by {
            assert(front[i] == ents[i]);
        }
        lemma_restored_untouched(run, front, latest, ts, context_ids, stamps, id);
        assert(ents[n].entity_id != id);
    }
}

proof fn lemma_restored_at(
    run: StateRun,
    ents: Seq<ZigbeeEntityModel>,
    latest: Seq<LatestValue>,
    ts: Seq<char>,
    context_ids: Seq<Seq<char>>,
    stamps: Seq<Stamp>,
    i: int,
)
    requires
        distinct_ids(ents),
        0 <= i < ents.len(),
    ensures
        ({
            let e = ents[i];
            let s = restorable(e, latest, ts, context_ids[i]);
            let before = state_store::state_in(run.states, e.entity_id);
            &&& state_store::state_in(
                restored(run, ents, latest, ts, context_ids).0.states,
                e.entity_id,
            ) == if s is Some && state_store::storable(s->0) {
                s
            } else {
                before
            }
            &&& state_store::state_in(gone(run, ents, stamps).states, e.entity_id)
                == if !e.disabled && state_store::storable(gone_state(e.entity_id, stamps[i])) {
                Some(gone_state(e.entity_id, stamps[i]))
            } else {
                before
            }
        }),
    decreases ents.len(),
{
    let n = (ents.len() - 1) as int;
    let front = ents.take(n);
    assert forall|a: int, b: int| 0 <= a < b < front.len() implies (#[trigger] front[a]).entity_id
        != (#[trigger] front[b]).entity_id by {
        assert(front[a] == ents[a] && front[b] == ents[b]);
    }
    if i == n {
        assert forall|k: int| 0 <= k < front.len() implies (#[trigger] front[k]).entity_id
            != ents[i].entity_id by {
            assert(front[k] == ents[k]);
        }
        lemma_restored_untouched(
            run,
            front,
            latest,
            ts,
            context_ids,
            stamps,
            ents[i].entity_id,
        );
    } else {
        assert(front[i] == ents[i]);
        lemma_restored_at(run, front, latest, ts, context_ids, stamps, i);
        assert(ents[i].entity_id != ents[n].entity_id);
    }
}

/// The state of an enabled entity comes back from its history: a sensor shows the last value, and a
/// light and a switch show whether they were on. The state says that it is restored, and tells the
/// name, and for a sensor the unit and the class. No other entity gets a state.
pub proof fn law_restored(
    run: StateRun,
    ents: Seq<ZigbeeEntityModel>,
    latest: Seq<LatestValue>,
    ts: Seq<char>,
    context_ids: Seq<Seq<char>>,
    i: int,
)
    requires
        distinct_ids(ents),
        0 <= i < ents.len(),
        state_store::valid_entity_id(ents[i].entity_id),
    ensures
        ({
            let e = ents[i];
            let before = state_store::state_in(run.states, e.entity_id);
            let after = state_store::state_in(
                restored(run, ents, latest, ts, context_ids).0.states,
                e.entity_id,
            );
            let last = keyed::key_get(latest, e.entity_id);
            let is_actuator = e.domain == "light"@ || e.domain == "switch"@;
            &&& e.disabled || last is None || !(is_actuator || e.domain == "sensor"@) ==> after
                == before
            &&& !e.disabled && last is Some && is_actuator ==> {
                &&& after is Some
                &&& last->0.on ==> after->0.state == "on"@
                &&& !last->0.on ==> after->0.state == "off"@
            }
            &&& !e.disabled && last is Some && e.domain == "sensor"@ && text::byte_count(
                last->0.text@,
            ) <= 255 ==> {
                &&& after is Some
                &&& after->0.state == last->0.text@
                &&& json::member(after->0.attributes, "unit_of_measurement"@) == text_or_none(
                    e.unit_of_measurement,
                )
                &&& json::member(after->0.attributes, "device_class"@) == text_or_none(
                    e.device_class,
                )
                &&& json::member(after->0.attributes, "state_class"@) == Some(
                    JsonView::Str(
                        if e.device_class == Some("energy"@) {
                            "total_increasing"@
                        } else {
                            "measurement"@
                        },
                    ),
                )
            }
            &&& after != before ==> {
                &&& json::member(after->0.attributes, "restored"@) == Some(JsonView::Bool(true))
                &&& json::member(after->0.attributes, "friendly_name"@) == Some(
                    JsonView::Str(e.shown_name()),
                )
                &&& after->0.entity_id == e.entity_id
                &&& after->0.last_changed == ts
                &&& after->0.last_updated == ts
                &&& after->0.last_reported == ts
            }
        }),
{
    lemma_attribute_names();
    lemma_words_short();
    reveal_strlit("sensor");
    reveal_strlit("light");
    reveal_strlit("switch");
    assert("sensor"@.len() == 6 && "light"@.len() == 5 && "switch"@.len() == 6);
    assert("sensor"@[1] == 'e' && "switch"@[1] == 'w');
    let e = ents[i];
    lemma_restored_at(run, ents, latest, ts, context_ids, Seq::empty(), i);
    let s0 = json::no_members();
    let s1 = with_text(s0, "unit_of_measurement"@, e.unit_of_measurement);
    let s2 = with_text(s1, "device_class"@, e.device_class);
    if e.unit_of_measurement is Some {
        lemma_with(s0, "unit_of_measurement"@, JsonView::Str(e.unit_of_measurement->0));
    }
    if e.device_class is Some {
        lemma_with(s1, "device_class"@, JsonView::Str(e.device_class->0));
    }
    let class = JsonView::Str(state_class_of(e.device_class));
    let s3 = json::with_member(s2, "state_class"@, class);
    lemma_with(s2, "state_class"@, class);
    lemma_with(s3, "restored"@, JsonView::Bool(true));
    lemma_with(
        json::with_member(s3, "restored"@, JsonView::Bool(true)),
        "friendly_name"@,
        JsonView::Str(e.shown_name()),
    );
    lemma_with(s0, "restored"@, JsonView::Bool(true));
    lemma_with(
        json::with_member(s0, "restored"@, JsonView::Bool(true)),
        "friendly_name"@,
        JsonView::Str(e.shown_name()),
    );
}

/// Every enabled entity of a device that has left is unavailable, without attributes, from the time
/// that it left.
pub proof fn law_gone(
    run0: StateRun,
    run1: StateRun,
    ents: Seq<ZigbeeEntityModel>,
    i: int,
)
    requires
        gone_to(run0, run1, ents),
        distinct_ids(ents),
        0 <= i < ents.len(),
        state_store::valid_entity_id(ents[i].entity_id),
    ensures
        ({
            let e = ents[i];
            let before = state_store::state_in(run0.states, e.entity_id);
            let after = state_store::state_in(run1.states, e.entity_id);
            if e.disabled {
                after == before
            } else {
                &&& after is Some
                &&& after->0.state == "unavailable"@
                &&& after->0.attributes.len() == 0
                &&& after->0.entity_id == e.entity_id
                &&& state_store::is_timed(after->0)
            }
        }),
{
    let stamps = choose|stamps: Seq<Stamp>|
        {
            &&& stamps.len() == ents.len()
            &&& forall|i: int| 0 <= i < stamps.len() ==> is_stamp(#[trigger] stamps[i])
            &&& run1 == #[trigger] gone(run0, ents, stamps)
        };
    assert(is_stamp(stamps[i]));
    reveal_strlit("unavailable");
    lemma_ascii_bytes("unavailable"@);
    lemma_restored_at(run0, ents, Seq::empty(), Seq::empty(), Seq::empty(), stamps, i);
}

/// When the coordinator is gone, every entity that has a state is unavailable, and keeps its
/// attributes and the time of its last change; one without a state gets none.
pub proof fn law_unavailable(
    run: StateRun,
    ents: Seq<ZigbeeEntityModel>,
    ts: Seq<char>,
    id: Seq<char>,
)
    requires
        state_store::valid_entity_id(id),
        forall|k: Seq<char>| #[trigger]
            run.states.contains_key(k) ==> run.states[k].entity_id == k,
    ensures
        ({
            let before = state_store::state_in(run.states, id);
            let after = state_store::state_in(unavailable_all(run, ents, ts).states, id);
            let named = exists|i: int| 0 <= i < ents.len() && (#[trigger] ents[i]).entity_id == id;
            &&& before is None ==> after is None
            &&& !named ==> after == before
            &&& before is Some && named ==> {
                &&& after is Some
                &&& after->0.state == "unavailable"@
                &&& after->0.last_updated == ts
                &&& after->0.attributes == before->0.attributes
                &&& after->0.last_changed == before->0.last_changed
                &&& after->0.entity_id == id
            }
        }),
        forall|k: Seq<char>| #[trigger]
            unavailable_all(run, ents, ts).states.contains_key(k) ==> unavailable_all(
                run,
                ents,
                ts,
            ).states[k].entity_id == k,
    decreases ents.len(),
{
    reveal_strlit("unavailable");
    lemma_ascii_bytes("unavailable"@);
    if ents.len() > 0 {
        let front = ents.drop_last();
        let n = (ents.len() - 1) as int;
        law_unavailable(run, front, ts, id);
        let mid = unavailable_all(run, front, ts);
        let all = unavailable_all(run, ents, ts);
        assert forall|k: Seq<char>| #[trigger] all.states.contains_key(k) implies all.states[k].entity_id
            == k by {
            if let Some(s) = state_store::state_in(mid.states, ents.last().entity_id) {
                assert(mid.states.contains_key(ents.last().entity_id));
                if k != s.entity_id {
                    assert(mid.states.contains_key(k));
                }
            }
        }
        if let Some(s) = state_store::state_in(mid.states, ents.last().entity_id) {
            assert(mid.states.contains_key(ents.last().entity_id));
            assert(s.entity_id == ents.last().entity_id);
        }
        if exists|i: int| 0 <= i < front.len() && (#[trigger] front[i]).entity_id == id {
            let i = choose|i: int| 0 <= i < front.len() && (#[trigger] front[i]).entity_id == id;
            assert(ents[i] == front[i]);
        }
        if exists|i: int| 0 <= i < ents.len() && (#[trigger] ents[i]).entity_id == id {
            let i = choose|i: int| 0 <= i < ents.len() && (#[trigger] ents[i]).entity_id == id;
            if i < n {
                assert(front[i] == ents[i]);
            }
        }
        if ents.last().entity_id == id {
            assert(ents[n].entity_id == id);
        }
    }
}

/// Whether some entities hold one with a domain, an id that names the device and what is told, and
/// what it reads, of which class and in which unit.
pub open spec fn provides(
    r: Seq<ZigbeeEntityModel>,
    domain: Seq<char>,
    base: Seq<char>,
    suffix: Seq<char>,
    key: Option<Seq<char>>,
    class: Option<Seq<char>>,
    unit: Option<Seq<char>>,
) -> bool {
    exists|i: int|
        {
            &&& 0 <= i < r.len()
            &&& (#[trigger] r[i]).entity_id == domain + "."@ + base + suffix
            &&& r[i].domain == domain
            &&& r[i].attribute_key == key
            &&& r[i].device_class == class
            &&& r[i].unit_of_measurement == unit
            &&& !r[i].disabled
            &&& r[i].name_by_user is None
            &&& r[i].user_area_id is None
        }
}

proof fn lemma_and_if(s: Seq<ZigbeeEntityModel>, cond: bool, e: ZigbeeEntityModel)
    ensures
        forall|x: ZigbeeEntityModel| #[trigger]
            s.contains(x) ==> and_if(s, cond, e).contains(x),
        cond ==> and_if(s, cond, e).contains(e),
        and_if(s, cond, e).len() == s.len() + if cond {
            1int
        } else {
            0
        },
{
    let r = and_if(s, cond, e);
    if cond {
        assert(r[s.len() as int] == e);
        assert forall|x: ZigbeeEntityModel| #[trigger] s.contains(x) implies r.contains(x) by {
            let k = choose|k: int| 0 <= k < s.len() && s[k] == x;
            assert(r[k] == x);
        }
    }
}

proof fn lemma_provides(
    r: Seq<ZigbeeEntityModel>,
    domain: Seq<char>,
    base: Seq<char>,
    suffix: Seq<char>,
    ieee: Seq<char>,
    key: Option<Seq<char>>,
    class: Option<Seq<char>>,
    unit: Option<Seq<char>>,
)
    requires
        r.contains(new_entity(domain, base, suffix, ieee, key, class, unit)),
    ensures
        provides(r, domain, base, suffix, key, class, unit),
{
    let e = new_entity(domain, base, suffix, ieee, key, class, unit);
    let k = choose|k: int| 0 <= k < r.len() && r[k] == e;
    assert(r[k].entity_id == domain + "."@ + base + suffix);
}

/// One for a condition that holds.
pub open spec fn one_if(b: bool) -> int {
    if b {
        1
    } else {
        0
    }
}

/// The cluster that an entity of a device is for, in the order in which entities are listed.
spec fn nth_cluster(k: int) -> u16 {
    if k == 0 {
        0x0006
    } else if k == 1 {
        0x0402
    } else if k == 2 {
        0x0405
    } else if k == 3 {
        0x0403
    } else if k == 4 {
        0x0001
    } else if k == 5 {
        0x0001
    } else if k == 6 {
        0x0001
    } else if k == 7 {
        0x0400
    } else if k == 8 {
        0x0406
    } else if k == 9 {
        0x0500
    } else if k == 10 {
        0x0500
    } else if k == 11 {
        0x0702
    } else if k == 12 {
        0x0B04
    } else if k == 13 {
        0x0B04
    } else {
        0x0B04
    }
}

/// The entity of a device that a cluster is for, in the order in which entities are listed.
spec fn nth_entity(
    k: int,
    actuator: Seq<char>,
    base: Seq<char>,
    ieee: Seq<char>,
    initial_state: Members,
) -> ZigbeeEntityModel {
    if k == 0 {
        new_entity(actuator, base, ""@, ieee, None, None, None)
    } else if k == 1 {
        new_entity(
            "sensor"@,
            base,
            "_temperature"@,
            ieee,
            Some("temperature"@),
            Some("temperature"@),
            Some("°C"@),
        )
    } else if k == 2 {
        new_entity(
            "sensor"@,
            base,
            "_humidity"@,
            ieee,
            Some("humidity"@),
            Some("humidity"@),
            Some("%"@),
        )
    } else if k == 3 {
        new_entity(
            "sensor"@,
            base,
            "_pressure"@,
            ieee,
            Some("pressure"@),
            Some("atmospheric_pressure"@),
            Some("hPa"@),
        )
    } else if k == 4 {
        new_entity(
            "sensor"@,
            base,
            "_battery"@,
            ieee,
            Some("battery"@),
            Some("battery"@),
            Some("%"@),
        )
    } else if k == 5 {
        new_entity(
            "sensor"@,
            base,
            "_battery_voltage"@,
            ieee,
            Some("battery_voltage"@),
            Some("voltage"@),
            Some("V"@),
        )
    } else if k == 6 {
        new_entity(
            "binary_sensor"@,
            base,
            "_battery_low"@,
            ieee,
            Some("battery_low"@),
            Some("battery"@),
            None,
        )
    } else if k == 7 {
        new_entity(
            "sensor"@,
            base,
            "_illuminance"@,
            ieee,
            Some("illuminance_lux"@),
            Some("illuminance"@),
            Some("lx"@),
        )
    } else if k == 8 {
        new_entity(
            "binary_sensor"@,
            base,
            "_occupancy"@,
            ieee,
            Some("occupancy"@),
            Some("occupancy"@),
            None,
        )
    } else if k == 9 {
        new_entity(
            "binary_sensor"@,
            base,
            "_contact"@,
            ieee,
            Some("contact"@),
            Some(ias_class(zone_type_of(initial_state))),
            None,
        )
    } else if k == 10 {
        new_entity(
            "binary_sensor"@,
            base,
            "_tamper"@,
            ieee,
            Some("tamper"@),
            Some("tamper"@),
            None,
        )
    } else if k == 11 {
        new_entity(
            "sensor"@,
            base,
            "_energy"@,
            ieee,
            Some("energy"@),
            Some("energy"@),
            Some("kWh"@),
        )
    } else if k == 12 {
        new_entity(
            "sensor"@,
            base,
            "_power"@,
            ieee,
            Some("power"@),
            Some("power"@),
            Some("W"@),
        )
    } else if k == 13 {
        new_entity(
            "sensor"@,
            base,
            "_voltage"@,
            ieee,
            Some("voltage"@),
            Some("voltage"@),
            Some("V"@),
        )
    } else {
        new_entity(
            "sensor"@,
            base,
            "_current"@,
            ieee,
            Some("current"@),
            Some("current"@),
            Some("A"@),
        )
    }
}

/// The first entities of a device.
spec fn listed(
    n: nat,
    actuator: Seq<char>,
    base: Seq<char>,
    ieee: Seq<char>,
    endpoints: Seq<EndpointDesc>,
    initial_state: Members,
) -> Seq<ZigbeeEntityModel>
    decreases n,
{
    if n == 0 {
        Seq::empty()
    } else {
        let k = (n - 1) as nat;
        and_if(
            listed(k, actuator, base, ieee, endpoints, initial_state),
            endpoints_have(endpoints, nth_cluster(k as int)),
            nth_entity(k as int, actuator, base, ieee, initial_state),
        )
    }
}

/// How many of the first entities a device has.
spec fn listed_count(n: nat, endpoints: Seq<EndpointDesc>) -> int
    decreases n,
{
    if n == 0 {
        0
    } else {
        listed_count((n - 1) as nat, endpoints) + one_if(
            endpoints_have(endpoints, nth_cluster(n - 1)),
        )
    }
}

proof fn lemma_listed(
    n: nat,
    k: int,
    actuator: Seq<char>,
    base: Seq<char>,
    ieee: Seq<char>,
    endpoints: Seq<EndpointDesc>,
    initial_state: Members,
)
    ensures
        0 <= k < n && endpoints_have(endpoints, nth_cluster(k)) ==> listed(
            n,
            actuator,
            base,
            ieee,
            endpoints,
            initial_state,
        ).contains(nth_entity(k, actuator, base, ieee, initial_state)),
        listed(n, actuator, base, ieee, endpoints, initial_state).len() == listed_count(
            n,
            endpoints,
        ),
    decreases n,
{
    if n > 0 {
        let m = (n - 1) as nat;
        lemma_listed(m, k, actuator, base, ieee, endpoints, initial_state);
        lemma_and_if(
            listed(m, actuator, base, ieee, endpoints, initial_state),
            endpoints_have(endpoints, nth_cluster(m as int)),
            nth_entity(m as int, actuator, base, ieee, initial_state),
        );
    }
}

/// The domain of the entity that switches a device.
spec fn actuator_of(endpoints: Seq<EndpointDesc>) -> Seq<char> {
    if endpoints_have(endpoints, 0x0008) || endpoints_have(endpoints, 0x0300) {
        "light"@
    } else {
        "switch"@
    }
}

#[verifier::rlimit(50)]
proof fn lemma_device_listed(
    base: Seq<char>,
    ieee: Seq<char>,
    endpoints: Seq<EndpointDesc>,
    initial_state: Members,
)
    ensures
        device_entities(base, ieee, endpoints, initial_state) == listed(
            15,
            actuator_of(endpoints),
            base,
            ieee,
            endpoints,
            initial_state,
        ),
{
    reveal_with_fuel(listed, 16);
}

proof fn lemma_count(endpoints: Seq<EndpointDesc>)
    ensures
        ({
            let input = |c: u16| endpoints_have(endpoints, c);
            listed_count(15, endpoints) == one_if(input(0x0006)) + one_if(input(0x0402)) + one_if(
                input(0x0405),
            ) + one_if(input(0x0403)) + 3 * one_if(input(0x0001)) + one_if(input(0x0400)) + one_if(
                input(0x0406),
            ) + 2 * one_if(input(0x0500)) + one_if(input(0x0702)) + 3 * one_if(input(0x0B04))
        }),
{
    reveal_with_fuel(listed_count, 16);
}

proof fn lemma_nth_provided(
    k: int,
    base: Seq<char>,
    ieee: Seq<char>,
    endpoints: Seq<EndpointDesc>,
    initial_state: Members,
)
    requires
        0 <= k < 15,
        endpoints_have(endpoints, nth_cluster(k)),
    ensures
        ({
            let e = nth_entity(k, actuator_of(endpoints), base, ieee, initial_state);
            device_entities(base, ieee, endpoints, initial_state).contains(e)
        }),
{
    lemma_device_listed(base, ieee, endpoints, initial_state);
    lemma_listed(15, k, actuator_of(endpoints), base, ieee, endpoints, initial_state);
}

/// What a device provides, by its input clusters: a light or a switch, and a sensor for each thing
/// that it measures, in the unit of that thing. There is nothing else.
pub proof fn law_clusters(
    base: Seq<char>,
    ieee: Seq<char>,
    endpoints: Seq<EndpointDesc>,
    initial_state: Members,
)
    ensures
        ({
            let r = device_entities(base, ieee, endpoints, initial_state);
            let input = |c: u16|
                exists|i: int|
                    0 <= i < endpoints.len() && (#[trigger] endpoints[i]).input_clusters@.contains(
                        c,
                    );
            &&& input(0x0006) && (input(0x0008) || input(0x0300)) ==> provides(
                r,
                "light"@,
                base,
                ""@,
                None,
                None,
                None,
            )
            &&& input(0x0006) && !input(0x0008) && !input(0x0300) ==> provides(
                r,
                "switch"@,
                base,
                ""@,
                None,
                None,
                None,
            )
            &&& input(0x0402) ==> provides(
                r,
                "sensor"@,
                base,
                "_temperature"@,
                Some("temperature"@),
                Some("temperature"@),
                Some("°C"@),
            )
            &&& input(0x0405) ==> provides(
                r,
                "sensor"@,
                base,
                "_humidity"@,
                Some("humidity"@),
                Some("humidity"@),
                Some("%"@),
            )
            &&& input(0x0403) ==> provides(
                r,
                "sensor"@,
                base,
                "_pressure"@,
                Some("pressure"@),
                Some("atmospheric_pressure"@),
                Some("hPa"@),
            )
            &&& input(0x0001) ==> provides(
                r,
                "sensor"@,
                base,
                "_battery"@,
                Some("battery"@),
                Some("battery"@),
                Some("%"@),
            )
            &&& input(0x0001) ==> provides(
                r,
                "sensor"@,
                base,
                "_battery_voltage"@,
                Some("battery_voltage"@),
                Some("voltage"@),
                Some("V"@),
            )
            &&& input(0x0001) ==> provides(
                r,
                "binary_sensor"@,
                base,
                "_battery_low"@,
                Some("battery_low"@),
                Some("battery"@),
                None,
            )
            &&& input(0x0400) ==> provides(
                r,
                "sensor"@,
                base,
                "_illuminance"@,
                Some("illuminance_lux"@),
                Some("illuminance"@),
                Some("lx"@),
            )
            &&& input(0x0406) ==> provides(
                r,
                "binary_sensor"@,
                base,
                "_occupancy"@,
                Some("occupancy"@),
                Some("occupancy"@),
                None,
            )
            &&& input(0x0500) ==> provides(
                r,
                "binary_sensor"@,
                base,
                "_tamper"@,
                Some("tamper"@),
                Some("tamper"@),
                None,
            )
            &&& input(0x0702) ==> provides(
                r,
                "sensor"@,
                base,
                "_energy"@,
                Some("energy"@),
                Some("energy"@),
                Some("kWh"@),
            )
            &&& input(0x0B04) ==> provides(
                r,
                "sensor"@,
                base,
                "_power"@,
                Some("power"@),
                Some("power"@),
                Some("W"@),
            )
            &&& input(0x0B04) ==> provides(
                r,
                "sensor"@,
                base,
                "_voltage"@,
                Some("voltage"@),
                Some("voltage"@),
                Some("V"@),
            )
            &&& input(0x0B04) ==> provides(
                r,
                "sensor"@,
                base,
                "_current"@,
                Some("current"@),
                Some("current"@),
                Some("A"@),
            )
            &&& r.len() == one_if(input(0x0006)) + one_if(input(0x0402)) + one_if(input(0x0405)) + one_if(
                input(0x0403),
            ) + 3 * one_if(input(0x0001)) + one_if(input(0x0400)) + one_if(input(0x0406)) + 2 * one_if(
                input(0x0500),
            ) + one_if(input(0x0702)) + 3 * one_if(input(0x0B04))
        }),
        ({
            let r = device_entities(base, ieee, endpoints, initial_state);
            let contact = |class: Seq<char>|
                provides(
                    r,
                    "binary_sensor"@,
                    base,
                    "_contact"@,
                    Some("contact"@),
                    Some(class),
                    None,
                );
            endpoints_have(endpoints, 0x0500) ==> match json::member(
                initial_state,
                "zone_type"@,
            ) {
                Some(JsonView::PosInt(n)) => {
                    &&& n == 0x000d ==> contact("motion"@)
                    &&& n == 0x0015 ==> contact("door"@)
                    &&& n == 0x0028 ==> contact("smoke"@)
                    &&& n == 0x002a ==> contact("moisture"@)
                    &&& n == 0x002b ==> contact("carbon_monoxide"@)
                    &&& n == 0x002c ==> contact("safety"@)
                    &&& n == 0x002d ==> contact("vibration"@)
                },
                None => contact("opening"@),
                _ => true,
            }
        }),
{
    let r = device_entities(base, ieee, endpoints, initial_state);
    lemma_device_listed(base, ieee, endpoints, initial_state);
    lemma_listed(15, 0, actuator_of(endpoints), base, ieee, endpoints, initial_state);
    lemma_count(endpoints);
    if endpoints_have(endpoints, 0x0006) {
        lemma_nth_provided(0, base, ieee, endpoints, initial_state);
        lemma_provides(r, actuator_of(endpoints), base, ""@, ieee, None, None, None);
    }
    if endpoints_have(endpoints, 0x0402) {
        lemma_nth_provided(1, base, ieee, endpoints, initial_state);
        lemma_provides(
            r,
            "sensor"@,
            base,
            "_temperature"@,
            ieee,
            Some("temperature"@),
            Some("temperature"@),
            Some("°C"@),
        );
    }
    if endpoints_have(endpoints, 0x0405) {
        lemma_nth_provided(2, base, ieee, endpoints, initial_state);
        lemma_provides(
            r,
            "sensor"@,
            base,
            "_humidity"@,
            ieee,
            Some("humidity"@),
            Some("humidity"@),
            Some("%"@),
        );
    }
    if endpoints_have(endpoints, 0x0403) {
        lemma_nth_provided(3, base, ieee, endpoints, initial_state);
        lemma_provides(
            r,
            "sensor"@,
            base,
            "_pressure"@,
            ieee,
            Some("pressure"@),
            Some("atmospheric_pressure"@),
            Some("hPa"@),
        );
    }
    if endpoints_have(endpoints, 0x0001) {
        lemma_nth_provided(4, base, ieee, endpoints, initial_state);
        lemma_provides(
            r,
            "sensor"@,
            base,
            "_battery"@,
            ieee,
            Some("battery"@),
            Some("battery"@),
            Some("%"@),
        );
    }
    if endpoints_have(endpoints, 0x0001) {
        lemma_nth_provided(5, base, ieee, endpoints, initial_state);
        lemma_provides(
            r,
            "sensor"@,
            base,
            "_battery_voltage"@,
            ieee,
            Some("battery_voltage"@),
            Some("voltage"@),
            Some("V"@),
        );
    }
    if endpoints_have(endpoints, 0x0001) {
        lemma_nth_provided(6, base, ieee, endpoints, initial_state);
        lemma_provides(
            r,
            "binary_sensor"@,
            base,
            "_battery_low"@,
            ieee,
            Some("battery_low"@),
            Some("battery"@),
            None,
        );
    }
    if endpoints_have(endpoints, 0x0400) {
        lemma_nth_provided(7, base, ieee, endpoints, initial_state);
        lemma_provides(
            r,
            "sensor"@,
            base,
            "_illuminance"@,
            ieee,
            Some("illuminance_lux"@),
            Some("illuminance"@),
            Some("lx"@),
        );
    }
    if endpoints_have(endpoints, 0x0406) {
        lemma_nth_provided(8, base, ieee, endpoints, initial_state);
        lemma_provides(
            r,
            "binary_sensor"@,
            base,
            "_occupancy"@,
            ieee,
            Some("occupancy"@),
            Some("occupancy"@),
            None,
        );
    }
    if endpoints_have(endpoints, 0x0500) {
        lemma_nth_provided(9, base, ieee, endpoints, initial_state);
        lemma_provides(
            r,
            "binary_sensor"@,
            base,
            "_contact"@,
            ieee,
            Some("contact"@),
            Some(ias_class(zone_type_of(initial_state))),
            None,
        );
    }
    if endpoints_have(endpoints, 0x0500) {
        lemma_nth_provided(10, base, ieee, endpoints, initial_state);
        lemma_provides(
            r,
            "binary_sensor"@,
            base,
            "_tamper"@,
            ieee,
            Some("tamper"@),
            Some("tamper"@),
            None,
        );
    }
    if endpoints_have(endpoints, 0x0702) {
        lemma_nth_provided(11, base, ieee, endpoints, initial_state);
        lemma_provides(
            r,
            "sensor"@,
            base,
            "_energy"@,
            ieee,
            Some("energy"@),
            Some("energy"@),
            Some("kWh"@),
        );
    }
    if endpoints_have(endpoints, 0x0B04) {
        lemma_nth_provided(12, base, ieee, endpoints, initial_state);
        lemma_provides(
            r,
            "sensor"@,
            base,
            "_power"@,
            ieee,
            Some("power"@),
            Some("power"@),
            Some("W"@),
        );
    }
    if endpoints_have(endpoints, 0x0B04) {
        lemma_nth_provided(13, base, ieee, endpoints, initial_state);
        lemma_provides(
            r,
            "sensor"@,
            base,
            "_voltage"@,
            ieee,
            Some("voltage"@),
            Some("voltage"@),
            Some("V"@),
        );
    }
    if endpoints_have(endpoints, 0x0B04) {
        lemma_nth_provided(14, base, ieee, endpoints, initial_state);
        lemma_provides(
            r,
            "sensor"@,
            base,
            "_current"@,
            ieee,
            Some("current"@),
            Some("current"@),
            Some("A"@),
        );
    }
}

/// What a report leaves in the logbook: an entry, with the old and the new value, for each entity
/// whose value has changed, and nothing for the others.
pub proof fn law_logged(
    log: Seq<LogModel>,
    capacity: usize,
    ids: Seq<Seq<char>>,
    before: Map<Seq<char>, StateView>,
    after: Map<Seq<char>, StateView>,
    ts: u64,
)
    ensures
        ({
            let r = log_changes(log, capacity, ids, before, after, ts);
            &&& forall|k: int|
                0 <= k < r.len() ==> log.contains(#[trigger] r[k]) || {
                    let id = r[k].entity_id;
                    &&& ids.contains(id)
                    &&& before.contains_key(id) && after.contains_key(id)
                    &&& r[k].old_state == before[id].state
                    &&& r[k].new_state == after[id].state
                    &&& before[id].state != after[id].state
                    &&& r[k].ts == ts
                }
            &&& log.len() + ids.len() <= capacity ==> {
                &&& r.len() <= log.len() + ids.len()
                &&& forall|j: int|
                    0 <= j < log.len() ==> r.contains(#[trigger] log[j])
                &&& forall|j: int|
                    {
                        let id = #[trigger] ids[j];
                        0 <= j < ids.len() && before.contains_key(id) && after.contains_key(id)
                            && before[id].state != after[id].state ==> exists|k: int|
                            0 <= k < r.len() && (#[trigger] r[k]).entity_id == id && r[k].old_state
                                == before[id].state && r[k].new_state == after[id].state
                    }
            }
        }),
    decreases ids.len(),
{
    let r = log_changes(log, capacity, ids, before, after, ts);
    if ids.len() == 0 {
        assert forall|j: int| 0 <= j < log.len() implies r.contains(#[trigger] log[j]) by {}
    } else {
        let front = ids.drop_last();
        let last = ids.last();
        let n = (ids.len() - 1) as int;
        law_logged(log, capacity, front, before, after, ts);
        let mid = log_changes(log, capacity, front, before, after, ts);
        assert(ids[n] == last);
        assert forall|k: int| 0 <= k < r.len() implies log.contains(#[trigger] r[k]) || {
            let id = r[k].entity_id;
            &&& ids.contains(id)
            &&& before.contains_key(id) && after.contains_key(id)
            &&& r[k].old_state == before[id].state
            &&& r[k].new_state == after[id].state
            &&& before[id].state != after[id].state
            &&& r[k].ts == ts
        } by {
            let m = if r == mid {
                k
            } else if mid.len() >= capacity {
                k + 1
            } else {
                k
            };
            if m < mid.len() {
                assert(r[k] == mid[m]);
                if front.contains(mid[m].entity_id) {
                    let j = choose|j: int| 0 <= j < front.len() && front[j] == mid[m].entity_id;
                    assert(ids[j] == mid[m].entity_id);
                }
            }
        }
        if log.len() + ids.len() <= capacity {
            assert forall|j: int| 0 <= j < log.len() implies r.contains(#[trigger] log[j]) by {
                let k = choose|k: int| 0 <= k < mid.len() && mid[k] == log[j];
                assert(r[k] == log[j]);
            }
            assert forall|j: int|
                {
                    let id = #[trigger] ids[j];
                    0 <= j < ids.len() && before.contains_key(id) && after.contains_key(id)
                        && before[id].state != after[id].state ==> exists|k: int|
                        0 <= k < r.len() && (#[trigger] r[k]).entity_id == id && r[k].old_state
                            == before[id].state && r[k].new_state == after[id].state
                } by {
                let id = ids[j];
                if 0 <= j < ids.len() && before.contains_key(id) && after.contains_key(id)
                    && before[id].state != after[id].state {
                    if j < n {
                        assert(front[j] == id);
                        let k = choose|k: int|
                            0 <= k < mid.len() && (#[trigger] mid[k]).entity_id == id
                                && mid[k].old_state == before[id].state && mid[k].new_state
                                == after[id].state;
                        assert(r[k] == mid[k]);
                    } else {
                        assert(r[mid.len() as int].entity_id == id);
                    }
                }
            }
        }
    }
}

/// What an event does to the devices: one that joins is known by its address, and not yet
/// interviewed; one that has been interviewed is known by what it told; one that reports has been
/// seen; one that leaves stays. What the user has set stays, and so do all other devices.
pub proof fn law_event_devices(
    event: ZigbeeEvent,
    readings: ColorReadings,
    devices0: Seq<ZigbeeDeviceRecord>,
    devices1: Seq<ZigbeeDeviceRecord>,
    entities0: Seq<ZigbeeEntityRecord>,
    entities1: Seq<ZigbeeEntityRecord>,
    states0: Map<Seq<char>, StateView>,
    run1: StateRun,
    logbook0: Seq<LogModel>,
    logbook1: Seq<LogModel>,
    capacity: usize,
    history: Seq<(Seq<char>, ReadingModel)>,
    other: Seq<char>,
)
    requires
        event_result(
            event,
            readings,
            devices0,
            devices1,
            entities0,
            entities1,
            states0,
            run1,
            logbook0,
            logbook1,
            capacity,
            history,
        ),
    ensures
        match event {
            ZigbeeEvent::DeviceJoined { ieee_addr } => {
                let d = keyed::key_get(devices1, ieee_addr@);
                &&& d is Some
                &&& d->0.friendly_name@ == ieee_addr@
                &&& !d->0.interview_complete
                &&& keyed::key_get(devices0, ieee_addr@) matches Some(old) ==> d->0.name_by_user
                    == old.name_by_user && d->0.user_area_id == old.user_area_id
                &&& other != ieee_addr@ ==> keyed::key_get(devices1, other) == keyed::key_get(
                    devices0,
                    other,
                )
                &&& entities1 == entities0 && run1.states == states0 && run1.events.len() == 0
                &&& logbook1 == logbook0 && history.len() == 0
            },
            ZigbeeEvent::DeviceInterviewComplete { info } => {
                let d = keyed::key_get(devices1, info.ieee_addr@);
                &&& d is Some
                &&& d->0.friendly_name == info.friendly_name
                &&& d->0.manufacturer == info.manufacturer
                &&& d->0.model == info.model
                &&& d->0.power_source == info.power_source
                &&& d->0.sw_build_id == info.sw_build_id
                &&& d->0.interview_complete
                &&& keyed::key_get(devices0, info.ieee_addr@) matches Some(old)
                    ==> d->0.name_by_user == old.name_by_user && d->0.user_area_id
                    == old.user_area_id
                &&& other != info.ieee_addr@ ==> keyed::key_get(devices1, other) == keyed::key_get(
                    devices0,
                    other,
                )
                &&& logbook1 == logbook0
            },
            ZigbeeEvent::DeviceLeft { .. } => {
                &&& devices1 == devices0 && entities1 == entities0
                &&& logbook1 == logbook0 && history.len() == 0
            },
            ZigbeeEvent::StateChanged { ieee_addr, .. } => {
                let old = keyed::key_get(devices0, ieee_addr@);
                let d = keyed::key_get(devices1, ieee_addr@);
                &&& old is None ==> devices1 == devices0
                &&& old is Some ==> {
                    &&& d is Some
                    &&& d->0.last_seen is Some
                    &&& state_store::is_timestamp(d->0.last_seen->0@)
                    &&& d->0.friendly_name == old->0.friendly_name
                    &&& d->0.name_by_user == old->0.name_by_user
                    &&& d->0.interview_complete == old->0.interview_complete
                }
                &&& other != ieee_addr@ ==> keyed::key_get(devices1, other) == keyed::key_get(
                    devices0,
                    other,
                )
                &&& entities1 == entities0
            },
            ZigbeeEvent::Other => {
                &&& devices1 == devices0 && entities1 == entities0
                &&& run1.states == states0 && run1.events.len() == 0
                &&& logbook1 == logbook0 && history.len() == 0
            },
        },
{
    match event {
        ZigbeeEvent::DeviceJoined { ieee_addr } => {
            let record = joined_record(ieee_addr);
            lemma_upserted(devices0, record, other);
        },
        ZigbeeEvent::DeviceInterviewComplete { info } => {
            let record = interviewed_record(info);
            lemma_upserted(devices0, record, other);
        },
        ZigbeeEvent::StateChanged { ieee_addr, .. } => {
            keyed::lemma_key_pos(devices0, ieee_addr@);
            if let Some(i) = keyed::key_pos(devices0, ieee_addr@) {
                let ts = choose|ts: String|
                    state_store::is_timestamp(ts@) && devices1 == devices0.update(
                        i,
                        #[trigger] heard_of(devices0[i], ts),
                    );
                let d = heard_of(devices0[i], ts);
                assert(d.key() == ieee_addr@);
                assert(keyed::with(devices0, d) == devices0.update(i, d));
                keyed::lemma_put(devices0, d);
                assert(keyed::key_get(keyed::with(devices0, d), other) == if other == d.key() {
                    Some(d)
                } else {
                    keyed::key_get(devices0, other)
                });
            }
        },
        _ => {},
    }
}

proof fn lemma_upserted(
    s: Seq<ZigbeeDeviceRecord>,
    record: ZigbeeDeviceRecord,
    other: Seq<char>,
)
    ensures
        ({
            let r = zigbee_device_store::reported(s, record);
            let d = keyed::key_get(r, record.key());
            let old = keyed::key_get(s, record.key());
            &&& d == Some(
                match old {
                    Some(o) => ZigbeeDeviceRecord {
                        name_by_user: o.name_by_user,
                        user_area_id: o.user_area_id,
                        ..record
                    },
                    None => record,
                },
            )
            &&& other != record.key() ==> keyed::key_get(r, other) == keyed::key_get(s, other)
        }),
{
    let x = match keyed::key_get(s, record.key()) {
        Some(o) => ZigbeeDeviceRecord {
            name_by_user: o.name_by_user,
            user_area_id: o.user_area_id,
            ..record
        },
        None => record,
    };
    keyed::lemma_put(s, x);
    assert(x.key() == record.key());
    assert(keyed::key_get(keyed::with(s, x), other) == if other == x.key() {
        Some(x)
    } else {
        keyed::key_get(s, other)
    });
}

/// A report changes the states of the entities of its device alone: each enabled entity whose
/// attribute is a truth value shows it, and the history and the logbook are told of the same
/// report.
pub proof fn law_event_report(
    readings: ColorReadings,
    devices0: Seq<ZigbeeDeviceRecord>,
    devices1: Seq<ZigbeeDeviceRecord>,
    entities0: Seq<ZigbeeEntityRecord>,
    entities1: Seq<ZigbeeEntityRecord>,
    states0: Map<Seq<char>, StateView>,
    run1: StateRun,
    logbook0: Seq<LogModel>,
    logbook1: Seq<LogModel>,
    capacity: usize,
    history: Seq<(Seq<char>, ReadingModel)>,
    ieee_addr: String,
    delta: Vec<(String, Json)>,
    i: int,
)
    requires
        event_result(
            ZigbeeEvent::StateChanged { ieee_addr, delta },
            readings,
            devices0,
            devices1,
            entities0,
            entities1,
            states0,
            run1,
            logbook0,
            logbook1,
            capacity,
            history,
        ),
        order::ascending(entities0),
        0 <= i < entities0.len(),
        state_store::valid_entity_id(entities0[i].entity_id@),
    ensures
        ({
            let e = entities0[i]@;
            let raw = json::members_view(delta@);
            let before = state_store::state_in(states0, e.entity_id);
            let after = state_store::state_in(run1.states, e.entity_id);
            &&& e.ieee_addr != ieee_addr@ ==> after == before
            &&& e.ieee_addr == ieee_addr@ && !e.disabled && e.domain != "light"@ && e.domain
                != "switch"@ ==> match e.attribute_key {
                Some(k) => match json::member(raw, k) {
                    Some(JsonView::Bool(b)) => after is Some && after->0.state == if b {
                        "on"@
                    } else {
                        "off"@
                    },
                    Some(JsonView::PosInt(n)) => after is Some && after->0.state == text::decimal(
                        n as nat,
                    ),
                    _ => true,
                },
                None => after == before,
            }
        }),
{
    let own = entities_at(entities0, ieee_addr@);
    let ents = models(own);
    let raw = json::members_view(delta@);
    let run0 = StateRun { states: states0, events: Seq::empty() };
    let p = |e: ZigbeeEntityRecord| e.ieee_addr@ == ieee_addr@;
    order::lemma_filter_ascending(entities0, p);
    order::lemma_ascending_distinct(entities0);
    order::lemma_ascending_distinct(own);
    assert(distinct_ids(ents)) by {
        assert forall|a: int, b: int| 0 <= a < b < ents.len() implies (#[trigger] ents[a]).entity_id
            != (#[trigger] ents[b]).entity_id by {
            assert(own[a].key() != own[b].key());
            assert(ents[a] == own[a]@ && ents[b] == own[b]@);
        }
    }
    let e = entities0[i];
    if e.ieee_addr@ == ieee_addr@ {
        lemma_filter_holds(entities0, p, i);
        let k = choose|k: int| 0 <= k < own.len() && own[k] == e;
        assert(ents[k] == e@);
        law_report_shown(run0, run1, ents, raw, readings, k);
    } else {
        assert forall|k: int| 0 <= k < ents.len() implies (#[trigger] ents[k]).entity_id
            != e.entity_id@ by {
            assert(ents[k] == own[k]@);
            lemma_filter_from(entities0, p, k);
            let m = choose|m: int| 0 <= m < entities0.len() && entities0[m] == own[k];
            if own[k].entity_id@ == e.entity_id@ {
                assert(m != i);
                if m < i {
                    assert(entities0[m].key() != entities0[i].key());
                } else {
                    assert(entities0[i].key() != entities0[m].key());
                }
            }
        }
        let stamps = choose|stamps: Seq<Stamp>| run1 == #[trigger] pushed(
            run0,
            ents,
            raw,
            readings,
            stamps,
        );
        lemma_untouched(run0, ents, raw, readings, stamps, e.entity_id@);
    }
}

proof fn lemma_filter_holds<T>(s: Seq<T>, p: spec_fn(T) -> bool, i: int)
    requires
        0 <= i < s.len(),
        p(s[i]),
    ensures
        s.filter(p).contains(s[i]),
    decreases s.len(),
{
    reveal(Seq::filter);
    let front = s.drop_last();
    let r = s.filter(p);
    if i < front.len() {
        assert(front[i] == s[i]);
        lemma_filter_holds(front, p, i);
        let k = choose|k: int| 0 <= k < front.filter(p).len() && front.filter(p)[k] == s[i];
        assert(r[k] == s[i]);
    } else {
        assert(r.last() == s[i]);
        assert(r[r.len() - 1] == s[i]);
    }
}

proof fn lemma_filter_from<T>(s: Seq<T>, p: spec_fn(T) -> bool, k: int)
    requires
        0 <= k < s.filter(p).len(),
    ensures
        s.contains(s.filter(p)[k]),
        p(s.filter(p)[k]),
    decreases s.len(),
{
    reveal(Seq::filter);
    if s.len() > 0 {
        let front = s.drop_last();
        let r = s.filter(p);
        if k < front.filter(p).len() {
            lemma_filter_from(front, p, k);
            let m = choose|m: int| 0 <= m < front.len() && front[m] == front.filter(p)[k];
            assert(s[m] == r[k]);
        } else {
            assert(s[s.len() - 1] == r[k]);
        }
    }
}

/// As many states are restored as changes are told of.
pub proof fn law_restored_counted(
    run: StateRun,
    ents: Seq<ZigbeeEntityModel>,
    latest: Seq<LatestValue>,
    ts: Seq<char>,
    context_ids: Seq<Seq<char>>,
)
    ensures
        restored(run, ents, latest, ts, context_ids).0.events.len() == run.events.len() + restored(
            run,
            ents,
            latest,
            ts,
            context_ids,
        ).1,
    decreases ents.len(),
{
    if ents.len() > 0 {
        law_restored_counted(run, ents.take(ents.len() - 1), latest, ts, context_ids);
    }
}

proof fn lemma_own(entities: Seq<ZigbeeEntityRecord>, ieee_addr: String, i: int)
    requires
        order::ascending(entities),
        0 <= i < entities.len(),
    ensures
        ({
            let ents = models(entities_at(entities, ieee_addr@));
            &&& distinct_ids(ents)
            &&& entities[i].ieee_addr@ == ieee_addr@ ==> exists|k: int|
                0 <= k < ents.len() && #[trigger] ents[k] == entities[i]@
            &&& entities[i].ieee_addr@ != ieee_addr@ ==> forall|k: int|
                0 <= k < ents.len() ==> (#[trigger] ents[k]).entity_id != entities[i].entity_id@
        }),
{
    let own = entities_at(entities, ieee_addr@);
    let ents = models(own);
    let p = |e: ZigbeeEntityRecord| e.ieee_addr@ == ieee_addr@;
    order::lemma_filter_ascending(entities, p);
    order::lemma_ascending_distinct(entities);
    order::lemma_ascending_distinct(own);
    assert forall|a: int, b: int| 0 <= a < b < ents.len() implies (#[trigger] ents[a]).entity_id
        != (#[trigger] ents[b]).entity_id by {
        assert(own[a].key() != own[b].key());
        assert(ents[a] == own[a]@ && ents[b] == own[b]@);
    }
    let e = entities[i];
    if e.ieee_addr@ == ieee_addr@ {
        lemma_filter_holds(entities, p, i);
        let k = choose|k: int| 0 <= k < own.len() && own[k] == e;
        assert(ents[k] == e@);
    } else {
        assert forall|k: int| 0 <= k < ents.len() implies (#[trigger] ents[k]).entity_id
            != e.entity_id@ by {
            assert(ents[k] == own[k]@);
            lemma_filter_from(entities, p, k);
            let m = choose|m: int| 0 <= m < entities.len() && entities[m] == own[k];
            if own[k].entity_id@ == e.entity_id@ {
                assert(m != i);
                if m < i {
                    assert(entities[m].key() != entities[i].key());
                } else {
                    assert(entities[i].key() != entities[m].key());
                }
            }
        }
    }
}

proof fn lemma_gone_untouched(
    run: StateRun,
    ents: Seq<ZigbeeEntityModel>,
    stamps: Seq<Stamp>,
    id: Seq<char>,
)
    requires
        forall|k: int| 0 <= k < ents.len() ==> (#[trigger] ents[k]).entity_id != id,
    ensures
        state_store::state_in(gone(run, ents, stamps).states, id) == state_store::state_in(
            run.states,
            id,
        ),
    decreases ents.len(),
{
    if ents.len() > 0 {
        let n = (ents.len() - 1) as int;
        let front = ents.take(n);
        assert forall|k: int| 0 <= k < front.len() implies (#[trigger] front[k]).entity_id != id by {
            assert(front[k] == ents[k]);
        }
        lemma_gone_untouched(run, front, stamps, id);
        assert(ents[n].entity_id != id);
    }
}

/// When a device has left, its enabled entities are unavailable; the entities of other devices stay
/// as they were.
pub proof fn law_event_left(
    readings: ColorReadings,
    devices0: Seq<ZigbeeDeviceRecord>,
    devices1: Seq<ZigbeeDeviceRecord>,
    entities0: Seq<ZigbeeEntityRecord>,
    entities1: Seq<ZigbeeEntityRecord>,
    states0: Map<Seq<char>, StateView>,
    run1: StateRun,
    logbook0: Seq<LogModel>,
    logbook1: Seq<LogModel>,
    capacity: usize,
    history: Seq<(Seq<char>, ReadingModel)>,
    ieee_addr: String,
    i: int,
)
    requires
        event_result(
            ZigbeeEvent::DeviceLeft { ieee_addr },
            readings,
            devices0,
            devices1,
            entities0,
            entities1,
            states0,
            run1,
            logbook0,
            logbook1,
            capacity,
            history,
        ),
        order::ascending(entities0),
        0 <= i < entities0.len(),
        state_store::valid_entity_id(entities0[i].entity_id@),
    ensures
        ({
            let e = entities0[i];
            let before = state_store::state_in(states0, e.entity_id@);
            let after = state_store::state_in(run1.states, e.entity_id@);
            &&& e.ieee_addr@ != ieee_addr@ || e.disabled ==> after == before
            &&& e.ieee_addr@ == ieee_addr@ && !e.disabled ==> after is Some && after->0.state
                == "unavailable"@
        }),
{
    lemma_own(entities0, ieee_addr, i);
    let ents = models(entities_at(entities0, ieee_addr@));
    let run0 = StateRun { states: states0, events: Seq::empty() };
    let e = entities0[i];
    if e.ieee_addr@ == ieee_addr@ {
        let k = choose|k: int| 0 <= k < ents.len() && #[trigger] ents[k] == e@;
        law_gone(run0, run1, ents, k);
    } else {
        let stamps = choose|stamps: Seq<Stamp>|
            {
                &&& stamps.len() == ents.len()
                &&& forall|i: int| 0 <= i < stamps.len() ==> is_stamp(#[trigger] stamps[i])
                &&& run1 == #[trigger] gone(run0, ents, stamps)
            };
        lemma_gone_untouched(run0, ents, stamps, e.entity_id@);
    }
}

/// What a report leaves in the history and in the logbook: the readings of the sensors of the device,
/// and the changes of its entities. Nothing is noted of the entities of other devices.
pub proof fn law_event_noted(
    readings: ColorReadings,
    devices0: Seq<ZigbeeDeviceRecord>,
    devices1: Seq<ZigbeeDeviceRecord>,
    entities0: Seq<ZigbeeEntityRecord>,
    entities1: Seq<ZigbeeEntityRecord>,
    states0: Map<Seq<char>, StateView>,
    run1: StateRun,
    logbook0: Seq<LogModel>,
    logbook1: Seq<LogModel>,
    capacity: usize,
    history: Seq<(Seq<char>, ReadingModel)>,
    ieee_addr: String,
    delta: Vec<(String, Json)>,
    i: int,
)
    requires
        event_result(
            ZigbeeEvent::StateChanged { ieee_addr, delta },
            readings,
            devices0,
            devices1,
            entities0,
            entities1,
            states0,
            run1,
            logbook0,
            logbook1,
            capacity,
            history,
        ),
        order::ascending(entities0),
        0 <= i < entities0.len(),
        logbook0.len() + entities0.len() <= capacity,
    ensures
        ({
            let e = entities0[i]@;
            let raw = json::members_view(delta@);
            let own = e.ieee_addr == ieee_addr@;
            let told = match e.attribute_key {
                Some(k) => json::member(raw, k),
                None => None,
            };
            &&& own && e.domain == "sensor"@ ==> match told {
                Some(JsonView::PosInt(n)) => history.contains(
                    (e.entity_id, ReadingModel::Number(JsonView::PosInt(n))),
                ),
                Some(JsonView::Float(t)) => history.contains(
                    (e.entity_id, ReadingModel::Number(JsonView::Float(t))),
                ),
                _ => true,
            }
            &&& own && states0.contains_key(e.entity_id) && run1.states.contains_key(e.entity_id)
                && states0[e.entity_id].state != run1.states[e.entity_id].state ==> exists|k: int|
                0 <= k < logbook1.len() && (#[trigger] logbook1[k]).entity_id == e.entity_id
                    && logbook1[k].old_state == states0[e.entity_id].state && logbook1[k].new_state
                    == run1.states[e.entity_id].state
            &&& !own ==> forall|k: int|
                0 <= k < logbook1.len() && (#[trigger] logbook1[k]).entity_id == e.entity_id
                    ==> logbook0.contains(logbook1[k])
            &&& !own ==> forall|k: int|
                0 <= k < history.len() ==> (#[trigger] history[k]).0 != e.entity_id
        }),
{
    lemma_own(entities0, ieee_addr, i);
    let own = entities_at(entities0, ieee_addr@);
    let ents = models(own);
    let raw = json::members_view(delta@);
    let ids = crate::zigbee_integration::ids_of(own);
    let e = entities0[i];
    let ts = choose|ts: u64|
        logbook1 == #[trigger] log_changes(logbook0, capacity, ids, states0, run1.states, ts);
    lemma_filter_len(entities0, |x: ZigbeeEntityRecord| x.ieee_addr@ == ieee_addr@);
    law_logged(logbook0, capacity, ids, states0, run1.states, ts);
    if e.ieee_addr@ == ieee_addr@ {
        let k = choose|k: int| 0 <= k < ents.len() && #[trigger] ents[k] == e@;
        law_readings(ents, raw, k);
        assert(ents[k] == own[k]@);
        assert(ids[k] == e.entity_id@);
    } else {
        assert forall|k: int| 0 <= k < logbook1.len() && (#[trigger] logbook1[k]).entity_id
            == e.entity_id@ implies logbook0.contains(logbook1[k]) by {
            if !logbook0.contains(logbook1[k]) {
                assert(ids.contains(e.entity_id@));
                let m = choose|m: int| 0 <= m < ids.len() && ids[m] == e.entity_id@;
                assert(ents[m] == own[m]@);
                assert(ents[m].entity_id != e.entity_id@);
            }
        }
        lemma_readings_own(ents, raw, e.entity_id@);
    }
}

proof fn lemma_filter_len<T>(s: Seq<T>, p: spec_fn(T) -> bool)
    ensures
        s.filter(p).len() <= s.len(),
    decreases s.len(),
{
    reveal(Seq::filter);
    if s.len() > 0 {
        lemma_filter_len(s.drop_last(), p);
    }
}

proof fn lemma_readings_own(ents: Seq<ZigbeeEntityModel>, raw: Members, id: Seq<char>)
    requires
        forall|k: int| 0 <= k < ents.len() ==> (#[trigger] ents[k]).entity_id != id,
    ensures
        forall|k: int| 0 <= k < readings_of(ents, raw).len() ==> (#[trigger] readings_of(ents, raw)[k]).0
            != id,
    decreases ents.len(),
{
    if ents.len() > 0 {
        let n = (ents.len() - 1) as int;
        let front = ents.drop_last();
        assert(front =~= ents.take(n));
        assert forall|k: int| 0 <= k < front.len() implies (#[trigger] front[k]).entity_id != id by {
            assert(front[k] == ents[k]);
        }
        lemma_readings_own(front, raw, id);
        assert(ents[n].entity_id != id);
        let all = readings_of(ents, raw);
        let part = readings_of(front, raw);
        assert forall|k: int| 0 <= k < all.len() implies (#[trigger] all[k]).0 != id by {
            if k < part.len() {
                assert(all[k] == part[k]);
            }
        }
    }
}

/// When a device has been interviewed, each entity that is found and not disabled shows what the
/// device says at first, and its reading is noted.
pub proof fn law_event_interviewed(
    readings: ColorReadings,
    devices0: Seq<ZigbeeDeviceRecord>,
    devices1: Seq<ZigbeeDeviceRecord>,
    entities0: Seq<ZigbeeEntityRecord>,
    entities1: Seq<ZigbeeEntityRecord>,
    states0: Map<Seq<char>, StateView>,
    run1: StateRun,
    logbook0: Seq<LogModel>,
    logbook1: Seq<LogModel>,
    capacity: usize,
    history: Seq<(Seq<char>, ReadingModel)>,
    info: DeviceInfo,
    found: Seq<ZigbeeEntityModel>,
    i: int,
)
    requires
        event_result(
            ZigbeeEvent::DeviceInterviewComplete { info },
            readings,
            devices0,
            devices1,
            entities0,
            entities1,
            states0,
            run1,
            logbook0,
            logbook1,
            capacity,
            history,
        ),
        found == device_entities(
            id_base(text::lowercased(info.friendly_name@)),
            info.ieee_addr@,
            info.endpoints@,
            json::members_view(info.initial_state@),
        ),
        distinct_ids(found),
        0 <= i < found.len(),
        state_store::valid_entity_id(found[i].entity_id),
    ensures
        ({
            let e = found[i];
            let raw = json::members_view(info.initial_state@);
            let after = state_store::state_in(run1.states, e.entity_id);
            let stored = keyed::key_get(entities1, e.entity_id);
            let disabled = stored is Some && stored->0.disabled;
            let told = match e.attribute_key {
                Some(k) => json::member(raw, k),
                None => None,
            };
            &&& !disabled && e.domain != "light"@ && e.domain != "switch"@ ==> match told {
                Some(JsonView::Bool(b)) => after is Some && after->0.state == if b {
                    "on"@
                } else {
                    "off"@
                },
                Some(JsonView::PosInt(n)) => after is Some && after->0.state == text::decimal(
                    n as nat,
                ),
                _ => true,
            }
            &&& disabled ==> after == state_store::state_in(states0, e.entity_id)
            &&& e.domain == "sensor"@ ==> match told {
                Some(JsonView::PosInt(n)) => history.contains(
                    (e.entity_id, ReadingModel::Number(JsonView::PosInt(n))),
                ),
                _ => true,
            }
        }),
{
    let raw = json::members_view(info.initial_state@);
    let run0 = StateRun { states: states0, events: Seq::empty() };
    let ents = crate::zigbee_integration::as_stored(found, entities1);
    assert forall|a: int, b: int| 0 <= a < b < ents.len() implies (#[trigger] ents[a]).entity_id
        != (#[trigger] ents[b]).entity_id by {
        assert(found[a].entity_id != found[b].entity_id);
    }
    law_report_shown(run0, run1, ents, raw, readings, i);
    law_readings(found, raw, i);
}

} // verus!
