//! What the stores keep: laws over records that change, and over what is read of them.

use vstd::prelude::*;
use vstd::string::*;

use crate::history_store::{
    hhmm, ids_since, labels_text, latest_from, path_text, pushed, rows_of, segment_at, segments,
    stripes_text, with_id, AxisLabel, EntityHistory, HistoryRow, Stripe,
};
use crate::json;
use crate::json::{JsonView, Real};
use crate::keyed::Keyed;
use crate::label_registry_store::{updated_label, LabelEntry};
use crate::logbook_store::{entry_model, logged, newest_about, LogModel, LogbookEntry};
use crate::mobile_entity_store::{
    assigned_to, entity_get, entity_id_of, entity_pos_from, joined_words, object_id_of, records,
    store_key_of, updated_record, EntityMetaUpdate, MobileEntityRecord, MobileEntry,
};
use crate::order;
use crate::person_store::{located_all, zone_from, PersonModel, PersonStateModel};
use crate::state_store::EventModel;
use crate::text;
use crate::value_laws::lemma_more;
use crate::zigbee_entity_store::{
    merged, updated_entity, ZigbeeEntityMetaUpdate, ZigbeeEntityModel, ZigbeeEntityRecord,
};
use crate::zone_store::{is_new_zone, updated_zone, StoredZone};

verus! {

/// Whether a member after a change is the one that the change gives, or else the one before.
pub open spec fn taken<T>(given: Option<T>, before: T, after: T) -> bool {
    if given is Some {
        after == given->0
    } else {
        after == before
    }
}

/// A change of a label takes what it gives and keeps the rest; the label keeps its id.
pub proof fn law_label_updated(
    label: LabelEntry,
    name: Option<String>,
    description: Option<Option<String>>,
    icon: Option<Option<String>>,
    color: Option<Option<String>>,
)
    ensures
        ({
            let r = updated_label(label, name, description, icon, color);
            &&& r.label_id == label.label_id
            &&& taken(name, label.name, r.name)
            &&& taken(description, label.description, r.description)
            &&& taken(icon, label.icon, r.icon)
            &&& taken(color, label.color, r.color)
        }),
{
}

/// A change of a zone takes what it gives and keeps the rest; the zone keeps its id. A new zone has
/// what it is given, and else a radius of 100 metres, and is not passive.
pub proof fn law_zone_stored(
    zone: StoredZone,
    name: Option<String>,
    latitude: Option<Option<Real>>,
    longitude: Option<Option<Real>>,
    radius: Option<Real>,
    passive: Option<bool>,
    icon: Option<Option<String>>,
    new: StoredZone,
    new_name: String,
    new_latitude: Option<Real>,
    new_longitude: Option<Real>,
    new_icon: Option<String>,
)
    ensures
        ({
            let r = updated_zone(zone, name, latitude, longitude, radius, passive, icon);
            &&& r.zone_id == zone.zone_id
            &&& taken(name, zone.name, r.name)
            &&& taken(latitude, zone.latitude, r.latitude)
            &&& taken(longitude, zone.longitude, r.longitude)
            &&& taken(radius, zone.radius, r.radius)
            &&& taken(passive, zone.passive, r.passive)
            &&& taken(icon, zone.icon, r.icon)
        }),
        is_new_zone(
            new,
            new_name,
            new_latitude,
            new_longitude,
            radius,
            passive,
            new_icon,
        ) ==> {
            &&& new.name == new_name
            &&& new.latitude == new_latitude
            &&& new.longitude == new_longitude
            &&& new.icon == new_icon
            &&& new.passive <==> passive == Some(true)
            &&& if radius is Some {
                new.radius@ == radius->0@
            } else {
                new.radius@ == "100.0"@
            }
        },
{
}

/// A change of a sensor takes what it gives and keeps the rest: its id, where it comes from and what
/// it is stay.
pub proof fn law_sensor_changed(r: MobileEntityRecord, u: EntityMetaUpdate)
    ensures
        ({
            let a = updated_record(r, u);
            &&& if u.name_by_user is Some {
                a.name_by_user == u.name_by_user
            } else {
                a.name_by_user == r.name_by_user
            }
            &&& taken(u.user_area_id, r.user_area_id, a.user_area_id)
            &&& taken(u.unit_of_measurement, r.unit_of_measurement, a.unit_of_measurement)
            &&& taken(u.disabled, r.disabled, a.disabled)
            &&& a.entity_id == r.entity_id
            &&& a.webhook_id == r.webhook_id
            &&& a.entity_type == r.entity_type
            &&& a.sensor_unique_id == r.sensor_unique_id
            &&& a.sensor_name == r.sensor_name
            &&& a.device_class == r.device_class
            &&& a.icon == r.icon
            &&& a.entity_category == r.entity_category
            &&& a.state_class == r.state_class
        }),
{
}

/// A change of a Zigbee entity takes what it gives and keeps the rest. One that its device tells of
/// again keeps what the user has set: its name, its area and whether it is disabled.
pub proof fn law_entity_changed(
    e: ZigbeeEntityRecord,
    u: ZigbeeEntityMetaUpdate,
    new: ZigbeeEntityRecord,
)
    ensures
        ({
            let a = updated_entity(e, u);
            &&& taken(u.name_by_user, e.name_by_user, a.name_by_user)
            &&& taken(u.user_area_id, e.user_area_id, a.user_area_id)
            &&& taken(u.disabled, e.disabled, a.disabled)
            &&& taken(u.unit_of_measurement, e.unit_of_measurement, a.unit_of_measurement)
            &&& taken(u.icon, e.icon, a.icon)
            &&& taken(u.hidden_by, e.hidden_by, a.hidden_by)
            &&& a.entity_id == e.entity_id
            &&& a.ieee_addr == e.ieee_addr
            &&& a.domain == e.domain
            &&& a.attribute_key == e.attribute_key
            &&& a.device_class == e.device_class
        }),
        ({
            let a = merged(new, Some(e));
            &&& a.name_by_user == e.name_by_user
            &&& a.user_area_id == e.user_area_id
            &&& a.disabled == e.disabled
            &&& a.entity_id == new.entity_id
            &&& a.ieee_addr == new.ieee_addr
            &&& a.domain == new.domain
            &&& a.attribute_key == new.attribute_key
            &&& a.device_class == new.device_class
            &&& a.unit_of_measurement == new.unit_of_measurement
        }),
        merged(new, None) == new,
{
}

proof fn lemma_kinds()
    ensures
        "temperature"@.len() == 11 && "temperature"@[0] == 't' && "temperature"@[1] == 'e',
        "humidity"@.len() == 8 && "humidity"@[0] == 'h' && "humidity"@[1] == 'u',
        "battery"@.len() == 7 && "battery"@[0] == 'b' && "battery"@[1] == 'a',
        "battery_low"@.len() == 11 && "battery_low"@[0] == 'b' && "battery_low"@[1] == 'a',
        "battery_voltage"@.len() == 15 && "battery_voltage"@[0] == 'b' && "battery_voltage"@[1] == 'a',
        "voltage"@.len() == 7 && "voltage"@[0] == 'v' && "voltage"@[1] == 'o',
        "illuminance"@.len() == 11 && "illuminance"@[0] == 'i' && "illuminance"@[1] == 'l',
        "illuminance_lux"@.len() == 15 && "illuminance_lux"@[0] == 'i' && "illuminance_lux"@[1] == 'l',
        "atmospheric_pressure"@.len() == 20 && "atmospheric_pressure"@[0] == 'a' && "atmospheric_pressure"@[1] == 't',
        "pressure"@.len() == 8 && "pressure"@[0] == 'p' && "pressure"@[1] == 'r',
        "occupancy"@.len() == 9 && "occupancy"@[0] == 'o' && "occupancy"@[1] == 'c',
        "door"@.len() == 4 && "door"@[0] == 'd' && "door"@[1] == 'o',
        "contact"@.len() == 7 && "contact"@[0] == 'c' && "contact"@[1] == 'o',
        "window"@.len() == 6 && "window"@[0] == 'w' && "window"@[1] == 'i',
        "tamper"@.len() == 6 && "tamper"@[0] == 't' && "tamper"@[1] == 'a',
        "motion"@.len() == 6 && "motion"@[0] == 'm' && "motion"@[1] == 'o',
        "smoke"@.len() == 5 && "smoke"@[0] == 's' && "smoke"@[1] == 'm',
        "moisture"@.len() == 8 && "moisture"@[0] == 'm' && "moisture"@[1] == 'o',
        "carbon_monoxide"@.len() == 15 && "carbon_monoxide"@[0] == 'c' && "carbon_monoxide"@[1] == 'a',
        "vibration"@.len() == 9 && "vibration"@[0] == 'v' && "vibration"@[1] == 'i',
        "opening"@.len() == 7 && "opening"@[0] == 'o' && "opening"@[1] == 'p',
        "safety"@.len() == 6 && "safety"@[0] == 's' && "safety"@[1] == 'a',
        "energy"@.len() == 6 && "energy"@[0] == 'e' && "energy"@[1] == 'n',
        "power"@.len() == 5 && "power"@[0] == 'p' && "power"@[1] == 'o',
        "current"@.len() == 7 && "current"@[0] == 'c' && "current"@[1] == 'u',
{
    reveal_strlit("temperature");
    reveal_strlit("humidity");
    reveal_strlit("battery");
    reveal_strlit("battery_low");
    reveal_strlit("battery_voltage");
    reveal_strlit("voltage");
    reveal_strlit("illuminance");
    reveal_strlit("illuminance_lux");
    reveal_strlit("atmospheric_pressure");
    reveal_strlit("pressure");
    reveal_strlit("occupancy");
    reveal_strlit("door");
    reveal_strlit("contact");
    reveal_strlit("window");
    reveal_strlit("tamper");
    reveal_strlit("motion");
    reveal_strlit("smoke");
    reveal_strlit("moisture");
    reveal_strlit("carbon_monoxide");
    reveal_strlit("vibration");
    reveal_strlit("opening");
    reveal_strlit("safety");
    reveal_strlit("energy");
    reveal_strlit("power");
    reveal_strlit("current");
}

/// An entity that the user has not named shows what it measures or watches, by its class or, where
/// it has none, by the name of its value. A name that the user has given comes first.
pub proof fn law_entity_named(e: ZigbeeEntityModel, kind: Seq<char>)
    requires
        e.device_class == Some(kind) || (e.device_class is None && e.attribute_key == Some(kind)),
    ensures
        e.name_by_user is Some ==> e.shown_name() == e.name_by_user->0,
        e.name_by_user is None ==> {
            let shown = e.shown_name();
            &&& kind == "temperature"@ ==> shown == "Temperature"@
            &&& kind == "humidity"@ ==> shown == "Humidity"@
            &&& kind == "battery_low"@ ==> shown == "Battery"@
            &&& kind == "battery_voltage"@ ==> shown == "Voltage"@
            &&& kind == "voltage"@ ==> shown == "Voltage"@
            &&& kind == "illuminance"@ ==> shown == "Illuminance"@
            &&& kind == "illuminance_lux"@ ==> shown == "Illuminance"@
            &&& kind == "atmospheric_pressure"@ ==> shown == "Pressure"@
            &&& kind == "pressure"@ ==> shown == "Pressure"@
            &&& kind == "occupancy"@ ==> shown == "Occupancy"@
            &&& kind == "door"@ ==> shown == "Door"@
            &&& kind == "contact"@ ==> shown == "Door"@
            &&& kind == "window"@ ==> shown == "Window"@
            &&& kind == "tamper"@ ==> shown == "Tamper"@
            &&& kind == "motion"@ ==> shown == "Motion"@
            &&& kind == "smoke"@ ==> shown == "Smoke"@
            &&& kind == "moisture"@ ==> shown == "Moisture"@
            &&& kind == "carbon_monoxide"@ ==> shown == "Carbon Monoxide"@
            &&& kind == "vibration"@ ==> shown == "Vibration"@
            &&& kind == "opening"@ ==> shown == "Opening"@
            &&& kind == "safety"@ ==> shown == "Safety"@
            &&& kind == "energy"@ ==> shown == "Energy"@
            &&& kind == "power"@ ==> shown == "Power"@
            &&& kind == "current"@ ==> shown == "Current"@
            &&& kind == "battery"@ ==> shown == if e.domain == "binary_sensor"@ {
                "Battery Low"@
            } else {
                "Battery"@
            }
        },
{
    lemma_kinds();
}

/// The first sensor with an id is the one that is found, if there is one.
pub proof fn law_sensor_found(s: Seq<MobileEntityRecord>, id: Seq<char>)
    ensures
        match entity_get(s, id) {
            Some(r) => exists|i: int|
                {
                    &&& 0 <= i < s.len()
                    &&& #[trigger] s[i] == r
                    &&& r.entity_id@ == id
                    &&& forall|j: int| 0 <= j < i ==> (#[trigger] s[j]).entity_id@ != id
                },
            None => forall|j: int| 0 <= j < s.len() ==> (#[trigger] s[j]).entity_id@ != id,
        },
{
    lemma_entity_pos(s, id, 0);
}

proof fn lemma_entity_pos(s: Seq<MobileEntityRecord>, id: Seq<char>, i: int)
    requires
        0 <= i,
    ensures
        match entity_pos_from(s, id, i) {
            Some(k) => i <= k < s.len() && s[k].entity_id@ == id && forall|j: int|
                i <= j < k ==> (#[trigger] s[j]).entity_id@ != id,
            None => forall|j: int| i <= j < s.len() ==> (#[trigger] s[j]).entity_id@ != id,
        },
    decreases s.len() - i,
{
    if i < s.len() && s[i].entity_id@ != id {
        lemma_entity_pos(s, id, i + 1);
    }
}

/// A person whose device tells where it is, is in the first zone that holds the place, or away from
/// home where none does, and has the place that the device tells of. A person whom no such device
/// follows stays where they were.
pub proof fn law_person_located(
    states: Map<Seq<char>, PersonStateModel>,
    persons: Seq<PersonModel>,
    device_id: Seq<char>,
    lat: Seq<char>,
    lon: Seq<char>,
    accuracy: Seq<char>,
    zone: Option<Seq<char>>,
    id: Seq<char>,
)
    ensures
        ({
            let after = located_all(states, persons, device_id, lat, lon, accuracy, zone);
            let followed = exists|i: int|
                0 <= i < persons.len() && #[trigger] persons[i].id == id
                    && persons[i].device_trackers.contains(device_id);
            &&& followed ==> {
                &&& after.contains_key(id)
                &&& after[id].person_id == id
                &&& zone is Some ==> after[id].state == zone->0
                &&& zone is None ==> after[id].state == "not_home"@
                &&& after[id].latitude == Some(lat)
                &&& after[id].longitude == Some(lon)
                &&& after[id].gps_accuracy == Some(accuracy)
                &&& after[id].source == Some(device_id)
            }
            &&& !followed ==> after.contains_key(id) == states.contains_key(id) && (
            states.contains_key(id) ==> after[id] == states[id])
        }),
{
    crate::person_store::law_located(states, persons, device_id, lat, lon, accuracy, zone, id);
}

/// The zone of a place is the first one with coordinates that holds it.
pub proof fn law_first_zone(zones: Seq<StoredZone>, inside: Seq<bool>)
    requires
        inside.len() == zones.len(),
    ensures
        match zone_from(zones, inside, 0) {
            Some(name) => exists|i: int|
                {
                    &&& 0 <= i < zones.len()
                    &&& #[trigger] inside[i]
                    &&& zones[i].latitude is Some && zones[i].longitude is Some
                    &&& zones[i].name@ == name
                    &&& forall|j: int|
                        0 <= j < i ==> !#[trigger] inside[j] || zones[j].latitude is None
                            || zones[j].longitude is None
                },
            None => forall|j: int|
                0 <= j < zones.len() ==> !#[trigger] inside[j] || zones[j].latitude is None
                    || zones[j].longitude is None,
        },
{
    lemma_zone_from(zones, inside, 0);
}

proof fn lemma_zone_from(zones: Seq<StoredZone>, inside: Seq<bool>, i: int)
    requires
        inside.len() == zones.len(),
        0 <= i,
    ensures
        match zone_from(zones, inside, i) {
            Some(name) => exists|k: int|
                {
                    &&& i <= k < zones.len()
                    &&& #[trigger] inside[k]
                    &&& zones[k].latitude is Some && zones[k].longitude is Some
                    &&& zones[k].name@ == name
                    &&& forall|j: int|
                        i <= j < k ==> !#[trigger] inside[j] || zones[j].latitude is None
                            || zones[j].longitude is None
                },
            None => forall|j: int|
                i <= j < zones.len() ==> !#[trigger] inside[j] || zones[j].latitude is None
                    || zones[j].longitude is None,
        },
    decreases zones.len() - i,
{
    if i < zones.len() {
        if crate::person_store::zone_holds(zones, inside, i) {
            assert(inside[i]);
        } else {
            lemma_zone_from(zones, inside, i + 1);
        }
    }
}

/// The logbook tells of a change when it was, of which entity, under the name that the entity has or
/// else its id, and the values before and after it.
pub proof fn law_change_logged(change: EventModel, ts: u64)
    ensures
        entry_model(change, ts).ts == ts,
        entry_model(change, ts).entity_id == change.0.entity_id,
        entry_model(change, ts).new_state == change.0.state,
        change.1 matches Some(before) ==> entry_model(change, ts).old_state == before.state,
        change.1 is None ==> entry_model(change, ts).old_state.len() == 0,
        match json::member(change.0.attributes, "friendly_name"@) {
            Some(JsonView::Str(name)) => entry_model(change, ts).display_name == name,
            _ => entry_model(change, ts).display_name == change.0.entity_id,
        },
{
    reveal_strlit("");
}

/// The last entry of a logbook that can hold any is the one noted last; the ones before it are the
/// latest of those before.
pub proof fn law_logged(s: Seq<LogModel>, capacity: usize, e: LogModel)
    requires
        s.len() <= capacity,
    ensures
        ({
            let r = logged(s, capacity, e);
            &&& r.len() <= capacity
            &&& capacity > 0 ==> {
                &&& r.last() == e
                &&& r.len() == if s.len() < capacity {
                    s.len() + 1
                } else {
                    s.len()
                }
                &&& forall|i: int|
                    0 <= i < r.len() - 1 ==> #[trigger] r[i] == s[s.len() - (r.len() - 1) + i]
            }
        }),
{
}

/// What is read of the logbook is every entry about what is asked for, the newest first: the entries
/// whose entity id has the text asked for in it, in whatever case.
pub proof fn law_log_read(s: Seq<LogbookEntry>, wanted: Option<Seq<char>>)
    ensures
        newest_about(s, wanted) == s.filter(
            |e: LogbookEntry|
                wanted is None || text::has_text(
                    text::lowercased(e.entity_id@),
                    text::lowercased(wanted->0),
                ),
        ).reverse(),
    decreases s.len(),
{
    let p = |e: LogbookEntry|
        wanted is None || text::has_text(
            text::lowercased(e.entity_id@),
            text::lowercased(wanted->0),
        );
    reveal(Seq::filter);
    if s.len() > 0 {
        law_log_read(s.drop_last(), wanted);
        let front = s.drop_last().filter(p);
        if p(s.last()) {
            assert(front.push(s.last()).reverse() =~= Seq::empty().push(s.last())
                + front.reverse());
        }
    } else {
        assert(newest_about(s, wanted) =~= s.filter(p).reverse());
    }
}

/// A reading that is added is the last one, and the ones before it are the latest of those before.
pub proof fn law_reading_added<T>(s: Seq<T>, capacity: usize, e: T)
    requires
        capacity > 0,
        s.len() <= capacity,
    ensures
        pushed(s, capacity, e).last() == e,
        pushed(s, capacity, e).len() <= capacity,
        s.len() < capacity ==> pushed(s, capacity, e) == s.push(e),
        s.len() == capacity ==> pushed(s, capacity, e) == s.skip(1).push(e),
{
    if s.len() == capacity {
        assert(pushed(s, capacity, e) =~= s.skip(1).push(e));
    }
}

/// The readings of an entity among rows are those of its rows, in order.
pub proof fn law_rows(rows: Seq<HistoryRow>, id: Seq<char>)
    ensures
        ({
            let own = rows.filter(|r: HistoryRow| r.entity_id@ == id);
            &&& rows_of(rows, id).len() == own.len()
            &&& forall|i: int|
                0 <= i < own.len() ==> (#[trigger] rows_of(rows, id)[i]).ts == own[i].ts
                    && rows_of(rows, id)[i].value == own[i].value
        }),
    decreases rows.len(),
{
    reveal(Seq::filter);
    if rows.len() > 0 {
        law_rows(rows.drop_last(), id);
    }
}

/// The ids of the entities that have been read since a time are those with a reading of that time or
/// later.
pub proof fn law_read_since(s: Seq<EntityHistory>, since_ts: u64, i: int)
    requires
        0 <= i < s.len(),
    ensures
        (exists|k: int|
            0 <= k < s[i].buffer.entries@.len() && (#[trigger] s[i].buffer.entries@[k]).ts
                >= since_ts) ==> ids_since(s, since_ts).contains(s[i].entity_id@),
        ids_since(s, since_ts).contains(s[i].entity_id@) ==> exists|j: int, k: int|
            0 <= j < s.len() && (#[trigger] s[j]).entity_id@ == s[i].entity_id@ && 0 <= k
                < s[j].buffer.entries@.len() && (#[trigger] s[j].buffer.entries@[k]).ts >= since_ts,
{
    lemma_read_since(s, since_ts, i);
    lemma_since_read(s, since_ts, s[i].entity_id@);
}

proof fn lemma_read_since(s: Seq<EntityHistory>, since_ts: u64, i: int)
    requires
        0 <= i < s.len(),
    ensures
        crate::history_store::read_since(s[i].buffer.entries@, since_ts) ==> ids_since(
            s,
            since_ts,
        ).contains(s[i].entity_id@),
    decreases s.len(),
{
    let n = (s.len() - 1) as int;
    let front = s.drop_last();
    let all = ids_since(s, since_ts);
    let part = ids_since(front, since_ts);
    if crate::history_store::read_since(s[i].buffer.entries@, since_ts) {
        if i == n {
            assert(all[all.len() - 1] == s[i].entity_id@);
        } else {
            assert(front[i] == s[i]);
            lemma_read_since(front, since_ts, i);
            let k = choose|k: int| 0 <= k < part.len() && part[k] == s[i].entity_id@;
            assert(all[k] == part[k]);
        }
    }
}

proof fn lemma_since_read(s: Seq<EntityHistory>, since_ts: u64, id: Seq<char>)
    ensures
        ids_since(s, since_ts).contains(id) ==> exists|j: int, k: int|
            0 <= j < s.len() && (#[trigger] s[j]).entity_id@ == id && 0 <= k
                < s[j].buffer.entries@.len() && (#[trigger] s[j].buffer.entries@[k]).ts >= since_ts,
    decreases s.len(),
{
    if s.len() > 0 {
        let n = (s.len() - 1) as int;
        let front = s.drop_last();
        let all = ids_since(s, since_ts);
        let part = ids_since(front, since_ts);
        lemma_since_read(front, since_ts, id);
        if all.contains(id) {
            let x = choose|x: int| 0 <= x < all.len() && all[x] == id;
            if x < part.len() {
                assert(part[x] == id);
                let (j, k) = choose|j: int, k: int|
                    0 <= j < front.len() && (#[trigger] front[j]).entity_id@ == id && 0 <= k
                        < front[j].buffer.entries@.len() && (
                    #[trigger] front[j].buffer.entries@[k]).ts >= since_ts;
                assert(s[j] == front[j]);
                assert(s[j].buffer.entries@[k].ts >= since_ts);
            } else {
                let e = s[n].buffer.entries@;
                let k = choose|k: int| 0 <= k < e.len() && (#[trigger] e[k]).ts >= since_ts;
                assert(s[n].entity_id@ == id);
                assert(s[n].buffer.entries@[k].ts >= since_ts);
            }
        }
    }
}

/// An id that is noted is there once; the others stay, in order.
pub proof fn law_id_noted(ids: Seq<Seq<char>>, id: Seq<char>)
    ensures
        with_id(ids, id).contains(id),
        ids.is_prefix_of(with_id(ids, id)),
        forall|other: Seq<char>|
            other != id ==> #[trigger] with_id(ids, id).contains(other) == ids.contains(other),
        ids.no_duplicates() ==> with_id(ids, id).no_duplicates(),
{
    let r = with_id(ids, id);
    if !ids.contains(id) {
        assert(r[ids.len() as int] == id);
        assert(r.take(ids.len() as int) =~= ids);
        assert forall|other: Seq<char>| other != id implies #[trigger] r.contains(other)
            == ids.contains(other) by {
            if ids.contains(other) {
                let k = choose|k: int| 0 <= k < ids.len() && ids[k] == other;
                assert(r[k] == other);
            }
            if r.contains(other) {
                let k = choose|k: int| 0 <= k < r.len() && r[k] == other;
                assert(ids[k] == other);
            }
        }
    }
}

/// The latest values are those of the last readings: one for each entity that has any.
pub proof fn law_latest(s: Seq<EntityHistory>, i: int)
    requires
        0 <= i < s.len(),
        s[i].buffer.entries@.len() > 0,
    ensures
        latest_from(s).contains((s[i].entity_id, s[i].buffer.entries@.last().value)),
        latest_from(s).len() == s.filter(|h: EntityHistory| h.buffer.entries@.len() > 0).len(),
{
    lemma_latest(s, i);
    lemma_latest_count(s);
}

proof fn lemma_latest(s: Seq<EntityHistory>, i: int)
    requires
        0 <= i < s.len(),
        s[i].buffer.entries@.len() > 0,
    ensures
        latest_from(s).contains((s[i].entity_id, s[i].buffer.entries@.last().value)),
    decreases s.len(),
{
    let n = (s.len() - 1) as int;
    let front = s.drop_last();
    let all = latest_from(s);
    let part = latest_from(front);
    if i == n {
        assert(all[all.len() - 1] == (s[i].entity_id, s[i].buffer.entries@.last().value));
    } else {
        assert(front[i] == s[i]);
        lemma_latest(front, i);
        let k = choose|k: int|
            0 <= k < part.len() && part[k] == (s[i].entity_id, s[i].buffer.entries@.last().value);
        assert(all[k] == part[k]);
    }
}

proof fn lemma_latest_count(s: Seq<EntityHistory>)
    ensures
        latest_from(s).len() == s.filter(|h: EntityHistory| h.buffer.entries@.len() > 0).len(),
    decreases s.len(),
{
    reveal(Seq::filter);
    if s.len() > 0 {
        lemma_latest_count(s.drop_last());
    }
}

/// A time of day is its hour and its minute, of two digits each, whatever the day.
pub proof fn law_time_of_day(day: u64, hour: u64, minute: u64, second: u64)
    requires
        hour < 24,
        minute < 60,
        second < 60,
        day < 200_000_000_000_000,
    ensures
        hhmm((day * 86400 + hour * 3600 + minute * 60 + second) as u64) == text::padded(
            hour as nat,
            2,
        ) + ":"@ + text::padded(minute as nat, 2),
{
    let ts = (day * 86400 + hour * 3600 + minute * 60 + second) as u64;
    assert(ts / 3600 == day * 24 + hour) by (nonlinear_arith)
        requires
            ts == day * 86400 + hour * 3600 + minute * 60 + second,
            minute < 60,
            second < 60,
    ;
    assert(ts / 60 == (day * 24 + hour) * 60 + minute) by (nonlinear_arith)
        requires
            ts == day * 86400 + hour * 3600 + minute * 60 + second,
            second < 60,
    ;
    assert((day * 24 + hour) % 24 == hour) by (nonlinear_arith)
        requires
            hour < 24,
    ;
    assert(((day * 24 + hour) * 60 + minute) % 60 == minute) by (nonlinear_arith)
        requires
            minute < 60,
    ;
}

/// A timeline shows at each time what was so then: what the last change at or before it said, until
/// the next change.
pub proof fn law_timeline_shows(s: Seq<(u64, bool)>, since: u64, end: u64, i: int, t: u64)
    requires
        0 <= i < s.len(),
        since <= t < end,
        s[i].0 <= t,
        i + 1 < s.len() ==> t < s[i + 1].0,
    ensures
        exists|k: int|
            {
                &&& 0 <= k < segments(s, since, end, s.len() as int).len()
                &&& (#[trigger] segments(s, since, end, s.len() as int)[k]).start <= t
                &&& t < segments(s, since, end, s.len() as int)[k].end
                &&& segments(s, since, end, s.len() as int)[k].on == s[i].1
            },
{
    lemma_shown(s, since, end, i, t, s.len() as int);
}

proof fn lemma_shown(s: Seq<(u64, bool)>, since: u64, end: u64, i: int, t: u64, n: int)
    requires
        0 <= i < n <= s.len(),
        since <= t < end,
        s[i].0 <= t,
        i + 1 < s.len() ==> t < s[i + 1].0,
    ensures
        exists|k: int|
            {
                &&& 0 <= k < segments(s, since, end, n).len()
                &&& (#[trigger] segments(s, since, end, n)[k]).start <= t
                &&& t < segments(s, since, end, n)[k].end
                &&& segments(s, since, end, n)[k].on == s[i].1
            },
    decreases n,
{
    let all = segments(s, since, end, n);
    let part = segments(s, since, end, n - 1);
    if i == n - 1 {
        let x = segment_at(s, since, end, i);
        assert(all == part.push(x));
        assert(all[part.len() as int] == x);
    } else {
        lemma_shown(s, since, end, i, t, n - 1);
        let k = choose|k: int|
            {
                &&& 0 <= k < part.len()
                &&& (#[trigger] part[k]).start <= t
                &&& t < part[k].end
                &&& part[k].on == s[i].1
            };
        assert(all[k] == part[k]);
    }
}

/// Whether a character is a small letter or a digit.
pub open spec fn is_plain(c: char) -> bool {
    ('a' <= c && c <= 'z') || ('0' <= c && c <= '9')
}

/// The object id of a text of small letters and digits is the text; capitals become small letters,
/// and whatever else stands between two such texts becomes one underscore.
pub proof fn law_object_ids(a: Seq<char>, between: Seq<char>, b: Seq<char>)
    requires
        a.len() > 0,
        forall|i: int| 0 <= i < a.len() ==> is_plain(#[trigger] a[i]),
        b.len() > 0,
        forall|i: int| 0 <= i < b.len() ==> is_plain(#[trigger] b[i]),
        between.len() > 0,
        forall|i: int|
            0 <= i < between.len() ==> !is_plain(#[trigger] between[i]) && !('A' <= between[i]
                && between[i] <= 'Z'),
    ensures
        object_id_of(a) == a,
        object_id_of(a + between + b) == a + seq!['_'] + b,
{
    lemma_plain(Seq::empty(), a);
    assert(joined_words(Seq::<char>::empty()) =~= Seq::empty());
    assert(Seq::<char>::empty() + a =~= a);
    assert(joined_words(a) =~= a);
    lemma_between(a, between);
    lemma_plain(a + between, b);
    assert(joined_words(a + between + b) =~= a + seq!['_'] + b);
    assert(is_plain(a[a.len() - 1]));
    assert(is_plain(b[b.len() - 1]));
    assert((a + seq!['_'] + b).last() == b[b.len() - 1]);
}

proof fn lemma_plain(s: Seq<char>, b: Seq<char>)
    requires
        forall|i: int| 0 <= i < b.len() ==> is_plain(#[trigger] b[i]),
    ensures
        joined_words(s + b) == joined_words(s) + b,
    decreases b.len(),
{
    if b.len() == 0 {
        assert(s + b =~= s);
        assert(joined_words(s) + b =~= joined_words(s));
    } else {
        let front = b.drop_last();
        assert forall|i: int| 0 <= i < front.len() implies is_plain(#[trigger] front[i]) by {
            assert(front[i] == b[i]);
        }
        lemma_plain(s, front);
        assert((s + b).drop_last() =~= s + front);
        assert(is_plain(b[b.len() - 1]));
        assert(joined_words(s + b) =~= joined_words(s) + b);
    }
}

proof fn lemma_between(a: Seq<char>, between: Seq<char>)
    requires
        a.len() > 0,
        forall|i: int| 0 <= i < a.len() ==> is_plain(#[trigger] a[i]),
        between.len() > 0,
        forall|i: int|
            0 <= i < between.len() ==> !is_plain(#[trigger] between[i]) && !('A' <= between[i]
                && between[i] <= 'Z'),
    ensures
        joined_words(a + between) == a + seq!['_'],
    decreases between.len(),
{
    let front = between.drop_last();
    assert((a + between).drop_last() =~= a + front);
    assert(!is_plain(between[between.len() - 1]));
    if front.len() == 0 {
        lemma_plain(Seq::empty(), a);
        assert(joined_words(Seq::<char>::empty()) =~= Seq::empty());
        assert(Seq::<char>::empty() + a =~= a);
        assert(joined_words(a) =~= a);
        assert(a + front =~= a);
        assert(is_plain(a[a.len() - 1]));
        assert(a.push('_') =~= a + seq!['_']);
    } else {
        assert forall|i: int| 0 <= i < front.len() implies !is_plain(#[trigger] front[i]) && !('A'
            <= front[i] && front[i] <= 'Z') by {
            assert(front[i] == between[i]);
        }
        lemma_between(a, front);
    }
}

/// The entity of a sensor is named by the kind of the sensor, and by the webhook of its device and
/// its own id.
pub proof fn law_sensor_entity(webhook_id: Seq<char>, kind: Seq<char>, unique_id: Seq<char>)
    requires
        !kind.contains(':'),
    ensures
        entity_id_of(store_key_of(webhook_id, kind, unique_id)) == kind + ".mobile_app_"@
            + object_id_of(webhook_id + ":"@ + unique_id),
{
    reveal_strlit(":");
    let rest = webhook_id + ":"@ + unique_id;
    assert(store_key_of(webhook_id, kind, unique_id) =~= kind.push(':') + rest);
    text::lemma_split_first(kind, ':', rest);
}

/// Sensors that are assigned to an area are in it; the others stay where they are, and nothing else
/// of any changes.
pub proof fn law_assigned(s: Seq<MobileEntry>, ids: Seq<Seq<char>>, area: String, i: int)
    requires
        0 <= i < s.len(),
        forall|a: int, b: int|
            0 <= a < b < s.len() ==> (#[trigger] s[a]).record.entity_id@ != (
            #[trigger] s[b]).record.entity_id@,
    ensures
        ({
            let t = assigned_to(s, ids, area);
            &&& t.len() == s.len()
            &&& t[i].key == s[i].key
            &&& t[i].record.entity_id == s[i].record.entity_id
            &&& t[i].record.name_by_user == s[i].record.name_by_user
            &&& t[i].record.disabled == s[i].record.disabled
            &&& if ids.contains(s[i].record.entity_id@) {
                t[i].record.user_area_id == Some(area)
            } else {
                t[i].record.user_area_id == s[i].record.user_area_id
            }
        }),
    decreases ids.len(),
{
    if ids.len() > 0 {
        let front = ids.drop_last();
        let n = (ids.len() - 1) as int;
        let id = s[i].record.entity_id@;
        law_assigned(s, front, area, i);
        let t = assigned_to(s, front, area);
        assert forall|k: int| 0 <= k < s.len() implies (#[trigger] t[k]).record.entity_id
            == s[k].record.entity_id by {
            law_assigned(s, front, area, k);
        }
        lemma_entity_pos(records(t), ids[n], 0);
        if ids[n] == id {
            assert(ids.contains(id));
            assert(records(t)[i].entity_id@ == id);
            if let Some(k) = entity_pos_from(records(t), id, 0) {
                if k != i {
                    assert(s[k].record.entity_id@ == t[k].record.entity_id@);
                    assert(records(t)[k] == t[k].record);
                    if k < i {
                        assert(s[k].record.entity_id@ != s[i].record.entity_id@);
                    } else {
                        assert(s[i].record.entity_id@ != s[k].record.entity_id@);
                    }
                }
            }
        } else {
            if ids.contains(id) {
                let k = choose|k: int| 0 <= k < ids.len() && ids[k] == id;
                assert(front[k] == id);
            }
            if front.contains(id) {
                let k = choose|k: int| 0 <= k < front.len() && front[k] == id;
                assert(ids[k] == id);
            }
            if let Some(k) = entity_pos_from(records(t), ids[n], 0) {
                assert(records(t)[k] == t[k].record);
            }
        }
    }
}

/// What is sorted goes up by its key, and holds what was there, no more and no less.
pub proof fn law_sorted<T: Keyed>(r: Seq<T>, s: Seq<T>, i: int, j: int)
    requires
        order::sorted_from(r, s),
    ensures
        r.len() == s.len(),
        0 <= i < j < r.len() ==> r[i].key() == r[j].key() || order::text_lt(
            r[i].key(),
            r[j].key(),
        ),
        0 <= i < s.len() ==> r.contains(s[i]),
        0 <= i < r.len() ==> s.contains(r[i]),
{
    if 0 <= i < j < r.len() {
        assert(!order::text_lt(r[j].key(), r[i].key()));
        if r[i].key() != r[j].key() {
            order::law_text_total(r[i].key(), r[j].key());
        }
    }
    if 0 <= i < s.len() {
        lemma_with_key(s, s[i].key(), i);
        assert(order::with_the_key(r, s[i].key()) == order::with_the_key(s, s[i].key()));
        lemma_from_key(r, s[i].key(), s[i]);
    }
    if 0 <= i < r.len() {
        lemma_with_key(r, r[i].key(), i);
        assert(order::with_the_key(r, r[i].key()) == order::with_the_key(s, r[i].key()));
        lemma_from_key(s, r[i].key(), r[i]);
    }
}

proof fn lemma_with_key<T: Keyed>(s: Seq<T>, key: Seq<char>, i: int)
    requires
        0 <= i < s.len(),
        s[i].key() == key,
    ensures
        order::with_the_key(s, key).contains(s[i]),
    decreases s.len(),
{
    let front = s.drop_last();
    let all = order::with_the_key(s, key);
    let part = order::with_the_key(front, key);
    if i == s.len() - 1 {
        assert(all[all.len() - 1] == s[i]);
    } else {
        assert(front[i] == s[i]);
        lemma_with_key(front, key, i);
        let k = choose|k: int| 0 <= k < part.len() && part[k] == s[i];
        assert(all[k] == part[k]);
    }
}

proof fn lemma_from_key<T: Keyed>(s: Seq<T>, key: Seq<char>, x: T)
    requires
        order::with_the_key(s, key).contains(x),
    ensures
        s.contains(x),
    decreases s.len(),
{
    let all = order::with_the_key(s, key);
    let k = choose|k: int| 0 <= k < all.len() && all[k] == x;
    if s.len() > 0 {
        let front = s.drop_last();
        let part = order::with_the_key(front, key);
        if k < part.len() {
            assert(part[k] == x);
            lemma_from_key(front, key, x);
            let j = choose|j: int| 0 <= j < front.len() && front[j] == x;
            assert(s[j] == x);
        } else {
            assert(s[s.len() - 1] == x);
        }
    }
}

/// A chart shows each of its labels, and its line goes through each of its points.
pub proof fn law_chart_texts(
    labels: Seq<AxisLabel>,
    points: Seq<(String, String)>,
    stripes: Seq<Stripe>,
    height: Seq<char>,
    i: int,
)
    ensures
        0 <= i < labels.len() ==> text::has_text(labels_text(labels), labels[i].value@)
            && text::has_text(labels_text(labels), labels[i].x@) && text::has_text(
            labels_text(labels),
            labels[i].y@,
        ),
        0 <= i < points.len() ==> text::has_text(
            path_text(points),
            points[i].0@ + " "@ + points[i].1@,
        ),
        0 <= i < stripes.len() ==> text::has_text(
            stripes_text(stripes, height),
            "<rect x=\""@ + stripes[i].x@ + "\" y=\"0\" width=\""@ + stripes[i].width@
                + "\" height=\""@ + height + "\" fill=\""@ + (if stripes[i].on {
                "#f59e0b"@
            } else {
                "#e5e7eb"@
            }),
        ),
{
    if 0 <= i < labels.len() {
        lemma_label(labels, i);
    }
    if 0 <= i < points.len() {
        lemma_point(points, i);
    }
    if 0 <= i < stripes.len() {
        lemma_stripe(stripes, height, i);
    }
}

proof fn lemma_label(s: Seq<AxisLabel>, i: int)
    requires
        0 <= i < s.len(),
    ensures
        text::has_text(labels_text(s), s[i].value@),
        text::has_text(labels_text(s), s[i].x@),
        text::has_text(labels_text(s), s[i].y@),
    decreases s.len(),
{
    let n = (s.len() - 1) as int;
    let front = s.drop_last();
    let l = s[n];
    let p0 = labels_text(front);
    if i < n {
        assert(front[i] == s[i]);
        lemma_label(front, i);
    }
    lemma_more(p0, "  <text x=\""@);
    let p1 = p0 + "  <text x=\""@;
    lemma_more(p1, l.x@);
    let p2 = p1 + l.x@;
    lemma_more(p2, "\" y=\""@);
    let p3 = p2 + "\" y=\""@;
    lemma_more(p3, l.y@);
    let p4 = p3 + l.y@;
    lemma_more(p4, "\" text-anchor=\""@);
    let p5 = p4 + "\" text-anchor=\""@;
    lemma_more(p5, l.anchor@);
    let p6 = p5 + l.anchor@;
    lemma_more(p6, "\" fill=\"#999\" font-size=\"9\">"@);
    let p7 = p6 + "\" fill=\"#999\" font-size=\"9\">"@;
    lemma_more(p7, l.value@);
    let p8 = p7 + l.value@;
    lemma_more(p8, "</text>\n"@);
    assert(labels_text(s) == p8 + "</text>\n"@);
}

proof fn lemma_point(s: Seq<(String, String)>, i: int)
    requires
        0 <= i < s.len(),
    ensures
        text::has_text(path_text(s), s[i].0@ + " "@ + s[i].1@),
    decreases s.len(),
{
    let n = (s.len() - 1) as int;
    let front = s.drop_last();
    let step = if s.len() == 1 {
        "M "@
    } else {
        " L "@
    };
    let p0 = path_text(front) + step;
    let p = s[n].0@ + " "@ + s[n].1@;
    assert(path_text(s) =~= p0 + p);
    lemma_more(p0, p);
    if i < n {
        assert(front[i] == s[i]);
        lemma_point(front, i);
        lemma_more(path_text(front), step);
    }
}

proof fn lemma_stripe(s: Seq<Stripe>, height: Seq<char>, i: int)
    requires
        0 <= i < s.len(),
    ensures
        text::has_text(
            stripes_text(s, height),
            "<rect x=\""@ + s[i].x@ + "\" y=\"0\" width=\""@ + s[i].width@ + "\" height=\""@
                + height + "\" fill=\""@ + (if s[i].on {
                "#f59e0b"@
            } else {
                "#e5e7eb"@
            }),
        ),
    decreases s.len(),
{
    let n = (s.len() - 1) as int;
    let front = s.drop_last();
    let p0 = stripes_text(front, height);
    let p = "<rect x=\""@ + s[n].x@ + "\" y=\"0\" width=\""@ + s[n].width@ + "\" height=\""@
        + height + "\" fill=\""@ + (if s[n].on {
        "#f59e0b"@
    } else {
        "#e5e7eb"@
    });
    assert(stripes_text(s, height) =~= p0 + p + "\"/>"@);
    lemma_more(p0, p);
    lemma_more(p0 + p, "\"/>"@);
    if i < n {
        assert(front[i] == s[i]);
        lemma_stripe(front, height, i);
    }
}

/// What is stored of a token, and the name of a kind of adapter.
pub proof fn law_small_records(
    id: String,
    name: String,
    hash: String,
    created_at: String,
    lower: Seq<char>,
)
    ensures
        ({
            let t = crate::long_lived_token_store::stored_token(id, name, hash, created_at);
            t.id@ == id@ && t.name@ == name@ && t.token_hash@ == hash@ && t.created_at@
                == created_at@
        }),
        crate::zigbee_integration::adapter_named(lower) is Znp <==> lower == "znp"@,
        crate::zigbee_integration::adapter_named(lower) is Ezsp <==> lower == "ezsp"@,
{
    reveal_strlit("znp");
    reveal_strlit("ezsp");
    assert("znp"@.len() == 3 && "ezsp"@.len() == 4);
}

} // verus!
