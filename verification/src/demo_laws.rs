//! What the made-up home holds: laws over the data that fill it.

use vstd::prelude::*;
use vstd::string::*;

use crate::area_registry_store::AreaRegistryStore;
use crate::demo::{
    areas_seeded, bedroom_entities, demo_log, demo_onboarding_model, living_room_entities,
    notifications_seeded, office_entities, states_offered, states_seeded, zigbee_states, DemoAreas,
};
use crate::keyed;
use crate::notification_store::Notification;
use crate::state_store;
use crate::state_store::StateRun;
use crate::text;

verus! {

/// The made-up home is onboarded: all four steps are done, and its owner, its name, its country, its
/// time zone and its units are set.
pub proof fn law_demo_home(password: Seq<char>, now_ms: u128)
    ensures
        ({
            let o = demo_onboarding_model(password, now_ms);
            &&& o.onboarded
            &&& o.has_done("user"@) && o.has_done("core_config"@) && o.has_done("analytics"@)
                && o.has_done("integration"@)
            &&& o.updated_at_unix_ms == now_ms
            &&& o.user is Some && o.user->0.password == password
            &&& o.location_name is Some && o.country is Some && o.time_zone is Some
                && o.unit_system is Some
            &&& o.language == Some(o.user->0.language)
            &&& o.latitude is None && o.longitude is None
        }),
{
    let done = demo_onboarding_model(password, now_ms).done;
    assert(done[0] == "user"@ && done[1] == "core_config"@ && done[2] == "analytics"@ && done[3]
        == "integration"@);
}

/// Three areas are added, in this order; those before stay.
pub proof fn law_demo_areas(
    before: AreaRegistryStore,
    after: AreaRegistryStore,
    second: AreaRegistryStore,
    third: AreaRegistryStore,
    r: DemoAreas,
)
    requires
        areas_seeded(before, after, second, third, r),
    ensures
        ({
            let n = before.models().len() as int;
            &&& after.models().len() == n + 3
            &&& forall|i: int| 0 <= i < n ==> #[trigger] after.models()[i] == before.models()[i]
            &&& after.models()[n].name == "Living Room"@
            &&& after.models()[n].area_id == r.living_room@
            &&& after.models()[n + 1].name == "Bedroom"@
            &&& after.models()[n + 1].area_id == r.bedroom@
            &&& after.models()[n + 2].name == "Office"@
            &&& after.models()[n + 2].area_id == r.office@
        }),
{
}

/// Each state that is made up is stored with its value and without attributes, and told of; the
/// states of other entities stay.
pub proof fn law_demo_states(
    before: StateRun,
    after: StateRun,
    pairs: Seq<(Seq<char>, Seq<char>)>,
    contexts: Seq<Seq<char>>,
    ts: Seq<char>,
    i: int,
    other: Seq<char>,
)
    requires
        states_offered(before, after, pairs, contexts, ts),
    ensures
        0 <= i < pairs.len() && state_store::valid_entity_id(pairs[i].0) && text::byte_count(
            pairs[i].1,
        ) <= 255 && (forall|j: int| i < j < pairs.len() ==> (#[trigger] pairs[j]).0 != pairs[i].0)
            ==> {
            &&& after.states.contains_key(pairs[i].0)
            &&& after.states[pairs[i].0].state == pairs[i].1
            &&& after.states[pairs[i].0].attributes.len() == 0
            &&& after.states[pairs[i].0].last_changed == ts
        },
        (forall|j: int| 0 <= j < pairs.len() ==> (#[trigger] pairs[j]).0 != other)
            ==> state_store::state_in(after.states, other) == state_store::state_in(
            before.states,
            other,
        ),
{
    if 0 <= i < pairs.len() && state_store::valid_entity_id(pairs[i].0) && text::byte_count(
        pairs[i].1,
    ) <= 255 && (forall|j: int| i < j < pairs.len() ==> (#[trigger] pairs[j]).0 != pairs[i].0) {
        lemma_seeded(before, pairs, contexts, ts, i);
    }
    if forall|j: int| 0 <= j < pairs.len() ==> (#[trigger] pairs[j]).0 != other {
        lemma_kept(before, pairs, contexts, ts, other);
    }
}

proof fn lemma_kept(
    run: StateRun,
    pairs: Seq<(Seq<char>, Seq<char>)>,
    contexts: Seq<Seq<char>>,
    ts: Seq<char>,
    other: Seq<char>,
)
    requires
        forall|j: int| 0 <= j < pairs.len() ==> (#[trigger] pairs[j]).0 != other,
    ensures
        state_store::state_in(states_seeded(run, pairs, contexts, ts).states, other)
            == state_store::state_in(run.states, other),
    decreases pairs.len(),
{
    if pairs.len() > 0 {
        let front = pairs.drop_last();
        assert forall|j: int| 0 <= j < front.len() implies (#[trigger] front[j]).0 != other by {
            assert(front[j] == pairs[j]);
        }
        lemma_kept(run, front, contexts.drop_last(), ts, other);
        assert(pairs[pairs.len() - 1].0 != other);
    }
}

proof fn lemma_seeded(
    run: StateRun,
    pairs: Seq<(Seq<char>, Seq<char>)>,
    contexts: Seq<Seq<char>>,
    ts: Seq<char>,
    i: int,
)
    requires
        0 <= i < pairs.len(),
        state_store::valid_entity_id(pairs[i].0),
        text::byte_count(pairs[i].1) <= 255,
        forall|j: int| i < j < pairs.len() ==> (#[trigger] pairs[j]).0 != pairs[i].0,
    ensures
        ({
            let after = states_seeded(run, pairs, contexts, ts);
            &&& after.states.contains_key(pairs[i].0)
            &&& after.states[pairs[i].0].state == pairs[i].1
            &&& after.states[pairs[i].0].attributes.len() == 0
            &&& after.states[pairs[i].0].last_changed == ts
        }),
    decreases pairs.len(),
{
    let n = (pairs.len() - 1) as int;
    if i < n {
        let front = pairs.drop_last();
        assert(front[i] == pairs[i]);
        assert forall|j: int| i < j < front.len() implies (#[trigger] front[j]).0 != front[i].0 by {
            assert(front[j] == pairs[j]);
        }
        lemma_seeded(run, front, contexts.drop_last(), ts, i);
        assert(pairs[n].0 != pairs[i].0);
    }
}

/// Every made-up entity of a device but those of batteries is in the area of its device, none is
/// disabled, and what it shows is by its class.
pub proof fn law_demo_entities(area: Seq<char>, i: int)
    ensures
        0 <= i < bedroom_entities(area).len() ==> {
            let e = bedroom_entities(area)[i];
            &&& !e.disabled
            &&& e.domain == "sensor"@
            &&& e.ieee_addr == bedroom_entities(area)[0].ieee_addr
            &&& e.attribute_key == e.device_class && e.device_class is Some
            &&& e.user_area_id == if e.device_class == Some("battery"@) {
                None
            } else {
                Some(area)
            }
        },
        0 <= i < living_room_entities(area).len() ==> {
            let e = living_room_entities(area)[i];
            !e.disabled && e.domain == "light"@ && e.user_area_id == Some(area)
        },
        0 <= i < office_entities(area).len() ==> {
            let e = office_entities(area)[i];
            &&& !e.disabled
            &&& e.ieee_addr == office_entities(area)[0].ieee_addr
            &&& e.attribute_key == e.device_class && e.device_class is Some
            &&& e.domain == if e.device_class == Some("occupancy"@) {
                "binary_sensor"@
            } else {
                "sensor"@
            }
            &&& e.user_area_id == if e.device_class == Some("battery"@) {
                None
            } else {
                Some(area)
            }
        },
        bedroom_entities(area).len() + living_room_entities(area).len() + office_entities(
            area,
        ).len() == zigbee_states().len(),
{
    reveal_strlit("battery");
    reveal_strlit("temperature");
    reveal_strlit("humidity");
    reveal_strlit("occupancy");
    assert("battery"@.len() == 7 && "temperature"@.len() == 11 && "humidity"@.len() == 8
        && "occupancy"@.len() == 9);
}

/// The made-up notifications are there, not read yet, and the others stay.
pub proof fn law_demo_notifications(
    before: Seq<Notification>,
    after: Seq<Notification>,
    motion: Notification,
    battery: Notification,
    other: Seq<char>,
)
    requires
        notifications_seeded(before, after, motion, battery),
        motion.notification_id@ != battery.notification_id@,
    ensures
        keyed::key_get(after, motion.notification_id@) == Some(motion),
        keyed::key_get(after, battery.notification_id@) == Some(battery),
        motion.status@ == "unread"@ && battery.status@ == "unread"@,
        other != motion.notification_id@ && other != battery.notification_id@ ==> keyed::key_get(
            after,
            other,
        ) == keyed::key_get(before, other),
{
    keyed::lemma_put(before, motion);
    keyed::lemma_put(keyed::with(before, motion), battery);
}

/// The made-up log goes forward in time up to now, and each change of an entity begins at the value
/// where the one before it ended. An entity has one name.
pub proof fn law_demo_log(now: u64, i: int, j: int)
    requires
        now >= 3600,
        0 <= i < j < demo_log(now).len(),
    ensures
        demo_log(now)[i].ts < demo_log(now)[j].ts,
        demo_log(now)[j].ts < now,
        demo_log(now)[i].entity_id == demo_log(now)[j].entity_id && (forall|k: int|
            i < k < j ==> (#[trigger] demo_log(now)[k]).entity_id != demo_log(now)[i].entity_id)
            ==> demo_log(now)[j].old_state == demo_log(now)[i].new_state,
        demo_log(now)[i].entity_id == demo_log(now)[j].entity_id ==> demo_log(now)[i].display_name
            == demo_log(now)[j].display_name,
{
    lemma_log_ids();
    let s = demo_log(now);
    assert(s.len() == 10);
    assert(s[2].entity_id == "sensor.snzb_02_bedroom_humidity"@);
    assert(s[3].entity_id == "binary_sensor.snzb_03_office_occupancy"@ && s[4].entity_id
        == s[3].entity_id && s[9].entity_id == s[3].entity_id);
    assert(s[0].entity_id == "sensor.snzb_02_bedroom_temperature"@ && s[5].entity_id
        == s[0].entity_id && s[8].entity_id == s[0].entity_id);
    assert(s[1].entity_id == "light.tradfri_bulb_bedroom"@ && s[6].entity_id == s[1].entity_id);
    assert(s[7].entity_id == "sensor.phone_battery_level"@);
}

proof fn lemma_log_ids()
    ensures
        "sensor.snzb_02_bedroom_temperature"@.len() == 34,
        "light.tradfri_bulb_bedroom"@.len() == 26,
        "sensor.snzb_02_bedroom_humidity"@.len() == 31,
        "binary_sensor.snzb_03_office_occupancy"@.len() == 38,
        "sensor.phone_battery_level"@.len() == 26,
        "sensor.phone_battery_level"@ != "light.tradfri_bulb_bedroom"@,
{
    reveal_strlit("sensor.snzb_02_bedroom_temperature");
    reveal_strlit("light.tradfri_bulb_bedroom");
    reveal_strlit("sensor.snzb_02_bedroom_humidity");
    reveal_strlit("binary_sensor.snzb_03_office_occupancy");
    reveal_strlit("sensor.phone_battery_level");
    assert("sensor.phone_battery_level"@[0] == 's' && "light.tradfri_bulb_bedroom"@[0] == 'l');
}

} // verus!
