//! Made-up data that fills every page.

use vstd::prelude::*;
use vstd::string::*;

use crate::app_core;
use crate::app_core::{AppCore, RuntimeMode};
use crate::area_registry_store;
use crate::area_registry_store::{AreaModel, AreaRegistryStore, StoredArea};
use crate::auth_store;
use crate::auth_store::hash_password;
use crate::ha_auth;
use crate::ids;
use crate::ids::new_uuid;
use crate::json;
use crate::keyed;
use crate::logbook_store;
use crate::logbook_store::{LogModel, LogbookEntry, LogbookStore};
use crate::mobile_device_store;
use crate::mobile_device_store::{MobileDeviceRecord, MobileDeviceRegistration, MobileDeviceStore};
use crate::mobile_entity_store;
use crate::mobile_entity_store::{
    MobileEntityRegistration, MobileEntityStore, MobileEntry, RegistrationError,
};
use crate::notification_store::{Notification, NotificationStore};
use crate::state_store;
use crate::state_store::{
    make_state_at, Context, ContextView, State, StateAttributes, StateEvent, StateRun, StateStore,
};
use crate::storage::{OnboardingModel, OnboardingState, StoredUser, StoredUserModel};
use crate::text;
use crate::text::concat;
use crate::zigbee_device_store;
use crate::zigbee_device_store::{ZigbeeDeviceRecord, ZigbeeDeviceStore};
use crate::zigbee_entity_store;
use crate::zigbee_entity_store::{ZigbeeEntityModel, ZigbeeEntityRecord, ZigbeeEntityStore};
use crate::zigbee_integration;

verus! {

/// Onboarding that is complete, for an owner with a given password as it is stored.
pub open spec fn demo_onboarding_model(password: Seq<char>, now_ms: u128) -> OnboardingModel {
    OnboardingModel {
        version: 1,
        onboarded: true,
        updated_at_unix_ms: now_ms,
        done: Seq::empty().push("user"@).push("core_config"@).push("analytics"@).push(
            "integration"@,
        ),
        user: Some(
            StoredUserModel {
                name: "Nathan"@,
                username: "nathan"@,
                password,
                language: "en"@,
            },
        ),
        location_name: Some("Nathan's Home"@),
        country: Some("US"@),
        language: Some("en"@),
        time_zone: Some("America/Los_Angeles"@),
        unit_system: Some("metric"@),
        latitude: None,
        longitude: None,
        radius: "100.0"@,
    }
}

/// Onboarding that is complete. The owner logs in with `demo`.
pub fn demo_onboarding(now_ms: u128) -> (r: OnboardingState)
    ensures
        r@.user is Some,
        auth_store::password_matches("demo"@, r@.user->0.password),
        r@ == demo_onboarding_model(r@.user->0.password, now_ms),
{
    let password: String = match hash_password("demo") {
        Ok(hash) => hash,
        Err(_) => "demo".to_owned(),
    };
    proof {
        reveal_strlit("demo");
        reveal_strlit("$argon2");
        assert("demo"@.len() == 4);
        assert(!auth_store::is_hashed("demo"@));
    }
    let mut done: Vec<String> = Vec::new();
    done.push("user".to_owned());
    done.push("core_config".to_owned());
    done.push("analytics".to_owned());
    done.push("integration".to_owned());
    let r: OnboardingState = OnboardingState {
        version: 1,
        onboarded: true,
        updated_at_unix_ms: now_ms,
        done,
        user: Some(
            StoredUser {
                name: "Nathan".to_owned(),
                username: "nathan".to_owned(),
                password,
                language: "en".to_owned(),
            },
        ),
        location_name: Some("Nathan's Home".to_owned()),
        country: Some("US".to_owned()),
        language: Some("en".to_owned()),
        time_zone: Some("America/Los_Angeles".to_owned()),
        unit_system: Some("metric".to_owned()),
        latitude: None,
        longitude: None,
        radius: "100.0".to_owned(),
    };
    assert(r@.done =~= Seq::empty().push("user"@).push("core_config"@).push("analytics"@).push(
        "integration"@,
    ));
    r
}

/// The areas of the made-up home.
pub struct DemoAreas {
    pub living_room: String,
    pub bedroom: String,
    pub office: String,
}

/// Whether an area has just been made under a name.
pub open spec fn made_area(before: Seq<StoredArea>, area: AreaModel, name: Seq<char>) -> bool {
    &&& area == area_registry_store::bare_area(area.area_id, name)
    &&& ids::is_registry_id(before, text::slug_of(text::lowercased(name)), area.area_id)
}

/// Whether the areas of the made-up home have been added, one after the other.
pub open spec fn areas_seeded(
    before: AreaRegistryStore,
    after: AreaRegistryStore,
    second: AreaRegistryStore,
    third: AreaRegistryStore,
    r: DemoAreas,
) -> bool {
    let l = area_registry_store::bare_area(r.living_room@, "Living Room"@);
    let b = area_registry_store::bare_area(r.bedroom@, "Bedroom"@);
    let o = area_registry_store::bare_area(r.office@, "Office"@);
    &&& made_area(before.areas@, l, "Living Room"@)
    &&& second.models() == before.models().push(l)
    &&& made_area(second.areas@, b, "Bedroom"@)
    &&& third.models() == second.models().push(b)
    &&& made_area(third.areas@, o, "Office"@)
    &&& after.models() == third.models().push(o)
}

/// Completes onboarding and adds the areas of the made-up home.
pub fn seed_home(
    core: &mut AppCore,
    onboarding: &mut OnboardingState,
    areas: &mut AreaRegistryStore,
    now_ms: u128,
) -> (r: DemoAreas)
    ensures
        final(core).mode() == app_core::mode_of_onboarding(true),
        final(onboarding)@.user is Some,
        auth_store::password_matches("demo"@, final(onboarding)@.user->0.password),
        final(onboarding)@ == demo_onboarding_model(
            final(onboarding)@.user->0.password,
            now_ms,
        ),
        exists|second: AreaRegistryStore, third: AreaRegistryStore| #[trigger]
            areas_seeded(*old(areas), *final(areas), second, third, r),
{
    *onboarding = demo_onboarding(now_ms);
    core.set_runtime_mode(RuntimeMode::from_persisted_onboarding(true));
    let living_room: StoredArea = areas.create("Living Room".to_owned());
    let ghost second = *areas;
    let bedroom: StoredArea = areas.create("Bedroom".to_owned());
    let ghost third = *areas;
    let office: StoredArea = areas.create("Office".to_owned());
    let r: DemoAreas = DemoAreas {
        living_room: living_room.area_id,
        bedroom: bedroom.area_id,
        office: office.area_id,
    };
    assert(areas_seeded(*old(areas), *areas, second, third, r));
    r
}

/// Entity ids and state values as mathematical values.
pub open spec fn pairs_model(s: Seq<(&'static str, &'static str)>) -> Seq<(Seq<char>, Seq<char>)> {
    Seq::new(s.len(), |i: int| (s[i].0@, s[i].1@))
}

/// States after some have been offered, one after the other, each in a context of its own.
pub open spec fn states_seeded(
    run: StateRun,
    pairs: Seq<(Seq<char>, Seq<char>)>,
    contexts: Seq<Seq<char>>,
    ts: Seq<char>,
) -> StateRun
    decreases pairs.len(),
{
    if pairs.len() == 0 {
        run
    } else {
        states_seeded(run, pairs.drop_last(), contexts.drop_last(), ts).offer(
            state_store::state_at(
                pairs.last().0,
                pairs.last().1,
                json::no_members(),
                ContextView { id: contexts.last(), parent_id: None, user_id: None },
                ts,
            ),
        )
    }
}

/// Made-up states have points in time, if they are made at one.
pub proof fn law_seeded_timed(
    run: StateRun,
    pairs: Seq<(Seq<char>, Seq<char>)>,
    contexts: Seq<Seq<char>>,
    ts: Seq<char>,
)
    requires
        state_store::all_timed(run),
        state_store::is_timestamp(ts),
    ensures
        state_store::all_timed(states_seeded(run, pairs, contexts, ts)),
    decreases pairs.len(),
{
    if pairs.len() > 0 {
        law_seeded_timed(run, pairs.drop_last(), contexts.drop_last(), ts);
        state_store::lemma_offer_timed(
            states_seeded(run, pairs.drop_last(), contexts.drop_last(), ts),
            state_store::state_at(
                pairs.last().0,
                pairs.last().1,
                json::no_members(),
                ContextView { id: contexts.last(), parent_id: None, user_id: None },
                ts,
            ),
        );
    }
}

/// Whether texts are identifiers.
pub open spec fn are_ids(s: Seq<Seq<char>>) -> bool {
    forall|i: int| 0 <= i < s.len() ==> ids::is_hyphenated(#[trigger] s[i])
}

/// Whether states have been offered, each in a context of its own.
pub open spec fn states_offered(
    before: StateRun,
    after: StateRun,
    pairs: Seq<(Seq<char>, Seq<char>)>,
    contexts: Seq<Seq<char>>,
    ts: Seq<char>,
) -> bool {
    &&& contexts.len() == pairs.len()
    &&& are_ids(contexts)
    &&& after == states_seeded(before, pairs, contexts, ts)
}

/// Offers states, one after the other, at a given time.
pub fn seed_states(
    pairs: &Vec<(&'static str, &'static str)>,
    ts: &String,
    states: &mut StateStore,
    events: &mut Vec<StateEvent>,
)
    ensures
        exists|contexts: Seq<Seq<char>>| #[trigger]
            states_offered(
                state_store::run_of(*old(states), old(events)@),
                state_store::run_of(*final(states), final(events)@),
                pairs_model(pairs@),
                contexts,
                ts@,
            ),
        old(states).wf() ==> final(states).wf(),
{
    let ghost run0 = state_store::run_of(*states, events@);
    let ghost all = pairs_model(pairs@);
    let ghost mut contexts: Seq<Seq<char>> = Seq::empty();
    let mut i: usize = 0;
    assert(all.take(0) =~= Seq::empty());
    while i < pairs.len()
        invariant
            i <= pairs@.len(),
            all == pairs_model(pairs@),
            contexts.len() == i,
            are_ids(contexts),
            run0 == state_store::run_of(*old(states), old(events)@),
            state_store::run_of(*states, events@) == states_seeded(
                run0,
                all.take(i as int),
                contexts,
                ts@,
            ),
            old(states).wf() ==> states.wf(),
        decreases pairs@.len() - i,
    {
        let id: String = new_uuid();
        let ghost id0 = id@;
        let (entity_id, value): (&'static str, &'static str) = pairs[i];
        let state: State = make_state_at(
            entity_id,
            value,
            StateAttributes::empty(),
            Context::new(id),
            ts.clone(),
        );
        let _ = states.offer(state, events);
        proof {
            let more = contexts.push(id0);
            assert(more.drop_last() =~= contexts);
            assert(all.take(i + 1).drop_last() =~= all.take(i as int));
            assert(all.take(i + 1).last() == all[i as int]);
            contexts = more;
        }
        i += 1;
    }
    assert(all.take(i as int) =~= all);
    assert(states_offered(
        run0,
        state_store::run_of(*states, events@),
        all,
        contexts,
        ts@,
    ));
}

/// Whether a registration is that of the made-up phone.
pub open spec fn is_demo_phone(reg: MobileDeviceRegistration) -> bool {
    &&& reg.app_id@ == "io.home-assistant.Home-Assistant"@
    &&& reg.app_name@ == "Home Assistant"@
    &&& reg.app_version@ == "2025.1.0"@
    &&& reg.device_name@ == "Nathan's iPhone"@
    &&& reg.manufacturer@ == "Apple"@
    &&& reg.model@ == "iPhone 16 Pro"@
    &&& reg.os_name@ == "iOS"@
    &&& reg.os_version.deep_view() == Some("18.2"@)
    &&& reg.device_id.deep_view() == Some("demo-iphone-001"@)
    &&& !reg.supports_encryption
    &&& reg.owner_username.deep_view() == Some("nathan"@)
}

/// The registration of the made-up phone.
pub fn demo_phone() -> (r: MobileDeviceRegistration)
    ensures
        is_demo_phone(r),
{
    MobileDeviceRegistration {
        app_id: "io.home-assistant.Home-Assistant".to_owned(),
        app_name: "Home Assistant".to_owned(),
        app_version: "2025.1.0".to_owned(),
        device_name: "Nathan's iPhone".to_owned(),
        manufacturer: "Apple".to_owned(),
        model: "iPhone 16 Pro".to_owned(),
        os_name: "iOS".to_owned(),
        os_version: Some("18.2".to_owned()),
        device_id: Some("demo-iphone-001".to_owned()),
        supports_encryption: false,
        owner_username: Some("nathan".to_owned()),
    }
}

/// Whether a registration is that of a sensor of the made-up phone.
pub open spec fn is_demo_sensor(
    reg: MobileEntityRegistration,
    webhook_id: Seq<char>,
    name: Seq<char>,
    device_class: Option<Seq<char>>,
    unit: Option<Seq<char>>,
    id: Seq<char>,
) -> bool {
    &&& reg.webhook_id@ == webhook_id
    &&& reg.entity_type@ == "sensor"@
    &&& reg.sensor_unique_id@ == "demo-iphone-"@ + id
    &&& reg.sensor_name@ == name
    &&& reg.device_class.deep_view() == device_class
    &&& reg.unit_of_measurement.deep_view() == unit
    &&& reg.icon is None
    &&& reg.entity_category is None
    &&& reg.state_class.deep_view() == Some("measurement"@)
    &&& !reg.disabled
}

fn demo_sensor(
    webhook_id: &str,
    name: &str,
    device_class: Option<&str>,
    unit: Option<&str>,
    id: &str,
) -> (r: MobileEntityRegistration)
    ensures
        is_demo_sensor(
            r,
            webhook_id@,
            name@,
            ha_auth::opt_text(device_class),
            ha_auth::opt_text(unit),
            id@,
        ),
{
    MobileEntityRegistration {
        webhook_id: webhook_id.to_owned(),
        entity_type: "sensor".to_owned(),
        sensor_unique_id: concat("demo-iphone-", id),
        sensor_name: name.to_owned(),
        device_class: match device_class {
            Some(c) => Some(c.to_owned()),
            None => None,
        },
        unit_of_measurement: match unit {
            Some(u) => Some(u.to_owned()),
            None => None,
        },
        icon: None,
        entity_category: None,
        state_class: Some("measurement".to_owned()),
        disabled: false,
    }
}

/// Whether registrations are those of the sensors of the made-up phone.
pub open spec fn are_demo_sensors(regs: Seq<MobileEntityRegistration>, webhook_id: Seq<char>) -> bool {
    &&& regs.len() == 4
    &&& is_demo_sensor(regs[0], webhook_id, "Battery Level"@, Some("battery"@), Some("%"@), "battery"@)
    &&& is_demo_sensor(regs[1], webhook_id, "Steps"@, None, None, "steps"@)
    &&& is_demo_sensor(regs[2], webhook_id, "CPU Temperature"@, Some("temperature"@), Some("\u{b0}C"@), "cpu_temp"@)
    &&& is_demo_sensor(regs[3], webhook_id, "Storage"@, Some("data_size"@), Some("GB"@), "storage"@)
}

/// The registrations of the sensors of the made-up phone.
pub fn demo_sensors(webhook_id: &str) -> (r: Vec<MobileEntityRegistration>)
    ensures
        are_demo_sensors(r@, webhook_id@),
{
    let mut v: Vec<MobileEntityRegistration> = Vec::new();
    v.push(demo_sensor(webhook_id, "Battery Level", Some("battery"), Some("%"), "battery"));
    v.push(demo_sensor(webhook_id, "Steps", None, None, "steps"));
    v.push(
        demo_sensor(
            webhook_id,
            "CPU Temperature",
            Some("temperature"),
            Some("\u{b0}C"),
            "cpu_temp",
        ),
    );
    v.push(demo_sensor(webhook_id, "Storage", Some("data_size"), Some("GB"), "storage"));
    v
}

/// The states of the made-up phone.
pub open spec fn phone_states() -> Seq<(Seq<char>, Seq<char>)> {
    Seq::empty()
        .push(("sensor.nathans_iphone_battery_level"@, "82"@))
        .push(("sensor.nathans_iphone_steps"@, "4231"@))
        .push(("sensor.nathans_iphone_cpu_temperature"@, "38"@))
        .push(("sensor.nathans_iphone_storage"@, "47.3"@))
}

/// The states of the made-up phone.
pub fn demo_phone_states() -> (r: Vec<(&'static str, &'static str)>)
    ensures
        pairs_model(r@) == phone_states(),
{
    let mut v: Vec<(&'static str, &'static str)> = Vec::new();
    v.push(("sensor.nathans_iphone_battery_level", "82"));
    v.push(("sensor.nathans_iphone_steps", "4231"));
    v.push(("sensor.nathans_iphone_cpu_temperature", "38"));
    v.push(("sensor.nathans_iphone_storage", "47.3"));
    assert(pairs_model(v@) =~= phone_states());
    v
}

/// Whether the made-up phone has been registered, with its sensors, and its entities assigned to
/// an area.
pub open spec fn phone_seeded(
    devices0: Seq<MobileDeviceRecord>,
    devices1: Seq<MobileDeviceRecord>,
    entities0: Seq<MobileEntry>,
    entities1: Seq<MobileEntry>,
    run0: StateRun,
    run1: StateRun,
    reg: MobileDeviceRegistration,
    webhook_id: String,
    secret: String,
    regs: Seq<MobileEntityRegistration>,
    entries: Seq<MobileEntry>,
    contexts: Seq<Seq<char>>,
    ts: Seq<char>,
    area_id: String,
    r: Result<(), RegistrationError>,
) -> bool {
    let record = mobile_device_store::registered_record(devices0, reg, webhook_id, secret);
    let middle = mobile_entity_store::put_all(entities0, entries);
    &&& is_demo_phone(reg)
    &&& ids::is_hex_text(webhook_id@, 32)
    &&& devices1 == mobile_device_store::registered_devices(devices0, reg, webhook_id, secret)
    &&& are_demo_sensors(regs, record.webhook_id@)
    &&& mobile_entity_store::all_registered(entities0, middle, regs, entries, r)
    &&& match r {
        Ok(_) => {
            &&& entities1 == mobile_entity_store::assigned_to(
                middle,
                mobile_entity_store::entity_ids(middle),
                area_id,
            )
            &&& states_offered(run0, run1, phone_states(), contexts, ts)
        },
        Err(_) => entities1 == middle && run1 == run0,
    }
}

/// Registers the made-up phone with its sensors and their states, and assigns its entities to an
/// area.
pub fn seed_phone(
    devices: &mut MobileDeviceStore,
    entities: &mut MobileEntityStore,
    states: &mut StateStore,
    events: &mut Vec<StateEvent>,
    ts: &String,
    area_id: &String,
) -> (r: Result<(), RegistrationError>)
    ensures
        exists|
            reg: MobileDeviceRegistration,
            webhook_id: String,
            secret: String,
            regs: Seq<MobileEntityRegistration>,
            entries: Seq<MobileEntry>,
            contexts: Seq<Seq<char>>,
        | #[trigger]
            phone_seeded(
                old(devices).devices@,
                final(devices).devices@,
                old(entities).entities@,
                final(entities).entities@,
                state_store::run_of(*old(states), old(events)@),
                state_store::run_of(*final(states), final(events)@),
                reg,
                webhook_id,
                secret,
                regs,
                entries,
                contexts,
                ts@,
                *area_id,
                r,
            ),
        old(entities).wf() ==> final(entities).wf(),
        old(states).wf() ==> final(states).wf(),
{
    let ghost devices0 = devices.devices@;
    let ghost entities0 = entities.entities@;
    let ghost run0 = state_store::run_of(*states, events@);
    let reg: MobileDeviceRegistration = demo_phone();
    let ghost reg0 = reg;
    let phone: MobileDeviceRecord = devices.register(reg);
    let ghost devices1 = devices.devices@;
    let ghost (webhook_id, secret) = choose|webhook_id: String, secret: String|
        {
            &&& ids::is_hex_text(webhook_id@, 32)
            &&& ids::is_hex_text(secret@, 64)
            &&& phone == #[trigger] mobile_device_store::registered_record(
                devices0,
                reg0,
                webhook_id,
                secret,
            )
            &&& devices1 == mobile_device_store::registered_devices(
                devices0,
                reg0,
                webhook_id,
                secret,
            )
        };
    let regs: Vec<MobileEntityRegistration> = demo_sensors(phone.webhook_id.as_str());
    let ghost regs0 = regs@;
    let r: Result<(), RegistrationError> = entities.register_all(regs);
    let ghost middle = entities.entities@;
    let ghost entries = choose|entries: Seq<MobileEntry>| #[trigger]
        mobile_entity_store::all_registered(entities0, middle, regs0, entries, r);
    if r.is_err() {
        proof {
            let contexts: Seq<Seq<char>> = Seq::empty();
            assert(phone_seeded(
                devices0,
                devices1,
                entities0,
                entities.entities@,
                run0,
                state_store::run_of(*states, events@),
                reg0,
                webhook_id,
                secret,
                regs0,
                entries,
                contexts,
                ts@,
                *area_id,
                r,
            ));
        }
        return r;
    }
    let pairs: Vec<(&'static str, &'static str)> = demo_phone_states();
    seed_states(&pairs, ts, states, events);
    let ghost contexts = choose|contexts: Seq<Seq<char>>| #[trigger]
        states_offered(
            run0,
            state_store::run_of(*states, events@),
            phone_states(),
            contexts,
            ts@,
        );
    entities.assign_all(area_id);
    assert(phone_seeded(
        devices0,
        devices1,
        entities0,
        entities.entities@,
        run0,
        state_store::run_of(*states, events@),
        reg0,
        webhook_id,
        secret,
        regs0,
        entries,
        contexts,
        ts@,
        *area_id,
        r,
    ));
    r
}

/// The address of the made-up climate sensor.
pub const SNZB: &'static str = "0xec1bbdfffecafe01";

/// The address of the made-up bulb.
pub const BULB: &'static str = "0xec1bbdfffecafe02";

/// The address of the made-up motion sensor.
pub const PIR: &'static str = "0xec1bbdfffecafe03";

/// Whether a device is one of the made-up ones.
pub open spec fn is_demo_device(
    d: ZigbeeDeviceRecord,
    ieee_addr: Seq<char>,
    friendly_name: Seq<char>,
    manufacturer: Seq<char>,
    model: Seq<char>,
    power_source: Seq<char>,
    sw_build_id: Seq<char>,
    last_seen: Seq<char>,
    name: Seq<char>,
    area_id: String,
) -> bool {
    &&& d.ieee_addr@ == ieee_addr
    &&& d.friendly_name@ == friendly_name
    &&& d.manufacturer.deep_view() == Some(manufacturer)
    &&& d.model.deep_view() == Some(model)
    &&& d.power_source.deep_view() == Some(power_source)
    &&& d.sw_build_id.deep_view() == Some(sw_build_id)
    &&& d.interview_complete
    &&& d.last_seen.deep_view() == Some(last_seen)
    &&& d.name_by_user.deep_view() == Some(name)
    &&& d.user_area_id == Some(area_id)
}

fn demo_device(
    ieee_addr: &str,
    friendly_name: &str,
    manufacturer: &str,
    model: &str,
    power_source: &str,
    sw_build_id: &str,
    last_seen: &str,
    name: &str,
    area_id: &String,
) -> (r: ZigbeeDeviceRecord)
    ensures
        is_demo_device(
            r,
            ieee_addr@,
            friendly_name@,
            manufacturer@,
            model@,
            power_source@,
            sw_build_id@,
            last_seen@,
            name@,
            *area_id,
        ),
{
    ZigbeeDeviceRecord {
        ieee_addr: ieee_addr.to_owned(),
        friendly_name: friendly_name.to_owned(),
        manufacturer: Some(manufacturer.to_owned()),
        model: Some(model.to_owned()),
        power_source: Some(power_source.to_owned()),
        sw_build_id: Some(sw_build_id.to_owned()),
        interview_complete: true,
        last_seen: Some(last_seen.to_owned()),
        name_by_user: Some(name.to_owned()),
        user_area_id: Some(area_id.clone()),
    }
}

/// Whether devices are the made-up ones.
pub open spec fn are_demo_devices(s: Seq<ZigbeeDeviceRecord>, areas: DemoAreas) -> bool {
    &&& s.len() == 3
    &&& is_demo_device(
        s[0],
        SNZB@,
        "snzb_02_bedroom"@,
        "SONOFF"@,
        "SNZB-02"@,
        "Battery"@,
        "1.0.4"@,
        "2026-05-15T08:32:11Z"@,
        "Bedroom Sensor"@,
        areas.bedroom,
    )
    &&& is_demo_device(
        s[1],
        BULB@,
        "tradfri_living_room"@,
        "IKEA of Sweden"@,
        "LED1624G9"@,
        "Mains (single phase)"@,
        "2.3.087"@,
        "2026-05-15T08:45:00Z"@,
        "Living Room Bulb"@,
        areas.living_room,
    )
    &&& is_demo_device(
        s[2],
        PIR@,
        "snzb_03_office"@,
        "SONOFF"@,
        "SNZB-03"@,
        "Battery"@,
        "1.0.2"@,
        "2026-05-15T08:40:00Z"@,
        "Office Motion"@,
        areas.office,
    )
}

fn demo_devices(areas: &DemoAreas) -> (r: Vec<ZigbeeDeviceRecord>)
    ensures
        are_demo_devices(r@, *areas),
{
    let mut v: Vec<ZigbeeDeviceRecord> = Vec::new();
    v.push(
        demo_device(
            SNZB,
            "snzb_02_bedroom",
            "SONOFF",
            "SNZB-02",
            "Battery",
            "1.0.4",
            "2026-05-15T08:32:11Z",
            "Bedroom Sensor",
            &areas.bedroom,
        ),
    );
    v.push(
        demo_device(
            BULB,
            "tradfri_living_room",
            "IKEA of Sweden",
            "LED1624G9",
            "Mains (single phase)",
            "2.3.087",
            "2026-05-15T08:45:00Z",
            "Living Room Bulb",
            &areas.living_room,
        ),
    );
    v.push(
        demo_device(
            PIR,
            "snzb_03_office",
            "SONOFF",
            "SNZB-03",
            "Battery",
            "1.0.2",
            "2026-05-15T08:40:00Z",
            "Office Motion",
            &areas.office,
        ),
    );
    v
}

/// A made-up entity of a Zigbee device.
pub open spec fn demo_entity_model(
    entity_id: Seq<char>,
    ieee_addr: Seq<char>,
    domain: Seq<char>,
    attribute_key: Option<Seq<char>>,
    device_class: Option<Seq<char>>,
    unit: Option<Seq<char>>,
    name: Option<Seq<char>>,
    area_id: Option<Seq<char>>,
) -> ZigbeeEntityModel {
    ZigbeeEntityModel {
        entity_id,
        ieee_addr,
        domain,
        attribute_key,
        device_class,
        unit_of_measurement: unit,
        name_by_user: name,
        user_area_id: area_id,
        disabled: false,
        icon: None,
        hidden_by: None,
    }
}

fn owned(s: Option<&str>) -> (r: Option<String>)
    ensures
        r.deep_view() == ha_auth::opt_text(s),
{
    match s {
        Some(v) => Some(v.to_owned()),
        None => None,
    }
}

fn demo_entity(
    entity_id: &str,
    ieee_addr: &str,
    domain: &str,
    attribute_key: Option<&str>,
    device_class: Option<&str>,
    unit: Option<&str>,
    name: Option<&str>,
    area_id: Option<&str>,
) -> (r: ZigbeeEntityRecord)
    ensures
        r@ == demo_entity_model(
            entity_id@,
            ieee_addr@,
            domain@,
            ha_auth::opt_text(attribute_key),
            ha_auth::opt_text(device_class),
            ha_auth::opt_text(unit),
            ha_auth::opt_text(name),
            ha_auth::opt_text(area_id),
        ),
{
    ZigbeeEntityRecord {
        entity_id: entity_id.to_owned(),
        ieee_addr: ieee_addr.to_owned(),
        domain: domain.to_owned(),
        attribute_key: owned(attribute_key),
        device_class: owned(device_class),
        unit_of_measurement: owned(unit),
        name_by_user: owned(name),
        user_area_id: owned(area_id),
        disabled: false,
        icon: None,
        hidden_by: None,
    }
}

/// The entities of the made-up climate sensor, in an area.
pub open spec fn bedroom_entities(area_id: Seq<char>) -> Seq<ZigbeeEntityModel> {
    Seq::empty()
        .push(demo_entity_model(
            "sensor.snzb_02_bedroom_temperature"@,
            SNZB@,
            "sensor"@,
            Some("temperature"@),
            Some("temperature"@),
            Some("\u{b0}C"@),
            None,
            Some(area_id),
        ))
        .push(demo_entity_model(
            "sensor.snzb_02_bedroom_humidity"@,
            SNZB@,
            "sensor"@,
            Some("humidity"@),
            Some("humidity"@),
            Some("%"@),
            None,
            Some(area_id),
        ))
        .push(demo_entity_model(
            "sensor.snzb_02_bedroom_battery"@,
            SNZB@,
            "sensor"@,
            Some("battery"@),
            Some("battery"@),
            Some("%"@),
            None,
            None,
        ))
}

fn demo_bedroom_entities(area_id: &str) -> (r: Vec<ZigbeeEntityRecord>)
    ensures
        zigbee_integration::models(r@) == bedroom_entities(area_id@),
{
    let mut v: Vec<ZigbeeEntityRecord> = Vec::new();
    v.push(
        demo_entity(
            "sensor.snzb_02_bedroom_temperature",
            SNZB,
            "sensor",
            Some("temperature"),
            Some("temperature"),
            Some("\u{b0}C"),
            None,
            Some(area_id),
        ),
    );
    v.push(
        demo_entity(
            "sensor.snzb_02_bedroom_humidity",
            SNZB,
            "sensor",
            Some("humidity"),
            Some("humidity"),
            Some("%"),
            None,
            Some(area_id),
        ),
    );
    v.push(
        demo_entity(
            "sensor.snzb_02_bedroom_battery",
            SNZB,
            "sensor",
            Some("battery"),
            Some("battery"),
            Some("%"),
            None,
            None,
        ),
    );
    assert(zigbee_integration::models(v@) =~= bedroom_entities(area_id@));
    v
}

/// The entities of the made-up bulb, in an area.
pub open spec fn living_room_entities(area_id: Seq<char>) -> Seq<ZigbeeEntityModel> {
    Seq::empty()
        .push(demo_entity_model(
            "light.tradfri_living_room"@,
            BULB@,
            "light"@,
            None,
            None,
            None,
            Some("Living Room Bulb"@),
            Some(area_id),
        ))
}

fn demo_living_room_entities(area_id: &str) -> (r: Vec<ZigbeeEntityRecord>)
    ensures
        zigbee_integration::models(r@) == living_room_entities(area_id@),
{
    let mut v: Vec<ZigbeeEntityRecord> = Vec::new();
    v.push(
        demo_entity(
            "light.tradfri_living_room",
            BULB,
            "light",
            None,
            None,
            None,
            Some("Living Room Bulb"),
            Some(area_id),
        ),
    );
    assert(zigbee_integration::models(v@) =~= living_room_entities(area_id@));
    v
}

/// The entities of the made-up motion sensor, in an area.
pub open spec fn office_entities(area_id: Seq<char>) -> Seq<ZigbeeEntityModel> {
    Seq::empty()
        .push(demo_entity_model(
            "binary_sensor.snzb_03_office_occupancy"@,
            PIR@,
            "binary_sensor"@,
            Some("occupancy"@),
            Some("occupancy"@),
            None,
            None,
            Some(area_id),
        ))
        .push(demo_entity_model(
            "sensor.snzb_03_office_battery"@,
            PIR@,
            "sensor"@,
            Some("battery"@),
            Some("battery"@),
            Some("%"@),
            None,
            None,
        ))
}

fn demo_office_entities(area_id: &str) -> (r: Vec<ZigbeeEntityRecord>)
    ensures
        zigbee_integration::models(r@) == office_entities(area_id@),
{
    let mut v: Vec<ZigbeeEntityRecord> = Vec::new();
    v.push(
        demo_entity(
            "binary_sensor.snzb_03_office_occupancy",
            PIR,
            "binary_sensor",
            Some("occupancy"),
            Some("occupancy"),
            None,
            None,
            Some(area_id),
        ),
    );
    v.push(
        demo_entity(
            "sensor.snzb_03_office_battery",
            PIR,
            "sensor",
            Some("battery"),
            Some("battery"),
            Some("%"),
            None,
            None,
        ),
    );
    assert(zigbee_integration::models(v@) =~= office_entities(area_id@));
    v
}

/// The states of the made-up Zigbee devices.
pub open spec fn zigbee_states() -> Seq<(Seq<char>, Seq<char>)> {
    Seq::empty()
        .push(("sensor.snzb_02_bedroom_temperature"@, "21.4"@))
        .push(("sensor.snzb_02_bedroom_humidity"@, "58"@))
        .push(("sensor.snzb_02_bedroom_battery"@, "82"@))
        .push(("light.tradfri_living_room"@, "on"@))
        .push(("binary_sensor.snzb_03_office_occupancy"@, "on"@))
        .push(("sensor.snzb_03_office_battery"@, "64"@))
}

/// The states of the made-up Zigbee devices.
pub fn demo_zigbee_states() -> (r: Vec<(&'static str, &'static str)>)
    ensures
        pairs_model(r@) == zigbee_states(),
{
    let mut v: Vec<(&'static str, &'static str)> = Vec::new();
    v.push(("sensor.snzb_02_bedroom_temperature", "21.4"));
    v.push(("sensor.snzb_02_bedroom_humidity", "58"));
    v.push(("sensor.snzb_02_bedroom_battery", "82"));
    v.push(("light.tradfri_living_room", "on"));
    v.push(("binary_sensor.snzb_03_office_occupancy", "on"));
    v.push(("sensor.snzb_03_office_battery", "64"));
    assert(pairs_model(v@) =~= zigbee_states());
    v
}

/// Whether the made-up Zigbee devices have been added, with their entities and states.
pub open spec fn zigbee_seeded(
    devices0: Seq<ZigbeeDeviceRecord>,
    devices1: Seq<ZigbeeDeviceRecord>,
    entities0: Seq<ZigbeeEntityRecord>,
    entities1: Seq<ZigbeeEntityRecord>,
    run0: StateRun,
    run1: StateRun,
    areas: DemoAreas,
    d: Seq<ZigbeeDeviceRecord>,
    climate: Seq<ZigbeeEntityRecord>,
    bulb: Seq<ZigbeeEntityRecord>,
    motion: Seq<ZigbeeEntityRecord>,
    contexts: Seq<Seq<char>>,
    ts: Seq<char>,
) -> bool {
    &&& are_demo_devices(d, areas)
    &&& devices1 == zigbee_device_store::reported(
        zigbee_device_store::reported(zigbee_device_store::reported(devices0, d[0]), d[1]),
        d[2],
    )
    &&& zigbee_integration::models(climate) == bedroom_entities(areas.bedroom@)
    &&& zigbee_integration::models(bulb) == living_room_entities(areas.living_room@)
    &&& zigbee_integration::models(motion) == office_entities(areas.office@)
    &&& entities1 == zigbee_entity_store::registered(
        zigbee_entity_store::registered(
            zigbee_entity_store::registered(entities0, climate),
            bulb,
        ),
        motion,
    )
    &&& states_offered(run0, run1, zigbee_states(), contexts, ts)
}

/// Adds the made-up Zigbee devices with their entities and states.
pub fn seed_zigbee(
    devices: &mut ZigbeeDeviceStore,
    entities: &mut ZigbeeEntityStore,
    states: &mut StateStore,
    events: &mut Vec<StateEvent>,
    ts: &String,
    areas: &DemoAreas,
)
    ensures
        exists|
            d: Seq<ZigbeeDeviceRecord>,
            climate: Seq<ZigbeeEntityRecord>,
            bulb: Seq<ZigbeeEntityRecord>,
            motion: Seq<ZigbeeEntityRecord>,
            contexts: Seq<Seq<char>>,
        | #[trigger]
            zigbee_seeded(
                old(devices).devices@,
                final(devices).devices@,
                old(entities).entities@,
                final(entities).entities@,
                state_store::run_of(*old(states), old(events)@),
                state_store::run_of(*final(states), final(events)@),
                *areas,
                d,
                climate,
                bulb,
                motion,
                contexts,
                ts@,
            ),
        old(devices).wf() ==> final(devices).wf(),
        old(entities).wf() ==> final(entities).wf(),
        old(states).wf() ==> final(states).wf(),
{
    let ghost devices0 = devices.devices@;
    let ghost entities0 = entities.entities@;
    let ghost run0 = state_store::run_of(*states, events@);
    let list: Vec<ZigbeeDeviceRecord> = demo_devices(areas);
    let ghost d = list@;
    devices.upsert(list[0].clone());
    devices.upsert(list[1].clone());
    devices.upsert(list[2].clone());
    let first: Vec<ZigbeeEntityRecord> = demo_bedroom_entities(areas.bedroom.as_str());
    let second: Vec<ZigbeeEntityRecord> = demo_living_room_entities(areas.living_room.as_str());
    let third: Vec<ZigbeeEntityRecord> = demo_office_entities(areas.office.as_str());
    let ghost (climate, bulb, motion) = (first@, second@, third@);
    entities.register_bulk(first);
    entities.register_bulk(second);
    entities.register_bulk(third);
    let pairs: Vec<(&'static str, &'static str)> = demo_zigbee_states();
    seed_states(&pairs, ts, states, events);
    let ghost run1 = state_store::run_of(*states, events@);
    let ghost contexts = choose|contexts: Seq<Seq<char>>| #[trigger]
        states_offered(run0, run1, zigbee_states(), contexts, ts@);
    assert(zigbee_seeded(
        devices0,
        devices.devices@,
        entities0,
        entities.entities@,
        run0,
        run1,
        *areas,
        d,
        climate,
        bulb,
        motion,
        contexts,
        ts@,
    ));
}

/// Whether a notification has just been made.
pub open spec fn is_demo_notification(
    n: Notification,
    message: Seq<char>,
    title: Seq<char>,
) -> bool {
    &&& n.message@ == message
    &&& n.title.deep_view() == Some(title)
    &&& n.status@ == "unread"@
    &&& ids::is_hyphenated(n.notification_id@)
}

/// Whether the made-up notifications have been added.
pub open spec fn notifications_seeded(
    before: Seq<Notification>,
    after: Seq<Notification>,
    motion: Notification,
    battery: Notification,
) -> bool {
    &&& is_demo_notification(motion, "Motion detected in Office at 08:40"@, "Motion Alert"@)
    &&& is_demo_notification(battery, "Battery low on Bedroom Sensor (12%)"@, "Low Battery"@)
    &&& after == keyed::with(keyed::with(before, motion), battery)
}

/// Adds the made-up notifications.
pub fn seed_notifications(notifications: &mut NotificationStore)
    ensures
        exists|motion: Notification, battery: Notification| #[trigger]
            notifications_seeded(
                old(notifications).notifications@,
                final(notifications).notifications@,
                motion,
                battery,
            ),
        old(notifications).wf() ==> final(notifications).wf(),
{
    let ghost before = notifications.notifications@;
    let motion: Notification = notifications.create(
        "Motion detected in Office at 08:40".to_owned(),
        Some("Motion Alert".to_owned()),
        None,
    );
    let battery: Notification = notifications.create(
        "Battery low on Bedroom Sensor (12%)".to_owned(),
        Some("Low Battery".to_owned()),
        None,
    );
    assert(notifications_seeded(before, notifications.notifications@, motion, battery));
}

/// The entries of a logbook after some have been recorded, one after the other.
pub open spec fn logged_all(
    s: Seq<LogModel>,
    capacity: usize,
    entries: Seq<LogModel>,
) -> Seq<LogModel>
    decreases entries.len(),
{
    if entries.len() == 0 {
        s
    } else {
        logbook_store::logged(
            logged_all(s, capacity, entries.drop_last()),
            capacity,
            entries.last(),
        )
    }
}

/// A made-up entry of the logbook, some seconds ago.
pub open spec fn demo_entry_model(
    now: u64,
    ago: u64,
    entity_id: Seq<char>,
    display_name: Seq<char>,
    old_state: Seq<char>,
    new_state: Seq<char>,
) -> LogModel {
    LogModel { ts: (now - ago) as u64, entity_id, display_name, old_state, new_state }
}

fn demo_entry(
    now: u64,
    ago: u64,
    entity_id: &str,
    display_name: &str,
    old_state: &str,
    new_state: &str,
) -> (r: LogbookEntry)
    requires
        ago <= now,
    ensures
        r@ == demo_entry_model(now, ago, entity_id@, display_name@, old_state@, new_state@),
{
    LogbookEntry {
        ts: now - ago,
        entity_id: entity_id.to_owned(),
        display_name: display_name.to_owned(),
        old_state: old_state.to_owned(),
        new_state: new_state.to_owned(),
    }
}

/// The made-up entries of the logbook.
pub open spec fn demo_log(now: u64) -> Seq<LogModel> {
    Seq::empty()
        .push(demo_entry_model(
            now,
            3600,
            "sensor.snzb_02_bedroom_temperature"@,
            "Bedroom Temperature"@,
            "19.8"@,
            "20.1"@,
        ))
        .push(demo_entry_model(
            now,
            3200,
            "light.tradfri_bulb_bedroom"@,
            "Bedroom Bulb"@,
            "off"@,
            "on"@,
        ))
        .push(demo_entry_model(
            now,
            2800,
            "sensor.snzb_02_bedroom_humidity"@,
            "Bedroom Humidity"@,
            "54"@,
            "56"@,
        ))
        .push(demo_entry_model(
            now,
            2400,
            "binary_sensor.snzb_03_office_occupancy"@,
            "Office Motion"@,
            "off"@,
            "on"@,
        ))
        .push(demo_entry_model(
            now,
            2000,
            "binary_sensor.snzb_03_office_occupancy"@,
            "Office Motion"@,
            "on"@,
            "off"@,
        ))
        .push(demo_entry_model(
            now,
            1600,
            "sensor.snzb_02_bedroom_temperature"@,
            "Bedroom Temperature"@,
            "20.1"@,
            "20.4"@,
        ))
        .push(demo_entry_model(
            now,
            1200,
            "light.tradfri_bulb_bedroom"@,
            "Bedroom Bulb"@,
            "on"@,
            "off"@,
        ))
        .push(demo_entry_model(
            now,
            800,
            "sensor.phone_battery_level"@,
            "Phone Battery"@,
            "90"@,
            "84"@,
        ))
        .push(demo_entry_model(
            now,
            400,
            "sensor.snzb_02_bedroom_temperature"@,
            "Bedroom Temperature"@,
            "20.4"@,
            "20.2"@,
        ))
        .push(demo_entry_model(
            now,
            120,
            "binary_sensor.snzb_03_office_occupancy"@,
            "Office Motion"@,
            "off"@,
            "on"@,
        ))
}

fn demo_entries(now: u64) -> (r: Vec<LogbookEntry>)
    requires
        now >= 3600,
    ensures
        logbook_store::log_models(r@) == demo_log(now),
{
    let mut v: Vec<LogbookEntry> = Vec::new();
    v.push(
        demo_entry(
            now,
            3600,
            "sensor.snzb_02_bedroom_temperature",
            "Bedroom Temperature",
            "19.8",
            "20.1",
        ),
    );
    v.push(demo_entry(now, 3200, "light.tradfri_bulb_bedroom", "Bedroom Bulb", "off", "on"));
    v.push(
        demo_entry(now, 2800, "sensor.snzb_02_bedroom_humidity", "Bedroom Humidity", "54", "56"),
    );
    v.push(
        demo_entry(
            now,
            2400,
            "binary_sensor.snzb_03_office_occupancy",
            "Office Motion",
            "off",
            "on",
        ),
    );
    v.push(
        demo_entry(
            now,
            2000,
            "binary_sensor.snzb_03_office_occupancy",
            "Office Motion",
            "on",
            "off",
        ),
    );
    v.push(
        demo_entry(
            now,
            1600,
            "sensor.snzb_02_bedroom_temperature",
            "Bedroom Temperature",
            "20.1",
            "20.4",
        ),
    );
    v.push(demo_entry(now, 1200, "light.tradfri_bulb_bedroom", "Bedroom Bulb", "on", "off"));
    v.push(demo_entry(now, 800, "sensor.phone_battery_level", "Phone Battery", "90", "84"));
    v.push(
        demo_entry(
            now,
            400,
            "sensor.snzb_02_bedroom_temperature",
            "Bedroom Temperature",
            "20.4",
            "20.2",
        ),
    );
    v.push(
        demo_entry(
            now,
            120,
            "binary_sensor.snzb_03_office_occupancy",
            "Office Motion",
            "off",
            "on",
        ),
    );
    assert(logbook_store::log_models(v@) =~= demo_log(now));
    v
}

/// Records the made-up entries in the logbook.
pub fn seed_logbook(logbook: &mut LogbookStore, now: u64)
    requires
        now >= 3600,
    ensures
        final(logbook).capacity == old(logbook).capacity,
        logbook_store::log_models(final(logbook).entries@) == logged_all(
            logbook_store::log_models(old(logbook).entries@),
            old(logbook).capacity,
            demo_log(now),
        ),
        old(logbook).wf() ==> final(logbook).wf(),
{
    let entries: Vec<LogbookEntry> = demo_entries(now);
    let ghost all = demo_log(now);
    let ghost before = logbook_store::log_models(logbook.entries@);
    let ghost list = entries@;
    assert(all.take(0) =~= Seq::empty());
    for entry in it: entries
        invariant
            it.seq() == list,
            logbook_store::log_models(list) == all,
            before == logbook_store::log_models(old(logbook).entries@),
            logbook.capacity == old(logbook).capacity,
            logbook_store::log_models(logbook.entries@) == logged_all(
                before,
                logbook.capacity,
                all.take(it.index() as int),
            ),
            old(logbook).wf() ==> logbook.wf(),
    {
        proof {
            let i = it.index() as int;
            assert(all.take(i + 1).drop_last() =~= all.take(i));
            assert(all.take(i + 1).last() == list[i]@);
        }
        logbook.record(entry);
    }
    assert(all.take(all.len() as int) =~= all);
}

} // verus!
