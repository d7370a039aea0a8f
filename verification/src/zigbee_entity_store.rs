//! The entities that Zigbee devices provide.

use vstd::prelude::*;

use crate::keyed;
use crate::keyed::{copy_all, lookup, position, Keyed, Record};
use crate::order;
use crate::order::put_in_order;
use crate::text::str_eq;

verus! {

/// An entity of a Zigbee device.
pub struct ZigbeeEntityRecord {
    /// The entity id, such as `light.living_room_bulb`.
    pub entity_id: String,
    /// The address of the device.
    pub ieee_addr: String,
    /// The domain: `light`, `switch`, `sensor` or `binary_sensor`.
    pub domain: String,
    /// The name of the value that a sensor shows.
    pub attribute_key: Option<String>,
    pub device_class: Option<String>,
    pub unit_of_measurement: Option<String>,
    /// The name that the user has given.
    pub name_by_user: Option<String>,
    /// The area that the user has assigned.
    pub user_area_id: Option<String>,
    /// Whether the entity is hidden and its state not published.
    pub disabled: bool,
    /// The icon that the user has chosen.
    pub icon: Option<String>,
    /// Who has hidden the entity.
    pub hidden_by: Option<String>,
}

/// The mathematical value of a [`ZigbeeEntityRecord`].
pub struct ZigbeeEntityModel {
    pub entity_id: Seq<char>,
    pub ieee_addr: Seq<char>,
    pub domain: Seq<char>,
    pub attribute_key: Option<Seq<char>>,
    pub device_class: Option<Seq<char>>,
    pub unit_of_measurement: Option<Seq<char>>,
    pub name_by_user: Option<Seq<char>>,
    pub user_area_id: Option<Seq<char>>,
    pub disabled: bool,
    pub icon: Option<Seq<char>>,
    pub hidden_by: Option<Seq<char>>,
}

impl View for ZigbeeEntityRecord {
    type V = ZigbeeEntityModel;

    open spec fn view(&self) -> ZigbeeEntityModel {
        ZigbeeEntityModel {
            entity_id: self.entity_id@,
            ieee_addr: self.ieee_addr@,
            domain: self.domain@,
            attribute_key: self.attribute_key.deep_view(),
            device_class: self.device_class.deep_view(),
            unit_of_measurement: self.unit_of_measurement.deep_view(),
            name_by_user: self.name_by_user.deep_view(),
            user_area_id: self.user_area_id.deep_view(),
            disabled: self.disabled,
            icon: self.icon.deep_view(),
            hidden_by: self.hidden_by.deep_view(),
        }
    }
}

impl Keyed for ZigbeeEntityRecord {
    open spec fn key(&self) -> Seq<char> {
        self.entity_id@
    }

    fn key_str(&self) -> (r: &str) {
        self.entity_id.as_str()
    }
}

impl Clone for ZigbeeEntityRecord {
    fn clone(&self) -> (r: Self)
        ensures
            r == *self,
    {
        ZigbeeEntityRecord {
            entity_id: self.entity_id.clone(),
            ieee_addr: self.ieee_addr.clone(),
            domain: self.domain.clone(),
            attribute_key: self.attribute_key.clone(),
            device_class: self.device_class.clone(),
            unit_of_measurement: self.unit_of_measurement.clone(),
            name_by_user: self.name_by_user.clone(),
            user_area_id: self.user_area_id.clone(),
            disabled: self.disabled,
            icon: self.icon.clone(),
            hidden_by: self.hidden_by.clone(),
        }
    }
}

impl Record for ZigbeeEntityRecord {
    fn dup(&self) -> (r: Self) {
        self.clone()
    }
}

/// The label of a known kind of value.
pub open spec fn kind_label(kind: Seq<char>, domain: Seq<char>) -> Option<Seq<char>> {
    if kind == "temperature"@ {
        Some("Temperature"@)
    } else if kind == "humidity"@ {
        Some("Humidity"@)
    } else if kind == "battery"@ && domain == "binary_sensor"@ {
        Some("Battery Low"@)
    } else if kind == "battery"@ || kind == "battery_low"@ {
        Some("Battery"@)
    } else if kind == "battery_voltage"@ || kind == "voltage"@ {
        Some("Voltage"@)
    } else if kind == "illuminance"@ || kind == "illuminance_lux"@ {
        Some("Illuminance"@)
    } else if kind == "atmospheric_pressure"@ || kind == "pressure"@ {
        Some("Pressure"@)
    } else if kind == "occupancy"@ {
        Some("Occupancy"@)
    } else if kind == "door"@ || kind == "contact"@ {
        Some("Door"@)
    } else if kind == "window"@ {
        Some("Window"@)
    } else if kind == "tamper"@ {
        Some("Tamper"@)
    } else if kind == "motion"@ {
        Some("Motion"@)
    } else if kind == "smoke"@ {
        Some("Smoke"@)
    } else if kind == "moisture"@ {
        Some("Moisture"@)
    } else if kind == "carbon_monoxide"@ {
        Some("Carbon Monoxide"@)
    } else if kind == "vibration"@ {
        Some("Vibration"@)
    } else if kind == "opening"@ {
        Some("Opening"@)
    } else if kind == "safety"@ {
        Some("Safety"@)
    } else if kind == "energy"@ {
        Some("Energy"@)
    } else if kind == "power"@ {
        Some("Power"@)
    } else if kind == "current"@ {
        Some("Current"@)
    } else {
        None
    }
}

impl ZigbeeEntityModel {
    /// The name to show: the user's, or else the label of the device class or the attribute, or
    /// else the entity id.
    pub open spec fn shown_name(self) -> Seq<char> {
        let kind = match self.device_class {
            Some(c) => Some(c),
            None => self.attribute_key,
        };
        match self.name_by_user {
            Some(name) => name,
            None => match kind {
                Some(k) => match kind_label(k, self.domain) {
                    Some(label) => label,
                    None => self.entity_id,
                },
                None => self.entity_id,
            },
        }
    }
}

/// The label of a known kind of value.
fn label_of(kind: &str, domain: &str) -> (r: Option<&'static str>)
    ensures
        match r {
            Some(label) => kind_label(kind@, domain@) == Some(label@),
            None => kind_label(kind@, domain@) is None,
        },
{
    if str_eq(kind, "temperature") {
        Some("Temperature")
    } else if str_eq(kind, "humidity") {
        Some("Humidity")
    } else if str_eq(kind, "battery") && str_eq(domain, "binary_sensor") {
        Some("Battery Low")
    } else if str_eq(kind, "battery") || str_eq(kind, "battery_low") {
        Some("Battery")
    } else if str_eq(kind, "battery_voltage") || str_eq(kind, "voltage") {
        Some("Voltage")
    } else if str_eq(kind, "illuminance") || str_eq(kind, "illuminance_lux") {
        Some("Illuminance")
    } else if str_eq(kind, "atmospheric_pressure") || str_eq(kind, "pressure") {
        Some("Pressure")
    } else if str_eq(kind, "occupancy") {
        Some("Occupancy")
    } else if str_eq(kind, "door") || str_eq(kind, "contact") {
        Some("Door")
    } else if str_eq(kind, "window") {
        Some("Window")
    } else if str_eq(kind, "tamper") {
        Some("Tamper")
    } else if str_eq(kind, "motion") {
        Some("Motion")
    } else if str_eq(kind, "smoke") {
        Some("Smoke")
    } else if str_eq(kind, "moisture") {
        Some("Moisture")
    } else if str_eq(kind, "carbon_monoxide") {
        Some("Carbon Monoxide")
    } else if str_eq(kind, "vibration") {
        Some("Vibration")
    } else if str_eq(kind, "opening") {
        Some("Opening")
    } else if str_eq(kind, "safety") {
        Some("Safety")
    } else if str_eq(kind, "energy") {
        Some("Energy")
    } else if str_eq(kind, "power") {
        Some("Power")
    } else if str_eq(kind, "current") {
        Some("Current")
    } else {
        None
    }
}

impl ZigbeeEntityRecord {
    /// The name to show.
    pub fn display_name(&self) -> (r: String)
        ensures
            r@ == self@.shown_name(),
    {
        if let Some(name) = &self.name_by_user {
            return name.clone();
        }
        let kind: &Option<String> = if self.device_class.is_some() {
            &self.device_class
        } else {
            &self.attribute_key
        };
        if let Some(k) = kind {
            if let Some(label) = label_of(k.as_str(), self.domain.as_str()) {
                return label.to_owned();
            }
        }
        self.entity_id.clone()
    }
}

/// A change of what a user can set. What is not given stays.
pub struct ZigbeeEntityMetaUpdate {
    pub name_by_user: Option<Option<String>>,
    pub user_area_id: Option<Option<String>>,
    pub disabled: Option<bool>,
    pub unit_of_measurement: Option<Option<String>>,
    pub icon: Option<Option<String>>,
    pub hidden_by: Option<Option<String>>,
}

/// A new value where one is given, and the old one otherwise.
pub open spec fn given_or<T>(given: Option<T>, old: T) -> T {
    match given {
        Some(v) => v,
        None => old,
    }
}

/// An entity after a change of what a user can set.
pub open spec fn updated_entity(
    e: ZigbeeEntityRecord,
    u: ZigbeeEntityMetaUpdate,
) -> ZigbeeEntityRecord {
    ZigbeeEntityRecord {
        name_by_user: given_or(u.name_by_user, e.name_by_user),
        user_area_id: given_or(u.user_area_id, e.user_area_id),
        disabled: given_or(u.disabled, e.disabled),
        unit_of_measurement: given_or(u.unit_of_measurement, e.unit_of_measurement),
        icon: given_or(u.icon, e.icon),
        hidden_by: given_or(u.hidden_by, e.hidden_by),
        ..e
    }
}

/// The entities of all Zigbee devices, in the order of their ids.
pub struct ZigbeeEntityStore {
    pub entities: Vec<ZigbeeEntityRecord>,
}

/// A record that is registered again keeps the name, the area and the disabling of the one it
/// replaces.
pub open spec fn merged(
    rec: ZigbeeEntityRecord,
    old: Option<ZigbeeEntityRecord>,
) -> ZigbeeEntityRecord {
    match old {
        Some(o) => ZigbeeEntityRecord {
            name_by_user: o.name_by_user,
            user_area_id: o.user_area_id,
            disabled: o.disabled,
            ..rec
        },
        None => rec,
    }
}

/// Whether a device is one that records are of.
pub open spec fn of_devices(records: Seq<ZigbeeEntityRecord>, ieee_addr: Seq<char>) -> bool {
    exists|i: int| 0 <= i < records.len() && (#[trigger] records[i]).ieee_addr@ == ieee_addr
}

/// The entities of devices that none of the records is of.
pub open spec fn of_others(
    s: Seq<ZigbeeEntityRecord>,
    records: Seq<ZigbeeEntityRecord>,
) -> Seq<ZigbeeEntityRecord> {
    s.filter(|e: ZigbeeEntityRecord| !of_devices(records, e.ieee_addr@))
}

/// The entity with an id, among some, or else among earlier ones.
pub open spec fn known_entity(
    s: Seq<ZigbeeEntityRecord>,
    earlier: Seq<ZigbeeEntityRecord>,
    entity_id: Seq<char>,
) -> Option<ZigbeeEntityRecord> {
    match keyed::key_get(s, entity_id) {
        Some(e) => Some(e),
        None => keyed::key_get(earlier, entity_id),
    }
}

/// Entities with records added, one after the other; each keeps what the user has set of the
/// entity with its id, of these or of earlier ones.
pub open spec fn added(
    s: Seq<ZigbeeEntityRecord>,
    earlier: Seq<ZigbeeEntityRecord>,
    records: Seq<ZigbeeEntityRecord>,
) -> Seq<ZigbeeEntityRecord>
    decreases records.len(),
{
    if records.len() == 0 {
        s
    } else {
        let t = added(s, earlier, records.drop_last());
        let rec = records.last();
        order::with_in_order(t, merged(rec, known_entity(t, earlier, rec.key())))
    }
}

/// The entities after the records of a device have been registered: they replace all entities of
/// the device, and keep what the user has set of those with the same ids.
pub open spec fn registered(
    s: Seq<ZigbeeEntityRecord>,
    records: Seq<ZigbeeEntityRecord>,
) -> Seq<ZigbeeEntityRecord> {
    added(of_others(s, records), s, records)
}

proof fn lemma_added_order(
    s: Seq<ZigbeeEntityRecord>,
    earlier: Seq<ZigbeeEntityRecord>,
    records: Seq<ZigbeeEntityRecord>,
)
    requires
        order::ascending(s),
    ensures
        order::ascending(added(s, earlier, records)),
    decreases records.len(),
{
    if records.len() > 0 {
        lemma_added_order(s, earlier, records.drop_last());
        let t = added(s, earlier, records.drop_last());
        let rec = records.last();
        order::lemma_with_in_order(t, merged(rec, known_entity(t, earlier, rec.key())));
    }
}

/// Registering keeps the entities in order.
pub proof fn law_registered_order(s: Seq<ZigbeeEntityRecord>, records: Seq<ZigbeeEntityRecord>)
    requires
        order::ascending(s),
    ensures
        order::ascending(registered(s, records)),
{
    order::lemma_filter_ascending(s, |e: ZigbeeEntityRecord| !of_devices(records, e.ieee_addr@));
    lemma_added_order(of_others(s, records), s, records);
}

/// What is found after records have been added, none of which had been there.
proof fn lemma_added_get(
    s: Seq<ZigbeeEntityRecord>,
    earlier: Seq<ZigbeeEntityRecord>,
    records: Seq<ZigbeeEntityRecord>,
    id: Seq<char>,
)
    requires
        keyed::distinct_keys(records),
        forall|i: int|
            0 <= i < records.len() ==> keyed::key_get(s, (#[trigger] records[i]).key()) is None,
    ensures
        keyed::key_get(added(s, earlier, records), id) == match keyed::key_get(records, id) {
            Some(rec) => Some(merged(rec, keyed::key_get(earlier, id))),
            None => keyed::key_get(s, id),
        },
    decreases records.len(),
{
    keyed::lemma_key_pos(records, id);
    if records.len() > 0 {
        let front = records.drop_last();
        let rec = records.last();
        let t = added(s, earlier, front);
        assert forall|i: int| 0 <= i < front.len() implies keyed::key_get(
            s,
            (#[trigger] front[i]).key(),
        ) is None by {
            assert(front[i] == records[i]);
        }
        assert forall|i: int, j: int| 0 <= i < j < front.len() implies (#[trigger] front[i]).key()
            != (#[trigger] front[j]).key() by {
            assert(front[i] == records[i] && front[j] == records[j]);
        }
        keyed::lemma_key_pos(front, rec.key());
        if keyed::key_pos(front, rec.key()) is Some {
            let k = keyed::key_pos(front, rec.key())->0;
            assert(records[k].key() != records[records.len() - 1].key());
        }
        keyed::law_added(front, rec);
        assert(front.push(rec) =~= records);
        lemma_added_get(s, earlier, front, id);
        lemma_added_get(s, earlier, front, rec.key());
        assert(keyed::key_get(s, records[records.len() - 1].key()) is None);
        order::lemma_with_in_order(t, merged(rec, known_entity(t, earlier, rec.key())));
        if id != rec.key() {
            assert(keyed::key_get(front.push(rec), id) == keyed::key_get(front, id));
        }
    }
}

/// Where an entity of another device is found, it is found among those of other devices.
proof fn lemma_of_others(s: Seq<ZigbeeEntityRecord>, records: Seq<ZigbeeEntityRecord>, id: Seq<char>)
    requires
        keyed::distinct_keys(s),
    ensures
        keyed::key_get(of_others(s, records), id) == match keyed::key_get(s, id) {
            Some(e) => if of_devices(records, e.ieee_addr@) {
                None
            } else {
                Some(e)
            },
            None => None,
        },
    decreases s.len(),
{
    let p = |e: ZigbeeEntityRecord| !of_devices(records, e.ieee_addr@);
    let kept = of_others(s, records);
    reveal(Seq::filter);
    keyed::lemma_key_pos(s, id);
    keyed::lemma_key_pos(kept, id);
    if s.len() > 0 {
        let front = s.drop_last();
        let e = s.last();
        assert forall|i: int, j: int| 0 <= i < j < front.len() implies (#[trigger] front[i]).key()
            != (#[trigger] front[j]).key() by {
            assert(front[i] == s[i] && front[j] == s[j]);
        }
        lemma_of_others(front, records, id);
        lemma_of_others(front, records, e.key());
        keyed::lemma_key_pos(front, e.key());
        if keyed::key_pos(front, e.key()) is Some {
            let k = keyed::key_pos(front, e.key())->0;
            assert(s[k].key() != s[s.len() - 1].key());
        }
        keyed::law_added(front, e);
        assert(front.push(e) =~= s);
        let before = of_others(front, records);
        if p(e) {
            assert(kept == before.push(e));
            keyed::lemma_key_pos(before, e.key());
            keyed::law_added(before, e);
            if id != e.key() {
                assert(keyed::key_get(before.push(e), id) == keyed::key_get(before, id));
            }
        } else {
            assert(kept == before);
        }
        if id != e.key() {
            assert(keyed::key_get(front.push(e), id) == keyed::key_get(front, id));
        }
    }
}

/// Registering the records of a device replaces its entities: each record is found under its id,
/// with what the user had set of the entity that was there, no other entity of the device is left,
/// and the entities of other devices stay.
pub proof fn law_registered_replaces(
    s: Seq<ZigbeeEntityRecord>,
    records: Seq<ZigbeeEntityRecord>,
    ieee_addr: Seq<char>,
)
    requires
        order::ascending(s),
        records.len() > 0,
        keyed::distinct_keys(records),
        forall|i: int|
            0 <= i < records.len() ==> (#[trigger] records[i]).ieee_addr@ == ieee_addr && (
            keyed::key_get(s, records[i].key()) matches Some(e) ==> e.ieee_addr@ == ieee_addr),
    ensures
        ({
            let r = registered(s, records);
            &&& forall|i: int|
                0 <= i < records.len() ==> keyed::key_get(r, (#[trigger] records[i]).key())
                    == Some(merged(records[i], keyed::key_get(s, records[i].key())))
            &&& forall|i: int|
                0 <= i < r.len() && (#[trigger] r[i]).ieee_addr@ == ieee_addr ==> keyed::key_get(
                    records,
                    r[i].key(),
                ) is Some
            &&& forall|id: Seq<char>|
                (#[trigger] keyed::key_get(s, id)) is Some && keyed::key_get(s, id)->0.ieee_addr@
                    != ieee_addr ==> keyed::key_get(r, id) == keyed::key_get(s, id)
        }),
{
    let r = registered(s, records);
    let base = of_others(s, records);
    order::lemma_ascending_distinct(s);
    law_registered_order(s, records);
    order::lemma_ascending_distinct(r);
    assert(records[0].ieee_addr@ == ieee_addr);
    assert(of_devices(records, ieee_addr));
    assert forall|i: int| 0 <= i < records.len() implies keyed::key_get(
        base,
        (#[trigger] records[i]).key(),
    ) is None by {
        lemma_of_others(s, records, records[i].key());
    }
    assert forall|i: int| 0 <= i < records.len() implies keyed::key_get(
        r,
        (#[trigger] records[i]).key(),
    ) == Some(merged(records[i], keyed::key_get(s, records[i].key()))) by {
        lemma_added_get(base, s, records, records[i].key());
        keyed::lemma_key_pos_is(records, records[i].key(), i);
    }
    assert forall|i: int|
        0 <= i < r.len() && (#[trigger] r[i]).ieee_addr@ == ieee_addr implies keyed::key_get(
        records,
        r[i].key(),
    ) is Some by {
        keyed::lemma_key_pos_is(r, r[i].key(), i);
        lemma_added_get(base, s, records, r[i].key());
        lemma_of_others(s, records, r[i].key());
    }
    assert forall|id: Seq<char>|
        (#[trigger] keyed::key_get(s, id)) is Some && keyed::key_get(s, id)->0.ieee_addr@
            != ieee_addr implies keyed::key_get(r, id) == keyed::key_get(s, id) by {
        lemma_added_get(base, s, records, id);
        lemma_of_others(s, records, id);
        keyed::lemma_key_pos(records, id);
        keyed::lemma_key_pos(s, id);
    }
}

/// Whether a device is one that records are of.
fn has_device(records: &Vec<ZigbeeEntityRecord>, ieee_addr: &str) -> (r: bool)
    ensures
        r == of_devices(records@, ieee_addr@),
{
    let mut i: usize = 0;
    while i < records.len()
        invariant
            i <= records@.len(),
            forall|k: int| 0 <= k < i ==> (#[trigger] records@[k]).ieee_addr@ != ieee_addr@,
        decreases records@.len() - i,
    {
        if str_eq(records[i].ieee_addr.as_str(), ieee_addr) {
            return true;
        }
        i += 1;
    }
    false
}

impl ZigbeeEntityStore {
    /// The entities stand in the order of their ids.
    pub open spec fn wf(&self) -> bool {
        order::ascending(self.entities@)
    }

    /// A store without entities.
    pub fn new() -> (r: Self)
        ensures
            r.wf(),
            r.entities@.len() == 0,
    {
        ZigbeeEntityStore { entities: Vec::new() }
    }

    /// Registers the entities of a device in place of those that it had. What the user has set is
    /// kept.
    pub fn register_bulk(&mut self, records: Vec<ZigbeeEntityRecord>)
        ensures
            final(self).entities@ == registered(old(self).entities@, records@),
            old(self).wf() ==> final(self).wf(),
    {
        let ghost all = records@;
        let ghost before = self.entities@;
        let ghost p = |e: ZigbeeEntityRecord| !of_devices(all, e.ieee_addr@);
        let mut earlier: Vec<ZigbeeEntityRecord> = Vec::new();
        std::mem::swap(&mut self.entities, &mut earlier);
        let mut i: usize = 0;
        proof {
            reveal(Seq::filter);
            assert(before.take(0) =~= Seq::<ZigbeeEntityRecord>::empty());
        }
        while i < earlier.len()
            invariant
                i <= earlier@.len(),
                earlier@ == before,
                records@ == all,
                p == (|e: ZigbeeEntityRecord| !of_devices(all, e.ieee_addr@)),
                self.entities@ == before.take(i as int).filter(p),
            decreases earlier@.len() - i,
        {
            proof {
                reveal(Seq::filter);
                assert(before.take(i + 1).drop_last() =~= before.take(i as int));
            }
            if !has_device(&records, earlier[i].ieee_addr.as_str()) {
                self.entities.push(earlier[i].clone());
            }
            i += 1;
        }
        assert(before.take(i as int) =~= before);
        assert(all.take(0) =~= Seq::<ZigbeeEntityRecord>::empty());
        for rec in it: records
            invariant
                it.seq() == all,
                earlier@ == before,
                self.entities@ == added(
                    of_others(before, all),
                    before,
                    all.take(it.index() as int),
                ),
        {
            proof {
                let i = it.index() as int;
                assert(all.take(i + 1).drop_last() =~= all.take(i));
                assert(all.take(i + 1).last() == all[i]);
            }
            let mut next: ZigbeeEntityRecord = rec;
            let known: Option<ZigbeeEntityRecord> = match lookup(
                &self.entities,
                next.entity_id.as_str(),
            ) {
                Some(e) => Some(e),
                None => lookup(&earlier, next.entity_id.as_str()),
            };
            if let Some(existing) = known {
                next.name_by_user = existing.name_by_user;
                next.user_area_id = existing.user_area_id;
                next.disabled = existing.disabled;
            }
            put_in_order(&mut self.entities, next);
        }
        assert(all.take(all.len() as int) =~= all);
        proof {
            if order::ascending(before) {
                law_registered_order(before, all);
            }
        }
    }

    /// All entities, in the order of their ids.
    pub fn list(&self) -> (r: Vec<ZigbeeEntityRecord>)
        ensures
            r@ == self.entities@,
    {
        copy_all(&self.entities)
    }

    /// The entities of the domain `sensor`.
    pub fn all_sensors(&self) -> (r: Vec<ZigbeeEntityRecord>)
        ensures
            r@ == self.entities@.filter(|e: ZigbeeEntityRecord| e.domain@ == "sensor"@),
    {
        let mut out: Vec<ZigbeeEntityRecord> = Vec::new();
        let ghost p = |e: ZigbeeEntityRecord| e.domain@ == "sensor"@;
        let mut i: usize = 0;
        proof {
            reveal(Seq::filter);
        }
        while i < self.entities.len()
            invariant
                i <= self.entities@.len(),
                p == (|e: ZigbeeEntityRecord| e.domain@ == "sensor"@),
                out@ == self.entities@.take(i as int).filter(p),
            decreases self.entities@.len() - i,
        {
            proof {
                reveal(Seq::filter);
                assert(self.entities@.take(i + 1).drop_last() =~= self.entities@.take(i as int));
            }
            if str_eq(self.entities[i].domain.as_str(), "sensor") {
                out.push(self.entities[i].clone());
            }
            i += 1;
        }
        assert(self.entities@.take(i as int) =~= self.entities@);
        out
    }

    /// The entities whose history can be drawn: sensors and binary sensors.
    pub fn all_plottable_entities(&self) -> (r: Vec<ZigbeeEntityRecord>)
        ensures
            r@ == self.entities@.filter(
                |e: ZigbeeEntityRecord|
                    e.domain@ == "sensor"@ || e.domain@ == "binary_sensor"@,
            ),
    {
        let mut out: Vec<ZigbeeEntityRecord> = Vec::new();
        let ghost p = |e: ZigbeeEntityRecord|
            e.domain@ == "sensor"@ || e.domain@ == "binary_sensor"@;
        let mut i: usize = 0;
        proof {
            reveal(Seq::filter);
        }
        while i < self.entities.len()
            invariant
                i <= self.entities@.len(),
                p == (|e: ZigbeeEntityRecord|
                    e.domain@ == "sensor"@ || e.domain@ == "binary_sensor"@),
                out@ == self.entities@.take(i as int).filter(p),
            decreases self.entities@.len() - i,
        {
            proof {
                reveal(Seq::filter);
                assert(self.entities@.take(i + 1).drop_last() =~= self.entities@.take(i as int));
            }
            if str_eq(self.entities[i].domain.as_str(), "sensor") || str_eq(
                self.entities[i].domain.as_str(),
                "binary_sensor",
            ) {
                out.push(self.entities[i].clone());
            }
            i += 1;
        }
        assert(self.entities@.take(i as int) =~= self.entities@);
        out
    }

    /// The entities of a device.
    pub fn list_for_device(&self, ieee_addr: &str) -> (r: Vec<ZigbeeEntityRecord>)
        ensures
            r@ == self.entities@.filter(|e: ZigbeeEntityRecord| e.ieee_addr@ == ieee_addr@),
    {
        let mut out: Vec<ZigbeeEntityRecord> = Vec::new();
        let ghost p = |e: ZigbeeEntityRecord| e.ieee_addr@ == ieee_addr@;
        let mut i: usize = 0;
        proof {
            reveal(Seq::filter);
        }
        while i < self.entities.len()
            invariant
                i <= self.entities@.len(),
                p == (|e: ZigbeeEntityRecord| e.ieee_addr@ == ieee_addr@),
                out@ == self.entities@.take(i as int).filter(p),
            decreases self.entities@.len() - i,
        {
            proof {
                reveal(Seq::filter);
                assert(self.entities@.take(i + 1).drop_last() =~= self.entities@.take(i as int));
            }
            if str_eq(self.entities[i].ieee_addr.as_str(), ieee_addr) {
                out.push(self.entities[i].clone());
            }
            i += 1;
        }
        assert(self.entities@.take(i as int) =~= self.entities@);
        out
    }

    /// The entity with an id.
    pub fn get(&self, entity_id: &str) -> (r: Option<ZigbeeEntityRecord>)
        ensures
            r == keyed::key_get(self.entities@, entity_id@),
    {
        lookup(&self.entities, entity_id)
    }

    /// Changes what a user can set of an entity. Says whether there is such an entity.
    pub fn update_meta(&mut self, entity_id: &str, update: ZigbeeEntityMetaUpdate) -> (r: bool)
        ensures
            match keyed::key_pos(old(self).entities@, entity_id@) {
                Some(i) => r && final(self).entities@ == old(self).entities@.update(
                    i,
                    updated_entity(old(self).entities@[i], update),
                ),
                None => !r && *final(self) == *old(self),
            },
            old(self).wf() ==> final(self).wf(),
    {
        let i: usize = match position(&self.entities, entity_id) {
            Some(i) => i,
            None => {
                return false;
            },
        };
        let mut ent: ZigbeeEntityRecord = self.entities[i].clone();
        if let Some(v) = update.name_by_user {
            ent.name_by_user = v;
        }
        if let Some(v) = update.user_area_id {
            ent.user_area_id = v;
        }
        if let Some(v) = update.disabled {
            ent.disabled = v;
        }
        if let Some(v) = update.unit_of_measurement {
            ent.unit_of_measurement = v;
        }
        if let Some(v) = update.icon {
            ent.icon = v;
        }
        if let Some(v) = update.hidden_by {
            ent.hidden_by = v;
        }
        let ghost before = self.entities@;
        self.entities[i] = ent;
        proof {
            if order::ascending(before) {
                assert forall|a: int, b: int| 0 <= a < b < self.entities@.len() implies
                    order::text_lt(
                    (#[trigger] self.entities@[a]).key(),
                    (#[trigger] self.entities@[b]).key(),
                ) by {
                    assert(order::text_lt(before[a].key(), before[b].key()));
                }
            }
        }
        true
    }

    /// Removes the entities of a device. Says how many there were.
    pub fn remove_for_device(&mut self, ieee_addr: &str) -> (r: usize)
        ensures
            final(self).entities@ == old(self).entities@.filter(
                |e: ZigbeeEntityRecord| e.ieee_addr@ != ieee_addr@,
            ),
            r == old(self).entities@.len() - final(self).entities@.len(),
            old(self).wf() ==> final(self).wf(),
    {
        let ghost before = self.entities@;
        let ghost p = |e: ZigbeeEntityRecord| e.ieee_addr@ != ieee_addr@;
        let mut all: Vec<ZigbeeEntityRecord> = Vec::new();
        std::mem::swap(&mut self.entities, &mut all);
        let total: usize = all.len();
        proof {
            reveal(Seq::filter);
        }
        for e in it: all
            invariant
                it.seq() == before,
                p == (|e: ZigbeeEntityRecord| e.ieee_addr@ != ieee_addr@),
                self.entities@ == before.take(it.index() as int).filter(p),
                self.entities@.len() <= it.index(),
        {
            proof {
                reveal(Seq::filter);
                let i = it.index() as int;
                assert(before.take(i + 1).drop_last() =~= before.take(i));
            }
            if !str_eq(e.ieee_addr.as_str(), ieee_addr) {
                self.entities.push(e);
            }
        }
        assert(before.take(before.len() as int) =~= before);
        proof {
            order::lemma_filter_ascending(before, p);
        }
        total - self.entities.len()
    }
}

} // verus!
