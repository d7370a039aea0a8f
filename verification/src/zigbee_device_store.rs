//! The Zigbee devices that have joined.

use vstd::prelude::*;

use crate::keyed;
use crate::keyed::{copy_all, lookup, position, remove_key, Keyed, Record};
use crate::order;
use crate::order::sort_by_key;
use crate::zigbee_entity_store;

verus! {

/// A Zigbee device.
pub struct ZigbeeDeviceRecord {
    /// The address of the device, which never changes.
    pub ieee_addr: String,
    pub friendly_name: String,
    pub manufacturer: Option<String>,
    pub model: Option<String>,
    pub power_source: Option<String>,
    pub sw_build_id: Option<String>,
    /// Whether the device has told what it can do.
    pub interview_complete: bool,
    /// When the device was last heard of.
    pub last_seen: Option<String>,
    /// The name that the user has given.
    pub name_by_user: Option<String>,
    /// The area that the user has assigned.
    pub user_area_id: Option<String>,
}

impl Keyed for ZigbeeDeviceRecord {
    open spec fn key(&self) -> Seq<char> {
        self.ieee_addr@
    }

    fn key_str(&self) -> (r: &str) {
        self.ieee_addr.as_str()
    }
}

impl Clone for ZigbeeDeviceRecord {
    fn clone(&self) -> (r: Self)
        ensures
            r == *self,
    {
        ZigbeeDeviceRecord {
            ieee_addr: self.ieee_addr.clone(),
            friendly_name: self.friendly_name.clone(),
            manufacturer: self.manufacturer.clone(),
            model: self.model.clone(),
            power_source: self.power_source.clone(),
            sw_build_id: self.sw_build_id.clone(),
            interview_complete: self.interview_complete,
            last_seen: self.last_seen.clone(),
            name_by_user: self.name_by_user.clone(),
            user_area_id: self.user_area_id.clone(),
        }
    }
}

impl Record for ZigbeeDeviceRecord {
    fn dup(&self) -> (r: Self) {
        self.clone()
    }
}

impl ZigbeeDeviceRecord {
    /// The name to show: the user's, or else the device's own.
    pub open spec fn shown_name(&self) -> Seq<char> {
        match self.name_by_user {
            Some(name) => name@,
            None => self.friendly_name@,
        }
    }

    /// The name to show.
    pub fn display_name(&self) -> (r: &str)
        ensures
            r@ == self.shown_name(),
    {
        match &self.name_by_user {
            Some(name) => name.as_str(),
            None => self.friendly_name.as_str(),
        }
    }
}

/// A change of what a user can set. What is not given stays.
pub struct ZigbeeDeviceMetaUpdate {
    pub name_by_user: Option<Option<String>>,
    pub user_area_id: Option<Option<String>>,
}

/// A device that is found by its friendly name.
pub struct NamedDevice {
    pub record: ZigbeeDeviceRecord,
}

impl Keyed for NamedDevice {
    open spec fn key(&self) -> Seq<char> {
        self.record.friendly_name@
    }

    fn key_str(&self) -> (r: &str) {
        self.record.friendly_name.as_str()
    }
}

/// The devices, each found by its friendly name.
pub open spec fn named(s: Seq<ZigbeeDeviceRecord>) -> Seq<NamedDevice> {
    s.map_values(|d: ZigbeeDeviceRecord| NamedDevice { record: d })
}

/// The Zigbee devices that have joined.
pub struct ZigbeeDeviceStore {
    pub devices: Vec<ZigbeeDeviceRecord>,
}

/// The devices after one of them has been reported: what the user has set is kept.
pub open spec fn reported(
    s: Seq<ZigbeeDeviceRecord>,
    record: ZigbeeDeviceRecord,
) -> Seq<ZigbeeDeviceRecord> {
    match keyed::key_get(s, record.key()) {
        Some(old) => keyed::with(
            s,
            ZigbeeDeviceRecord {
                name_by_user: old.name_by_user,
                user_area_id: old.user_area_id,
                ..record
            },
        ),
        None => keyed::with(s, record),
    }
}

/// A device that is reported again keeps the name and the area that the user has set, the other
/// devices are untouched, and no address is stored twice.
pub proof fn law_reported(s: Seq<ZigbeeDeviceRecord>, record: ZigbeeDeviceRecord, other: Seq<char>)
    ensures
        ({
            let new = keyed::key_get(reported(s, record), record.key());
            &&& new is Some
            &&& keyed::key_get(s, record.key()) matches Some(old) ==> new->0.name_by_user
                == old.name_by_user && new->0.user_area_id == old.user_area_id
            &&& new->0.interview_complete == record.interview_complete
        }),
        other != record.key() ==> keyed::key_get(reported(s, record), other) == keyed::key_get(
            s,
            other,
        ),
        keyed::distinct_keys(s) ==> keyed::distinct_keys(reported(s, record)),
{
    match keyed::key_get(s, record.key()) {
        Some(old) => {
            keyed::lemma_put(
                s,
                ZigbeeDeviceRecord {
                    name_by_user: old.name_by_user,
                    user_area_id: old.user_area_id,
                    ..record
                },
            );
        },
        None => {
            keyed::lemma_put(s, record);
        },
    }
}

impl ZigbeeDeviceStore {
    /// No address is stored twice.
    pub open spec fn wf(&self) -> bool {
        keyed::distinct_keys(self.devices@)
    }

    /// A store without devices.
    pub fn new() -> (r: Self)
        ensures
            r.wf(),
            r.devices@.len() == 0,
    {
        ZigbeeDeviceStore { devices: Vec::new() }
    }

    /// Stores what is known of a device. What the user has set is kept.
    pub fn upsert(&mut self, record: ZigbeeDeviceRecord)
        ensures
            final(self).devices@ == reported(old(self).devices@, record),
            old(self).wf() ==> final(self).wf(),
    {
        proof {
            law_reported(self.devices@, record, record.key());
        }
        match position(&self.devices, record.ieee_addr.as_str()) {
            Some(i) => {
                let mut next: ZigbeeDeviceRecord = record;
                next.name_by_user = self.devices[i].name_by_user.clone();
                next.user_area_id = self.devices[i].user_area_id.clone();
                self.devices[i] = next;
            },
            None => {
                self.devices.push(record);
            },
        }
    }

    /// The device with an address.
    pub fn get_by_ieee(&self, ieee_addr: &str) -> (r: Option<ZigbeeDeviceRecord>)
        ensures
            r == keyed::key_get(self.devices@, ieee_addr@),
    {
        lookup(&self.devices, ieee_addr)
    }

    /// All devices, sorted by their friendly names.
    pub fn list(&self) -> (r: Vec<ZigbeeDeviceRecord>)
        ensures
            order::sorted_from(named(r@), named(self.devices@)),
    {
        let copies: Vec<ZigbeeDeviceRecord> = copy_all(&self.devices);
        let ghost all = copies@;
        let mut wrapped: Vec<NamedDevice> = Vec::new();
        for d in it: copies
            invariant
                it.seq() == all,
                wrapped@ == named(all.take(it.index() as int)),
        {
            wrapped.push(NamedDevice { record: d });
            assert(wrapped@ =~= named(all.take(it.index() + 1)));
        }
        assert(all.take(all.len() as int) =~= all);
        let sorted: Vec<NamedDevice> = sort_by_key(wrapped);
        let ghost s = sorted@;
        let mut out: Vec<ZigbeeDeviceRecord> = Vec::new();
        for d in it: sorted
            invariant
                it.seq() == s,
                named(out@) == s.take(it.index() as int),
        {
            let ghost before = out@;
            let ghost whole = d;
            out.push(d.record);
            assert(out@ =~= before.push(whole.record));
            assert(NamedDevice { record: whole.record } == whole);
            assert(named(out@) =~= named(before).push(whole));
            assert(named(out@) =~= s.take(it.index() + 1));
        }
        assert(s.take(s.len() as int) =~= s);
        out
    }

    /// Changes what a user can set of a device. Says whether there is such a device.
    pub fn update_meta(&mut self, ieee_addr: &str, update: ZigbeeDeviceMetaUpdate) -> (r: bool)
        ensures
            match keyed::key_pos(old(self).devices@, ieee_addr@) {
                Some(i) => r && final(self).devices@ == old(self).devices@.update(
                    i,
                    ZigbeeDeviceRecord {
                        name_by_user: zigbee_entity_store::given_or(
                            update.name_by_user,
                            old(self).devices@[i].name_by_user,
                        ),
                        user_area_id: zigbee_entity_store::given_or(
                            update.user_area_id,
                            old(self).devices@[i].user_area_id,
                        ),
                        ..old(self).devices@[i]
                    },
                ),
                None => !r && *final(self) == *old(self),
            },
            old(self).wf() ==> final(self).wf(),
    {
        let i: usize = match position(&self.devices, ieee_addr) {
            Some(i) => i,
            None => {
                return false;
            },
        };
        let mut dev: ZigbeeDeviceRecord = self.devices[i].clone();
        if let Some(v) = update.name_by_user {
            dev.name_by_user = v;
        }
        if let Some(v) = update.user_area_id {
            dev.user_area_id = v;
        }
        proof {
            keyed::lemma_put(self.devices@, dev);
        }
        self.devices[i] = dev;
        true
    }

    /// Notes when a device was last heard of. Says whether there is such a device.
    pub fn touch_last_seen(&mut self, ieee_addr: &str, ts: String) -> (r: bool)
        ensures
            match keyed::key_pos(old(self).devices@, ieee_addr@) {
                Some(i) => r && final(self).devices@ == old(self).devices@.update(
                    i,
                    ZigbeeDeviceRecord { last_seen: Some(ts), ..old(self).devices@[i] },
                ),
                None => !r && *final(self) == *old(self),
            },
            old(self).wf() ==> final(self).wf(),
    {
        let i: usize = match position(&self.devices, ieee_addr) {
            Some(i) => i,
            None => {
                return false;
            },
        };
        let mut dev: ZigbeeDeviceRecord = self.devices[i].clone();
        dev.last_seen = Some(ts);
        proof {
            keyed::lemma_put(self.devices@, dev);
        }
        self.devices[i] = dev;
        true
    }

    /// Removes a device. Says whether there was one.
    pub fn remove(&mut self, ieee_addr: &str) -> (r: bool)
        ensures
            final(self).devices@ == keyed::without_key(old(self).devices@, ieee_addr@),
            r == (keyed::key_pos(old(self).devices@, ieee_addr@) is Some),
            old(self).wf() ==> final(self).wf(),
    {
        proof {
            keyed::lemma_without_key(self.devices@, ieee_addr@);
        }
        remove_key(&mut self.devices, ieee_addr)
    }
}

} // verus!
