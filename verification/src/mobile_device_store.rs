//! The phones and tablets that have registered.

use vstd::prelude::*;

use crate::ids;
use crate::ids::{new_hex_id, new_long_hex_id};
use crate::keyed;
use crate::keyed::{copy_all, lookup, position, Keyed, Record};
use crate::text::str_eq;

verus! {

/// What a device says of itself when it registers.
pub struct MobileDeviceRegistration {
    pub app_id: String,
    pub app_name: String,
    pub app_version: String,
    pub device_name: String,
    pub manufacturer: String,
    pub model: String,
    pub os_name: String,
    pub os_version: Option<String>,
    pub device_id: Option<String>,
    pub supports_encryption: bool,
    pub owner_username: Option<String>,
}

/// A device that has registered.
pub struct MobileDeviceRecord {
    /// Where the device posts its messages.
    pub webhook_id: String,
    /// What the device encrypts its messages with, if it does.
    pub secret: Option<String>,
    pub app_id: String,
    pub app_name: String,
    pub app_version: String,
    pub device_name: String,
    pub manufacturer: String,
    pub model: String,
    pub os_name: String,
    pub os_version: Option<String>,
    pub device_id: Option<String>,
    pub supports_encryption: bool,
    pub owner_username: Option<String>,
}

impl Keyed for MobileDeviceRecord {
    open spec fn key(&self) -> Seq<char> {
        self.webhook_id@
    }

    fn key_str(&self) -> (r: &str) {
        self.webhook_id.as_str()
    }
}

impl Clone for MobileDeviceRecord {
    fn clone(&self) -> (r: Self)
        ensures
            r == *self,
    {
        MobileDeviceRecord {
            webhook_id: self.webhook_id.clone(),
            secret: self.secret.clone(),
            app_id: self.app_id.clone(),
            app_name: self.app_name.clone(),
            app_version: self.app_version.clone(),
            device_name: self.device_name.clone(),
            manufacturer: self.manufacturer.clone(),
            model: self.model.clone(),
            os_name: self.os_name.clone(),
            os_version: self.os_version.clone(),
            device_id: self.device_id.clone(),
            supports_encryption: self.supports_encryption,
            owner_username: self.owner_username.clone(),
        }
    }
}

impl Record for MobileDeviceRecord {
    fn dup(&self) -> (r: Self) {
        self.clone()
    }
}

impl MobileDeviceRecord {
    /// The name to show.
    pub fn display_name(&self) -> (r: &str)
        ensures
            r@ == self.device_name@,
    {
        self.device_name.as_str()
    }
}

/// Whether a registration comes from a device that is known: it has the same device id and app.
pub open spec fn same_device(d: MobileDeviceRecord, reg: MobileDeviceRegistration) -> bool {
    match (d.device_id, reg.device_id) {
        (Some(a), Some(b)) => a@ == b@ && d.app_id@ == reg.app_id@,
        _ => false,
    }
}

/// The first device at or after `i` that a registration comes from.
pub open spec fn device_pos_from(
    s: Seq<MobileDeviceRecord>,
    reg: MobileDeviceRegistration,
    i: int,
) -> Option<int>
    decreases s.len() - i,
{
    if i < 0 || i >= s.len() {
        None
    } else if same_device(s[i], reg) {
        Some(i)
    } else {
        device_pos_from(s, reg, i + 1)
    }
}

/// A known device after it has registered again: it keeps its webhook and its secret, and gets a
/// secret if it had none and supports encryption.
pub open spec fn refreshed(
    d: MobileDeviceRecord,
    reg: MobileDeviceRegistration,
    secret: String,
) -> MobileDeviceRecord {
    MobileDeviceRecord {
        webhook_id: d.webhook_id,
        secret: if d.secret is None && reg.supports_encryption {
            Some(secret)
        } else {
            d.secret
        },
        app_id: d.app_id,
        app_name: reg.app_name,
        app_version: reg.app_version,
        device_name: reg.device_name,
        manufacturer: reg.manufacturer,
        model: reg.model,
        os_name: reg.os_name,
        os_version: reg.os_version,
        device_id: d.device_id,
        supports_encryption: reg.supports_encryption,
        owner_username: reg.owner_username,
    }
}

/// A new device.
pub open spec fn enrolled(
    reg: MobileDeviceRegistration,
    webhook_id: String,
    secret: String,
) -> MobileDeviceRecord {
    MobileDeviceRecord {
        webhook_id,
        secret: if reg.supports_encryption {
            Some(secret)
        } else {
            None
        },
        app_id: reg.app_id,
        app_name: reg.app_name,
        app_version: reg.app_version,
        device_name: reg.device_name,
        manufacturer: reg.manufacturer,
        model: reg.model,
        os_name: reg.os_name,
        os_version: reg.os_version,
        device_id: reg.device_id,
        supports_encryption: reg.supports_encryption,
        owner_username: reg.owner_username,
    }
}

/// The device after a registration.
pub open spec fn registered_record(
    s: Seq<MobileDeviceRecord>,
    reg: MobileDeviceRegistration,
    webhook_id: String,
    secret: String,
) -> MobileDeviceRecord {
    match device_pos_from(s, reg, 0) {
        Some(i) => refreshed(s[i], reg, secret),
        None => enrolled(reg, webhook_id, secret),
    }
}

/// The devices after a registration.
pub open spec fn registered_devices(
    s: Seq<MobileDeviceRecord>,
    reg: MobileDeviceRegistration,
    webhook_id: String,
    secret: String,
) -> Seq<MobileDeviceRecord> {
    let record = registered_record(s, reg, webhook_id, secret);
    match device_pos_from(s, reg, 0) {
        Some(i) => s.update(i, record),
        None => s.push(record),
    }
}

proof fn lemma_device_pos(s: Seq<MobileDeviceRecord>, reg: MobileDeviceRegistration, i: int)
    requires
        0 <= i <= s.len(),
    ensures
        match device_pos_from(s, reg, i) {
            Some(k) => i <= k < s.len() && same_device(s[k], reg) && forall|j: int|
                i <= j < k ==> !same_device(#[trigger] s[j], reg),
            None => forall|j: int| i <= j < s.len() ==> !same_device(#[trigger] s[j], reg),
        },
    decreases s.len() - i,
{
    if i < s.len() && !same_device(s[i], reg) {
        lemma_device_pos(s, reg, i + 1);
    }
}

proof fn lemma_device_pos_is(
    s: Seq<MobileDeviceRecord>,
    reg: MobileDeviceRegistration,
    i: int,
    k: int,
)
    requires
        0 <= i <= k < s.len(),
        same_device(s[k], reg),
        forall|j: int| i <= j < k ==> !same_device(#[trigger] s[j], reg),
    ensures
        device_pos_from(s, reg, i) == Some(k),
    decreases k - i,
{
    if i < k {
        lemma_device_pos_is(s, reg, i + 1, k);
    }
}

/// A device that has an id and registers twice is one device, and it keeps its webhook. A secret
/// that was once given is kept too.
pub proof fn law_register_again(
    s: Seq<MobileDeviceRecord>,
    first: MobileDeviceRegistration,
    again: MobileDeviceRegistration,
    webhook_id: String,
    secret: String,
    webhook_id2: String,
    secret2: String,
)
    requires
        first.device_id is Some,
        again.device_id is Some,
        first.device_id->0@ == again.device_id->0@,
        first.app_id@ == again.app_id@,
    ensures
        ({
            let s1 = registered_devices(s, first, webhook_id, secret);
            let r1 = registered_record(s, first, webhook_id, secret);
            let s2 = registered_devices(s1, again, webhook_id2, secret2);
            let r2 = registered_record(s1, again, webhook_id2, secret2);
            &&& s2.len() == s1.len()
            &&& r2.webhook_id == r1.webhook_id
            &&& r1.secret is Some ==> r2.secret == r1.secret
        }),
{
    let s1 = registered_devices(s, first, webhook_id, secret);
    lemma_device_pos(s, first, 0);
    let k = match device_pos_from(s, first, 0) {
        Some(i) => i,
        None => s.len() as int,
    };
    assert forall|j: int| 0 <= j < k implies !same_device(#[trigger] s1[j], again) by {
        assert(!same_device(s[j], first));
    }
    lemma_device_pos_is(s1, again, 0, k);
}

/// The devices that have registered.
pub struct MobileDeviceStore {
    pub devices: Vec<MobileDeviceRecord>,
}

impl MobileDeviceStore {
    /// A store without devices.
    pub fn new() -> (r: Self)
        ensures
            r.devices@ == Seq::<MobileDeviceRecord>::empty(),
    {
        MobileDeviceStore { devices: Vec::new() }
    }

    /// Registers a device, with a webhook and a secret for the case that it needs them.
    pub fn register_with(
        &mut self,
        registration: MobileDeviceRegistration,
        webhook_id: String,
        secret: String,
    ) -> (r: MobileDeviceRecord)
        ensures
            r == registered_record(old(self).devices@, registration, webhook_id, secret),
            final(self).devices@ == registered_devices(
                old(self).devices@,
                registration,
                webhook_id,
                secret,
            ),
    {
        let mut i: usize = 0;
        while i < self.devices.len()
            invariant
                i <= self.devices@.len(),
                *self == *old(self),
                device_pos_from(self.devices@, registration, 0) == device_pos_from(
                    self.devices@,
                    registration,
                    i as int,
                ),
            decreases self.devices@.len() - i,
        {
            let same: bool = match (&self.devices[i].device_id, &registration.device_id) {
                (Some(a), Some(b)) => str_eq(a.as_str(), b.as_str()) && str_eq(
                    self.devices[i].app_id.as_str(),
                    registration.app_id.as_str(),
                ),
                _ => false,
            };
            if same {
                let mut next: MobileDeviceRecord = self.devices[i].clone();
                next.app_name = registration.app_name;
                next.app_version = registration.app_version;
                next.device_name = registration.device_name;
                next.manufacturer = registration.manufacturer;
                next.model = registration.model;
                next.os_name = registration.os_name;
                next.os_version = registration.os_version;
                next.supports_encryption = registration.supports_encryption;
                next.owner_username = registration.owner_username;
                if next.secret.is_none() && next.supports_encryption {
                    next.secret = Some(secret);
                }
                self.devices[i] = next.clone();
                return next;
            }
            i += 1;
        }
        let record: MobileDeviceRecord = MobileDeviceRecord {
            webhook_id,
            secret: if registration.supports_encryption {
                Some(secret)
            } else {
                None
            },
            app_id: registration.app_id,
            app_name: registration.app_name,
            app_version: registration.app_version,
            device_name: registration.device_name,
            manufacturer: registration.manufacturer,
            model: registration.model,
            os_name: registration.os_name,
            os_version: registration.os_version,
            device_id: registration.device_id,
            supports_encryption: registration.supports_encryption,
            owner_username: registration.owner_username,
        };
        self.devices.push(record.clone());
        record
    }

    /// Registers a device. A new one gets a random webhook of 32 hexadecimal digits; one that
    /// needs a secret gets a random one of 64.
    pub fn register(&mut self, registration: MobileDeviceRegistration) -> (r: MobileDeviceRecord)
        ensures
            exists|webhook_id: String, secret: String|
                {
                    &&& ids::is_hex_text(webhook_id@, 32)
                    &&& ids::is_hex_text(secret@, 64)
                    &&& r == #[trigger] registered_record(
                        old(self).devices@,
                        registration,
                        webhook_id,
                        secret,
                    )
                    &&& final(self).devices@ == registered_devices(
                        old(self).devices@,
                        registration,
                        webhook_id,
                        secret,
                    )
                },
    {
        let webhook_id: String = new_webhook_id();
        let secret: String = new_secret();
        self.register_with(registration, webhook_id, secret)
    }

    /// All devices.
    pub fn all(&self) -> (r: Vec<MobileDeviceRecord>)
        ensures
            r@ == self.devices@,
    {
        copy_all(&self.devices)
    }

    /// The device with a webhook.
    pub fn get_by_webhook_id(&self, webhook_id: &str) -> (r: Option<MobileDeviceRecord>)
        ensures
            r == keyed::key_get(self.devices@, webhook_id@),
    {
        lookup(&self.devices, webhook_id)
    }

    /// Gives the device with a webhook another name. Says whether there is one.
    pub fn rename(&mut self, webhook_id: &str, name: String) -> (r: bool)
        ensures
            match keyed::key_pos(old(self).devices@, webhook_id@) {
                Some(i) => r && final(self).devices@ == old(self).devices@.update(
                    i,
                    MobileDeviceRecord { device_name: name, ..old(self).devices@[i] },
                ),
                None => !r && *final(self) == *old(self),
            },
    {
        match position(&self.devices, webhook_id) {
            Some(i) => {
                let mut next: MobileDeviceRecord = self.devices[i].clone();
                next.device_name = name;
                self.devices[i] = next;
                true
            },
            None => false,
        }
    }
}

/// A random webhook.
pub fn new_webhook_id() -> (r: String)
    ensures
        ids::is_hex_text(r@, 32),
{
    new_hex_id()
}

/// A random secret.
pub fn new_secret() -> (r: String)
    ensures
        ids::is_hex_text(r@, 64),
{
    new_long_hex_id()
}

} // verus!
