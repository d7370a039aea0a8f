//! The entities that phones and tablets provide.

use vstd::prelude::*;

use crate::keyed;
use crate::keyed::{position, Keyed};
use crate::order;
use crate::order::put_in_order;
use crate::state_store;
use crate::text;
use crate::text::{chars_of, concat, split_once_on, str_eq, string_of};

verus! {

/// What a device says of an entity when it registers it.
pub struct MobileEntityRegistration {
    pub webhook_id: String,
    /// `sensor` or `binary_sensor`.
    pub entity_type: String,
    pub sensor_unique_id: String,
    pub sensor_name: String,
    pub device_class: Option<String>,
    pub unit_of_measurement: Option<String>,
    pub icon: Option<String>,
    pub entity_category: Option<String>,
    pub state_class: Option<String>,
    pub disabled: bool,
}

/// An entity that a device has registered.
pub struct MobileEntityRecord {
    pub webhook_id: String,
    pub entity_type: String,
    pub sensor_unique_id: String,
    pub sensor_name: String,
    pub entity_id: String,
    pub device_class: Option<String>,
    pub unit_of_measurement: Option<String>,
    pub icon: Option<String>,
    pub entity_category: Option<String>,
    pub state_class: Option<String>,
    pub disabled: bool,
    /// The name that the user has given.
    pub name_by_user: Option<String>,
    /// The area that the user has assigned.
    pub user_area_id: Option<String>,
}

impl Clone for MobileEntityRecord {
    fn clone(&self) -> (r: Self)
        ensures
            r == *self,
    {
        MobileEntityRecord {
            webhook_id: self.webhook_id.clone(),
            entity_type: self.entity_type.clone(),
            sensor_unique_id: self.sensor_unique_id.clone(),
            sensor_name: self.sensor_name.clone(),
            entity_id: self.entity_id.clone(),
            device_class: self.device_class.clone(),
            unit_of_measurement: self.unit_of_measurement.clone(),
            icon: self.icon.clone(),
            entity_category: self.entity_category.clone(),
            state_class: self.state_class.clone(),
            disabled: self.disabled,
            name_by_user: self.name_by_user.clone(),
            user_area_id: self.user_area_id.clone(),
        }
    }
}

impl MobileEntityRecord {
    /// The name to show: the user's, or else the one that the device gives.
    pub open spec fn shown_name(&self) -> Seq<char> {
        match self.name_by_user {
            Some(name) => name@,
            None => self.sensor_name@,
        }
    }

    /// The name to show.
    pub fn display_name(&self) -> (r: &str)
        ensures
            r@ == self.shown_name(),
    {
        match &self.name_by_user {
            Some(name) => name.as_str(),
            None => self.sensor_name.as_str(),
        }
    }
}

/// An entity with the key under which it is stored.
pub struct MobileEntry {
    pub key: String,
    pub record: MobileEntityRecord,
}

impl Keyed for MobileEntry {
    open spec fn key(&self) -> Seq<char> {
        self.key@
    }

    fn key_str(&self) -> (r: &str) {
        self.key.as_str()
    }
}

/// Why an entity is not registered.
pub enum RegistrationError {
    EmptyWebhookId,
    EmptySensorUniqueId,
    EmptySensorName,
    UnsupportedEntityType(String),
}

impl RegistrationError {
    /// The error in words.
    pub open spec fn words(&self) -> Seq<char> {
        match *self {
            RegistrationError::EmptyWebhookId => "webhook_id must not be empty"@,
            RegistrationError::EmptySensorUniqueId => "sensor_unique_id must not be empty"@,
            RegistrationError::EmptySensorName => "sensor_name must not be empty"@,
            RegistrationError::UnsupportedEntityType(t) => "unsupported mobile entity type: "@ + t@,
        }
    }

    /// The error in words.
    pub fn message(&self) -> (r: String)
        ensures
            r@ == self.words(),
    {
        match self {
            RegistrationError::EmptyWebhookId => "webhook_id must not be empty".to_owned(),
            RegistrationError::EmptySensorUniqueId => {
                "sensor_unique_id must not be empty".to_owned()
            },
            RegistrationError::EmptySensorName => "sensor_name must not be empty".to_owned(),
            RegistrationError::UnsupportedEntityType(t) => concat(
                "unsupported mobile entity type: ",
                t.as_str(),
            ),
        }
    }
}

/// Whether devices can provide entities of a type.
pub open spec fn supported_type(t: Seq<char>) -> bool {
    t == "sensor"@ || t == "binary_sensor"@
}

/// What is wrong with a registration: the first of these that holds.
pub open spec fn registration_fault(reg: MobileEntityRegistration) -> Option<RegistrationError> {
    if reg.webhook_id@.len() == 0 {
        Some(RegistrationError::EmptyWebhookId)
    } else if reg.sensor_unique_id@.len() == 0 {
        Some(RegistrationError::EmptySensorUniqueId)
    } else if reg.sensor_name@.len() == 0 {
        Some(RegistrationError::EmptySensorName)
    } else if !supported_type(reg.entity_type@) {
        Some(RegistrationError::UnsupportedEntityType(reg.entity_type))
    } else {
        None
    }
}

/// Checks a registration.
pub fn validate_registration(registration: &MobileEntityRegistration) -> (r: Result<
    (),
    RegistrationError,
>)
    ensures
        match r {
            Ok(_) => registration_fault(*registration) is None,
            Err(e) => registration_fault(*registration) == Some(e),
        },
{
    if registration.webhook_id.as_str().is_empty() {
        return Err(RegistrationError::EmptyWebhookId);
    }
    if registration.sensor_unique_id.as_str().is_empty() {
        return Err(RegistrationError::EmptySensorUniqueId);
    }
    if registration.sensor_name.as_str().is_empty() {
        return Err(RegistrationError::EmptySensorName);
    }
    let t: &str = registration.entity_type.as_str();
    if !(str_eq(t, "sensor") || str_eq(t, "binary_sensor")) {
        return Err(RegistrationError::UnsupportedEntityType(registration.entity_type.clone()));
    }
    Ok(())
}

/// The key of an entity: its type, the webhook of the device and the id that the device uses.
pub open spec fn store_key_of(
    webhook_id: Seq<char>,
    entity_type: Seq<char>,
    sensor_unique_id: Seq<char>,
) -> Seq<char> {
    entity_type + ":"@ + webhook_id + ":"@ + sensor_unique_id
}

/// The key of an entity.
pub fn store_key(webhook_id: &str, entity_type: &str, sensor_unique_id: &str) -> (r: String)
    ensures
        r@ == store_key_of(webhook_id@, entity_type@, sensor_unique_id@),
{
    let a: String = concat(entity_type, ":");
    let b: String = concat(a.as_str(), webhook_id);
    let c: String = concat(b.as_str(), ":");
    concat(c.as_str(), sensor_unique_id)
}

proof fn lemma_split_key(head: Seq<char>, tail: Seq<char>)
    requires
        !head.contains(':'),
    ensures
        text::split_once(head + ":"@ + tail, ':') == Some((head, tail)),
{
    reveal_strlit(":");
    let s = head + ":"@ + tail;
    text::lemma_find_char(s, ':', 0);
    let p = text::find_char(s, ':', 0);
    assert(s[head.len() as int] == ':');
    if p < head.len() {
        assert(s[p] == head[p]);
        assert(head.contains(head[p]));
    }
    assert(p == head.len());
    assert(s.take(p) =~= head);
    assert(s.skip(p + 1) =~= tail);
}

/// Two keys are equal only where the entities are the same: of the same type, of the same device
/// and with the same id. Neither a type nor a webhook has a colon.
pub proof fn law_store_key(
    webhook1: Seq<char>,
    type1: Seq<char>,
    id1: Seq<char>,
    webhook2: Seq<char>,
    type2: Seq<char>,
    id2: Seq<char>,
)
    requires
        !webhook1.contains(':'),
        !type1.contains(':'),
        !webhook2.contains(':'),
        !type2.contains(':'),
    ensures
        store_key_of(webhook1, type1, id1) == store_key_of(webhook2, type2, id2) <==> (webhook1
            == webhook2 && type1 == type2 && id1 == id2),
{
    let rest1 = webhook1 + ":"@ + id1;
    let rest2 = webhook2 + ":"@ + id2;
    assert(store_key_of(webhook1, type1, id1) =~= type1 + ":"@ + rest1);
    assert(store_key_of(webhook2, type2, id2) =~= type2 + ":"@ + rest2);
    lemma_split_key(type1, rest1);
    lemma_split_key(type2, rest2);
    lemma_split_key(webhook1, id1);
    lemma_split_key(webhook2, id2);
}

/// A character in lower case, if it is an ASCII letter.
pub open spec fn ascii_lower(c: char) -> char {
    if 'A' <= c && c <= 'Z' {
        ((c as u8) + 32) as u8 as char
    } else {
        c
    }
}

/// Whether a character is a lower-case ASCII letter or a digit.
pub open spec fn lower_or_digit(c: char) -> bool {
    ('a' <= c && c <= 'z') || ('0' <= c && c <= '9')
}

/// A text with its ASCII letters in lower case, in which each run of characters that are neither
/// letters nor digits is one underscore. There is none at the start.
pub open spec fn joined_words(s: Seq<char>) -> Seq<char>
    decreases s.len(),
{
    if s.len() == 0 {
        s
    } else {
        let before = joined_words(s.drop_last());
        let c = ascii_lower(s.last());
        if lower_or_digit(c) {
            before.push(c)
        } else if before.len() > 0 && before.last() != '_' {
            before.push('_')
        } else {
            before
        }
    }
}

/// The object id that a text gives: its words, joined by underscores, or `entity`.
pub open spec fn object_id_of(s: Seq<char>) -> Seq<char> {
    let all = joined_words(s);
    let trimmed = if all.len() > 0 && all.last() == '_' {
        all.drop_last()
    } else {
        all
    };
    if trimmed.len() == 0 {
        "entity"@
    } else {
        trimmed
    }
}

/// A character in lower case, if it is an ASCII letter.
fn to_ascii_lower(c: char) -> (r: char)
    ensures
        r == ascii_lower(c),
{
    if 'A' <= c && c <= 'Z' {
        (c as u8 + 32) as char
    } else {
        c
    }
}

proof fn lemma_joined_words(s: Seq<char>)
    ensures
        ({
            let r = joined_words(s);
            &&& forall|i: int| 0 <= i < r.len() ==> state_store::is_id_char(#[trigger] r[i])
            &&& r.len() > 0 ==> r[0] != '_'
            &&& forall|i: int| 0 <= i && i + 1 < r.len() && #[trigger] r[i] == '_' ==> r[i + 1] != '_'
        }),
    decreases s.len(),
{
    if s.len() > 0 {
        lemma_joined_words(s.drop_last());
    }
}

/// An object id has letters, digits and single underscores only, none of them at an end.
pub proof fn law_object_id(s: Seq<char>)
    ensures
        state_store::is_slug(object_id_of(s)),
        !state_store::has_double_underscore(object_id_of(s)),
{
    lemma_joined_words(s);
    reveal_strlit("entity");
    let all = joined_words(s);
    if all.len() > 0 && all.last() == '_' && all.len() > 1 {
        assert(all[all.len() - 2] != '_') by {
            if all[all.len() - 2] == '_' {
                assert(all[all.len() - 2 + 1] != '_');
            }
        }
    }
}

/// The object id that a text gives.
pub fn sanitize_object_id(value: &str) -> (r: String)
    ensures
        r@ == object_id_of(value@),
{
    let cs: Vec<char> = chars_of(value);
    let mut out: Vec<char> = Vec::new();
    let mut i: usize = 0;
    while i < cs.len()
        invariant
            i <= cs.len(),
            out@ == joined_words(cs@.take(i as int)),
        decreases cs.len() - i,
    {
        assert(cs@.take(i + 1).drop_last() =~= cs@.take(i as int));
        assert(cs@.take(i + 1).last() == cs@[i as int]);
        let c: char = to_ascii_lower(cs[i]);
        if ('a' <= c && c <= 'z') || ('0' <= c && c <= '9') {
            out.push(c);
        } else if out.len() > 0 && out[out.len() - 1] != '_' {
            out.push('_');
        }
        i += 1;
    }
    assert(cs@.take(i as int) =~= cs@);
    if out.len() > 0 && out[out.len() - 1] == '_' {
        let ghost all = out@;
        let _ = out.pop();
        assert(out@ =~= all.drop_last());
    }
    if out.len() == 0 {
        "entity".to_owned()
    } else {
        string_of(out.as_slice())
    }
}

/// The entity id of a new entity, from its key.
pub open spec fn entity_id_of(key: Seq<char>) -> Seq<char> {
    match text::split_once(key, ':') {
        Some((entity_type, rest)) => entity_type + ".mobile_app_"@ + object_id_of(rest),
        None => Seq::empty(),
    }
}

/// The entity id of a new entity, from its key.
pub fn derive_entity_id(key: &str) -> (r: String)
    requires
        text::split_once(key@, ':') is Some,
    ensures
        r@ == entity_id_of(key@),
{
    match split_once_on(key, ':') {
        Some((entity_type, rest)) => {
            let head: String = concat(entity_type.as_str(), ".mobile_app_");
            let object_id: String = sanitize_object_id(rest.as_str());
            concat(head.as_str(), object_id.as_str())
        },
        None => String::new(),
    }
}

/// The entity id that a device's entity gets can name a state.
pub proof fn law_entity_id_valid(webhook_id: Seq<char>, entity_type: Seq<char>, unique: Seq<char>)
    requires
        supported_type(entity_type),
    ensures
        state_store::valid_entity_id(
            entity_id_of(store_key_of(webhook_id, entity_type, unique)),
        ),
{
    reveal_strlit("sensor");
    reveal_strlit("binary_sensor");
    reveal_strlit(".mobile_app_");
    assert(!entity_type.contains(':'));
    let rest = webhook_id + ":"@ + unique;
    let key = store_key_of(webhook_id, entity_type, unique);
    assert(key =~= entity_type + ":"@ + rest);
    lemma_split_key(entity_type, rest);
    let object_id = object_id_of(rest);
    law_object_id(rest);
    let id = entity_id_of(key);
    let n = entity_type.len() as int;
    assert(id == entity_type + ".mobile_app_"@ + object_id);
    assert(id[n] == '.');
    assert(id.take(n) =~= entity_type);
    let tail = id.skip(n + 1);
    assert(tail =~= ".mobile_app_"@.skip(1) + object_id);
    assert(tail.last() == object_id.last());
    assert forall|i: int| 0 <= i < tail.len() implies state_store::is_id_char(
        #[trigger] tail[i],
    ) by {
        if i >= 11 {
            assert(tail[i] == object_id[i - 11]);
        }
    }
    assert(state_store::is_slug(entity_type));
    assert forall|i: int| 0 <= i && i + 1 < id.len() && #[trigger] id[i] == '_' implies id[i + 1]
        != '_' by {
        if i >= n + 12 {
            assert(id[i] == object_id[i - n - 12]);
            assert(id[i + 1] == object_id[i - n - 12 + 1]);
            if id[i + 1] == '_' {
                assert(state_store::has_double_underscore(object_id));
            }
        } else if i + 1 < n + 12 {
            if i < n {
                assert(id[i] == entity_type[i]);
            } else {
                assert(id[i] == ".mobile_app_"@[i - n]);
                assert(id[i + 1] == ".mobile_app_"@[i - n + 1]);
            }
        } else {
            assert(id[i + 1] == object_id[0]);
        }
    }
}

/// The record that a registration gives: what the user has set, and the entity id, are kept.
pub open spec fn is_registered(
    r: MobileEntityRecord,
    s: Seq<MobileEntry>,
    reg: MobileEntityRegistration,
) -> bool {
    let key = store_key_of(reg.webhook_id@, reg.entity_type@, reg.sensor_unique_id@);
    &&& r.webhook_id == reg.webhook_id
    &&& r.entity_type == reg.entity_type
    &&& r.sensor_unique_id == reg.sensor_unique_id
    &&& r.sensor_name == reg.sensor_name
    &&& r.device_class == reg.device_class
    &&& r.unit_of_measurement == reg.unit_of_measurement
    &&& r.icon == reg.icon
    &&& r.entity_category == reg.entity_category
    &&& r.state_class == reg.state_class
    &&& r.disabled == reg.disabled
    &&& match keyed::key_get(s, key) {
        Some(e) => {
            &&& r.entity_id == e.record.entity_id
            &&& r.name_by_user == e.record.name_by_user
            &&& r.user_area_id == e.record.user_area_id
        },
        None => {
            &&& r.entity_id@ == entity_id_of(key)
            &&& r.name_by_user is None
            &&& r.user_area_id is None
        },
    }
}

/// A change of what a user can set of an entity. What is not given stays.
pub struct EntityMetaUpdate {
    pub name_by_user: Option<String>,
    pub user_area_id: Option<Option<String>>,
    pub unit_of_measurement: Option<Option<String>>,
    pub disabled: Option<bool>,
}

/// An entity after a change.
pub open spec fn updated_record(r: MobileEntityRecord, u: EntityMetaUpdate) -> MobileEntityRecord {
    MobileEntityRecord {
        name_by_user: match u.name_by_user {
            Some(v) => Some(v),
            None => r.name_by_user,
        },
        user_area_id: match u.user_area_id {
            Some(v) => v,
            None => r.user_area_id,
        },
        unit_of_measurement: match u.unit_of_measurement {
            Some(v) => v,
            None => r.unit_of_measurement,
        },
        disabled: match u.disabled {
            Some(v) => v,
            None => r.disabled,
        },
        ..r
    }
}

/// The records of entries.
pub open spec fn records(s: Seq<MobileEntry>) -> Seq<MobileEntityRecord> {
    Seq::new(s.len(), |i: int| s[i].record)
}

/// The first record at or after `i` with an entity id.
pub open spec fn entity_pos_from(s: Seq<MobileEntityRecord>, id: Seq<char>, i: int) -> Option<int>
    decreases s.len() - i,
{
    if i < 0 || i >= s.len() {
        None
    } else if s[i].entity_id@ == id {
        Some(i)
    } else {
        entity_pos_from(s, id, i + 1)
    }
}

/// The record with an entity id: the first one, if there are several.
pub open spec fn entity_get(s: Seq<MobileEntityRecord>, id: Seq<char>) -> Option<
    MobileEntityRecord,
> {
    match entity_pos_from(s, id, 0) {
        Some(i) => Some(s[i]),
        None => None,
    }
}

/// The key of a record.
pub open spec fn record_key(r: MobileEntityRecord) -> Seq<char> {
    store_key_of(r.webhook_id@, r.entity_type@, r.sensor_unique_id@)
}

/// Whether each entry stands under the key of its record, and is of a type that there is.
pub open spec fn keyed_by_record(s: Seq<MobileEntry>) -> bool {
    forall|i: int|
        0 <= i < s.len() ==> (#[trigger] s[i]).key@ == record_key(s[i].record) && supported_type(
            s[i].record.entity_type@,
        )
}

/// Whether a record is of a device, of a type and with an id.
pub open spec fn is_triple(
    r: MobileEntityRecord,
    webhook_id: Seq<char>,
    entity_type: Seq<char>,
    sensor_unique_id: Seq<char>,
) -> bool {
    r.webhook_id@ == webhook_id && r.entity_type@ == entity_type && r.sensor_unique_id@
        == sensor_unique_id
}

/// An entry under the key of its record keeps all entries so.
proof fn lemma_keyed_by_record(s: Seq<MobileEntry>, e: MobileEntry)
    requires
        keyed_by_record(s),
        e.key@ == record_key(e.record),
        supported_type(e.record.entity_type@),
    ensures
        keyed_by_record(order::with_in_order(s, e)),
{
    let t = order::with_in_order(s, e);
    keyed::lemma_key_pos(s, e.key());
    let p = order::slot_from(s, e.key(), 0);
    order::lemma_slot(s, e.key(), 0);
    assert forall|i: int| 0 <= i < t.len() implies (#[trigger] t[i]).key@ == record_key(
        t[i].record,
    ) && supported_type(t[i].record.entity_type@) by {
        match keyed::key_pos(s, e.key()) {
            Some(k) => {
                if i != k {
                    assert(t[i] == s[i]);
                }
            },
            None => {
                if i < p {
                    assert(t[i] == s[i]);
                } else if i > p {
                    assert(t[i] == s[i - 1]);
                }
            },
        }
    }
}

/// The entities that devices have registered, in the order of their keys.
pub struct MobileEntityStore {
    pub entities: Vec<MobileEntry>,
}

impl MobileEntityStore {
    /// The entries stand in the order of their keys, no two share one, and each has the key of its
    /// record and a type that there is.
    pub open spec fn wf(&self) -> bool {
        order::ascending(self.entities@) && keyed_by_record(self.entities@)
    }

    /// The entities, in the order of their keys.
    pub open spec fn all_records(&self) -> Seq<MobileEntityRecord> {
        records(self.entities@)
    }

    /// A store without entities.
    pub fn new() -> (r: Self)
        ensures
            r.wf(),
            r.entities@ == Seq::<MobileEntry>::empty(),
    {
        MobileEntityStore { entities: Vec::new() }
    }

    /// Registers an entity, or registers it anew.
    pub fn register(&mut self, registration: MobileEntityRegistration) -> (r: Result<
        MobileEntityRecord,
        RegistrationError,
    >)
        ensures
            match r {
                Ok(record) => {
                    &&& registration_fault(registration) is None
                    &&& is_registered(record, old(self).entities@, registration)
                    &&& exists|e: MobileEntry|
                        e.key@ == store_key_of(
                            registration.webhook_id@,
                            registration.entity_type@,
                            registration.sensor_unique_id@,
                        ) && e.record == record && final(self).entities@
                            == #[trigger] order::with_in_order(old(self).entities@, e)
                },
                Err(e) => {
                    &&& registration_fault(registration) == Some(e)
                    &&& *final(self) == *old(self)
                },
            },
            old(self).wf() ==> final(self).wf(),
    {
        if let Err(e) = validate_registration(&registration) {
            return Err(e);
        }
        let key: String = store_key(
            registration.webhook_id.as_str(),
            registration.entity_type.as_str(),
            registration.sensor_unique_id.as_str(),
        );
        proof {
            reveal_strlit("sensor");
            reveal_strlit("binary_sensor");
            let rest = registration.webhook_id@ + ":"@ + registration.sensor_unique_id@;
            assert(key@ =~= registration.entity_type@ + ":"@ + rest);
            assert(!registration.entity_type@.contains(':'));
            lemma_split_key(registration.entity_type@, rest);
        }
        let found: Option<usize> = position(&self.entities, key.as_str());
        let record: MobileEntityRecord = MobileEntityRecord {
            webhook_id: registration.webhook_id,
            entity_type: registration.entity_type,
            sensor_unique_id: registration.sensor_unique_id,
            sensor_name: registration.sensor_name,
            entity_id: match found {
                Some(i) => self.entities[i].record.entity_id.clone(),
                None => derive_entity_id(key.as_str()),
            },
            device_class: registration.device_class,
            unit_of_measurement: registration.unit_of_measurement,
            icon: registration.icon,
            entity_category: registration.entity_category,
            state_class: registration.state_class,
            disabled: registration.disabled,
            name_by_user: match found {
                Some(i) => self.entities[i].record.name_by_user.clone(),
                None => None,
            },
            user_area_id: match found {
                Some(i) => self.entities[i].record.user_area_id.clone(),
                None => None,
            },
        };
        let entry: MobileEntry = MobileEntry { key, record: record.clone() };
        let ghost stored = entry;
        proof {
            if self.wf() {
                order::lemma_with_in_order(self.entities@, entry);
                lemma_keyed_by_record(self.entities@, entry);
            }
        }
        put_in_order(&mut self.entities, entry);
        assert(self.entities@ == order::with_in_order(old(self).entities@, stored));
        Ok(record)
    }

    /// The entity with a type, a device and an id.
    pub fn get(&self, webhook_id: &str, entity_type: &str, sensor_unique_id: &str) -> (r: Option<
        MobileEntityRecord,
    >)
        ensures
            r == match keyed::key_get(
                self.entities@,
                store_key_of(webhook_id@, entity_type@, sensor_unique_id@),
            ) {
                Some(e) => Some(e.record),
                None => None,
            },
    {
        let key: String = store_key(webhook_id, entity_type, sensor_unique_id);
        match position(&self.entities, key.as_str()) {
            Some(i) => Some(self.entities[i].record.clone()),
            None => None,
        }
    }

    /// The entities of a device.
    pub fn list_by_webhook_id(&self, webhook_id: &str) -> (r: Vec<MobileEntityRecord>)
        ensures
            r@ == self.all_records().filter(|e: MobileEntityRecord| e.webhook_id@ == webhook_id@),
    {
        let ghost p = |e: MobileEntityRecord| e.webhook_id@ == webhook_id@;
        let ghost all = self.all_records();
        let mut out: Vec<MobileEntityRecord> = Vec::new();
        let mut i: usize = 0;
        proof {
            reveal(Seq::filter);
            assert(all.take(0) =~= Seq::empty());
        }
        while i < self.entities.len()
            invariant
                i <= self.entities@.len(),
                all == self.all_records(),
                p == (|e: MobileEntityRecord| e.webhook_id@ == webhook_id@),
                out@ == all.take(i as int).filter(p),
            decreases self.entities@.len() - i,
        {
            proof {
                reveal(Seq::filter);
                assert(all.take(i + 1).drop_last() =~= all.take(i as int));
                assert(all.take(i + 1).last() == self.entities@[i as int].record);
            }
            if str_eq(self.entities[i].record.webhook_id.as_str(), webhook_id) {
                out.push(self.entities[i].record.clone());
            }
            i += 1;
        }
        assert(all.take(i as int) =~= all);
        out
    }

    /// All entities.
    pub fn all(&self) -> (r: Vec<MobileEntityRecord>)
        ensures
            r@ == self.all_records(),
    {
        let mut out: Vec<MobileEntityRecord> = Vec::new();
        let mut i: usize = 0;
        while i < self.entities.len()
            invariant
                i <= self.entities@.len(),
                out@ == self.all_records().take(i as int),
            decreases self.entities@.len() - i,
        {
            out.push(self.entities[i].record.clone());
            i += 1;
            assert(self.all_records().take(i as int) =~= self.all_records().take(i - 1).push(
                self.entities@[i - 1].record,
            ));
        }
        assert(self.all_records().take(i as int) =~= self.all_records());
        out
    }

    fn entity_position(&self, entity_id: &str) -> (r: Option<usize>)
        ensures
            match r {
                Some(i) => i < self.entities@.len() && entity_pos_from(
                    self.all_records(),
                    entity_id@,
                    0,
                ) == Some(i as int),
                None => entity_pos_from(self.all_records(), entity_id@, 0) is None,
            },
    {
        let mut i: usize = 0;
        while i < self.entities.len()
            invariant
                i <= self.entities@.len(),
                entity_pos_from(self.all_records(), entity_id@, 0) == entity_pos_from(
                    self.all_records(),
                    entity_id@,
                    i as int,
                ),
            decreases self.entities@.len() - i,
        {
            if str_eq(self.entities[i].record.entity_id.as_str(), entity_id) {
                return Some(i);
            }
            i += 1;
        }
        None
    }

    /// The entity with an entity id.
    pub fn get_by_entity_id(&self, entity_id: &str) -> (r: Option<MobileEntityRecord>)
        ensures
            r == entity_get(self.all_records(), entity_id@),
    {
        match self.entity_position(entity_id) {
            Some(i) => Some(self.entities[i].record.clone()),
            None => None,
        }
    }

    /// Changes what a user can set of an entity. Gives the changed entity, if there is one.
    pub fn update_meta(&mut self, entity_id: &str, update: EntityMetaUpdate) -> (r: Option<
        MobileEntityRecord,
    >)
        ensures
            match entity_pos_from(old(self).all_records(), entity_id@, 0) {
                Some(i) => {
                    &&& r == Some(updated_record(old(self).entities@[i].record, update))
                    &&& final(self).entities@ == old(self).entities@.update(
                        i,
                        MobileEntry { key: old(self).entities@[i].key, record: r->0 },
                    )
                },
                None => r is None && *final(self) == *old(self),
            },
            old(self).wf() ==> final(self).wf(),
    {
        let i: usize = match self.entity_position(entity_id) {
            Some(i) => i,
            None => {
                return None;
            },
        };
        let mut record: MobileEntityRecord = self.entities[i].record.clone();
        if let Some(v) = update.name_by_user {
            record.name_by_user = Some(v);
        }
        if let Some(v) = update.user_area_id {
            record.user_area_id = v;
        }
        if let Some(v) = update.unit_of_measurement {
            record.unit_of_measurement = v;
        }
        if let Some(v) = update.disabled {
            record.disabled = v;
        }
        let key: String = self.entities[i].key.clone();
        self.entities[i] = MobileEntry { key, record: record.clone() };
        Some(record)
    }
}

/// The entries after some have been stored, one after the other.
pub open spec fn put_all(s: Seq<MobileEntry>, entries: Seq<MobileEntry>) -> Seq<MobileEntry>
    decreases entries.len(),
{
    if entries.len() == 0 {
        s
    } else {
        order::with_in_order(put_all(s, entries.drop_last()), entries.last())
    }
}

/// Whether an entry is the one that a registration gives.
pub open spec fn is_entry(e: MobileEntry, s: Seq<MobileEntry>, reg: MobileEntityRegistration) -> bool {
    &&& registration_fault(reg) is None
    &&& e.key@ == store_key_of(reg.webhook_id@, reg.entity_type@, reg.sensor_unique_id@)
    &&& is_registered(e.record, s, reg)
}

/// Whether entries are those that registrations give, one after the other, as far as they go.
pub open spec fn are_entries(
    s: Seq<MobileEntry>,
    regs: Seq<MobileEntityRegistration>,
    entries: Seq<MobileEntry>,
) -> bool {
    &&& entries.len() <= regs.len()
    &&& forall|k: int|
        0 <= k < entries.len() ==> is_entry(
            #[trigger] entries[k],
            put_all(s, entries.take(k)),
            regs[k],
        )
}

/// Whether registrations have been carried out, one after the other, up to the first that is
/// faulty.
pub open spec fn all_registered(
    before: Seq<MobileEntry>,
    after: Seq<MobileEntry>,
    regs: Seq<MobileEntityRegistration>,
    entries: Seq<MobileEntry>,
    r: Result<(), RegistrationError>,
) -> bool {
    &&& are_entries(before, regs, entries)
    &&& after == put_all(before, entries)
    &&& match r {
        Ok(_) => entries.len() == regs.len(),
        Err(e) => entries.len() < regs.len() && registration_fault(regs[entries.len() as int])
            == Some(e),
    }
}

/// Entries after entities have been assigned to an area, one after the other.
pub open spec fn assigned_to(
    s: Seq<MobileEntry>,
    ids: Seq<Seq<char>>,
    area: String,
) -> Seq<MobileEntry>
    decreases ids.len(),
{
    if ids.len() == 0 {
        s
    } else {
        let t = assigned_to(s, ids.drop_last(), area);
        match entity_pos_from(records(t), ids.last(), 0) {
            Some(i) => t.update(
                i,
                MobileEntry {
                    key: t[i].key,
                    record: MobileEntityRecord { user_area_id: Some(area), ..t[i].record },
                },
            ),
            None => t,
        }
    }
}

/// The entity ids of entries.
pub open spec fn entity_ids(s: Seq<MobileEntry>) -> Seq<Seq<char>> {
    Seq::new(s.len(), |i: int| s[i].record.entity_id@)
}

impl MobileEntityStore {
    /// Registers entities, one after the other, up to the first that is faulty.
    pub fn register_all(&mut self, regs: Vec<MobileEntityRegistration>) -> (r: Result<
        (),
        RegistrationError,
    >)
        ensures
            exists|entries: Seq<MobileEntry>| #[trigger]
                all_registered(old(self).entities@, final(self).entities@, regs@, entries, r),
            old(self).wf() ==> final(self).wf(),
    {
        let ghost all = regs@;
        let ghost before = self.entities@;
        let ghost mut entries: Seq<MobileEntry> = Seq::empty();
        for reg in it: regs
            invariant
                it.seq() == all,
                entries.len() == it.index(),
                before == old(self).entities@,
                are_entries(before, all, entries),
                self.entities@ == put_all(before, entries),
                old(self).wf() ==> self.wf(),
        {
            let ghost i = it.index() as int;
            let ghost reg0 = reg;
            let ghost s0 = self.entities@;
            match self.register(reg) {
                Ok(record) => {
                    proof {
                        let e = choose|e: MobileEntry|
                            e.key@ == store_key_of(
                                reg0.webhook_id@,
                                reg0.entity_type@,
                                reg0.sensor_unique_id@,
                            ) && e.record == record && self.entities@
                                == #[trigger] order::with_in_order(s0, e);
                        let more = entries.push(e);
                        assert(more.drop_last() =~= entries);
                        assert forall|k: int| 0 <= k < more.len() implies is_entry(
                            #[trigger] more[k],
                            put_all(before, more.take(k)),
                            all[k],
                        ) by {
                            if k < entries.len() {
                                assert(more.take(k) =~= entries.take(k));
                                assert(is_entry(
                                    entries[k],
                                    put_all(before, entries.take(k)),
                                    all[k],
                                ));
                            } else {
                                assert(more.take(k) =~= entries);
                            }
                        }
                        entries = more;
                    }
                },
                Err(e) => {
                    proof {
                        assert(all_registered(
                            before,
                            self.entities@,
                            all,
                            entries,
                            Err::<(), RegistrationError>(e),
                        ));
                    }
                    return Err(e);
                },
            }
        }
        assert(all_registered(
            before,
            self.entities@,
            all,
            entries,
            Ok::<(), RegistrationError>(()),
        ));
        Ok(())
    }

    /// Assigns all entities to an area.
    pub fn assign_all(&mut self, area_id: &String)
        ensures
            final(self).entities@ == assigned_to(
                old(self).entities@,
                entity_ids(old(self).entities@),
                *area_id,
            ),
            old(self).wf() ==> final(self).wf(),
    {
        let ghost before = self.entities@;
        let ghost ids = entity_ids(before);
        let all: Vec<MobileEntityRecord> = self.all();
        let mut i: usize = 0;
        assert(ids.take(0) =~= Seq::empty());
        while i < all.len()
            invariant
                i <= all@.len(),
                all@ == records(before),
                ids == entity_ids(before),
                before == old(self).entities@,
                self.entities@ == assigned_to(before, ids.take(i as int), *area_id),
                old(self).wf() ==> self.wf(),
            decreases all@.len() - i,
        {
            proof {
                assert(ids.take(i + 1).drop_last() =~= ids.take(i as int));
                assert(ids.take(i + 1).last() == all@[i as int].entity_id@);
            }
            let _ = self.update_meta(
                all[i].entity_id.as_str(),
                EntityMetaUpdate {
                    name_by_user: None,
                    user_area_id: Some(Some(area_id.clone())),
                    unit_of_measurement: None,
                    disabled: None,
                },
            );
            i += 1;
        }
        assert(ids.take(i as int) =~= ids);
    }
}

/// An entity that is registered again is one entity and keeps its entity id and what the user has
/// set; the other entities are untouched.
pub proof fn law_registered_again(
    s: Seq<MobileEntry>,
    reg: MobileEntityRegistration,
    e: MobileEntry,
    other: Seq<char>,
)
    requires
        order::ascending(s),
        e.key@ == store_key_of(reg.webhook_id@, reg.entity_type@, reg.sensor_unique_id@),
        is_registered(e.record, s, reg),
    ensures
        ({
            let t = order::with_in_order(s, e);
            &&& keyed::key_get(t, e.key@) == Some(e)
            &&& other != e.key@ ==> keyed::key_get(t, other) == keyed::key_get(s, other)
            &&& order::ascending(t)
            &&& keyed::key_get(s, e.key@) matches Some(before) ==> {
                &&& t.len() == s.len()
                &&& e.record.entity_id == before.record.entity_id
                &&& e.record.name_by_user == before.record.name_by_user
                &&& e.record.user_area_id == before.record.user_area_id
            }
        }),
{
    order::lemma_with_in_order(s, e);
    assert(e.key() == e.key@);
    keyed::lemma_key_pos(s, e.key());
}

/// A type that there is has no colon.
proof fn lemma_type_plain(entity_type: Seq<char>)
    requires
        supported_type(entity_type),
    ensures
        !entity_type.contains(':'),
{
    reveal_strlit("sensor");
    reveal_strlit("binary_sensor");
}

/// After a registration exactly one entity is of the device and the type and has the id that were
/// registered, with the new record. Every entity that differs in one of these stays as it was,
/// where no webhook has a colon.
pub proof fn law_registered_once(
    before: MobileEntityStore,
    reg: MobileEntityRegistration,
    e: MobileEntry,
)
    requires
        before.wf(),
        registration_fault(reg) is None,
        e.key@ == store_key_of(reg.webhook_id@, reg.entity_type@, reg.sensor_unique_id@),
        is_registered(e.record, before.entities@, reg),
        !reg.webhook_id@.contains(':'),
        forall|i: int|
            0 <= i < before.entities@.len() ==> !(#[trigger] before.entities@[i]).record.webhook_id@.contains(
                ':',
            ),
    ensures
        ({
            let s = before.entities@;
            let t = order::with_in_order(s, e);
            &&& exists|i: int| 0 <= i < t.len() && #[trigger] t[i] == e
            &&& forall|i: int, j: int|
                0 <= i < t.len() && 0 <= j < t.len() && is_triple(
                    (#[trigger] t[i]).record,
                    reg.webhook_id@,
                    reg.entity_type@,
                    reg.sensor_unique_id@,
                ) && is_triple(
                    (#[trigger] t[j]).record,
                    reg.webhook_id@,
                    reg.entity_type@,
                    reg.sensor_unique_id@,
                ) ==> i == j
            &&& forall|i: int|
                0 <= i < s.len() && !is_triple(
                    (#[trigger] s[i]).record,
                    reg.webhook_id@,
                    reg.entity_type@,
                    reg.sensor_unique_id@,
                ) ==> keyed::key_get(t, s[i].key@) == Some(s[i])
            &&& is_triple(
                e.record,
                reg.webhook_id@,
                reg.entity_type@,
                reg.sensor_unique_id@,
            )
        }),
{
    let s = before.entities@;
    let t = order::with_in_order(s, e);
    order::lemma_with_in_order(s, e);
    lemma_type_plain(reg.entity_type@);
    lemma_keyed_by_record(s, e);
    order::lemma_ascending_distinct(s);
    order::lemma_ascending_distinct(t);
    keyed::lemma_key_pos(t, e.key());
    assert(t[keyed::key_pos(t, e.key())->0] == e);
    assert forall|i: int, j: int|
        0 <= i < t.len() && 0 <= j < t.len() && is_triple(
            (#[trigger] t[i]).record,
            reg.webhook_id@,
            reg.entity_type@,
            reg.sensor_unique_id@,
        ) && is_triple(
            (#[trigger] t[j]).record,
            reg.webhook_id@,
            reg.entity_type@,
            reg.sensor_unique_id@,
        ) implies i == j by {
        assert(t[i].key() == t[j].key());
        if i < j {
            assert(t[i].key() != t[j].key());
        } else if j < i {
            assert(t[j].key() != t[i].key());
        }
    }
    assert forall|i: int|
        0 <= i < s.len() && !is_triple(
            (#[trigger] s[i]).record,
            reg.webhook_id@,
            reg.entity_type@,
            reg.sensor_unique_id@,
        ) implies keyed::key_get(t, s[i].key@) == Some(s[i]) by {
        let r = s[i].record;
        lemma_type_plain(r.entity_type@);
        law_store_key(
            r.webhook_id@,
            r.entity_type@,
            r.sensor_unique_id@,
            reg.webhook_id@,
            reg.entity_type@,
            reg.sensor_unique_id@,
        );
        assert(s[i].key() != e.key());
        keyed::lemma_key_pos_is(s, s[i].key(), i);
        assert(keyed::key_get(s, s[i].key()) == Some(s[i]));
    }
}

} // verus!
