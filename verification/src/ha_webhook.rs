//! Messages that devices post to their webhooks.

use vstd::prelude::*;

use crate::app_core;
use crate::ha_auth;
use crate::ha_auth::message_reply;
use crate::ids;
use crate::json;
use crate::json::{
    copy_json, copy_members, empty_object, empty_array, put_member, to_text, Json, JsonView, Members,
    ObjectBuilder,
};
use crate::keyed;
use crate::keyed::{position, Keyed};
use crate::mobile_device_store::MobileDeviceRecord;
use crate::mobile_entity_store;
use crate::mobile_entity_store::{
    MobileEntityRecord, MobileEntityRegistration, MobileEntityStore, MobileEntry,
};
use crate::order;
use crate::state_store;
use crate::state_store::{
    make_state, ContextView, State, StateAttributes, StateEvent, StateRun, StateStore, StateView,
};
use crate::storage::OnboardingState;
use crate::text;
use crate::text::{concat, contains_text, str_eq};
use crate::web::{Reply, ReplyView};
use crate::zone_store;
use crate::zone_store::{home_zone_state, zone_to_state, StoredZone};

verus! {

/// The messages that have been posted to a webhook.
pub struct Received {
    pub webhook_id: String,
    pub payloads: Vec<Json>,
}

impl Keyed for Received {
    open spec fn key(&self) -> Seq<char> {
        self.webhook_id@
    }

    fn key_str(&self) -> (r: &str) {
        self.webhook_id.as_str()
    }
}

/// The webhooks that are known, and what has been posted to them.
pub struct WebhookStore {
    pub known: Vec<String>,
    pub received: Vec<Received>,
}

impl WebhookStore {
    /// Whether a webhook is known.
    pub open spec fn knows(&self, webhook_id: Seq<char>) -> bool {
        exists|i: int| 0 <= i < self.known@.len() && (#[trigger] self.known@[i])@ == webhook_id
    }

    /// What has been posted to a webhook, oldest first.
    pub open spec fn posted(&self, webhook_id: Seq<char>) -> Seq<JsonView> {
        match keyed::key_get(self.received@, webhook_id) {
            Some(r) => json::items_view(r.payloads@),
            None => Seq::empty(),
        }
    }

    /// No webhook is known.
    pub fn new() -> (r: Self)
        ensures
            forall|id: Seq<char>| !(#[trigger] r.knows(id)),
            forall|id: Seq<char>| #[trigger] r.posted(id) == Seq::<JsonView>::empty(),
    {
        WebhookStore { known: Vec::new(), received: Vec::new() }
    }

    /// Whether a webhook is known.
    pub fn is_registered(&self, webhook_id: &str) -> (r: bool)
        ensures
            r == self.knows(webhook_id@),
    {
        let mut i: usize = 0;
        while i < self.known.len()
            invariant
                i <= self.known.len(),
                forall|k: int| 0 <= k < i ==> (#[trigger] self.known@[k])@ != webhook_id@,
            decreases self.known.len() - i,
        {
            if str_eq(self.known[i].as_str(), webhook_id) {
                return true;
            }
            i += 1;
        }
        false
    }

    /// Makes a webhook known.
    pub fn remember(&mut self, webhook_id: String)
        ensures
            forall|id: Seq<char>| #[trigger]
                final(self).knows(id) <==> (old(self).knows(id) || id == webhook_id@),
            final(self).received == old(self).received,
    {
        if self.is_registered(webhook_id.as_str()) {
            return ;
        }
        let ghost before = *self;
        let ghost added = webhook_id@;
        self.known.push(webhook_id);
        proof {
            assert forall|id: Seq<char>| #[trigger] self.knows(id) <==> (before.knows(id) || id
                == added) by {
                if before.knows(id) {
                    let i = choose|i: int|
                        0 <= i < before.known@.len() && (#[trigger] before.known@[i])@ == id;
                    assert(self.known@[i]@ == id);
                }
                if id == added {
                    assert(self.known@[before.known@.len() as int]@ == id);
                }
                if self.knows(id) && id != added {
                    let i = choose|i: int|
                        0 <= i < self.known@.len() && (#[trigger] self.known@[i])@ == id;
                    assert(before.known@[i]@ == id);
                }
            }
        }
    }

    /// Makes a webhook known.
    pub fn register(&mut self, webhook_id: String)
        ensures
            forall|id: Seq<char>| #[trigger]
                final(self).knows(id) <==> (old(self).knows(id) || id == webhook_id@),
            final(self).received == old(self).received,
    {
        self.remember(webhook_id)
    }

    /// Keeps what has been posted to a webhook.
    pub fn store_payload(&mut self, webhook_id: &str, payload: Json)
        ensures
            final(self).known == old(self).known,
            final(self).posted(webhook_id@) == old(self).posted(webhook_id@).push(payload@),
            forall|id: Seq<char>|
                id != webhook_id@ ==> #[trigger] final(self).posted(id) == old(self).posted(id),
    {
        let ghost before = self.received@;
        let mut slot: Received = Received { webhook_id: webhook_id.to_owned(), payloads: Vec::new() };
        let found: Option<usize> = position(&self.received, webhook_id);
        if let Some(i) = found {
            std::mem::swap(&mut self.received[i], &mut slot);
        }
        let ghost earlier = slot.payloads@;
        slot.payloads.push(payload);
        assert(slot.payloads@.drop_last() =~= earlier);
        assert(json::items_view(slot.payloads@) == json::items_view(earlier).push(payload@));
        let ghost stored = slot;
        match found {
            Some(i) => {
                self.received[i] = slot;
            },
            None => {
                self.received.push(slot);
            },
        }
        proof {
            assert(self.received@ =~= keyed::with(before, stored));
            keyed::lemma_put(before, stored);
            assert forall|id: Seq<char>| id != webhook_id@ implies #[trigger] self.posted(id)
                == old(self).posted(id) by {
                assert(keyed::key_get(self.received@, id) == keyed::key_get(before, id));
            }
        }
    }
}

/// What a device says of one of its sensors.
pub struct SensorCommand {
    pub entity_type: String,
    pub unique_id: String,
    pub name: String,
    pub state: Option<Json>,
    pub attributes: Vec<(String, Json)>,
    pub device_class: Option<String>,
    pub unit_of_measurement: Option<String>,
    pub icon: Option<String>,
    pub entity_category: Option<String>,
    pub state_class: Option<String>,
    pub disabled: bool,
}

/// The mathematical value of a [`SensorCommand`].
pub struct SensorModel {
    pub entity_type: Seq<char>,
    pub unique_id: Seq<char>,
    pub name: Seq<char>,
    pub state: Option<JsonView>,
    pub attributes: Members,
    pub device_class: Option<Seq<char>>,
    pub unit_of_measurement: Option<Seq<char>>,
    pub icon: Option<Seq<char>>,
    pub entity_category: Option<Seq<char>>,
    pub state_class: Option<Seq<char>>,
    pub disabled: bool,
}

impl View for SensorCommand {
    type V = SensorModel;

    open spec fn view(&self) -> SensorModel {
        SensorModel {
            entity_type: self.entity_type@,
            unique_id: self.unique_id@,
            name: self.name@,
            state: match self.state {
                Some(j) => Some(j@),
                None => None,
            },
            attributes: json::members_view(self.attributes@),
            device_class: self.device_class.deep_view(),
            unit_of_measurement: self.unit_of_measurement.deep_view(),
            icon: self.icon.deep_view(),
            entity_category: self.entity_category.deep_view(),
            state_class: self.state_class.deep_view(),
            disabled: self.disabled,
        }
    }
}

/// A member that is a string, or null, or missing; nothing if it is anything else.
pub open spec fn nullable(j: Option<JsonView>) -> Option<Option<Seq<char>>> {
    match j {
        None => Some(None),
        Some(JsonView::Null) => Some(None),
        Some(JsonView::Str(s)) => Some(Some(s)),
        Some(_) => None,
    }
}

/// The name in a sensor message: the one given, unless it is empty; where none is given and none
/// is required, the id.
pub open spec fn sensor_name(j: JsonView, unique_id: Seq<char>, require_name: bool) -> Option<
    Seq<char>,
> {
    match j.str_field("name"@) {
        Some(n) => if n.len() > 0 {
            Some(n)
        } else {
            None
        },
        None => if require_name {
            None
        } else {
            Some(unique_id)
        },
    }
}

/// The icon in a sensor message: that of a phone, where none is given.
pub open spec fn sensor_icon(j: JsonView) -> Option<Seq<char>> {
    match nullable(j.field("icon"@)) {
        Some(Some(s)) => Some(s),
        Some(None) => Some("mdi:cellphone"@),
        None => None,
    }
}

/// The sensor that a message speaks of, if it is well formed.
pub open spec fn parsed_sensor(j: JsonView, require_name: bool) -> Option<SensorModel> {
    match (j.str_field("type"@), j.str_field("unique_id"@)) {
        (Some(entity_type), Some(unique_id)) => {
            let state_class = nullable(j.field("state_class"@));
            let device_class = nullable(j.field("device_class"@));
            let unit = nullable(j.field("unit_of_measurement"@));
            let category = nullable(j.field("entity_category"@));
            let name = sensor_name(j, unique_id, require_name);
            let icon = sensor_icon(j);
            if mobile_entity_store::supported_type(entity_type) && unique_id.len() > 0
                && name is Some && state_class is Some && (entity_type == "sensor"@
                || state_class->0 is None) && device_class is Some && unit is Some && icon is Some
                && category is Some {
                Some(
                    SensorModel {
                        entity_type,
                        unique_id,
                        name: name->0,
                        state: j.field("state"@),
                        attributes: match j.field("attributes"@) {
                            Some(JsonView::Object(m)) => m,
                            _ => json::no_members(),
                        },
                        device_class: device_class->0,
                        unit_of_measurement: unit->0,
                        icon,
                        entity_category: category->0,
                        state_class: state_class->0,
                        disabled: match j.field("disabled"@) {
                            Some(JsonView::Bool(b)) => b,
                            _ => false,
                        },
                    },
                )
            } else {
                None
            }
        },
        _ => None,
    }
}

/// A member that is a string, or null, or missing; nothing if it is anything else.
pub fn nullable_string(value: Option<&Json>) -> (r: Option<Option<String>>)
    ensures
        r.deep_view() == nullable(
            match value {
                Some(j) => Some(j@),
                None => None,
            },
        ),
{
    match value {
        None => Some(None),
        Some(j) => match j {
            Json::Null => Some(None),
            Json::Str(s) => Some(Some(s.clone())),
            _ => None,
        },
    }
}

/// The sensor that a message speaks of, if it is well formed.
pub fn parse_sensor_command(value: &Json, require_name: bool) -> (r: Option<SensorCommand>)
    ensures
        match r {
            Some(c) => parsed_sensor(value@, require_name) == Some(c@),
            None => parsed_sensor(value@, require_name) is None,
        },
{
    let entity_type: String = match value.get_str("type") {
        Some(t) => t.to_owned(),
        None => {
            return None;
        },
    };
    let is_sensor: bool = str_eq(entity_type.as_str(), "sensor");
    if !is_sensor && !str_eq(entity_type.as_str(), "binary_sensor") {
        return None;
    }
    let unique_id: String = match value.get_str("unique_id") {
        Some(t) => t.to_owned(),
        None => {
            return None;
        },
    };
    if unique_id.as_str().is_empty() {
        return None;
    }
    let name: String = match value.get_str("name") {
        Some(n) => {
            if n.is_empty() {
                return None;
            }
            n.to_owned()
        },
        None => {
            if require_name {
                return None;
            }
            unique_id.clone()
        },
    };
    let state_class: Option<String> = match nullable_string(value.get("state_class")) {
        Some(s) => s,
        None => {
            return None;
        },
    };
    if !is_sensor && state_class.is_some() {
        return None;
    }
    let attributes: Vec<(String, Json)> = match value.get("attributes") {
        Some(j) => match j {
            Json::Object(m) => copy_members(m),
            _ => Vec::new(),
        },
        None => Vec::new(),
    };
    let device_class: Option<String> = match nullable_string(value.get("device_class")) {
        Some(s) => s,
        None => {
            return None;
        },
    };
    let unit_of_measurement: Option<String> = match nullable_string(
        value.get("unit_of_measurement"),
    ) {
        Some(s) => s,
        None => {
            return None;
        },
    };
    let icon: Option<String> = match nullable_string(value.get("icon")) {
        Some(Some(s)) => Some(s),
        Some(None) => Some("mdi:cellphone".to_owned()),
        None => {
            return None;
        },
    };
    let entity_category: Option<String> = match nullable_string(value.get("entity_category")) {
        Some(s) => s,
        None => {
            return None;
        },
    };
    let disabled: bool = match value.get("disabled") {
        Some(j) => match j.as_bool() {
            Some(b) => b,
            None => false,
        },
        None => false,
    };
    let state: Option<Json> = match value.get("state") {
        Some(j) => Some(copy_json(j)),
        None => None,
    };
    Some(
        SensorCommand {
            entity_type,
            unique_id,
            name,
            state,
            attributes,
            device_class,
            unit_of_measurement,
            icon,
            entity_category,
            state_class,
            disabled,
        },
    )
}

/// Whether readings of a sensor are kept: it has a state class or a unit.
pub open spec fn numeric(record: MobileEntityRecord) -> bool {
    record.state_class is Some || record.unit_of_measurement is Some
}

/// Whether readings of a sensor are kept.
pub fn is_numeric_sensor(record: &MobileEntityRecord) -> (r: bool)
    ensures
        r == numeric(*record),
{
    record.state_class.is_some() || record.unit_of_measurement.is_some()
}

/// Members with one more, if there is a value for it.
pub open spec fn with_opt(s: Members, name: Seq<char>, value: Option<Seq<char>>) -> Members {
    match value {
        Some(v) => json::with_member(s, name, JsonView::Str(v)),
        None => s,
    }
}

/// The first of two optional texts that is there.
pub open spec fn first_of(a: Option<Seq<char>>, b: Option<Seq<char>>) -> Option<Seq<char>> {
    match a {
        Some(v) => Some(v),
        None => b,
    }
}

/// The attributes that a sensor message gives to an entity: those in the message, the name, and
/// what the message, or else the registration, says of the sensor.
pub open spec fn sensor_attributes(c: SensorModel, record: MobileEntityRecord) -> Members {
    let a = json::with_member(c.attributes, "friendly_name"@, JsonView::Str(c.name));
    let a = with_opt(a, "device_class"@, first_of(c.device_class, record.device_class.deep_view()));
    let a = with_opt(
        a,
        "unit_of_measurement"@,
        first_of(c.unit_of_measurement, record.unit_of_measurement.deep_view()),
    );
    let a = with_opt(a, "icon"@, first_of(c.icon, record.icon.deep_view()));
    let a = with_opt(
        a,
        "entity_category"@,
        first_of(c.entity_category, record.entity_category.deep_view()),
    );
    with_opt(a, "state_class"@, first_of(c.state_class, record.state_class.deep_view()))
}

/// The value that a sensor message gives to an entity of a type, or what is wrong with it.
pub open spec fn sensor_value(entity_type: Seq<char>, state: Option<JsonView>) -> Result<
    Seq<char>,
    Seq<char>,
> {
    match state {
        None | Some(JsonView::Null) => Ok("unknown"@),
        Some(JsonView::Bool(b)) => Ok(
            if entity_type == "binary_sensor"@ {
                if b {
                    "on"@
                } else {
                    "off"@
                }
            } else {
                json::json_text(JsonView::Bool(b))
            },
        ),
        Some(JsonView::Str(s)) => Ok(s),
        Some(JsonView::Array(a)) => Err(
            "unsupported sensor state payload: "@ + json::json_text(JsonView::Array(a)),
        ),
        Some(JsonView::Object(m)) => Err(
            "unsupported sensor state payload: "@ + json::json_text(JsonView::Object(m)),
        ),
        Some(n) => Ok(json::json_text(n)),
    }
}

/// The value that a sensor message gives to an entity of a type, or what is wrong with it.
pub fn sensor_state_value(entity_type: &str, state: &Option<Json>) -> (r: Result<String, String>)
    ensures
        match r {
            Ok(v) => sensor_value(
                entity_type@,
                match *state {
                    Some(j) => Some(j@),
                    None => None,
                },
            ) == Ok::<Seq<char>, Seq<char>>(v@),
            Err(e) => sensor_value(
                entity_type@,
                match *state {
                    Some(j) => Some(j@),
                    None => None,
                },
            ) == Err::<Seq<char>, Seq<char>>(e@),
        },
{
    match state {
        None => Ok("unknown".to_owned()),
        Some(j) => match j {
            Json::Null => Ok("unknown".to_owned()),
            Json::Bool(b) => if str_eq(entity_type, "binary_sensor") {
                if *b {
                    Ok("on".to_owned())
                } else {
                    Ok("off".to_owned())
                }
            } else {
                Ok(to_text(j))
            },
            Json::Str(s) => Ok(s.clone()),
            Json::Array(_) | Json::Object(_) => Err(
                concat("unsupported sensor state payload: ", to_text(j).as_str()),
            ),
            Json::PosInt(_) | Json::NegInt(_) | Json::Float(_) => Ok(to_text(j)),
        },
    }
}

/// When and in what context a state was made.
pub struct Stamp {
    pub context: ContextView,
    pub timestamp: Seq<char>,
}

/// Whether a stamp is one of the present: a point in time, and a context of its own.
pub open spec fn is_stamp(s: Stamp) -> bool {
    &&& state_store::is_timestamp(s.timestamp)
    &&& ids::is_hex_text(s.context.id, 32)
    &&& s.context.parent_id is None
    &&& s.context.user_id is None
}

/// The state that a sensor message gives to an entity.
pub open spec fn sensor_state(
    c: SensorModel,
    record: MobileEntityRecord,
    value: Seq<char>,
    stamp: Stamp,
) -> StateView {
    state_store::state_at(
        record.entity_id@,
        value,
        sensor_attributes(c, record),
        stamp.context,
        stamp.timestamp,
    )
}

/// Why a state cannot be stored.
pub open spec fn refusal(s: StateView) -> Seq<char> {
    if !state_store::valid_entity_id(s.entity_id) {
        "Invalid entity ID: "@ + s.entity_id
    } else {
        "State value exceeds maximum length of 255"@
    }
}

/// The states after a sensor message, and what is wrong with it, if anything.
pub open spec fn sensor_applied(
    run: StateRun,
    c: SensorModel,
    record: MobileEntityRecord,
    stamp: Stamp,
) -> (StateRun, Result<Seq<char>, Seq<char>>) {
    match sensor_value(record.entity_type@, c.state) {
        Err(e) => (run, Err(e)),
        Ok(value) => {
            let s = sensor_state(c, record, value, stamp);
            if state_store::storable(s) {
                (run.offer(s), Ok(value))
            } else {
                (run, Err(refusal(s)))
            }
        },
    }
}

/// The view of a result.
pub open spec fn result_view(r: Result<String, String>) -> Result<Seq<char>, Seq<char>> {
    match r {
        Ok(v) => Ok(v@),
        Err(e) => Err(e@),
    }
}

fn put_opt(members: &mut Vec<(String, Json)>, name: &str, a: &Option<String>, b: &Option<String>)
    ensures
        json::members_view(final(members)@) == with_opt(
            json::members_view(old(members)@),
            name@,
            first_of(a.deep_view(), b.deep_view()),
        ),
{
    match a {
        Some(v) => {
            put_member(members, name, Json::str(v.as_str()));
        },
        None => match b {
            Some(v) => {
                put_member(members, name, Json::str(v.as_str()));
            },
            None => {},
        },
    }
}

/// Gives an entity the state that a sensor message asks for. Returns the value, or what is wrong.
pub fn apply_sensor_state(
    states: &mut StateStore,
    events: &mut Vec<StateEvent>,
    record: &MobileEntityRecord,
    command: &SensorCommand,
) -> (r: Result<String, String>)
    ensures
        exists|stamp: Stamp|
            is_stamp(stamp) && (state_store::run_of(*final(states), final(events)@), result_view(r))
                == #[trigger] sensor_applied(
                state_store::run_of(*old(states), old(events)@),
                command@,
                *record,
                stamp,
            ),
        old(states).wf() ==> final(states).wf(),
{
    let mut attributes: Vec<(String, Json)> = copy_members(&command.attributes);
    put_member(&mut attributes, "friendly_name", Json::str(command.name.as_str()));
    put_opt(&mut attributes, "device_class", &command.device_class, &record.device_class);
    put_opt(
        &mut attributes,
        "unit_of_measurement",
        &command.unit_of_measurement,
        &record.unit_of_measurement,
    );
    put_opt(&mut attributes, "icon", &command.icon, &record.icon);
    put_opt(&mut attributes, "entity_category", &command.entity_category, &record.entity_category);
    put_opt(&mut attributes, "state_class", &command.state_class, &record.state_class);
    assert(json::members_view(attributes@) == sensor_attributes(command@, *record));
    let value: Result<String, String> = sensor_state_value(
        record.entity_type.as_str(),
        &command.state,
    );
    let text: &str = match &value {
        Ok(v) => v.as_str(),
        Err(_) => "",
    };
    let state: State = make_state(
        record.entity_id.as_str(),
        text,
        StateAttributes { members: attributes },
    );
    let ghost stamp = Stamp { context: state@.context, timestamp: state@.last_updated };
    let ghost before = state_store::run_of(*states, events@);
    let ghost made = state@;
    assert(is_stamp(stamp));
    let r: Result<String, String> = match value {
        Err(e) => Err(e),
        Ok(v) => {
            assert(made == sensor_state(command@, *record, v@, stamp));
            match states.set(state) {
                Ok(event) => {
                    let ghost earlier = events@;
                    events.push(event);
                    assert(state_store::events_model(events@) =~= state_store::events_model(
                        earlier,
                    ).push(event@));
                    Ok(v)
                },
                Err(e) => Err(e.message()),
            }
        },
    };
    assert((state_store::run_of(*states, events@), result_view(r)) == sensor_applied(
        before,
        command@,
        *record,
        stamp,
    ));
    r
}

/// Readings as mathematical values: an entity and the text of its state.
pub open spec fn readings_view(s: Seq<(String, String)>) -> Seq<(Seq<char>, Seq<char>)> {
    Seq::new(s.len(), |i: int| (s[i].0@, s[i].1@))
}

/// Readings after one more, if readings of the sensor are kept.
pub open spec fn with_reading(
    readings: Seq<(Seq<char>, Seq<char>)>,
    record: MobileEntityRecord,
    value: Seq<char>,
) -> Seq<(Seq<char>, Seq<char>)> {
    if numeric(record) {
        readings.push((record.entity_id@, value))
    } else {
        readings
    }
}

fn note_reading(readings: &mut Vec<(String, String)>, record: &MobileEntityRecord, value: String)
    ensures
        readings_view(final(readings)@) == with_reading(
            readings_view(old(readings)@),
            *record,
            value@,
        ),
{
    if is_numeric_sensor(record) {
        let ghost before = readings@;
        let ghost v = value@;
        readings.push((record.entity_id.clone(), value));
        assert(readings_view(readings@) =~= readings_view(before).push((record.entity_id@, v)));
    }
}

/// The registration that a sensor message of a device asks for.
pub open spec fn asks_for(
    reg: MobileEntityRegistration,
    webhook_id: Seq<char>,
    c: SensorModel,
) -> bool {
    &&& reg.webhook_id@ == webhook_id
    &&& reg.entity_type@ == c.entity_type
    &&& reg.sensor_unique_id@ == c.unique_id
    &&& reg.sensor_name@ == c.name
    &&& reg.device_class.deep_view() == c.device_class
    &&& reg.unit_of_measurement.deep_view() == c.unit_of_measurement
    &&& reg.icon.deep_view() == c.icon
    &&& reg.entity_category.deep_view() == c.entity_category
    &&& reg.state_class.deep_view() == c.state_class
    &&& reg.disabled == c.disabled
}

fn registration_for(webhook_id: &str, c: &SensorCommand) -> (r: MobileEntityRegistration)
    ensures
        asks_for(r, webhook_id@, c@),
{
    MobileEntityRegistration {
        webhook_id: webhook_id.to_owned(),
        entity_type: c.entity_type.clone(),
        sensor_unique_id: c.unique_id.clone(),
        sensor_name: c.name.clone(),
        device_class: c.device_class.clone(),
        unit_of_measurement: c.unit_of_measurement.clone(),
        icon: c.icon.clone(),
        entity_category: c.entity_category.clone(),
        state_class: c.state_class.clone(),
        disabled: c.disabled,
    }
}

/// What webhook messages change: the entities of devices, the states and their changes, and the
/// readings to keep.
pub struct HookModel {
    pub entities: Seq<MobileEntry>,
    pub run: StateRun,
    pub readings: Seq<(Seq<char>, Seq<char>)>,
}

/// What webhook messages change, as a mathematical value.
pub open spec fn hook_model(
    entities: MobileEntityStore,
    states: StateStore,
    events: Seq<StateEvent>,
    readings: Seq<(String, String)>,
) -> HookModel {
    HookModel {
        entities: entities.entities@,
        run: state_store::run_of(states, events),
        readings: readings_view(readings),
    }
}

/// An empty answer.
pub open spec fn empty_ok() -> ReplyView {
    ReplyView::Json(200, ha_auth::empty_json())
}

fn empty_reply() -> (r: Reply)
    ensures
        r@ == empty_ok(),
{
    Reply::Json(200, empty_object())
}

/// The answer that something has succeeded.
pub open spec fn success_json() -> JsonView {
    JsonView::Object(json::no_members().push(("success"@, JsonView::Bool(true))))
}

/// What a message that registers a sensor returns and does, with a stamp for the state that it
/// gives to the entity.
pub open spec fn sensor_registered(
    before: HookModel,
    after: HookModel,
    webhook_id: Seq<char>,
    c: SensorModel,
    reg: MobileEntityRegistration,
    entry: MobileEntry,
    stamp: Stamp,
    r: ReplyView,
) -> bool {
    &&& asks_for(reg, webhook_id, c)
    &&& match mobile_entity_store::registration_fault(reg) {
        Some(e) => after == before && r == ReplyView::Json(
            500,
            ha_auth::message_json("failed to persist mobile entity: "@ + e.words()),
        ),
        None => {
            let (run, res) = sensor_applied(before.run, c, entry.record, stamp);
            &&& is_stamp(stamp)
            &&& entry.key@ == mobile_entity_store::store_key_of(
                webhook_id,
                c.entity_type,
                c.unique_id,
            )
            &&& mobile_entity_store::is_registered(entry.record, before.entities, reg)
            &&& after.entities == order::with_in_order(before.entities, entry)
            &&& after.run == run
            &&& match res {
                Ok(value) => {
                    &&& after.readings == with_reading(before.readings, entry.record, value)
                    &&& r == ReplyView::Json(201, success_json())
                },
                Err(e) => {
                    &&& after.readings == before.readings
                    &&& r == ReplyView::Json(400, ha_auth::message_json(e))
                },
            }
        },
    }
}

/// What a message that registers a sensor returns and does. A message that is not well formed
/// does nothing.
pub open spec fn register_sensor_result(
    before: HookModel,
    after: HookModel,
    webhook_id: Seq<char>,
    data: JsonView,
    r: ReplyView,
) -> bool {
    match parsed_sensor(data, true) {
        None => after == before && r == empty_ok(),
        Some(c) => exists|reg: MobileEntityRegistration, entry: MobileEntry, stamp: Stamp|
            #[trigger] sensor_registered(before, after, webhook_id, c, reg, entry, stamp, r),
    }
}

/// Registers a sensor of a device and gives it a state.
pub fn register_sensor_command(
    entities: &mut MobileEntityStore,
    states: &mut StateStore,
    events: &mut Vec<StateEvent>,
    readings: &mut Vec<(String, String)>,
    webhook_id: &str,
    data: &Json,
) -> (r: Reply)
    ensures
        register_sensor_result(
            hook_model(*old(entities), *old(states), old(events)@, old(readings)@),
            hook_model(*final(entities), *final(states), final(events)@, final(readings)@),
            webhook_id@,
            data@,
            r@,
        ),
        old(entities).wf() ==> final(entities).wf(),
        old(states).wf() ==> final(states).wf(),
{
    let ghost before = hook_model(*entities, *states, events@, readings@);
    let command: SensorCommand = match parse_sensor_command(data, true) {
        Some(c) => c,
        None => {
            return empty_reply();
        },
    };
    let reg: MobileEntityRegistration = registration_for(webhook_id, &command);
    let ghost reg0 = reg;
    let ghost entities0 = entities.entities@;
    let record: MobileEntityRecord = match entities.register(reg) {
        Ok(record) => record,
        Err(e) => {
            let m: String = concat("failed to persist mobile entity: ", e.message().as_str());
            let r: Reply = message_reply(500, m.as_str());
            proof {
                let entry: MobileEntry = arbitrary();
                let stamp: Stamp = arbitrary();
                assert(sensor_registered(
                    before,
                    hook_model(*entities, *states, events@, readings@),
                    webhook_id@,
                    command@,
                    reg0,
                    entry,
                    stamp,
                    r@,
                ));
            }
            return r;
        },
    };
    let ghost entry = choose|e: MobileEntry|
        e.key@ == mobile_entity_store::store_key_of(
            reg0.webhook_id@,
            reg0.entity_type@,
            reg0.sensor_unique_id@,
        ) && e.record == record && entities.entities@ == #[trigger] order::with_in_order(
            entities0,
            e,
        );
    let res: Result<String, String> = apply_sensor_state(states, events, &record, &command);
    let ghost stamp = choose|st: Stamp|
        is_stamp(st) && (state_store::run_of(*states, events@), result_view(res)) == #[trigger] sensor_applied(
            before.run,
            command@,
            record,
            st,
        );
    let r: Reply = match res {
        Ok(value) => {
            note_reading(readings, &record, value);
            Reply::Json(201, ObjectBuilder::new().field("success", Json::Bool(true)).done())
        },
        Err(e) => message_reply(400, e.as_str()),
    };
    assert(sensor_registered(
        before,
        hook_model(*entities, *states, events@, readings@),
        webhook_id@,
        command@,
        reg0,
        entry,
        stamp,
        r@,
    ));
    r
}

/// The answer that an item has failed.
pub open spec fn failure_json(code: Seq<char>, message: Seq<char>) -> JsonView {
    JsonView::Object(
        json::no_members().push(("success"@, JsonView::Bool(false))).push(
            (
                "error"@,
                JsonView::Object(
                    json::no_members().push(("code"@, JsonView::Str(code))).push(
                        ("message"@, JsonView::Str(message)),
                    ),
                ),
            ),
        ),
    )
}

fn failure(code: &str, message: &str) -> (r: Json)
    ensures
        r@ == failure_json(code@, message@),
{
    let error: Json = ObjectBuilder::new().text("code", code).text("message", message).done();
    ObjectBuilder::new().field("success", Json::Bool(false)).field("error", error).done()
}

/// The answer that an item has succeeded; it says so, if the entity is disabled.
pub open spec fn updated_json(disabled: bool) -> JsonView {
    JsonView::Object(
        if disabled {
            json::no_members().push(("success"@, JsonView::Bool(true))).push(
                ("is_disabled"@, JsonView::Bool(true)),
            )
        } else {
            json::no_members().push(("success"@, JsonView::Bool(true)))
        },
    )
}

fn updated(disabled: bool) -> (r: Json)
    ensures
        r@ == updated_json(disabled),
{
    let b: ObjectBuilder = ObjectBuilder::new().field("success", Json::Bool(true));
    if disabled {
        b.field("is_disabled", Json::Bool(true)).done()
    } else {
        b.done()
    }
}

/// The states, the readings and the answer after some items of an update.
pub struct UpdateModel {
    pub run: StateRun,
    pub readings: Seq<(Seq<char>, Seq<char>)>,
    pub response: Members,
}

/// What an item of an update does: it needs an entity of the device that is registered and a
/// sensor that is well formed.
pub open spec fn item_result(
    u: UpdateModel,
    entities: Seq<MobileEntry>,
    webhook_id: Seq<char>,
    item: JsonView,
    stamp: Stamp,
) -> UpdateModel {
    let unique_id = item.str_field("unique_id"@)->0;
    let entity_type = item.str_field("type"@)->0;
    match keyed::key_get(
        entities,
        mobile_entity_store::store_key_of(webhook_id, entity_type, unique_id),
    ) {
        None => UpdateModel {
            response: json::with_member(
                u.response,
                unique_id,
                failure_json(
                    "not_registered"@,
                    entity_type + " "@ + unique_id + " is not registered"@,
                ),
            ),
            ..u
        },
        Some(e) => match parsed_sensor(item, false) {
            None => UpdateModel {
                response: json::with_member(
                    u.response,
                    unique_id,
                    failure_json(
                        "invalid_format"@,
                        "invalid sensor payload for "@ + entity_type + " "@ + unique_id,
                    ),
                ),
                ..u
            },
            Some(c) => {
                let (run, res) = sensor_applied(u.run, c, e.record, stamp);
                match res {
                    Err(m) => UpdateModel {
                        run,
                        readings: u.readings,
                        response: json::with_member(
                            u.response,
                            unique_id,
                            failure_json("invalid_format"@, m),
                        ),
                    },
                    Ok(value) => UpdateModel {
                        run,
                        readings: with_reading(u.readings, e.record, value),
                        response: json::with_member(
                            u.response,
                            unique_id,
                            updated_json(e.record.disabled),
                        ),
                    },
                }
            },
        },
    }
}

/// What the items of an update do, one after the other, with a stamp for each.
pub open spec fn items_result(
    u: UpdateModel,
    entities: Seq<MobileEntry>,
    webhook_id: Seq<char>,
    items: Seq<JsonView>,
    stamps: Seq<Stamp>,
) -> UpdateModel
    decreases items.len(),
{
    if items.len() == 0 {
        u
    } else {
        item_result(
            items_result(u, entities, webhook_id, items.drop_last(), stamps.drop_last()),
            entities,
            webhook_id,
            items.last(),
            stamps.last(),
        )
    }
}

/// Whether an item of an update names a type and an id.
pub open spec fn names_sensor(item: JsonView) -> bool {
    item.str_field("type"@) is Some && item.str_field("unique_id"@) is Some
}

/// Whether all items of an update name a type and an id.
pub open spec fn all_named(items: Seq<JsonView>) -> bool {
    forall|i: int| 0 <= i < items.len() ==> names_sensor(#[trigger] items[i])
}

/// Whether stamps are all of the present.
pub open spec fn are_stamps(s: Seq<Stamp>) -> bool {
    forall|i: int| 0 <= i < s.len() ==> is_stamp(#[trigger] s[i])
}

/// The outcome of an update, with a stamp for each item.
pub open spec fn update_outcome(
    before: HookModel,
    after: HookModel,
    webhook_id: Seq<char>,
    items: Seq<JsonView>,
    stamps: Seq<Stamp>,
    r: ReplyView,
) -> bool {
    let u = items_result(
        UpdateModel { run: before.run, readings: before.readings, response: json::no_members() },
        before.entities,
        webhook_id,
        items,
        stamps,
    );
    &&& are_stamps(stamps)
    &&& stamps.len() == items.len()
    &&& after == HookModel { entities: before.entities, run: u.run, readings: u.readings }
    &&& r == ReplyView::Json(200, JsonView::Object(u.response))
}

/// What a message that updates sensors returns and does. A message that is no list, or in which an
/// item names no sensor, does nothing.
pub open spec fn update_sensors_result(
    before: HookModel,
    after: HookModel,
    webhook_id: Seq<char>,
    data: JsonView,
    r: ReplyView,
) -> bool {
    match data {
        JsonView::Array(items) => if all_named(items) {
            exists|stamps: Seq<Stamp>|
                #[trigger] update_outcome(before, after, webhook_id, items, stamps, r)
        } else {
            after == before && r == empty_ok()
        },
        _ => after == before && r == empty_ok(),
    }
}

/// Whether all items of an update name a sensor.
fn all_name_sensors(items: &Vec<Json>) -> (r: bool)
    ensures
        r == all_named(json::items_view(items@)),
{
    proof {
        json::lemma_items_view(items@);
    }
    let mut i: usize = 0;
    while i < items.len()
        invariant
            i <= items.len(),
            json::items_view(items@).len() == items@.len(),
            forall|k: int| #![trigger json::items_view(items@)[k]]
                0 <= k < items@.len() ==> json::items_view(items@)[k] == json::json_view(items@[k]),
            forall|k: int|
                0 <= k < i ==> names_sensor(#[trigger] json::items_view(items@)[k]),
        decreases items.len() - i,
    {
        if items[i].get_str("type").is_none() || items[i].get_str("unique_id").is_none() {
            assert(!names_sensor(json::items_view(items@)[i as int]));
            return false;
        }
        assert(names_sensor(json::items_view(items@)[i as int]));
        i += 1;
    }
    true
}

/// Carries out an item of an update.
fn update_sensor(
    entities: &MobileEntityStore,
    states: &mut StateStore,
    events: &mut Vec<StateEvent>,
    readings: &mut Vec<(String, String)>,
    response: &mut Vec<(String, Json)>,
    webhook_id: &str,
    item: &Json,
)
    requires
        names_sensor(item@),
    ensures
        exists|stamp: Stamp|
            is_stamp(stamp) && (UpdateModel {
                run: state_store::run_of(*final(states), final(events)@),
                readings: readings_view(final(readings)@),
                response: json::members_view(final(response)@),
            }) == #[trigger] item_result(
                UpdateModel {
                    run: state_store::run_of(*old(states), old(events)@),
                    readings: readings_view(old(readings)@),
                    response: json::members_view(old(response)@),
                },
                entities.entities@,
                webhook_id@,
                item@,
                stamp,
            ),
        old(states).wf() ==> final(states).wf(),
{
    let ghost u = UpdateModel {
        run: state_store::run_of(*states, events@),
        readings: readings_view(readings@),
        response: json::members_view(response@),
    };
    let unique_id: &str = match item.get_str("unique_id") {
        Some(v) => v,
        None => "",
    };
    let entity_type: &str = match item.get_str("type") {
        Some(v) => v,
        None => "",
    };
    let ghost some_stamp = choose|st: Stamp| is_stamp(st);
    proof {
        lemma_stamp_exists();
    }
    let record: MobileEntityRecord = match entities.get(webhook_id, entity_type, unique_id) {
        Some(record) => record,
        None => {
            let a: String = concat(entity_type, " ");
            let b: String = concat(a.as_str(), unique_id);
            let m: String = concat(b.as_str(), " is not registered");
            put_member(response, unique_id, failure("not_registered", m.as_str()));
            assert((UpdateModel {
                run: state_store::run_of(*states, events@),
                readings: readings_view(readings@),
                response: json::members_view(response@),
            }) == item_result(u, entities.entities@, webhook_id@, item@, some_stamp));
            return ;
        },
    };
    let command: SensorCommand = match parse_sensor_command(item, false) {
        Some(c) => c,
        None => {
            let a: String = concat("invalid sensor payload for ", entity_type);
            let b: String = concat(a.as_str(), " ");
            let m: String = concat(b.as_str(), unique_id);
            put_member(response, unique_id, failure("invalid_format", m.as_str()));
            assert((UpdateModel {
                run: state_store::run_of(*states, events@),
                readings: readings_view(readings@),
                response: json::members_view(response@),
            }) == item_result(u, entities.entities@, webhook_id@, item@, some_stamp));
            return ;
        },
    };
    let res: Result<String, String> = apply_sensor_state(states, events, &record, &command);
    let ghost stamp = choose|st: Stamp|
        is_stamp(st) && (state_store::run_of(*states, events@), result_view(res)) == #[trigger] sensor_applied(
            u.run,
            command@,
            record,
            st,
        );
    match res {
        Err(e) => {
            put_member(response, unique_id, failure("invalid_format", e.as_str()));
        },
        Ok(value) => {
            note_reading(readings, &record, value);
            put_member(response, unique_id, updated(record.disabled));
        },
    }
    assert((UpdateModel {
        run: state_store::run_of(*states, events@),
        readings: readings_view(readings@),
        response: json::members_view(response@),
    }) == item_result(u, entities.entities@, webhook_id@, item@, stamp));
}

/// There are stamps.
proof fn lemma_stamp_exists()
    ensures
        exists|st: Stamp| is_stamp(st),
{
    let id = Seq::new(32, |i: int| '0');
    let st = Stamp {
        context: ContextView { id, parent_id: None, user_id: None },
        timestamp: crate::clock::iso_text(0, 0),
    };
    assert(state_store::is_timestamp(st.timestamp)) by {
        assert(st.timestamp == crate::clock::iso_text(0u64 as nat, 0u64 as nat));
    }
    assert(is_stamp(st));
}

/// Updates sensors of a device.
pub fn update_sensor_states_command(
    entities: &MobileEntityStore,
    states: &mut StateStore,
    events: &mut Vec<StateEvent>,
    readings: &mut Vec<(String, String)>,
    webhook_id: &str,
    data: &Json,
) -> (r: Reply)
    ensures
        update_sensors_result(
            hook_model(*entities, *old(states), old(events)@, old(readings)@),
            hook_model(*entities, *final(states), final(events)@, final(readings)@),
            webhook_id@,
            data@,
            r@,
        ),
        old(states).wf() ==> final(states).wf(),
{
    let ghost before = hook_model(*entities, *states, events@, readings@);
    let items: &Vec<Json> = match data {
        Json::Array(items) => items,
        _ => {
            return empty_reply();
        },
    };
    assert(data@ == JsonView::Array(json::items_view(items@)));
    if !all_name_sensors(items) {
        return empty_reply();
    }
    let ghost views = json::items_view(items@);
    proof {
        json::lemma_items_view(items@);
    }
    let mut response: Vec<(String, Json)> = Vec::new();
    let ghost mut stamps: Seq<Stamp> = Seq::empty();
    let ghost start = UpdateModel {
        run: before.run,
        readings: before.readings,
        response: json::no_members(),
    };
    let mut i: usize = 0;
    assert(views.take(0) =~= Seq::empty());
    while i < items.len()
        invariant
            i <= items.len(),
            views == json::items_view(items@),
            views.len() == items@.len(),
            forall|k: int| #![trigger json::items_view(items@)[k]]
                0 <= k < items@.len() ==> json::items_view(items@)[k] == json::json_view(items@[k]),
            forall|k: int| 0 <= k < views.len() ==> names_sensor(#[trigger] views[k]),
            stamps.len() == i,
            are_stamps(stamps),
            (UpdateModel {
                run: state_store::run_of(*states, events@),
                readings: readings_view(readings@),
                response: json::members_view(response@),
            }) == items_result(
                start,
                entities.entities@,
                webhook_id@,
                views.take(i as int),
                stamps,
            ),
            old(states).wf() ==> states.wf(),
        decreases items.len() - i,
    {
        let ghost u = UpdateModel {
            run: state_store::run_of(*states, events@),
            readings: readings_view(readings@),
            response: json::members_view(response@),
        };
        assert(names_sensor(views[i as int]));
        update_sensor(entities, states, events, readings, &mut response, webhook_id, &items[i]);
        proof {
            let after = UpdateModel {
                run: state_store::run_of(*states, events@),
                readings: readings_view(readings@),
                response: json::members_view(response@),
            };
            let stamp = choose|st: Stamp|
                is_stamp(st) && after == #[trigger] item_result(
                    u,
                    entities.entities@,
                    webhook_id@,
                    items@[i as int]@,
                    st,
                );
            let more = stamps.push(stamp);
            assert(more.drop_last() =~= stamps);
            assert(views.take(i + 1).drop_last() =~= views.take(i as int));
            assert(views.take(i + 1).last() == items@[i as int]@);
            stamps = more;
        }
        i += 1;
    }
    assert(views.take(i as int) =~= views);
    let r: Reply = Reply::Json(200, Json::Object(response));
    assert(update_outcome(
        before,
        hook_model(*entities, *states, events@, readings@),
        webhook_id@,
        views,
        stamps,
        r@,
    ));
    r
}

/// What is needed to answer where the zones are: onboarding, and the zones that the user has
/// defined. Neither is there if it cannot be loaded.
pub struct ZonesSource {
    pub onboarding: OnboardingState,
    pub zones: Vec<StoredZone>,
}

/// Whether a zone has a place.
pub open spec fn has_place(z: StoredZone) -> bool {
    z.latitude is Some && z.longitude is Some
}

/// The state of a zone as JSON.
pub open spec fn zone_json(z: StoredZone) -> JsonView {
    zone_store::zone_state_json(
        "zone."@ + z.zone_id@,
        z.name@,
        z.latitude.deep_view(),
        z.longitude.deep_view(),
        z.radius@,
        z.passive,
        z.icon.deep_view(),
    )
}

/// The states of the zones that have a place.
pub open spec fn placed_zones(zones: Seq<StoredZone>) -> Seq<JsonView>
    decreases zones.len(),
{
    if zones.len() == 0 {
        Seq::empty()
    } else if has_place(zones.last()) {
        placed_zones(zones.drop_last()).push(zone_json(zones.last()))
    } else {
        placed_zones(zones.drop_last())
    }
}

/// The answer where the zones are: that of the home first, then those that have a place.
pub open spec fn zones_json(source: Option<ZonesSource>) -> JsonView {
    match source {
        None => JsonView::Array(Seq::empty()),
        Some(s) => JsonView::Array(
            Seq::empty().push(zone_store::home_zone_json(s.onboarding@)) + placed_zones(s.zones@),
        ),
    }
}

/// The answer where the zones are.
pub fn get_zones_command(source: &Option<ZonesSource>) -> (r: Reply)
    ensures
        r@ == ReplyView::Json(200, zones_json(*source)),
{
    let s: &ZonesSource = match source {
        None => {
            return Reply::Json(200, empty_array());
        },
        Some(s) => s,
    };
    let ghost home = zone_store::home_zone_json(s.onboarding@);
    let mut out: Vec<Json> = Vec::new();
    let first: Json = home_zone_state(&s.onboarding);
    assert(json::json_view(first) == home);
    out.push(first);
    proof {
        json::lemma_items_view(out@);
    }
    assert(json::items_view(out@) =~= Seq::empty().push(home));
    let mut i: usize = 0;
    assert(s.zones@.take(0) =~= Seq::empty());
    while i < s.zones.len()
        invariant
            i <= s.zones.len(),
            json::items_view(out@) =~= Seq::empty().push(home) + placed_zones(
                s.zones@.take(i as int),
            ),
        decreases s.zones.len() - i,
    {
        proof {
            assert(s.zones@.take(i + 1).drop_last() =~= s.zones@.take(i as int));
            assert(s.zones@.take(i + 1).last() == s.zones@[i as int]);
        }
        if s.zones[i].latitude.is_some() && s.zones[i].longitude.is_some() {
            let ghost before = out@;
            let item: Json = zone_to_state(&s.zones[i]);
            assert(json::json_view(item) == zone_json(s.zones@[i as int]));
            out.push(item);
            assert(out@.drop_last() =~= before);
            assert(json::items_view(out@) == json::items_view(before).push(item@));
        }
        i += 1;
    }
    assert(s.zones@.take(i as int) =~= s.zones@);
    Reply::Json(200, Json::Array(out))
}

/// The answer what a device should know of the controller.
pub open spec fn device_config_json(d: MobileDeviceRecord, location_name: Seq<char>) -> JsonView {
    JsonView::Object(
        json::no_members().push(("cloudhook_url"@, JsonView::Null)).push(
            ("remote_ui_url"@, JsonView::Null),
        ).push(("secret"@, json::opt_str_json(d.secret.deep_view()))).push(
            ("webhook_id"@, JsonView::Str(d.webhook_id@)),
        ).push(("location_name"@, JsonView::Str(location_name))).push(
            ("entities"@, JsonView::Array(Seq::empty())),
        ).push(("user_id"@, JsonView::Null)),
    )
}

/// The answer what a device should know of the controller.
pub fn get_config_command(device: &MobileDeviceRecord, product_name: &str) -> (r: Reply)
    ensures
        r@ == ReplyView::Json(
            200,
            device_config_json(*device, app_core::api_config_model(product_name@).location_name),
        ),
{
    let location_name: String = app_core::api_config(product_name).location_name;
    Reply::Json(
        200,
        ObjectBuilder::new().field("cloudhook_url", Json::Null).field(
            "remote_ui_url",
            Json::Null,
        ).field("secret", Json::opt_str(&device.secret)).text(
            "webhook_id",
            device.webhook_id.as_str(),
        ).text("location_name", location_name.as_str()).field("entities", empty_array()).field(
            "user_id",
            Json::Null,
        ).done(),
    )
}

/// What the message of a registered device returns and does. What is not understood is
/// acknowledged.
pub open spec fn mobile_webhook_result(
    before: HookModel,
    after: HookModel,
    device: MobileDeviceRecord,
    payload: JsonView,
    product_name: Seq<char>,
    source: Option<ZonesSource>,
    r: ReplyView,
) -> bool {
    let kind = payload.str_field("type"@);
    if kind == Some("register_sensor"@) {
        register_sensor_result(
            before,
            after,
            device.webhook_id@,
            match payload.field("data"@) {
                Some(d) => d,
                None => ha_auth::empty_json(),
            },
            r,
        )
    } else if kind == Some("update_sensor_states"@) {
        update_sensors_result(
            before,
            after,
            device.webhook_id@,
            match payload.field("data"@) {
                Some(d) => d,
                None => JsonView::Array(Seq::empty()),
            },
            r,
        )
    } else if kind == Some("get_config"@) {
        after == before && r == ReplyView::Json(200, device_config_json(device, product_name))
    } else if kind == Some("get_zones"@) {
        after == before && r == ReplyView::Json(200, zones_json(source))
    } else {
        after == before && r == empty_ok()
    }
}

/// Answers the message of a registered device.
pub fn handle_mobile_webhook(
    entities: &mut MobileEntityStore,
    states: &mut StateStore,
    events: &mut Vec<StateEvent>,
    readings: &mut Vec<(String, String)>,
    device: &MobileDeviceRecord,
    payload: &Json,
    product_name: &str,
    source: &Option<ZonesSource>,
) -> (r: Reply)
    ensures
        mobile_webhook_result(
            hook_model(*old(entities), *old(states), old(events)@, old(readings)@),
            hook_model(*final(entities), *final(states), final(events)@, final(readings)@),
            *device,
            payload@,
            product_name@,
            *source,
            r@,
        ),
        old(entities).wf() ==> final(entities).wf(),
        old(states).wf() ==> final(states).wf(),
{
    let kind: &str = match payload.get_str("type") {
        Some(k) => k,
        None => {
            return empty_reply();
        },
    };
    if str_eq(kind, "register_sensor") {
        let data: Json = match payload.get("data") {
            Some(d) => copy_json(d),
            None => empty_object(),
        };
        register_sensor_command(
            entities,
            states,
            events,
            readings,
            device.webhook_id.as_str(),
            &data,
        )
    } else if str_eq(kind, "update_sensor_states") {
        let data: Json = match payload.get("data") {
            Some(d) => copy_json(d),
            None => empty_array(),
        };
        update_sensor_states_command(
            entities,
            states,
            events,
            readings,
            device.webhook_id.as_str(),
            &data,
        )
    } else if str_eq(kind, "get_config") {
        get_config_command(device, product_name)
    } else if str_eq(kind, "get_zones") {
        get_zones_command(source)
    } else {
        empty_reply()
    }
}

/// Whether a content type says that a message is JSON.
pub open spec fn says_json(content_type: Option<&str>) -> bool {
    match content_type {
        Some(t) => text::has_text(t@, "application/json"@),
        None => false,
    }
}

/// The message in the body of a request: what it parses as, if it is said to be JSON.
pub open spec fn payload_of(content_type: Option<&str>, body: Option<JsonView>) -> JsonView {
    match body {
        Some(j) => if says_json(content_type) {
            j
        } else {
            JsonView::Null
        },
        None => JsonView::Null,
    }
}

/// What a request to a webhook returns and does.
///
/// Nothing is said of whether a webhook exists: a request to one that is not known is answered as
/// one that is. A message of a registered device that is said to be JSON and is not is refused.
pub open spec fn webhook_result(
    hooks0: WebhookStore,
    hooks1: WebhookStore,
    before: HookModel,
    after: HookModel,
    webhook_id: Seq<char>,
    device: Option<MobileDeviceRecord>,
    content_type: Option<&str>,
    body: Option<JsonView>,
    product_name: Seq<char>,
    source: Option<ZonesSource>,
    r: ReplyView,
) -> bool {
    let payload = payload_of(content_type, body);
    match device {
        Some(d) => if says_json(content_type) && body is None {
            hooks1 == hooks0 && after == before && r == ReplyView::Json(400, ha_auth::empty_json())
        } else {
            &&& forall|id: Seq<char>| #[trigger]
                hooks1.knows(id) <==> (hooks0.knows(id) || id == webhook_id)
            &&& payload_kept(hooks0, hooks1, webhook_id, payload)
            &&& mobile_webhook_result(before, after, d, payload, product_name, source, r)
        },
        None => {
            &&& after == before
            &&& r == empty_ok()
            &&& hooks1.known == hooks0.known
            &&& if hooks0.knows(webhook_id) {
                payload_kept(hooks0, hooks1, webhook_id, payload)
            } else {
                hooks1 == hooks0
            }
        },
    }
}

/// Whether a message has been kept for a webhook, and nothing else has.
pub open spec fn payload_kept(
    hooks0: WebhookStore,
    hooks1: WebhookStore,
    webhook_id: Seq<char>,
    payload: JsonView,
) -> bool {
    &&& hooks1.posted(webhook_id) == hooks0.posted(webhook_id).push(payload)
    &&& forall|id: Seq<char>|
        id != webhook_id ==> #[trigger] hooks1.posted(id) == hooks0.posted(id)
}

/// Answers a request to a webhook, from the device that is registered under it, if one is, and
/// from what the body of the request parses as, if it does.
pub fn webhook_answer(
    webhooks: &mut WebhookStore,
    entities: &mut MobileEntityStore,
    states: &mut StateStore,
    events: &mut Vec<StateEvent>,
    readings: &mut Vec<(String, String)>,
    webhook_id: &str,
    device: &Option<MobileDeviceRecord>,
    content_type: Option<&str>,
    body: &Option<Json>,
    product_name: &str,
    source: &Option<ZonesSource>,
) -> (r: Reply)
    ensures
        webhook_result(
            *old(webhooks),
            *final(webhooks),
            hook_model(*old(entities), *old(states), old(events)@, old(readings)@),
            hook_model(*final(entities), *final(states), final(events)@, final(readings)@),
            webhook_id@,
            *device,
            content_type,
            json::opt_view(*body),
            product_name@,
            *source,
            r@,
        ),
        old(entities).wf() ==> final(entities).wf(),
        old(states).wf() ==> final(states).wf(),
{
    let is_json: bool = match content_type {
        Some(t) => contains_text(t, "application/json"),
        None => false,
    };
    let registered: bool = webhooks.is_registered(webhook_id);
    if device.is_none() && !registered {
        return empty_reply();
    }
    let payload: Json = if is_json {
        match body {
            Some(p) => copy_json(p),
            None => {
                if device.is_some() {
                    return Reply::Json(400, empty_object());
                }
                Json::Null
            },
        }
    } else {
        Json::Null
    };
    assert(payload@ == payload_of(content_type, json::opt_view(*body)));
    match device {
        Some(d) => {
            webhooks.remember(webhook_id.to_owned());
            let ghost known = *webhooks;
            let r: Reply = handle_mobile_webhook(
                entities,
                states,
                events,
                readings,
                d,
                &payload,
                product_name,
                source,
            );
            webhooks.store_payload(webhook_id, payload);
            proof {
                assert forall|id: Seq<char>| #[trigger]
                    webhooks.knows(id) <==> (old(webhooks).knows(id) || id == webhook_id@) by {
                    assert(webhooks.knows(id) == known.knows(id));
                }
                assert forall|id: Seq<char>| id != webhook_id@ implies #[trigger] webhooks.posted(
                    id,
                ) == old(webhooks).posted(id) by {
                    assert(known.posted(id) == old(webhooks).posted(id));
                }
                assert(known.posted(webhook_id@) == old(webhooks).posted(webhook_id@));
            }
            r
        },
        None => {
            webhooks.store_payload(webhook_id, payload);
            empty_reply()
        },
    }
}

/// Answers a request to a webhook, from the device that is registered under it, if one is.
pub fn webhook_handle(
    webhooks: &mut WebhookStore,
    entities: &mut MobileEntityStore,
    states: &mut StateStore,
    events: &mut Vec<StateEvent>,
    readings: &mut Vec<(String, String)>,
    webhook_id: &str,
    device: &Option<MobileDeviceRecord>,
    content_type: Option<&str>,
    body: &[u8],
    product_name: &str,
    source: &Option<ZonesSource>,
) -> (r: Reply)
    ensures
        webhook_result(
            *old(webhooks),
            *final(webhooks),
            hook_model(*old(entities), *old(states), old(events)@, old(readings)@),
            hook_model(*final(entities), *final(states), final(events)@, final(readings)@),
            webhook_id@,
            *device,
            content_type,
            json::parsed(body@),
            product_name@,
            *source,
            r@,
        ),
        old(entities).wf() ==> final(entities).wf(),
        old(states).wf() ==> final(states).wf(),
{
    let value: Option<Json> = json::parse(body);
    webhook_answer(
        webhooks,
        entities,
        states,
        events,
        readings,
        webhook_id,
        device,
        content_type,
        &value,
        product_name,
        source,
    )
}

/// A webhook that nobody is registered under answers like any other, without a trace.
pub proof fn law_unknown_webhook(
    hooks0: WebhookStore,
    hooks1: WebhookStore,
    before: HookModel,
    after: HookModel,
    webhook_id: Seq<char>,
    content_type: Option<&str>,
    body: Option<JsonView>,
    product_name: Seq<char>,
    source: Option<ZonesSource>,
    r: ReplyView,
)
    requires
        !hooks0.knows(webhook_id),
        webhook_result(
            hooks0,
            hooks1,
            before,
            after,
            webhook_id,
            None,
            content_type,
            body,
            product_name,
            source,
            r,
        ),
    ensures
        r == ReplyView::Json(200, ha_auth::empty_json()),
        after == before,
        hooks1 == hooks0,
{
}

/// The answer where entities announce themselves over MQTT.
pub open spec fn mqtt_json() -> JsonView {
    JsonView::Object(
        json::no_members().push(("discovery_prefix"@, JsonView::Str("homeassistant"@))).push(
            (
                "topic_pattern"@,
                JsonView::Str("homeassistant/{component}/{node_id}/{object_id}/config"@),
            ),
        ),
    )
}

/// The answer where entities announce themselves over MQTT.
pub fn mqtt_discovery_info() -> (r: Reply)
    ensures
        r@ == ReplyView::Json(200, mqtt_json()),
{
    Reply::Json(
        200,
        ObjectBuilder::new().text("discovery_prefix", "homeassistant").text(
            "topic_pattern",
            "homeassistant/{component}/{node_id}/{object_id}/config",
        ).done(),
    )
}

/// A sensor that has been registered can be updated from then on.
pub proof fn law_registered_sensor_known(
    before: HookModel,
    after: HookModel,
    webhook_id: Seq<char>,
    c: SensorModel,
    reg: MobileEntityRegistration,
    entry: MobileEntry,
    stamp: Stamp,
    r: ReplyView,
)
    requires
        sensor_registered(before, after, webhook_id, c, reg, entry, stamp, r),
        mobile_entity_store::registration_fault(reg) is None,
    ensures
        keyed::key_get(
            after.entities,
            mobile_entity_store::store_key_of(webhook_id, c.entity_type, c.unique_id),
        ) == Some(entry),
        order::ascending(before.entities) ==> order::ascending(after.entities),
{
    order::lemma_with_in_order(before.entities, entry);
    assert(entry.key() == entry.key@);
}

/// An update of a sensor that is not registered changes nothing but the answer, and each item is
/// answered under its id.
pub proof fn law_item_answered(
    u: UpdateModel,
    entities: Seq<MobileEntry>,
    webhook_id: Seq<char>,
    item: JsonView,
    stamp: Stamp,
)
    requires
        names_sensor(item),
    ensures
        ({
            let unique_id = item.str_field("unique_id"@)->0;
            let entity_type = item.str_field("type"@)->0;
            let after = item_result(u, entities, webhook_id, item, stamp);
            &&& json::member(after.response, unique_id) is Some
            &&& keyed::key_get(
                entities,
                mobile_entity_store::store_key_of(webhook_id, entity_type, unique_id),
            ) is None ==> after.run == u.run && after.readings == u.readings
        }),
{
    let unique_id = item.str_field("unique_id"@)->0;
    let after = item_result(u, entities, webhook_id, item, stamp);
    let v = choose|v: JsonView| after.response == #[trigger] json::with_member(
        u.response,
        unique_id,
        v,
    );
    json::law_with_member(u.response, unique_id, v, unique_id);
}

proof fn lemma_items_timed(
    u: UpdateModel,
    entities: Seq<MobileEntry>,
    webhook_id: Seq<char>,
    items: Seq<JsonView>,
    stamps: Seq<Stamp>,
)
    requires
        state_store::all_timed(u.run),
        are_stamps(stamps),
        stamps.len() == items.len(),
    ensures
        state_store::all_timed(items_result(u, entities, webhook_id, items, stamps).run),
    decreases items.len(),
{
    if items.len() > 0 {
        let front = stamps.drop_last();
        assert forall|i: int| 0 <= i < front.len() implies is_stamp(#[trigger] front[i]) by {
            assert(front[i] == stamps[i]);
        }
        lemma_items_timed(u, entities, webhook_id, items.drop_last(), front);
        let before = items_result(u, entities, webhook_id, items.drop_last(), front);
        assert(is_stamp(stamps[stamps.len() - 1]));
        let key = mobile_entity_store::store_key_of(
            webhook_id,
            items.last().str_field("type"@)->0,
            items.last().str_field("unique_id"@)->0,
        );
        if keyed::key_get(entities, key) is Some && parsed_sensor(items.last(), false) is Some {
            lemma_sensor_timed(
                before.run,
                parsed_sensor(items.last(), false)->0,
                keyed::key_get(entities, key)->0.record,
                stamps.last(),
            );
        }
    }
}

proof fn lemma_sensor_timed(
    run: StateRun,
    c: SensorModel,
    record: MobileEntityRecord,
    stamp: Stamp,
)
    requires
        state_store::all_timed(run),
        is_stamp(stamp),
    ensures
        state_store::all_timed(sensor_applied(run, c, record, stamp).0),
{
    if let Ok(value) = sensor_value(record.entity_type@, c.state) {
        state_store::lemma_offer_timed(run, sensor_state(c, record, value, stamp));
    }
}

/// The states that messages of devices make have points in time.
pub proof fn law_webhook_timed(
    before: HookModel,
    after: HookModel,
    device: MobileDeviceRecord,
    payload: JsonView,
    product_name: Seq<char>,
    source: Option<ZonesSource>,
    r: ReplyView,
)
    requires
        mobile_webhook_result(before, after, device, payload, product_name, source, r),
        state_store::all_timed(before.run),
    ensures
        state_store::all_timed(after.run),
{
    let kind = payload.str_field("type"@);
    let webhook_id = device.webhook_id@;
    if kind == Some("register_sensor"@) {
        let data = match payload.field("data"@) {
            Some(d) => d,
            None => ha_auth::empty_json(),
        };
        if let Some(c) = parsed_sensor(data, true) {
            let (reg, entry, stamp) = choose|
                reg: MobileEntityRegistration,
                entry: MobileEntry,
                stamp: Stamp,
            | #[trigger]
                sensor_registered(before, after, webhook_id, c, reg, entry, stamp, r);
            if mobile_entity_store::registration_fault(reg) is None {
                lemma_sensor_timed(before.run, c, entry.record, stamp);
            }
        }
    } else if kind == Some("update_sensor_states"@) {
        let data = match payload.field("data"@) {
            Some(d) => d,
            None => JsonView::Array(Seq::empty()),
        };
        if let JsonView::Array(items) = data {
            if all_named(items) {
                let stamps = choose|stamps: Seq<Stamp>| #[trigger]
                    update_outcome(before, after, webhook_id, items, stamps, r);
                lemma_items_timed(
                    UpdateModel {
                        run: before.run,
                        readings: before.readings,
                        response: json::no_members(),
                    },
                    before.entities,
                    webhook_id,
                    items,
                    stamps,
                );
            }
        }
    }
}

} // verus!
