//! The WebSocket API: what the server says to a message of the client.

use std::collections::HashSet;

use vstd::prelude::*;
use vstd::string::*;
use vstd::utf8::*;

use crate::app_core;
use crate::app_core::{
    AppCore, Consistency, DeadlineClass, DomainKind, OperationError, OperationMeta,
    OperationRequest, OperationResult, PageRequest, StateFilter,
};
use crate::area_registry_store;
use crate::area_registry_store::{AreaModel, AreaRegistryStore, StoredArea};
use crate::config::AppConfig;
use crate::entity_view;
use crate::entity_view::collect_texts;
use crate::ha_api;
use crate::ha_auth::{TokenModel, TokenStore};
use crate::ids;
use crate::json;
use crate::json::{
    copy_json, copy_members, empty_array, empty_object, lower_hex_char, to_array, Json, JsonView,
    Members, ObjectBuilder, Real, ToJson,
};
use crate::keyed;
use crate::keyed::position;
use crate::mobile_device_store::MobileDeviceRecord;
use crate::mobile_entity_store::MobileEntityRecord;
use crate::service;
use crate::service::{
    DescriptionModel, DomainModel, FieldModel, ServiceCall, ServiceData, ServiceDescriptorView,
    ServiceDomainCatalog, ServiceError, ServiceFieldView, ServiceOutcome, ServiceRegistry,
    ServiceTarget,
};
use crate::state_store;
use crate::state_store::{EventModel, State, StateEvent, StateRun, StateStore, StateView};
use crate::storage::StoredUser;
use crate::text;
use crate::text::{concat, opt_is, str_eq, trim};
use crate::zone_store;
use crate::zone_store::{opt_real, StoredZone, ZoneStore};

verus! {

/// The version that the server names in the handshake.
pub const HA_VERSION: &'static str = "2025.1.0";

/// How far a connection has come.
#[derive(Clone, Copy, Debug, PartialEq, Eq, Structural)]
pub enum Phase {
    /// The client has yet to authenticate.
    Auth,
    /// The client may send commands.
    Active,
}

/// The message that asks for authentication.
pub open spec fn auth_required_json() -> JsonView {
    JsonView::Object(
        json::no_members().push(("type"@, JsonView::Str("auth_required"@))).push(
            ("ha_version"@, JsonView::Str(HA_VERSION@)),
        ),
    )
}

/// The message that asks for authentication.
pub fn auth_required_msg() -> (r: Json)
    ensures
        r@ == auth_required_json(),
{
    ObjectBuilder::new().text("type", "auth_required").text("ha_version", HA_VERSION).done()
}

/// The message that authentication has succeeded.
pub open spec fn auth_ok_json() -> JsonView {
    JsonView::Object(
        json::no_members().push(("type"@, JsonView::Str("auth_ok"@))).push(
            ("ha_version"@, JsonView::Str(HA_VERSION@)),
        ),
    )
}

/// The message that authentication has succeeded.
pub fn auth_ok_msg() -> (r: Json)
    ensures
        r@ == auth_ok_json(),
{
    ObjectBuilder::new().text("type", "auth_ok").text("ha_version", HA_VERSION).done()
}

/// The message that authentication has failed.
pub open spec fn auth_invalid_json(message: Seq<char>) -> JsonView {
    JsonView::Object(
        json::no_members().push(("type"@, JsonView::Str("auth_invalid"@))).push(
            ("message"@, JsonView::Str(message)),
        ),
    )
}

/// The message that authentication has failed.
pub fn auth_invalid_msg(message: &str) -> (r: Json)
    ensures
        r@ == auth_invalid_json(message@),
{
    ObjectBuilder::new().text("type", "auth_invalid").text("message", message).done()
}

/// The message with the result of a command.
pub open spec fn ok_json(id: u64, result: JsonView) -> JsonView {
    JsonView::Object(
        json::no_members().push(("id"@, JsonView::PosInt(id))).push(
            ("type"@, JsonView::Str("result"@)),
        ).push(("success"@, JsonView::Bool(true))).push(("result"@, result)),
    )
}

/// The message with the result of a command.
pub fn result_ok(id: u64, result: Json) -> (r: Json)
    ensures
        r@ == ok_json(id, result@),
{
    ObjectBuilder::new().field("id", Json::PosInt(id)).text("type", "result").field(
        "success",
        Json::Bool(true),
    ).field("result", result).done()
}

/// The message with the error of a command.
pub open spec fn err_value_json(id: u64, error: JsonView) -> JsonView {
    JsonView::Object(
        json::no_members().push(("id"@, JsonView::PosInt(id))).push(
            ("type"@, JsonView::Str("result"@)),
        ).push(("success"@, JsonView::Bool(false))).push(("error"@, error)),
    )
}

/// The message with the error of a command.
pub fn result_err_value(id: u64, error: Json) -> (r: Json)
    ensures
        r@ == err_value_json(id, error@),
{
    ObjectBuilder::new().field("id", Json::PosInt(id)).text("type", "result").field(
        "success",
        Json::Bool(false),
    ).field("error", error).done()
}

/// The message that a command has failed, with a code.
pub open spec fn err_json(id: u64, code: Seq<char>, message: Seq<char>) -> JsonView {
    err_value_json(
        id,
        JsonView::Object(
            json::no_members().push(("code"@, JsonView::Str(code))).push(
                ("message"@, JsonView::Str(message)),
            ),
        ),
    )
}

/// The message that a command has failed, with a code.
pub fn result_err(id: u64, code: &str, message: &str) -> (r: Json)
    ensures
        r@ == err_json(id, code@, message@),
{
    let error: Json = ObjectBuilder::new().text("code", code).text("message", message).done();
    result_err_value(id, error)
}

/// The answer to a ping.
pub open spec fn pong_json(id: u64) -> JsonView {
    JsonView::Object(
        json::no_members().push(("id"@, JsonView::PosInt(id))).push(
            ("type"@, JsonView::Str("pong"@)),
        ),
    )
}

/// The token in a message that authenticates: a missing one and null are no token; anything but a
/// string is no message of the kind.
pub open spec fn auth_token_of(message: JsonView) -> Result<Option<Seq<char>>, ()> {
    match message.field("access_token"@) {
        None | Some(JsonView::Null) => Ok(None),
        Some(JsonView::Str(t)) => Ok(Some(t)),
        Some(_) => Err(()),
    }
}

/// What the server says to a message that should authenticate, and whether it lets the client in.
pub open spec fn auth_answer(message: Option<JsonView>, tokens: TokenModel) -> (JsonView, Phase) {
    match message {
        None => (
            auth_invalid_json("Auth message incorrectly formatted: expected JSON"@),
            Phase::Auth,
        ),
        Some(m) => if m.str_field("type"@) != Some("auth"@) {
            (
                auth_invalid_json("Auth message incorrectly formatted: expected type auth"@),
                Phase::Auth,
            )
        } else {
            match auth_token_of(m) {
                Err(_) => (
                    auth_invalid_json("Auth message incorrectly formatted"@),
                    Phase::Auth,
                ),
                Ok(Some(t)) => if t.len() > 0 && tokens.access_tokens.contains_key(t) {
                    (auth_ok_json(), Phase::Active)
                } else {
                    (auth_invalid_json("Invalid access token or password"@), Phase::Auth)
                },
                Ok(None) => (
                    auth_invalid_json("Invalid access token or password"@),
                    Phase::Auth,
                ),
            }
        },
    }
}

/// Answers a message that should authenticate, from what it parses as, if it does.
pub fn auth_reply(message: Option<&Json>, tokens: &TokenStore) -> (r: (Json, Phase))
    ensures
        (r.0@, r.1) == auth_answer(
            match message {
                Some(m) => Some(m@),
                None => None,
            },
            tokens@,
        ),
{
    let m: &Json = match message {
        Some(m) => m,
        None => {
            return (
                auth_invalid_msg("Auth message incorrectly formatted: expected JSON"),
                Phase::Auth,
            );
        },
    };
    let is_auth: bool = match m.get_str("type") {
        Some(t) => str_eq(t, "auth"),
        None => false,
    };
    if !is_auth {
        return (
            auth_invalid_msg("Auth message incorrectly formatted: expected type auth"),
            Phase::Auth,
        );
    }
    let token: Option<&str> = match m.get("access_token") {
        None => None,
        Some(j) => match j {
            Json::Null => None,
            Json::Str(t) => Some(t.as_str()),
            _ => {
                return (auth_invalid_msg("Auth message incorrectly formatted"), Phase::Auth);
            },
        },
    };
    match token {
        Some(t) => {
            if !t.is_empty() && tokens.validate_access_token(t).is_some() {
                return (auth_ok_msg(), Phase::Active);
            }
        },
        None => {},
    }
    (auth_invalid_msg("Invalid access token or password"), Phase::Auth)
}

/// Answers a message that should authenticate.
pub fn handle_auth_phase(message: &str, tokens: &TokenStore) -> (r: (Json, Phase))
    ensures
        (r.0@, r.1) == auth_answer(json::parsed(encode_utf8(message@)), tokens@),
{
    match json::parse(message.as_bytes()) {
        Some(m) => auth_reply(Some(&m), tokens),
        None => auth_reply(None, tokens),
    }
}

/// A client is let in only with an access token that has been issued, and with each such token.
pub proof fn law_auth(message: JsonView, tokens: TokenModel)
    ensures
        auth_answer(Some(message), tokens).1 == Phase::Active <==> {
            &&& message.str_field("type"@) == Some("auth"@)
            &&& message.str_field("access_token"@) matches Some(t) && t.len() > 0
                && tokens.access_tokens.contains_key(t)
        },
        auth_answer(None, tokens).1 == Phase::Auth,
{
}

/// Members without those of a name.
pub open spec fn without_member(s: Members, name: Seq<char>) -> Members
    decreases s.len(),
{
    if s.len() == 0 {
        s
    } else if s.last().0 == name {
        without_member(s.drop_last(), name)
    } else {
        without_member(s.drop_last(), name).push(s.last())
    }
}

fn drop_member(members: &Vec<(String, Json)>, name: &str) -> (r: Vec<(String, Json)>)
    ensures
        json::members_view(r@) == without_member(json::members_view(members@), name@),
{
    proof {
        json::lemma_members_view(members@);
    }
    let ghost all = json::members_view(members@);
    let mut out: Vec<(String, Json)> = Vec::new();
    let mut i: usize = 0;
    assert(all.take(0) =~= json::no_members());
    while i < members.len()
        invariant
            i <= members.len(),
            all == json::members_view(members@),
            all.len() == members@.len(),
            forall|k: int| #![trigger json::members_view(members@)[k]]
                0 <= k < members@.len() ==> json::members_view(members@)[k] == (
                    members@[k].0@,
                    json::json_view(members@[k].1),
                ),
            json::members_view(out@) == without_member(all.take(i as int), name@),
        decreases members.len() - i,
    {
        proof {
            assert(all.take(i + 1).drop_last() =~= all.take(i as int));
            assert(all.take(i + 1).last() == all[i as int]);
        }
        if !str_eq(members[i].0.as_str(), name) {
            let ghost before = out@;
            let item: Json = copy_json(&members[i].1);
            assert(json::json_view(item) == json::json_view(members@[i as int].1));
            out.push((members[i].0.clone(), item));
            assert(out@.drop_last() =~= before);
        }
        i += 1;
    }
    assert(all.take(i as int) =~= all);
    out
}

/// A command: its id, its type and its parameters.
pub struct CommandMessage {
    pub id: u64,
    pub msg_type: String,
    pub extra: Json,
}

/// Whether a message is a command, and which.
pub open spec fn is_command(message: JsonView, id: u64, msg_type: Seq<char>, extra: JsonView) -> bool {
    &&& message.field("id"@) == Some(JsonView::PosInt(id))
    &&& message.str_field("type"@) == Some(msg_type)
    &&& message matches JsonView::Object(m) && extra == JsonView::Object(
        without_member(without_member(m, "id"@), "type"@),
    )
}

/// The command that a message is; nothing if it is none.
pub fn parse_command(message: &Json) -> (r: Option<CommandMessage>)
    ensures
        match r {
            Some(c) => is_command(message@, c.id, c.msg_type@, c.extra@),
            None => !(message@.field("id"@) matches Some(JsonView::PosInt(_)))
                || message@.str_field("type"@) is None,
        },
{
    let id: u64 = match message.get("id") {
        Some(j) => match j.as_u64() {
            Some(n) => n,
            None => {
                return None;
            },
        },
        None => {
            return None;
        },
    };
    let msg_type: String = match message.get_str("type") {
        Some(t) => t.to_owned(),
        None => {
            return None;
        },
    };
    match message {
        Json::Object(m) => {
            let rest: Vec<(String, Json)> = drop_member(&drop_member(m, "id"), "type");
            Some(CommandMessage { id, msg_type, extra: Json::Object(rest) })
        },
        _ => None,
    }
}

/// A step of the fingerprint: 128-bit FNV-1a.
pub open spec fn fnv_step(hash: u128, b: u8) -> u128 {
    ((hash ^ (b as u128)) * FNV_PRIME % (u128::MAX + 1)) as u128
}

pub const FNV_OFFSET: u128 = 0x6c62272e07bb0142_62b821756295c58d_u128;

pub const FNV_PRIME: u128 = 0x0000000001000000_000000000000013B_u128;

/// The fingerprint of bytes: 128-bit FNV-1a.
pub open spec fn fnv(data: Seq<u8>) -> u128
    decreases data.len(),
{
    if data.len() == 0 {
        FNV_OFFSET
    } else {
        fnv_step(fnv(data.drop_last()), data.last())
    }
}

/// The fingerprint of bytes.
pub fn md5_hex(data: &[u8]) -> (r: u128)
    ensures
        r == fnv(data@),
{
    let mut hash: u128 = FNV_OFFSET;
    let mut i: usize = 0;
    assert(data@.take(0) =~= Seq::empty());
    while i < data.len()
        invariant
            i <= data.len(),
            hash == fnv(data@.take(i as int)),
        decreases data.len() - i,
    {
        proof {
            assert(data@.take(i + 1).drop_last() =~= data@.take(i as int));
            assert(data@.take(i + 1).last() == data@[i as int]);
        }
        hash = (hash ^ (data[i] as u128)).wrapping_mul(FNV_PRIME);
        i += 1;
    }
    assert(data@.take(i as int) =~= data@);
    hash
}

/// A number in lower-case hexadecimal digits, without leading zeros.
pub open spec fn hexadecimal(n: nat) -> Seq<char>
    decreases n,
{
    if n < 16 {
        Seq::empty().push(json::lower_hex(n))
    } else {
        hexadecimal(n / 16).push(json::lower_hex(n % 16))
    }
}

/// A number in lower-case hexadecimal digits, without leading zeros.
pub fn hex_string(n: u128) -> (r: String)
    ensures
        r@ == hexadecimal(n as nat),
    decreases n,
{
    if n < 16 {
        let mut out: String = String::new();
        out.push(lower_hex_char(n as u32));
        assert(out@ =~= hexadecimal(n as nat));
        out
    } else {
        let mut out: String = hex_string(n / 16);
        out.push(lower_hex_char((n % 16) as u32));
        out
    }
}

/// A state as subscribers to entities get it, with the times of its last change and update in
/// seconds since 1970-01-01.
pub open spec fn compressed_json(s: StateView, changed: Seq<char>, updated: Seq<char>) -> JsonView {
    JsonView::Object(
        json::no_members().push(("s"@, JsonView::Str(s.state))).push(
            ("a"@, JsonView::Object(s.attributes)),
        ).push(("lc"@, JsonView::Float(changed))).push(("lu"@, JsonView::Float(updated))),
    )
}

/// A state as subscribers to entities get it.
pub fn compressed_state(state: &State, changed: &Real, updated: &Real) -> (r: Json)
    ensures
        r@ == compressed_json(state@, changed@, updated@),
{
    let attributes: Json = Json::Object(copy_members(&state.attributes));
    assert(attributes@ == JsonView::Object(state@.attributes));
    let lc: Json = Json::Float(changed.clone());
    assert(lc@ == JsonView::Float(changed@));
    let lu: Json = Json::Float(updated.clone());
    assert(lu@ == JsonView::Float(updated@));
    ObjectBuilder::new().text("s", state.state.as_str()).field("a", attributes).field(
        "lc",
        lc,
    ).field("lu", lu).done()
}

/// The event that tells a subscription of states that are new or have changed.
pub open spec fn entities_event_json(sub_id: u64, additions: Members) -> JsonView {
    JsonView::Object(
        json::no_members().push(("id"@, JsonView::PosInt(sub_id))).push(
            ("type"@, JsonView::Str("event"@)),
        ).push(
            (
                "event"@,
                JsonView::Object(
                    json::no_members().push(("a"@, JsonView::Object(additions))).push(
                        ("c"@, JsonView::Object(json::no_members())),
                    ).push(("r"@, JsonView::Array(Seq::empty()))),
                ),
            ),
        ),
    )
}

/// The event that tells a subscription of states that are new or have changed, each under its
/// entity id.
pub fn entities_event(sub_id: u64, additions: Vec<(String, Json)>) -> (r: Json)
    ensures
        r@ == entities_event_json(sub_id, json::members_view(additions@)),
{
    let added: Json = Json::Object(additions);
    assert(added@ == JsonView::Object(json::members_view(additions@)));
    let event: Json = ObjectBuilder::new().field("a", added).field("c", empty_object()).field(
        "r",
        empty_array(),
    ).done();
    ObjectBuilder::new().field("id", Json::PosInt(sub_id)).text("type", "event").field(
        "event",
        event,
    ).done()
}

/// A context of which only the id is told.
pub open spec fn bare_context_json(id: Seq<char>) -> JsonView {
    JsonView::Object(
        json::no_members().push(("id"@, JsonView::Str(id))).push(("parent_id"@, JsonView::Null)).push(
            ("user_id"@, JsonView::Null),
        ),
    )
}

fn bare_context(id: &str) -> (r: Json)
    ensures
        r@ == bare_context_json(id@),
{
    ObjectBuilder::new().text("id", id).field("parent_id", Json::Null).field(
        "user_id",
        Json::Null,
    ).done()
}

/// A state as subscribers to events get it.
pub open spec fn full_state_json(s: StateView) -> JsonView {
    JsonView::Object(
        json::no_members().push(("entity_id"@, JsonView::Str(s.entity_id))).push(
            ("state"@, JsonView::Str(s.state)),
        ).push(("attributes"@, JsonView::Object(s.attributes))).push(
            ("last_changed"@, JsonView::Str(s.last_changed)),
        ).push(("last_updated"@, JsonView::Str(s.last_updated))).push(
            ("context"@, bare_context_json(s.context.id)),
        ),
    )
}

/// A state as subscribers to events get it.
pub fn full_state_dict(state: &State) -> (r: Json)
    ensures
        r@ == full_state_json(state@),
{
    let attributes: Json = Json::Object(copy_members(&state.attributes));
    assert(attributes@ == JsonView::Object(state@.attributes));
    ObjectBuilder::new().text("entity_id", state.entity_id.as_str()).text(
        "state",
        state.state.as_str(),
    ).field("attributes", attributes).text("last_changed", state.last_changed.as_str()).text(
        "last_updated",
        state.last_updated.as_str(),
    ).field("context", bare_context(state.context.id.as_str())).done()
}

/// The event that tells a subscription of a state change.
pub open spec fn state_changed_json(sub_id: u64, event: EventModel, now: Seq<char>) -> JsonView {
    JsonView::Object(
        json::no_members().push(("id"@, JsonView::PosInt(sub_id))).push(
            ("type"@, JsonView::Str("event"@)),
        ).push(
            (
                "event"@,
                JsonView::Object(
                    json::no_members().push(("event_type"@, JsonView::Str("state_changed"@))).push(
                        (
                            "data"@,
                            JsonView::Object(
                                json::no_members().push(
                                    ("entity_id"@, JsonView::Str(event.0.entity_id)),
                                ).push(("new_state"@, full_state_json(event.0))).push(
                                    (
                                        "old_state"@,
                                        match event.1 {
                                            Some(s) => full_state_json(s),
                                            None => JsonView::Null,
                                        },
                                    ),
                                ),
                            ),
                        ),
                    ).push(("origin"@, JsonView::Str("local"@))).push(
                        ("time_fired"@, JsonView::Str(now)),
                    ).push(("context"@, bare_context_json(event.0.context.id))),
                ),
            ),
        ),
    )
}

/// The event that tells a subscription of a state change, unless it asks for events of another
/// type.
pub fn state_changed_event(
    sub_id: u64,
    event_type_filter: &Option<String>,
    event: &StateEvent,
    now: &str,
) -> (r: Option<Json>)
    ensures
        match r {
            Some(j) => j@ == state_changed_json(sub_id, event@, now@),
            None => true,
        },
        r is Some <==> (event_type_filter is None || event_type_filter.deep_view() == Some(
            "state_changed"@,
        )),
{
    if event_type_filter.is_some() && !opt_is(event_type_filter, "state_changed") {
        return None;
    }
    let old_state: Json = match &event.old_state {
        Some(s) => full_state_dict(s),
        None => Json::Null,
    };
    let data: Json = ObjectBuilder::new().text("entity_id", event.state.entity_id.as_str()).field(
        "new_state",
        full_state_dict(&event.state),
    ).field("old_state", old_state).done();
    let body: Json = ObjectBuilder::new().text("event_type", "state_changed").field(
        "data",
        data,
    ).text("origin", "local").text("time_fired", now).field(
        "context",
        bare_context(event.state.context.id.as_str()),
    ).done();
    Some(
        ObjectBuilder::new().field("id", Json::PosInt(sub_id)).text("type", "event").field(
            "event",
            body,
        ).done(),
    )
}

/// An area as the API shows it.
pub open spec fn area_json(a: AreaModel) -> JsonView {
    JsonView::Object(
        json::no_members().push(("area_id"@, JsonView::Str(a.area_id))).push(
            ("name"@, JsonView::Str(a.name)),
        ).push(("aliases"@, json::strings_json(a.aliases))).push(
            ("labels"@, JsonView::Array(Seq::empty())),
        ).push(("floor_id"@, json::opt_str_json(a.floor_id))).push(
            ("icon"@, json::opt_str_json(a.icon)),
        ).push(("picture"@, json::opt_str_json(a.picture))),
    )
}

impl ToJson for StoredArea {
    open spec fn json(&self) -> JsonView {
        area_json(self@)
    }

    fn to_json(&self) -> (r: Json) {
        ObjectBuilder::new().text("area_id", self.area_id.as_str()).text(
            "name",
            self.name.as_str(),
        ).field("aliases", Json::strings(&self.aliases)).field("labels", empty_array()).field(
            "floor_id",
            Json::opt_str(&self.floor_id),
        ).field("icon", Json::opt_str(&self.icon)).field(
            "picture",
            Json::opt_str(&self.picture),
        ).done()
    }
}

impl ToJson for StoredZone {
    /// A zone as the API shows it.
    open spec fn json(&self) -> JsonView {
        JsonView::Object(
            json::no_members().push(("id"@, JsonView::Str(self.zone_id@))).push(
                ("name"@, JsonView::Str(self.name@)),
            ).push(("latitude"@, zone_store::opt_real_json(self.latitude.deep_view()))).push(
                ("longitude"@, zone_store::opt_real_json(self.longitude.deep_view())),
            ).push(("radius"@, JsonView::Float(self.radius@))).push(
                ("passive"@, JsonView::Bool(self.passive)),
            ).push(("icon"@, json::opt_str_json(self.icon.deep_view()))),
        )
    }

    fn to_json(&self) -> (r: Json) {
        let metres: Json = Json::Float(self.radius.clone());
        assert(metres@ == JsonView::Float(self.radius@));
        ObjectBuilder::new().text("id", self.zone_id.as_str()).text("name", self.name.as_str()).field(
            "latitude",
            opt_real(&self.latitude),
        ).field("longitude", opt_real(&self.longitude)).field("radius", metres).field(
            "passive",
            Json::Bool(self.passive),
        ).field("icon", Json::opt_str(&self.icon)).done()
    }
}

impl ToJson for MobileDeviceRecord {
    /// A device as the API shows it.
    open spec fn json(&self) -> JsonView {
        JsonView::Object(
            json::no_members().push(("id"@, JsonView::Str(self.webhook_id@))).push(
                ("config_entries"@, JsonView::Array(Seq::empty())),
            ).push(("config_entries_subentries"@, JsonView::Object(json::no_members()))).push(
                ("connections"@, JsonView::Array(Seq::empty())),
            ).push(("created_at"@, JsonView::Float("0.0"@))).push(
                ("entry_type"@, JsonView::Str("service"@)),
            ).push(
                (
                    "identifiers"@,
                    JsonView::Array(
                        Seq::empty().push(
                            JsonView::Array(
                                Seq::empty().push(JsonView::Str("mobile_app"@)).push(
                                    JsonView::Str(self.webhook_id@),
                                ),
                            ),
                        ),
                    ),
                ),
            ).push(("labels"@, JsonView::Array(Seq::empty()))).push(
                ("modified_at"@, JsonView::Float("0.0"@)),
            ).push(("name"@, JsonView::Str(self.device_name@))).push(
                ("manufacturer"@, JsonView::Str(self.manufacturer@)),
            ).push(("model"@, JsonView::Str(self.model@))).push(
                ("sw_version"@, json::opt_str_json(self.os_version.deep_view())),
            ).push(("name_by_user"@, JsonView::Null)).push(("area_id"@, JsonView::Null)).push(
                ("configuration_url"@, JsonView::Null),
            ).push(("disabled_by"@, JsonView::Null)).push(("hw_version"@, JsonView::Null)).push(
                ("model_id"@, JsonView::Null),
            ).push(("primary_config_entry"@, JsonView::Null)).push(
                ("serial_number"@, JsonView::Null),
            ).push(("via_device_id"@, JsonView::Null)),
        )
    }

    fn to_json(&self) -> (r: Json) {
        let identifier: Json = array_two(Json::str("mobile_app"), Json::str(self.webhook_id.as_str()));
        ObjectBuilder::new().text("id", self.webhook_id.as_str()).field(
            "config_entries",
            empty_array(),
        ).field("config_entries_subentries", empty_object()).field(
            "connections",
            empty_array(),
        ).field("created_at", zero()).text("entry_type", "service").field(
            "identifiers",
            array_one(identifier),
        ).field("labels", empty_array()).field("modified_at", zero()).text(
            "name",
            self.device_name.as_str(),
        ).text("manufacturer", self.manufacturer.as_str()).text("model", self.model.as_str()).field(
            "sw_version",
            Json::opt_str(&self.os_version),
        ).field("name_by_user", Json::Null).field("area_id", Json::Null).field(
            "configuration_url",
            Json::Null,
        ).field("disabled_by", Json::Null).field("hw_version", Json::Null).field(
            "model_id",
            Json::Null,
        ).field("primary_config_entry", Json::Null).field("serial_number", Json::Null).field(
            "via_device_id",
            Json::Null,
        ).done()
    }
}

fn zero() -> (r: Json)
    ensures
        r@ == JsonView::Float("0.0"@),
{
    Json::Float("0.0".to_owned())
}

fn array_one(a: Json) -> (r: Json)
    ensures
        r@ == JsonView::Array(Seq::empty().push(a@)),
{
    let mut v: Vec<Json> = Vec::new();
    v.push(a);
    proof {
        json::lemma_items_view(v@);
        assert(json::items_view(v@) =~= Seq::empty().push(a@));
    }
    Json::Array(v)
}

fn array_two(a: Json, b: Json) -> (r: Json)
    ensures
        r@ == JsonView::Array(Seq::empty().push(a@).push(b@)),
{
    let mut v: Vec<Json> = Vec::new();
    v.push(a);
    v.push(b);
    proof {
        json::lemma_items_view(v@);
        assert(json::items_view(v@) =~= Seq::empty().push(a@).push(b@));
    }
    Json::Array(v)
}

/// The device of an entity: the id that the device gives, or else its webhook.
pub open spec fn device_of(
    devices: Seq<MobileDeviceRecord>,
    e: MobileEntityRecord,
) -> Seq<char> {
    match keyed::key_get(devices, e.webhook_id@) {
        Some(d) => match d.device_id {
            Some(id) => id@,
            None => e.webhook_id@,
        },
        None => e.webhook_id@,
    }
}

fn find_device_of(devices: &Vec<MobileDeviceRecord>, e: &MobileEntityRecord) -> (r: String)
    ensures
        r@ == device_of(devices@, *e),
{
    match position(devices, e.webhook_id.as_str()) {
        Some(i) => match &devices[i].device_id {
            Some(id) => id.clone(),
            None => e.webhook_id.clone(),
        },
        None => e.webhook_id.clone(),
    }
}

/// Who has disabled an entity, if anybody has.
pub open spec fn disabled_by(disabled: bool) -> JsonView {
    if disabled {
        JsonView::Str("user"@)
    } else {
        JsonView::Null
    }
}

fn disabled_by_json(disabled: bool) -> (r: Json)
    ensures
        r@ == disabled_by(disabled),
{
    if disabled {
        Json::str("user")
    } else {
        Json::Null
    }
}

/// An entity as the API shows it.
pub open spec fn entity_json(e: MobileEntityRecord, device_id: Seq<char>) -> JsonView {
    JsonView::Object(
        json::no_members().push(("entity_id"@, JsonView::Str(e.entity_id@))).push(
            ("name"@, json::opt_str_json(e.name_by_user.deep_view())),
        ).push(("original_name"@, JsonView::Str(e.sensor_name@))).push(
            ("platform"@, JsonView::Str("mobile_app"@)),
        ).push(("device_id"@, JsonView::Str(device_id))).push(
            ("area_id"@, json::opt_str_json(e.user_area_id.deep_view())),
        ).push(("disabled_by"@, disabled_by(e.disabled))).push(("hidden_by"@, JsonView::Null)).push(
            ("aliases"@, JsonView::Array(Seq::empty())),
        ).push(("labels"@, JsonView::Array(Seq::empty()))).push(
            ("config_entry_id"@, JsonView::Str(e.webhook_id@)),
        ).push(("unique_id"@, JsonView::Str(e.sensor_unique_id@))).push(
            ("icon"@, json::opt_str_json(e.icon.deep_view())),
        ).push(("entity_category"@, json::opt_str_json(e.entity_category.deep_view()))),
    )
}

fn entity_entry(e: &MobileEntityRecord, device_id: &str) -> (r: Json)
    ensures
        r@ == entity_json(*e, device_id@),
{
    ObjectBuilder::new().text("entity_id", e.entity_id.as_str()).field(
        "name",
        Json::opt_str(&e.name_by_user),
    ).text("original_name", e.sensor_name.as_str()).text("platform", "mobile_app").text(
        "device_id",
        device_id,
    ).field("area_id", Json::opt_str(&e.user_area_id)).field(
        "disabled_by",
        disabled_by_json(e.disabled),
    ).field("hidden_by", Json::Null).field("aliases", empty_array()).field(
        "labels",
        empty_array(),
    ).text("config_entry_id", e.webhook_id.as_str()).text(
        "unique_id",
        e.sensor_unique_id.as_str(),
    ).field("icon", Json::opt_str(&e.icon)).field(
        "entity_category",
        Json::opt_str(&e.entity_category),
    ).done()
}

/// An entity as the API shows it in short.
pub open spec fn short_entity_json(e: MobileEntityRecord, device_id: Seq<char>) -> JsonView {
    JsonView::Object(
        json::no_members().push(("ei"@, JsonView::Str(e.entity_id@))).push(
            ("n"@, JsonView::Str(e.shown_name())),
        ).push(("di"@, JsonView::Str(device_id))).push(("pl"@, JsonView::Str("mobile_app"@))).push(
            ("ai"@, json::opt_str_json(e.user_area_id.deep_view())),
        ).push(("dp"@, json::opt_str_json(e.device_class.deep_view()))).push(
            ("lb"@, JsonView::Array(Seq::empty())),
        ).push(("hb"@, JsonView::Null)).push(("db"@, disabled_by(e.disabled))).push(
            ("ic"@, json::opt_str_json(e.icon.deep_view())),
        ).push(("ec"@, json::opt_str_json(e.entity_category.deep_view()))),
    )
}

fn short_entity_entry(e: &MobileEntityRecord, device_id: &str) -> (r: Json)
    ensures
        r@ == short_entity_json(*e, device_id@),
{
    ObjectBuilder::new().text("ei", e.entity_id.as_str()).text("n", e.display_name()).text(
        "di",
        device_id,
    ).text("pl", "mobile_app").field("ai", Json::opt_str(&e.user_area_id)).field(
        "dp",
        Json::opt_str(&e.device_class),
    ).field("lb", empty_array()).field("hb", Json::Null).field(
        "db",
        disabled_by_json(e.disabled),
    ).field("ic", Json::opt_str(&e.icon)).field("ec", Json::opt_str(&e.entity_category)).done()
}

/// All entities as the API shows them, in short or not.
pub open spec fn entities_json(
    entities: Seq<MobileEntityRecord>,
    devices: Seq<MobileDeviceRecord>,
    short: bool,
) -> JsonView {
    JsonView::Array(
        Seq::new(
            entities.len(),
            |i: int|
                if short {
                    short_entity_json(entities[i], device_of(devices, entities[i]))
                } else {
                    entity_json(entities[i], device_of(devices, entities[i]))
                },
        ),
    )
}

fn entity_entries(
    entities: &Vec<MobileEntityRecord>,
    devices: &Vec<MobileDeviceRecord>,
    short: bool,
) -> (r: Json)
    ensures
        r@ == entities_json(entities@, devices@, short),
{
    let ghost want = Seq::new(
        entities@.len(),
        |i: int|
            if short {
                short_entity_json(entities@[i], device_of(devices@, entities@[i]))
            } else {
                entity_json(entities@[i], device_of(devices@, entities@[i]))
            },
    );
    let mut out: Vec<Json> = Vec::new();
    let mut i: usize = 0;
    while i < entities.len()
        invariant
            i <= entities.len(),
            want == Seq::new(
                entities@.len(),
                |i: int|
                    if short {
                        short_entity_json(entities@[i], device_of(devices@, entities@[i]))
                    } else {
                        entity_json(entities@[i], device_of(devices@, entities@[i]))
                    },
            ),
            out@.len() == i,
            forall|k: int| 0 <= k < i ==> (#[trigger] out@[k])@ == want[k],
        decreases entities.len() - i,
    {
        let device_id: String = find_device_of(devices, &entities[i]);
        out.push(
            if short {
                short_entity_entry(&entities[i], device_id.as_str())
            } else {
                entity_entry(&entities[i], device_id.as_str())
            },
        );
        i += 1;
    }
    proof {
        json::lemma_items_view(out@);
        assert(json::items_view(out@) =~= want);
    }
    Json::Array(out)
}

/// A service field as the API shows it.
pub open spec fn field_json(f: FieldModel) -> JsonView {
    JsonView::Object(
        json::no_members().push(("required"@, JsonView::Bool(f.1))).push(
            (
                "selector"@,
                match f.2 {
                    Some(j) => j,
                    None => JsonView::Null,
                },
            ),
        ),
    )
}

/// A service as the API shows it.
pub open spec fn service_json(s: DescriptionModel) -> JsonView {
    JsonView::Object(
        json::no_members().push(("name"@, JsonView::Str(s.name))).push(
            ("description"@, JsonView::Str(s.description)),
        ).push(
            (
                "fields"@,
                JsonView::Object(
                    Seq::new(s.fields.len(), |i: int| (s.fields[i].0, field_json(s.fields[i]))),
                ),
            ),
        ),
    )
}

/// The services of a domain as the API shows them.
pub open spec fn domain_json(d: DomainModel) -> JsonView {
    JsonView::Object(Seq::new(d.1.len(), |i: int| (d.1[i].service, service_json(d.1[i]))))
}

/// All services as the API shows them, by domain.
pub open spec fn services_json(s: Seq<DomainModel>) -> JsonView {
    JsonView::Object(Seq::new(s.len(), |i: int| (s[i].0, domain_json(s[i]))))
}

fn fields_object(fields: &Vec<ServiceFieldView>) -> (r: Json)
    ensures
        ({
            let m = fields@.map_values(|f: ServiceFieldView| f@);
            r@ == JsonView::Object(Seq::new(m.len(), |i: int| (m[i].0, field_json(m[i]))))
        }),
{
    let ghost m = fields@.map_values(|f: ServiceFieldView| f@);
    let mut out: Vec<(String, Json)> = Vec::new();
    let mut i: usize = 0;
    while i < fields.len()
        invariant
            i <= fields.len(),
            m == fields@.map_values(|f: ServiceFieldView| f@),
            out@.len() == i,
            forall|k: int|
                0 <= k < i ==> ((#[trigger] out@[k]).0@, out@[k].1@) == (m[k].0, field_json(m[k])),
        decreases fields.len() - i,
    {
        let f: &ServiceFieldView = &fields[i];
        let selector: Json = match &f.selector {
            Some(j) => copy_json(j),
            None => Json::Null,
        };
        let item: Json = ObjectBuilder::new().field("required", Json::Bool(f.required)).field(
            "selector",
            selector,
        ).done();
        assert(m[i as int] == f@);
        out.push((f.field.clone(), item));
        i += 1;
    }
    proof {
        json::lemma_members_view(out@);
        assert(json::members_view(out@) =~= Seq::new(m.len(), |i: int| (m[i].0, field_json(m[i]))));
    }
    Json::Object(out)
}

fn services_object(services: &Vec<ServiceDescriptorView>) -> (r: Json)
    ensures
        ({
            let m = services@.map_values(|s: ServiceDescriptorView| s@);
            r@ == JsonView::Object(Seq::new(m.len(), |i: int| (m[i].service, service_json(m[i]))))
        }),
{
    let ghost m = services@.map_values(|s: ServiceDescriptorView| s@);
    let mut out: Vec<(String, Json)> = Vec::new();
    let mut i: usize = 0;
    while i < services.len()
        invariant
            i <= services.len(),
            m == services@.map_values(|s: ServiceDescriptorView| s@),
            out@.len() == i,
            forall|k: int|
                0 <= k < i ==> ((#[trigger] out@[k]).0@, out@[k].1@) == (
                    m[k].service,
                    service_json(m[k]),
                ),
        decreases services.len() - i,
    {
        let s: &ServiceDescriptorView = &services[i];
        assert(m[i as int] == s@);
        let fields: Json = fields_object(&s.fields);
        let item: Json = ObjectBuilder::new().text("name", s.name.as_str()).text(
            "description",
            s.description.as_str(),
        ).field("fields", fields).done();
        out.push((s.service.clone(), item));
        i += 1;
    }
    proof {
        json::lemma_members_view(out@);
        assert(json::members_view(out@) =~= Seq::new(
            m.len(),
            |i: int| (m[i].service, service_json(m[i])),
        ));
    }
    Json::Object(out)
}

fn catalog_object(catalog: &Vec<ServiceDomainCatalog>) -> (r: Json)
    ensures
        r@ == services_json(catalog@.map_values(|d: ServiceDomainCatalog| d@)),
{
    let ghost m = catalog@.map_values(|d: ServiceDomainCatalog| d@);
    let mut out: Vec<(String, Json)> = Vec::new();
    let mut i: usize = 0;
    while i < catalog.len()
        invariant
            i <= catalog.len(),
            m == catalog@.map_values(|d: ServiceDomainCatalog| d@),
            out@.len() == i,
            forall|k: int|
                0 <= k < i ==> ((#[trigger] out@[k]).0@, out@[k].1@) == (m[k].0, domain_json(m[k])),
        decreases catalog.len() - i,
    {
        let d: &ServiceDomainCatalog = &catalog[i];
        assert(m[i as int] == d@);
        out.push((d.domain.clone(), services_object(&d.services)));
        i += 1;
    }
    proof {
        json::lemma_members_view(out@);
        assert(json::members_view(out@) =~= Seq::new(m.len(), |i: int| (m[i].0, domain_json(m[i]))));
    }
    Json::Object(out)
}

/// A request to call a service.
pub struct CallServiceRequest {
    pub domain: String,
    pub service: String,
    pub service_data: Vec<(String, Json)>,
    pub target: Option<Json>,
    pub return_response: bool,
}

/// The error that a request is not well formed.
pub open spec fn invalid_format_json(message: Seq<char>) -> JsonView {
    JsonView::Object(
        json::no_members().push(("code"@, JsonView::Str("invalid_format"@))).push(
            ("message"@, JsonView::Str(message)),
        ),
    )
}

/// What the server says to a service call that gave a result. A response is told only where one
/// was asked for.
pub open spec fn call_answer(
    id: u64,
    request: CallServiceRequest,
    res: Result<ServiceOutcome, ServiceError>,
) -> JsonView {
    match res {
        Ok(outcome) => {
            let context = json::no_members().push(
                ("context"@, ha_api::context_json(outcome.context@)),
            );
            ok_json(
                id,
                JsonView::Object(
                    if request.return_response {
                        context.push(
                            (
                                "response"@,
                                match outcome.response {
                                    Some(j) => j@,
                                    None => JsonView::Null,
                                },
                            ),
                        )
                    } else {
                        context
                    },
                ),
            )
        },
        Err(ServiceError::NotFound { .. }) => err_value_json(
            id,
            (ServiceError::NotFound { domain: request.domain, service: request.service }).json(),
        ),
        Err(ServiceError::InvalidFormat(_)) | Err(ServiceError::ServiceValidation(_)) =>
            err_value_json(id, invalid_format_json("target must include entity_id"@)),
        Err(_) => err_json(id, "internal_error"@, "Service call failed"@),
    }
}

/// Whether a call is the one that a request asks for.
pub open spec fn is_call(
    call: ServiceCall,
    request: CallServiceRequest,
    entity_ids: Seq<Seq<char>>,
    device_ids: Seq<Seq<char>>,
    brightness: Option<int>,
) -> bool {
    &&& call.domain@ == request.domain@
    &&& call.service@ == request.service@
    &&& call.target.entity_ids.deep_view() == entity_ids
    &&& call.target.device_ids.deep_view() == device_ids
    &&& match brightness {
        Some(n) => call.data.brightness == Some(n as i64),
        None => call.data.brightness is None,
    }
    &&& call.return_response == request.return_response
}

/// Whether a call has been carried out and answered.
pub open spec fn call_carried_out(
    id: u64,
    request: CallServiceRequest,
    call: ServiceCall,
    res: Result<ServiceOutcome, ServiceError>,
    before: StateRun,
    after: StateRun,
    r: JsonView,
) -> bool {
    service::call_result(before, after, call, res) && r == call_answer(id, request, res)
}

/// What a request to call a service returns and does to the states.
pub open spec fn call_service_result(
    id: u64,
    request: Result<CallServiceRequest, String>,
    before: StateRun,
    after: StateRun,
    r: JsonView,
) -> bool {
    match request {
        Err(e) => after == before && r == err_value_json(
            id,
            invalid_format_json("Invalid call_service payload: "@ + e@),
        ),
        Ok(req) => {
            let data = json::members_view(req.service_data@);
            match service::target_from_parts(service::opt_json(req.target), Some(data)) {
                Err(m) => after == before && r == err_value_json(id, invalid_format_json(m)),
                Ok((entity_ids, device_ids)) => match service::brightness_of(data) {
                    Err(m) => after == before && r == err_value_json(id, invalid_format_json(m)),
                    Ok(brightness) => exists|
                        call: ServiceCall,
                        res: Result<ServiceOutcome, ServiceError>,
                    |
                        is_call(call, req, entity_ids, device_ids, brightness)
                            && #[trigger] call_carried_out(id, req, call, res, before, after, r),
                },
            }
        },
    }
}

/// How a command is carried out: at once, from live values.
pub fn default_operation_meta(id: u64) -> (r: OperationMeta)
    ensures
        r == (OperationMeta {
            request_id: (id % 0x1_0000_0000) as u32,
            consistency: Consistency::LivePreferred,
            deadline: DeadlineClass::Interactive,
            allow_cached: true,
            allow_deferred: false,
        }),
{
    OperationMeta {
        request_id: (id % 0x1_0000_0000) as u32,
        consistency: Consistency::LivePreferred,
        deadline: DeadlineClass::Interactive,
        allow_cached: true,
        allow_deferred: false,
    }
}

/// Calls a service, from a request or from what is wrong with it.
pub fn call_service(
    id: u64,
    request: Result<CallServiceRequest, String>,
    core: &AppCore,
    config: &AppConfig,
    services: &ServiceRegistry,
    states: &mut StateStore,
    events: &mut Vec<StateEvent>,
) -> (r: Json)
    ensures
        call_service_result(
            id,
            request,
            state_store::run_of(*old(states), old(events)@),
            state_store::run_of(*final(states), final(events)@),
            r@,
        ),
        old(states).wf() ==> final(states).wf(),
{
    let req: CallServiceRequest = match request {
        Ok(req) => req,
        Err(e) => {
            let m: String = concat("Invalid call_service payload: ", e.as_str());
            return result_err_value(id, ServiceError::InvalidFormat(m).as_json());
        },
    };
    let target_json: Option<&Json> = match &req.target {
        Some(t) => Some(t),
        None => None,
    };
    let target: ServiceTarget = match ServiceTarget::from_parts(
        target_json,
        Some(&req.service_data),
    ) {
        Ok(t) => t,
        Err(e) => {
            return result_err_value(id, e.as_json());
        },
    };
    let data: ServiceData = match ServiceData::from_json(&req.service_data) {
        Ok(d) => d,
        Err(e) => {
            return result_err_value(id, e.as_json());
        },
    };
    let call: ServiceCall = ServiceCall {
        domain: req.domain.clone(),
        service: req.service.clone(),
        target,
        data,
        return_response: req.return_response,
    };
    let ghost call0 = call;
    let ghost before = state_store::run_of(*states, events@);
    let mut meta: OperationMeta = default_operation_meta(id);
    meta.allow_deferred = req.return_response;
    let result: OperationResult = core.execute(
        config,
        states,
        events,
        services,
        OperationRequest::CallService { call, meta },
    );
    let ghost after = state_store::run_of(*states, events@);
    let ghost res = choose|res: Result<ServiceOutcome, ServiceError>| #[trigger]
        service::call_result(before, after, call0, res) && app_core::reported(res, result);
    let return_response: bool = req.return_response;
    let ghost req0 = req;
    let r: Json = match result {
        OperationResult::ServiceCallCompleted(outcome) => {
            let b: ObjectBuilder = ObjectBuilder::new().field("context", outcome.context.to_json());
            let body: Json = if return_response {
                let response: Json = match outcome.response {
                    Some(j) => j,
                    None => Json::Null,
                };
                b.field("response", response).done()
            } else {
                b.done()
            };
            result_ok(id, body)
        },
        OperationResult::Error(OperationError::NotFound) => result_err_value(
            id,
            (ServiceError::NotFound { domain: req.domain, service: req.service }).as_json(),
        ),
        OperationResult::Error(OperationError::InvalidRequest) => result_err_value(
            id,
            ServiceError::InvalidFormat("target must include entity_id".to_owned()).as_json(),
        ),
        _ => result_err(id, "internal_error", "Service call failed"),
    };
    assert(call_carried_out(id, req0, call0, res, before, after, r@));
    r
}

/// The page that holds everything.
fn whole_page(core: &AppCore, include_attributes: bool) -> (r: PageRequest)
    ensures
        r.cursor is None,
        r.limit == app_core::policy_of(core.mode()).max_page_size,
{
    PageRequest { limit: core.transport_policy().max_page_size, cursor: None, include_attributes }
}

/// Answers with all states.
pub fn get_states(
    id: u64,
    core: &AppCore,
    config: &AppConfig,
    services: &ServiceRegistry,
    states: &mut StateStore,
) -> (r: Json)
    ensures
        r@ == ok_json(id, json::array_of(old(states).states@)),
        *final(states) == *old(states),
{
    let mut told: Vec<StateEvent> = Vec::new();
    let result: OperationResult = core.execute(
        config,
        states,
        &mut told,
        services,
        OperationRequest::ListEntityStates {
            page: whole_page(core, true),
            filter: StateFilter {
                domain: DomainKind::Any,
                changed_since: None,
                include_attributes: true,
            },
            meta: default_operation_meta(id),
        },
    );
    match result {
        OperationResult::EntityStates(all) => {
            assert(json::array_of(all@) == json::array_of(old(states).states@)) by {
                assert(Seq::new(all@.len(), |i: int| all@[i].json()) =~= Seq::new(
                    old(states).states@.len(),
                    |i: int| old(states).states@[i].json(),
                ));
            }
            result_ok(id, to_array(&all))
        },
        _ => result_err(id, "internal_error", "Failed to fetch states"),
    }
}

/// Answers with the configuration.
pub fn get_config(
    id: u64,
    core: &AppCore,
    config: &AppConfig,
    services: &ServiceRegistry,
    states: &mut StateStore,
) -> (r: Json)
    ensures
        r@ == ok_json(
            id,
            ha_api::config_json(app_core::api_config_model(config.ui.product_name@)),
        ),
        *final(states) == *old(states),
{
    let mut told: Vec<StateEvent> = Vec::new();
    match core.execute(config, states, &mut told, services, OperationRequest::GetConfigSummary) {
        OperationResult::ConfigSummary(cfg) => result_ok(id, cfg.to_json()),
        _ => result_err(id, "internal_error", "Failed to fetch config"),
    }
}

/// Answers with all services.
pub fn get_services(
    id: u64,
    core: &AppCore,
    config: &AppConfig,
    services: &ServiceRegistry,
    states: &mut StateStore,
) -> (r: Json)
    ensures
        r@ == ok_json(id, services_json(service::service_catalog())),
        *final(states) == *old(states),
{
    let mut told: Vec<StateEvent> = Vec::new();
    match core.execute(
        config,
        states,
        &mut told,
        services,
        OperationRequest::ListServices {
            page: whole_page(core, false),
            meta: default_operation_meta(id),
        },
    ) {
        OperationResult::ServiceCatalog(catalog) => result_ok(id, catalog_object(&catalog)),
        _ => result_err(id, "internal_error", "Failed to fetch services"),
    }
}

/// What is to be done beside answering.
pub enum WsAction {
    Nothing,
    /// Tell the connection of states, first of all and then of those that change.
    SubscribeEntities,
    /// Tell the connection of events, of one type or of all.
    SubscribeEvents(Option<String>),
    /// End a subscription.
    Unsubscribe(u64),
    /// Store the areas.
    SaveAreas,
    /// Store the zones.
    SaveZones,
}

/// A member that is given: a string, or anything else for none.
pub open spec fn given_text(extra: JsonView, name: Seq<char>) -> Option<Option<Seq<char>>> {
    match extra.field(name) {
        Some(JsonView::Str(s)) => Some(Some(s)),
        Some(_) => Some(None),
        None => None,
    }
}

fn get_given_text(extra: &Json, name: &str) -> (r: Option<Option<String>>)
    ensures
        r.deep_view() == given_text(extra@, name@),
{
    match extra.get(name) {
        Some(j) => match j.as_str() {
            Some(s) => Some(Some(s.to_owned())),
            None => Some(None),
        },
        None => None,
    }
}

fn get_text_field(extra: &Json, name: &str) -> (r: Option<String>)
    ensures
        r.deep_view() == extra@.str_field(name@),
{
    match extra.get_str(name) {
        Some(s) => Some(s.to_owned()),
        None => None,
    }
}

/// A member that is a number.
pub open spec fn real_field(extra: JsonView, name: Seq<char>) -> Option<Seq<char>> {
    match extra.field(name) {
        Some(j) => json::real_of(j),
        None => None,
    }
}

fn get_real_field(extra: &Json, name: &str) -> (r: Option<Real>)
    ensures
        r.deep_view() == real_field(extra@, name@),
{
    match extra.get(name) {
        Some(j) => j.as_real(),
        None => None,
    }
}

/// A member that is given: a number, or anything else for none.
pub open spec fn given_real(extra: JsonView, name: Seq<char>) -> Option<Option<Seq<char>>> {
    match extra.field(name) {
        Some(j) => Some(json::real_of(j)),
        None => None,
    }
}

fn get_given_real(extra: &Json, name: &str) -> (r: Option<Option<Real>>)
    ensures
        r.deep_view() == given_real(extra@, name@),
{
    match extra.get(name) {
        Some(j) => Some(j.as_real()),
        None => None,
    }
}

/// A member that is true or false.
pub open spec fn bool_field(extra: JsonView, name: Seq<char>) -> Option<bool> {
    match extra.field(name) {
        Some(JsonView::Bool(b)) => Some(b),
        _ => None,
    }
}

fn get_bool_field(extra: &Json, name: &str) -> (r: Option<bool>)
    ensures
        r == bool_field(extra@, name@),
{
    match extra.get(name) {
        Some(j) => j.as_bool(),
        None => None,
    }
}

/// The strings of a member that is an array.
pub open spec fn texts_field(extra: JsonView, name: Seq<char>) -> Option<Seq<Seq<char>>> {
    match extra.field(name) {
        Some(JsonView::Array(a)) => Some(entity_view::texts_of(a)),
        _ => None,
    }
}

fn get_texts_field(extra: &Json, name: &str) -> (r: Option<Vec<String>>)
    ensures
        r.deep_view() == texts_field(extra@, name@),
{
    match extra.get(name) {
        Some(j) => match j {
            Json::Array(a) => Some(collect_texts(a)),
            _ => None,
        },
        None => None,
    }
}

/// The name in a request to make something: one that is not blank.
pub open spec fn new_name(extra: JsonView) -> Option<Seq<char>> {
    match extra.str_field("name"@) {
        Some(n) => if text::trimmed(n).len() > 0 {
            Some(n)
        } else {
            None
        },
        None => None,
    }
}

fn get_new_name(extra: &Json) -> (r: Option<String>)
    ensures
        r.deep_view() == new_name(extra@),
{
    match extra.get_str("name") {
        Some(n) => if trim(n).as_str().is_empty() {
            None
        } else {
            Some(n.to_owned())
        },
        None => None,
    }
}

/// What a request to make an area returns and does.
pub open spec fn area_create_result(
    id: u64,
    extra: JsonView,
    before: AreaRegistryStore,
    after: AreaRegistryStore,
    r: JsonView,
    action: WsAction,
) -> bool {
    match new_name(extra) {
        None => after == before && action == WsAction::Nothing && r == err_json(
            id,
            "invalid_format"@,
            "name is required"@,
        ),
        Some(name) => exists|area: AreaModel|
            {
                &&& ids::is_registry_id(
                    before.areas@,
                    text::slug_of(text::lowercased(name)),
                    area.area_id,
                )
                &&& area == area_registry_store::bare_area(area.area_id, name)
                &&& after.models() == before.models().push(area)
                &&& r == ok_json(id, #[trigger] area_json(area))
                &&& action == WsAction::SaveAreas
            },
    }
}

/// Makes an area.
pub fn area_create(id: u64, extra: &Json, areas: &mut AreaRegistryStore) -> (r: (Json, WsAction))
    ensures
        area_create_result(id, extra@, *old(areas), *final(areas), r.0@, r.1),
{
    let name: String = match get_new_name(extra) {
        Some(n) => n,
        None => {
            return (result_err(id, "invalid_format", "name is required"), WsAction::Nothing);
        },
    };
    let area: StoredArea = areas.create(name);
    let body: Json = area.to_json();
    assert(body@ == area_json(area@));
    (result_ok(id, body), WsAction::SaveAreas)
}

/// What a request to change an area returns and does.
pub open spec fn area_update_result(
    id: u64,
    extra: JsonView,
    before: AreaRegistryStore,
    after: AreaRegistryStore,
    r: JsonView,
    action: WsAction,
) -> bool {
    match extra.str_field("area_id"@) {
        None => after == before && action == WsAction::Nothing && r == err_json(
            id,
            "invalid_format"@,
            "area_id is required"@,
        ),
        Some(area_id) => match keyed::key_pos(before.areas@, area_id) {
            None => after == before && action == WsAction::Nothing && r == err_json(
                id,
                "not_found"@,
                "Area not found"@,
            ),
            Some(i) => {
                let area = area_registry_store::updated_area(
                    before.models()[i],
                    extra.str_field("name"@),
                    texts_field(extra, "aliases"@),
                    given_text(extra, "floor_id"@),
                    given_text(extra, "icon"@),
                    given_text(extra, "picture"@),
                );
                &&& after.models() == before.models().update(i, area)
                &&& r == ok_json(id, area_json(area))
                &&& action == WsAction::SaveAreas
            },
        },
    }
}

/// Changes an area.
pub fn area_update(id: u64, extra: &Json, areas: &mut AreaRegistryStore) -> (r: (Json, WsAction))
    ensures
        area_update_result(id, extra@, *old(areas), *final(areas), r.0@, r.1),
{
    let area_id: &str = match extra.get_str("area_id") {
        Some(v) => v,
        None => {
            return (result_err(id, "invalid_format", "area_id is required"), WsAction::Nothing);
        },
    };
    let updated: Option<StoredArea> = areas.update(
        area_id,
        get_text_field(extra, "name"),
        get_texts_field(extra, "aliases"),
        get_given_text(extra, "floor_id"),
        get_given_text(extra, "icon"),
        get_given_text(extra, "picture"),
    );
    match updated {
        Some(area) => (result_ok(id, area.to_json()), WsAction::SaveAreas),
        None => (result_err(id, "not_found", "Area not found"), WsAction::Nothing),
    }
}

/// What a request to remove an area returns and does.
pub open spec fn area_delete_result(
    id: u64,
    extra: JsonView,
    before: AreaRegistryStore,
    after: AreaRegistryStore,
    r: JsonView,
    action: WsAction,
) -> bool {
    match extra.str_field("area_id"@) {
        None => after == before && action == WsAction::Nothing && r == err_json(
            id,
            "invalid_format"@,
            "area_id is required"@,
        ),
        Some(area_id) => {
            &&& after.areas@ == keyed::without_key(before.areas@, area_id)
            &&& if keyed::key_pos(before.areas@, area_id) is Some {
                r == ok_json(id, JsonView::Null) && action == WsAction::SaveAreas
            } else {
                r == err_json(id, "not_found"@, "Area not found"@) && action == WsAction::Nothing
            }
        },
    }
}

/// Removes an area.
pub fn area_delete(id: u64, extra: &Json, areas: &mut AreaRegistryStore) -> (r: (Json, WsAction))
    ensures
        area_delete_result(id, extra@, *old(areas), *final(areas), r.0@, r.1),
{
    let area_id: &str = match extra.get_str("area_id") {
        Some(v) => v,
        None => {
            return (result_err(id, "invalid_format", "area_id is required"), WsAction::Nothing);
        },
    };
    if areas.delete(area_id) {
        (result_ok(id, Json::Null), WsAction::SaveAreas)
    } else {
        (result_err(id, "not_found", "Area not found"), WsAction::Nothing)
    }
}

/// Whether a zone is the one that a request asks to be made, but for its id.
pub open spec fn zone_asked(z: StoredZone, extra: JsonView, name: Seq<char>) -> bool {
    &&& z.name@ == name
    &&& z.latitude.deep_view() == real_field(extra, "latitude"@)
    &&& z.longitude.deep_view() == real_field(extra, "longitude"@)
    &&& z.radius@ == match real_field(extra, "radius"@) {
        Some(v) => v,
        None => zone_store::DEFAULT_RADIUS@,
    }
    &&& z.passive == match bool_field(extra, "passive"@) {
        Some(b) => b,
        None => false,
    }
    &&& z.icon.deep_view() == extra.str_field("icon"@)
}

/// What a request to make a zone returns and does.
pub open spec fn zone_create_result(
    id: u64,
    extra: JsonView,
    before: ZoneStore,
    after: ZoneStore,
    r: JsonView,
    action: WsAction,
) -> bool {
    match new_name(extra) {
        None => after == before && action == WsAction::Nothing && r == err_json(
            id,
            "invalid_format"@,
            "name is required"@,
        ),
        Some(name) => {
            let slug = text::slug_of(text::lowercased(name));
            if zone_store::blank_slug(slug) {
                after == before && action == WsAction::Nothing && r == err_json(
                    id,
                    "internal_error"@,
                    "Failed to create zone"@,
                )
            } else {
                exists|z: StoredZone|
                    {
                        &&& zone_store::is_zone_id(before.zones@, slug, z.zone_id@)
                        &&& zone_asked(z, extra, name)
                        &&& after.zones@ == before.zones@.push(z)
                        &&& r == ok_json(id, #[trigger] z.json())
                        &&& action == WsAction::SaveZones
                    }
            }
        },
    }
}

/// Makes a zone.
pub fn zone_create(id: u64, extra: &Json, zones: &mut ZoneStore) -> (r: (Json, WsAction))
    ensures
        zone_create_result(id, extra@, *old(zones), *final(zones), r.0@, r.1),
        old(zones).wf() ==> final(zones).wf(),
{
    let name: String = match get_new_name(extra) {
        Some(n) => n,
        None => {
            return (result_err(id, "invalid_format", "name is required"), WsAction::Nothing);
        },
    };
    let ghost asked = name@;
    match zones.create(
        name,
        get_real_field(extra, "latitude"),
        get_real_field(extra, "longitude"),
        get_real_field(extra, "radius"),
        get_bool_field(extra, "passive"),
        get_text_field(extra, "icon"),
    ) {
        Ok(zone) => {
            assert(zone_asked(zone, extra@, asked));
            (result_ok(id, zone.to_json()), WsAction::SaveZones)
        },
        Err(_) => (result_err(id, "internal_error", "Failed to create zone"), WsAction::Nothing),
    }
}

/// The zone that a request names.
pub open spec fn zone_named(extra: JsonView) -> Option<Seq<char>> {
    match extra.field("zone_id"@) {
        Some(JsonView::Str(s)) => Some(s),
        Some(_) => None,
        None => extra.str_field("id"@),
    }
}

fn get_zone_named(extra: &Json) -> (r: Option<String>)
    ensures
        r.deep_view() == zone_named(extra@),
{
    let found: Option<&str> = match extra.get("zone_id") {
        Some(j) => j.as_str(),
        None => extra.get_str("id"),
    };
    match found {
        Some(s) => Some(s.to_owned()),
        None => None,
    }
}

/// Whether a zone has changed as a request asks for. What is not given stays.
pub open spec fn zone_changed(before: StoredZone, after: StoredZone, extra: JsonView) -> bool {
    &&& after.zone_id == before.zone_id
    &&& after.name@ == match extra.str_field("name"@) {
        Some(v) => v,
        None => before.name@,
    }
    &&& after.latitude.deep_view() == match given_real(extra, "latitude"@) {
        Some(v) => v,
        None => before.latitude.deep_view(),
    }
    &&& after.longitude.deep_view() == match given_real(extra, "longitude"@) {
        Some(v) => v,
        None => before.longitude.deep_view(),
    }
    &&& after.radius@ == match real_field(extra, "radius"@) {
        Some(v) => v,
        None => before.radius@,
    }
    &&& after.passive == match bool_field(extra, "passive"@) {
        Some(v) => v,
        None => before.passive,
    }
    &&& after.icon.deep_view() == match given_text(extra, "icon"@) {
        Some(v) => v,
        None => before.icon.deep_view(),
    }
}

/// What a request to change a zone returns and does. The zone of the home cannot be changed.
pub open spec fn zone_update_result(
    id: u64,
    extra: JsonView,
    before: ZoneStore,
    after: ZoneStore,
    r: JsonView,
    action: WsAction,
) -> bool {
    match zone_named(extra) {
        None => after == before && action == WsAction::Nothing && r == err_json(
            id,
            "invalid_format"@,
            "zone_id is required"@,
        ),
        Some(zone_id) => if zone_id == "home"@ {
            after == before && action == WsAction::Nothing && r == err_json(
                id,
                "not_allowed"@,
                "zone.home cannot be edited through this API"@,
            )
        } else {
            match keyed::key_pos(before.zones@, zone_id) {
                None => after == before && action == WsAction::Nothing && r == err_json(
                    id,
                    "not_found"@,
                    "Zone not found"@,
                ),
                Some(i) => exists|z: StoredZone|
                    {
                        &&& zone_changed(before.zones@[i], z, extra)
                        &&& after.zones@ == before.zones@.update(i, z)
                        &&& r == ok_json(id, #[trigger] z.json())
                        &&& action == WsAction::SaveZones
                    },
            }
        },
    }
}

/// Changes a zone.
pub fn zone_update(id: u64, extra: &Json, zones: &mut ZoneStore) -> (r: (Json, WsAction))
    ensures
        zone_update_result(id, extra@, *old(zones), *final(zones), r.0@, r.1),
        old(zones).wf() ==> final(zones).wf(),
{
    let zone_id: String = match get_zone_named(extra) {
        Some(v) => v,
        None => {
            return (result_err(id, "invalid_format", "zone_id is required"), WsAction::Nothing);
        },
    };
    if str_eq(zone_id.as_str(), "home") {
        return (
            result_err(id, "not_allowed", "zone.home cannot be edited through this API"),
            WsAction::Nothing,
        );
    }
    let ghost before = zones.zones@;
    match zones.update(
        zone_id.as_str(),
        get_text_field(extra, "name"),
        get_given_real(extra, "latitude"),
        get_given_real(extra, "longitude"),
        get_real_field(extra, "radius"),
        get_bool_field(extra, "passive"),
        get_given_text(extra, "icon"),
    ) {
        Some(zone) => {
            assert(zone_changed(before[keyed::key_pos(before, zone_id@)->0], zone, extra@));
            (result_ok(id, zone.to_json()), WsAction::SaveZones)
        },
        None => (result_err(id, "not_found", "Zone not found"), WsAction::Nothing),
    }
}

/// What a request to remove a zone returns and does. The zone of the home cannot be removed.
pub open spec fn zone_delete_result(
    id: u64,
    extra: JsonView,
    before: ZoneStore,
    after: ZoneStore,
    r: JsonView,
    action: WsAction,
) -> bool {
    match zone_named(extra) {
        None => after == before && action == WsAction::Nothing && r == err_json(
            id,
            "invalid_format"@,
            "zone_id is required"@,
        ),
        Some(zone_id) => if zone_id == "home"@ {
            after == before && action == WsAction::Nothing && r == err_json(
                id,
                "not_allowed"@,
                "zone.home cannot be deleted"@,
            )
        } else {
            &&& after.zones@ == keyed::without_key(before.zones@, zone_id)
            &&& if keyed::key_pos(before.zones@, zone_id) is Some {
                r == ok_json(id, JsonView::Null) && action == WsAction::SaveZones
            } else {
                r == err_json(id, "not_found"@, "Zone not found"@) && action == WsAction::Nothing
            }
        },
    }
}

/// Removes a zone.
pub fn zone_delete(id: u64, extra: &Json, zones: &mut ZoneStore) -> (r: (Json, WsAction))
    ensures
        zone_delete_result(id, extra@, *old(zones), *final(zones), r.0@, r.1),
        old(zones).wf() ==> final(zones).wf(),
{
    let zone_id: String = match get_zone_named(extra) {
        Some(v) => v,
        None => {
            return (result_err(id, "invalid_format", "zone_id is required"), WsAction::Nothing);
        },
    };
    if str_eq(zone_id.as_str(), "home") {
        return (
            result_err(id, "not_allowed", "zone.home cannot be deleted"),
            WsAction::Nothing,
        );
    }
    if zones.delete(zone_id.as_str()) {
        (result_ok(id, Json::Null), WsAction::SaveZones)
    } else {
        (result_err(id, "not_found", "Zone not found"), WsAction::Nothing)
    }
}

/// The panels of the user interface.
pub open spec fn panels_json() -> JsonView {
    JsonView::Object(
        json::no_members().push(
            (
                "lovelace"@,
                JsonView::Object(
                    json::no_members().push(("component_name"@, JsonView::Str("lovelace"@))).push(
                        ("icon"@, JsonView::Null),
                    ).push(("title"@, JsonView::Null)).push(("config"@, JsonView::Null)).push(
                        ("url_path"@, JsonView::Str("lovelace"@)),
                    ).push(("require_admin"@, JsonView::Bool(false))).push(
                        ("show_in_sidebar"@, JsonView::Bool(true)),
                    ).push(("default_visible"@, JsonView::Bool(true))),
                ),
            ),
        ),
    )
}

fn panels() -> (r: Json)
    ensures
        r@ == panels_json(),
{
    let lovelace: Json = ObjectBuilder::new().text("component_name", "lovelace").field(
        "icon",
        Json::Null,
    ).field("title", Json::Null).field("config", Json::Null).text("url_path", "lovelace").field(
        "require_admin",
        Json::Bool(false),
    ).field("show_in_sidebar", Json::Bool(true)).field("default_visible", Json::Bool(true)).done();
    ObjectBuilder::new().field("lovelace", lovelace).done()
}

/// The themes of the user interface.
pub open spec fn themes_json() -> JsonView {
    JsonView::Object(
        json::no_members().push(("themes"@, JsonView::Object(json::no_members()))).push(
            ("default_theme"@, JsonView::Str("default"@)),
        ).push(("default_dark_theme"@, JsonView::Null)).push(("theme_color"@, JsonView::Null)),
    )
}

fn themes() -> (r: Json)
    ensures
        r@ == themes_json(),
{
    ObjectBuilder::new().field("themes", empty_object()).text("default_theme", "default").field(
        "default_dark_theme",
        Json::Null,
    ).field("theme_color", Json::Null).done()
}

/// What the user interface has stored: nothing.
pub open spec fn user_data_json() -> JsonView {
    JsonView::Object(json::no_members().push(("data"@, JsonView::Null)))
}

/// The dashboard: one empty view.
pub open spec fn lovelace_json() -> JsonView {
    JsonView::Object(
        json::no_members().push(
            (
                "views"@,
                JsonView::Array(
                    Seq::empty().push(
                        JsonView::Object(
                            json::no_members().push(("title"@, JsonView::Str("Home"@))).push(
                                ("path"@, JsonView::Str("home"@)),
                            ).push(("cards"@, JsonView::Array(Seq::empty()))),
                        ),
                    ),
                ),
            ),
        ),
    )
}

fn lovelace() -> (r: Json)
    ensures
        r@ == lovelace_json(),
{
    let view: Json = ObjectBuilder::new().text("title", "Home").text("path", "home").field(
        "cards",
        empty_array(),
    ).done();
    ObjectBuilder::new().field("views", array_one(view)).done()
}

/// The user of the connection: the owner, or a stand-in. The id is a fingerprint of the user
/// name, so that it stays the same.
pub open spec fn current_user_json(user: Option<StoredUser>) -> JsonView {
    let (name, username) = match user {
        Some(u) => (u.name@, u.username@),
        None => ("Admin"@, "admin"@),
    };
    JsonView::Object(
        json::no_members().push(
            ("id"@, JsonView::Str(hexadecimal(fnv(encode_utf8(username)) as nat))),
        ).push(("name"@, JsonView::Str(name))).push(("is_owner"@, JsonView::Bool(true))).push(
            ("is_admin"@, JsonView::Bool(true)),
        ).push(("system_generated"@, JsonView::Bool(false))).push(
            ("credentials"@, JsonView::Array(Seq::empty())),
        ).push(("mfa_modules"@, JsonView::Array(Seq::empty()))),
    )
}

/// The user of the connection.
pub fn current_user(user: &Option<StoredUser>) -> (r: Json)
    ensures
        r@ == current_user_json(*user),
{
    let (name, username): (&str, &str) = match user {
        Some(u) => (u.name.as_str(), u.username.as_str()),
        None => ("Admin", "admin"),
    };
    let id: String = hex_string(md5_hex(username.as_bytes()));
    ObjectBuilder::new().text("id", id.as_str()).text("name", name).field(
        "is_owner",
        Json::Bool(true),
    ).field("is_admin", Json::Bool(true)).field("system_generated", Json::Bool(false)).field(
        "credentials",
        empty_array(),
    ).field("mfa_modules", empty_array()).done()
}

/// What a command about subscriptions returns and does.
pub open spec fn unsubscribe_result(
    id: u64,
    extra: JsonView,
    before: Set<u64>,
    after: Set<u64>,
    r: JsonView,
    action: WsAction,
) -> bool {
    match extra.field("subscription"@) {
        Some(JsonView::PosInt(sub_id)) => if before.contains(sub_id) {
            after == before.remove(sub_id) && r == ok_json(id, JsonView::Null) && action
                == WsAction::Unsubscribe(sub_id)
        } else {
            after == before && r == err_json(id, "not_found"@, "Subscription not found."@) && action
                == WsAction::Nothing
        },
        _ => after == before && action == WsAction::Nothing && r == err_json(
            id,
            "invalid_format"@,
            "subscription must be a positive integer"@,
        ),
    }
}

/// Ends a subscription.
pub fn unsubscribe(id: u64, extra: &Json, subscriptions: &mut HashSet<u64>) -> (r: (Json, WsAction))
    ensures
        unsubscribe_result(id, extra@, old(subscriptions)@, final(subscriptions)@, r.0@, r.1),
{
    broadcast use vstd::std_specs::hash::group_hash_axioms;

    let sub_id: Option<u64> = match extra.get("subscription") {
        Some(j) => j.as_u64(),
        None => None,
    };
    match sub_id {
        Some(s) => if subscriptions.remove(&s) {
            (result_ok(id, Json::Null), WsAction::Unsubscribe(s))
        } else {
            assert(subscriptions@ =~= old(subscriptions)@);
            (result_err(id, "not_found", "Subscription not found."), WsAction::Nothing)
        },
        None => (
            result_err(id, "invalid_format", "subscription must be a positive integer"),
            WsAction::Nothing,
        ),
    }
}

/// What commands read. What could not be loaded is not there.
pub struct WsSource {
    pub core: AppCore,
    pub config: AppConfig,
    pub services: ServiceRegistry,
    pub devices: Option<Vec<MobileDeviceRecord>>,
    pub entities: Option<Vec<MobileEntityRecord>>,
    pub user: Option<StoredUser>,
    pub areas_loaded: bool,
    pub zones_loaded: bool,
}

/// What commands read and change, as a mathematical value.
pub struct WsModel {
    pub states: StateStore,
    /// The changes of states so far.
    pub events: Seq<StateEvent>,
    pub areas: AreaRegistryStore,
    pub zones: ZoneStore,
    pub subscriptions: Set<u64>,
}

/// What a command that finds no store, or cannot write one, says.
pub open spec fn storage_failure_text(msg_type: Seq<char>) -> Seq<char> {
    if msg_type == "config/device_registry/list"@ {
        "Failed to fetch device registry"@
    } else if msg_type == "config/area_registry/list"@ {
        "Failed to load area registry"@
    } else if msg_type == "config/area_registry/create"@ {
        "Failed to create area"@
    } else if msg_type == "config/area_registry/update"@ {
        "Failed to update area"@
    } else if msg_type == "config/area_registry/delete"@ {
        "Failed to delete area"@
    } else if msg_type == "zone/list"@ {
        "Failed to load zones"@
    } else if msg_type == "zone/create"@ {
        "Failed to create zone"@
    } else if msg_type == "zone/update"@ {
        "Failed to update zone"@
    } else if msg_type == "zone/delete"@ {
        "Failed to delete zone"@
    } else {
        "Failed to fetch entity registry"@
    }
}

/// The answer of a command that finds no store, or cannot write one.
pub fn storage_failure(id: u64, msg_type: &str) -> (r: Json)
    ensures
        r@ == err_json(id, "internal_error"@, storage_failure_text(msg_type@)),
{
    let message: &str = if str_eq(msg_type, "config/device_registry/list") {
        "Failed to fetch device registry"
    } else if str_eq(msg_type, "config/area_registry/list") {
        "Failed to load area registry"
    } else if str_eq(msg_type, "config/area_registry/create") {
        "Failed to create area"
    } else if str_eq(msg_type, "config/area_registry/update") {
        "Failed to update area"
    } else if str_eq(msg_type, "config/area_registry/delete") {
        "Failed to delete area"
    } else if str_eq(msg_type, "zone/list") {
        "Failed to load zones"
    } else if str_eq(msg_type, "zone/create") {
        "Failed to create zone"
    } else if str_eq(msg_type, "zone/update") {
        "Failed to update zone"
    } else if str_eq(msg_type, "zone/delete") {
        "Failed to delete zone"
    } else {
        "Failed to fetch entity registry"
    };
    result_err(id, "internal_error", message)
}

/// What the commands that change nothing answer; nothing for the others.
pub open spec fn query_answer(
    id: u64,
    msg_type: Seq<char>,
    source: WsSource,
    before: WsModel,
) -> Option<JsonView> {
    let failure = err_json(id, "internal_error"@, storage_failure_text(msg_type));
    if msg_type == "ping"@ {
        Some(pong_json(id))
    } else if msg_type == "get_states"@ {
        Some(ok_json(id, json::array_of(before.states.states@)))
    } else if msg_type == "get_config"@ {
        Some(
            ok_json(
                id,
                ha_api::config_json(app_core::api_config_model(source.config.ui.product_name@)),
            ),
        )
    } else if msg_type == "get_services"@ {
        Some(ok_json(id, services_json(service::service_catalog())))
    } else if msg_type == "config/device_registry/list"@ {
        Some(
            match source.devices {
                Some(devices) => ok_json(id, json::array_of(devices@)),
                None => failure,
            },
        )
    } else if msg_type == "auth/current_user"@ {
        Some(ok_json(id, current_user_json(source.user)))
    } else if msg_type == "get_panels"@ {
        Some(ok_json(id, panels_json()))
    } else if msg_type == "frontend/get_themes"@ {
        Some(ok_json(id, themes_json()))
    } else if msg_type == "frontend/get_user_data"@ {
        Some(ok_json(id, user_data_json()))
    } else if msg_type == "config/area_registry/list"@ {
        Some(
            if source.areas_loaded {
                ok_json(id, json::array_of(before.areas.areas@))
            } else {
                failure
            },
        )
    } else if msg_type == "zone/list"@ {
        Some(
            if source.zones_loaded {
                ok_json(
                    id,
                    JsonView::Object(
                        json::no_members().push(("items"@, json::array_of(before.zones.zones@))),
                    ),
                )
            } else {
                failure
            },
        )
    } else if msg_type == "config/entity_registry/list"@ {
        Some(
            match (source.entities, source.devices) {
                (Some(entities), Some(devices)) => ok_json(
                    id,
                    entities_json(entities@, devices@, false),
                ),
                _ => failure,
            },
        )
    } else if msg_type == "config/entity_registry/list_for_display"@ {
        Some(
            match (source.entities, source.devices) {
                (Some(entities), Some(devices)) => ok_json(
                    id,
                    JsonView::Object(
                        json::no_members().push(
                            ("entities"@, entities_json(entities@, devices@, true)),
                        ).push(("entity_categories"@, JsonView::Object(json::no_members()))),
                    ),
                ),
                _ => failure,
            },
        )
    } else if msg_type == "lovelace/config"@ {
        Some(ok_json(id, lovelace_json()))
    } else {
        None
    }
}

/// Answers the commands that change nothing.
fn answer_query(
    id: u64,
    msg_type: &str,
    source: &WsSource,
    states: &mut StateStore,
    areas: &AreaRegistryStore,
    zones: &ZoneStore,
    Ghost(before): Ghost<WsModel>,
) -> (r: Option<Json>)
    requires
        before.states == *old(states),
        before.areas == *areas,
        before.zones == *zones,
    ensures
        *final(states) == *old(states),
        match r {
            Some(j) => query_answer(id, msg_type@, *source, before) == Some(j@),
            None => query_answer(id, msg_type@, *source, before) is None,
        },
{
    if str_eq(msg_type, "ping") {
        Some(ObjectBuilder::new().field("id", Json::PosInt(id)).text("type", "pong").done())
    } else if str_eq(msg_type, "get_states") {
        Some(get_states(id, &source.core, &source.config, &source.services, states))
    } else if str_eq(msg_type, "get_config") {
        Some(get_config(id, &source.core, &source.config, &source.services, states))
    } else if str_eq(msg_type, "get_services") {
        Some(get_services(id, &source.core, &source.config, &source.services, states))
    } else if str_eq(msg_type, "config/device_registry/list") {
        match &source.devices {
            Some(devices) => Some(result_ok(id, to_array(devices))),
            None => Some(storage_failure(id, msg_type)),
        }
    } else if str_eq(msg_type, "auth/current_user") {
        Some(result_ok(id, current_user(&source.user)))
    } else if str_eq(msg_type, "get_panels") {
        Some(result_ok(id, panels()))
    } else if str_eq(msg_type, "frontend/get_themes") {
        Some(result_ok(id, themes()))
    } else if str_eq(msg_type, "frontend/get_user_data") {
        Some(result_ok(id, ObjectBuilder::new().field("data", Json::Null).done()))
    } else if str_eq(msg_type, "config/area_registry/list") {
        if source.areas_loaded {
            Some(result_ok(id, to_array(&areas.areas)))
        } else {
            Some(storage_failure(id, msg_type))
        }
    } else if str_eq(msg_type, "zone/list") {
        if source.zones_loaded {
            let items: Json = to_array(&zones.zones);
            Some(result_ok(id, ObjectBuilder::new().field("items", items).done()))
        } else {
            Some(storage_failure(id, msg_type))
        }
    } else if str_eq(msg_type, "config/entity_registry/list") {
        match (&source.entities, &source.devices) {
            (Some(entities), Some(devices)) => Some(
                result_ok(id, entity_entries(entities, devices, false)),
            ),
            _ => Some(storage_failure(id, msg_type)),
        }
    } else if str_eq(msg_type, "config/entity_registry/list_for_display") {
        match (&source.entities, &source.devices) {
            (Some(entities), Some(devices)) => {
                let list: Json = entity_entries(entities, devices, true);
                Some(
                    result_ok(
                        id,
                        ObjectBuilder::new().field("entities", list).field(
                            "entity_categories",
                            empty_object(),
                        ).done(),
                    ),
                )
            },
            _ => Some(storage_failure(id, msg_type)),
        }
    } else if str_eq(msg_type, "lovelace/config") {
        Some(result_ok(id, lovelace()))
    } else {
        None
    }
}

/// What a command returns and does.
pub open spec fn command_result(
    id: u64,
    msg_type: Seq<char>,
    extra: JsonView,
    call: Result<CallServiceRequest, String>,
    source: WsSource,
    before: WsModel,
    after: WsModel,
    r: JsonView,
    action: WsAction,
) -> bool {
    let failure = err_json(id, "internal_error"@, storage_failure_text(msg_type));
    let same_states = after.states == before.states && after.events == before.events;
    let same_areas = after.areas == before.areas;
    let same_zones = after.zones == before.zones;
    let same_subs = after.subscriptions == before.subscriptions;
    match query_answer(id, msg_type, source, before) {
        Some(j) => r == j && action == WsAction::Nothing && after == before,
        None => if msg_type == "call_service"@ {
            &&& call_service_result(
                id,
                call,
                state_store::run_of(before.states, before.events),
                state_store::run_of(after.states, after.events),
                r,
            )
            &&& action == WsAction::Nothing
            &&& same_areas && same_zones && same_subs
        } else if msg_type == "subscribe_entities"@ {
            &&& r == ok_json(id, JsonView::Null)
            &&& action == WsAction::SubscribeEntities
            &&& after.subscriptions == before.subscriptions.insert(id)
            &&& same_states && same_areas && same_zones
        } else if msg_type == "subscribe_events"@ {
            &&& r == ok_json(id, JsonView::Null)
            &&& action matches WsAction::SubscribeEvents(filter)
            &&& filter.deep_view() == extra.str_field("event_type"@)
            &&& after.subscriptions == before.subscriptions.insert(id)
            &&& same_states && same_areas && same_zones
        } else if msg_type == "unsubscribe_events"@ {
            &&& unsubscribe_result(
                id,
                extra,
                before.subscriptions,
                after.subscriptions,
                r,
                action,
            )
            &&& same_states && same_areas && same_zones
        } else if area_command(msg_type) {
            &&& same_states && same_zones && same_subs
            &&& if !source.areas_loaded && reaches_store(msg_type, extra) {
                same_areas && r == failure && action == WsAction::Nothing
            } else if msg_type == "config/area_registry/create"@ {
                area_create_result(id, extra, before.areas, after.areas, r, action)
            } else if msg_type == "config/area_registry/update"@ {
                area_update_result(id, extra, before.areas, after.areas, r, action)
            } else {
                area_delete_result(id, extra, before.areas, after.areas, r, action)
            }
        } else if zone_command(msg_type) {
            &&& same_states && same_areas && same_subs
            &&& if !source.zones_loaded && reaches_store(msg_type, extra) {
                same_zones && r == failure && action == WsAction::Nothing
            } else if msg_type == "zone/create"@ {
                zone_create_result(id, extra, before.zones, after.zones, r, action)
            } else if msg_type == "zone/update"@ {
                zone_update_result(id, extra, before.zones, after.zones, r, action)
            } else {
                zone_delete_result(id, extra, before.zones, after.zones, r, action)
            }
        } else {
            &&& r == err_json(id, "unknown_command"@, "Unknown command: "@ + msg_type)
            &&& action == WsAction::Nothing
            &&& after == before
        },
    }
}

/// Whether a command changes areas.
pub open spec fn area_command(msg_type: Seq<char>) -> bool {
    msg_type == "config/area_registry/create"@ || msg_type == "config/area_registry/update"@
        || msg_type == "config/area_registry/delete"@
}

/// Whether a command changes zones.
pub open spec fn zone_command(msg_type: Seq<char>) -> bool {
    msg_type == "zone/create"@ || msg_type == "zone/update"@ || msg_type == "zone/delete"@
}

/// Whether a command that changes areas or zones names what it needs, so that the store is used.
pub open spec fn reaches_store(msg_type: Seq<char>, extra: JsonView) -> bool {
    if msg_type == "config/area_registry/create"@ || msg_type == "zone/create"@ {
        new_name(extra) is Some
    } else if area_command(msg_type) {
        extra.str_field("area_id"@) is Some
    } else {
        zone_named(extra) matches Some(zone_id) && zone_id != "home"@
    }
}

fn needs_store(msg_type: &str, extra: &Json) -> (r: bool)
    ensures
        r == reaches_store(msg_type@, extra@),
{
    if str_eq(msg_type, "config/area_registry/create") || str_eq(msg_type, "zone/create") {
        get_new_name(extra).is_some()
    } else if str_eq(msg_type, "config/area_registry/update") || str_eq(
        msg_type,
        "config/area_registry/delete",
    ) {
        extra.get_str("area_id").is_some()
    } else {
        match get_zone_named(extra) {
            Some(zone_id) => !str_eq(zone_id.as_str(), "home"),
            None => false,
        }
    }
}

/// Carries out a command and answers it. A service call comes beside its parameters as a request,
/// or as what is wrong with it.
pub fn dispatch_command(
    id: u64,
    msg_type: &str,
    extra: &Json,
    call: Result<CallServiceRequest, String>,
    source: &WsSource,
    states: &mut StateStore,
    events: &mut Vec<StateEvent>,
    areas: &mut AreaRegistryStore,
    zones: &mut ZoneStore,
    subscriptions: &mut HashSet<u64>,
) -> (r: (Json, WsAction))
    ensures
        command_result(
            id,
            msg_type@,
            extra@,
            call,
            *source,
            WsModel {
                states: *old(states),
                events: old(events)@,
                areas: *old(areas),
                zones: *old(zones),
                subscriptions: old(subscriptions)@,
            },
            WsModel {
                states: *final(states),
                events: final(events)@,
                areas: *final(areas),
                zones: *final(zones),
                subscriptions: final(subscriptions)@,
            },
            r.0@,
            r.1,
        ),
        old(states).wf() ==> final(states).wf(),
        old(zones).wf() ==> final(zones).wf(),
{
    broadcast use vstd::std_specs::hash::group_hash_axioms;

    let ghost before = WsModel {
        states: *states,
        events: events@,
        areas: *areas,
        zones: *zones,
        subscriptions: subscriptions@,
    };
    if let Some(j) = answer_query(id, msg_type, source, states, areas, zones, Ghost(before)) {
        return (j, WsAction::Nothing);
    }
    if str_eq(msg_type, "call_service") {
        let r: Json = call_service(
            id,
            call,
            &source.core,
            &source.config,
            &source.services,
            states,
            events,
        );
        (r, WsAction::Nothing)
    } else if str_eq(msg_type, "subscribe_entities") {
        let _ = subscriptions.insert(id);
        (result_ok(id, Json::Null), WsAction::SubscribeEntities)
    } else if str_eq(msg_type, "subscribe_events") {
        let filter: Option<String> = get_text_field(extra, "event_type");
        let _ = subscriptions.insert(id);
        (result_ok(id, Json::Null), WsAction::SubscribeEvents(filter))
    } else if str_eq(msg_type, "unsubscribe_events") {
        unsubscribe(id, extra, subscriptions)
    } else if str_eq(msg_type, "config/area_registry/create") {
        if !source.areas_loaded && needs_store(msg_type, extra) {
            return (storage_failure(id, msg_type), WsAction::Nothing);
        }
        area_create(id, extra, areas)
    } else if str_eq(msg_type, "config/area_registry/update") {
        if !source.areas_loaded && needs_store(msg_type, extra) {
            return (storage_failure(id, msg_type), WsAction::Nothing);
        }
        area_update(id, extra, areas)
    } else if str_eq(msg_type, "config/area_registry/delete") {
        if !source.areas_loaded && needs_store(msg_type, extra) {
            return (storage_failure(id, msg_type), WsAction::Nothing);
        }
        area_delete(id, extra, areas)
    } else if str_eq(msg_type, "zone/create") {
        if !source.zones_loaded && needs_store(msg_type, extra) {
            return (storage_failure(id, msg_type), WsAction::Nothing);
        }
        zone_create(id, extra, zones)
    } else if str_eq(msg_type, "zone/update") {
        if !source.zones_loaded && needs_store(msg_type, extra) {
            return (storage_failure(id, msg_type), WsAction::Nothing);
        }
        zone_update(id, extra, zones)
    } else if str_eq(msg_type, "zone/delete") {
        if !source.zones_loaded && needs_store(msg_type, extra) {
            return (storage_failure(id, msg_type), WsAction::Nothing);
        }
        zone_delete(id, extra, zones)
    } else {
        let m: String = concat("Unknown command: ", msg_type);
        (result_err(id, "unknown_command", m.as_str()), WsAction::Nothing)
    }
}

/// Every command is answered once, under its id: with a pong, or with a result that says whether
/// it has succeeded. A command that only asks changes nothing, and states change by service calls
/// alone.
pub proof fn law_command_answered(
    id: u64,
    msg_type: Seq<char>,
    extra: JsonView,
    call: Result<CallServiceRequest, String>,
    source: WsSource,
    before: WsModel,
    after: WsModel,
    r: JsonView,
    action: WsAction,
)
    requires
        command_result(id, msg_type, extra, call, source, before, after, r, action),
    ensures
        r.field("id"@) == Some(JsonView::PosInt(id)),
        r.str_field("type"@) == Some(
            if msg_type == "ping"@ {
                "pong"@
            } else {
                "result"@
            },
        ),
        msg_type != "ping"@ ==> r.field("success"@) matches Some(JsonView::Bool(_)),
        query_answer(id, msg_type, source, before) is Some ==> after == before,
        msg_type != "call_service"@ ==> after.states == before.states && after.events
            == before.events,
{
    reveal_strlit("id");
    reveal_strlit("type");
    reveal_strlit("success");
    assert("id"@.len() == 2);
    assert("type"@.len() == 4);
    assert("success"@.len() == 7);
    if msg_type == "ping"@ {
        lemma_head(pong_json(id)->Object_0, id, "pong"@);
    } else {
        assert(exists|v: JsonView| r == ok_json(id, v) || r == err_value_json(id, v)) by {
            lemma_answer_form(id, msg_type, extra, call, source, before, after, r, action);
        }
        let v = choose|v: JsonView| r == ok_json(id, v) || r == err_value_json(id, v);
        lemma_head(r->Object_0, id, "result"@);
        reveal_with_fuel(json::member_from, 4);
    }
}

proof fn lemma_head(m: Members, id: u64, kind: Seq<char>)
    requires
        m.len() >= 2,
        m[0] == ("id"@, JsonView::PosInt(id)),
        m[1] == ("type"@, JsonView::Str(kind)),
    ensures
        json::member(m, "id"@) == Some(JsonView::PosInt(id)),
        json::member(m, "type"@) == Some(JsonView::Str(kind)),
{
    reveal_strlit("id");
    reveal_strlit("type");
    assert("id"@.len() != "type"@.len());
    reveal_with_fuel(json::member_from, 3);
}

proof fn lemma_answer_form(
    id: u64,
    msg_type: Seq<char>,
    extra: JsonView,
    call: Result<CallServiceRequest, String>,
    source: WsSource,
    before: WsModel,
    after: WsModel,
    r: JsonView,
    action: WsAction,
)
    requires
        msg_type != "ping"@,
        command_result(id, msg_type, extra, call, source, before, after, r, action),
    ensures
        exists|v: JsonView| r == ok_json(id, v) || r == err_value_json(id, v),
{
    let v = r->Object_0[3].1;
    assert(r == ok_json(id, v) || r == err_value_json(id, v));
}

/// What a message of a client that has authenticated returns and does. One that is no command is
/// not answered.
pub open spec fn command_phase_result(
    message: Option<JsonView>,
    call: Result<CallServiceRequest, String>,
    source: WsSource,
    before: WsModel,
    after: WsModel,
    r: Option<(JsonView, WsAction)>,
) -> bool {
    match r {
        None => {
            &&& after == before
            &&& message matches Some(m) ==> !(m.field("id"@) matches Some(JsonView::PosInt(_)))
                || m.str_field("type"@) is None
        },
        Some((reply, action)) => message matches Some(m) && exists|
            id: u64,
            msg_type: Seq<char>,
            extra: JsonView,
        |
            is_command(m, id, msg_type, extra) && #[trigger] command_result(
                id,
                msg_type,
                extra,
                call,
                source,
                before,
                after,
                reply,
                action,
            ),
    }
}

/// Answers a message of a client that has authenticated, from what it parses as, if it does.
pub fn command_reply(
    message: Option<&Json>,
    call: Result<CallServiceRequest, String>,
    source: &WsSource,
    states: &mut StateStore,
    events: &mut Vec<StateEvent>,
    areas: &mut AreaRegistryStore,
    zones: &mut ZoneStore,
    subscriptions: &mut HashSet<u64>,
) -> (r: Option<(Json, WsAction)>)
    ensures
        command_phase_result(
            match message {
                Some(m) => Some(m@),
                None => None,
            },
            call,
            *source,
            WsModel {
                states: *old(states),
                events: old(events)@,
                areas: *old(areas),
                zones: *old(zones),
                subscriptions: old(subscriptions)@,
            },
            WsModel {
                states: *final(states),
                events: final(events)@,
                areas: *final(areas),
                zones: *final(zones),
                subscriptions: final(subscriptions)@,
            },
            match r {
                Some(p) => Some((p.0@, p.1)),
                None => None,
            },
        ),
        old(states).wf() ==> final(states).wf(),
        old(zones).wf() ==> final(zones).wf(),
{
    let m: &Json = match message {
        Some(m) => m,
        None => {
            return None;
        },
    };
    let c: CommandMessage = match parse_command(m) {
        Some(c) => c,
        None => {
            return None;
        },
    };
    Some(
        dispatch_command(
            c.id,
            c.msg_type.as_str(),
            &c.extra,
            call,
            source,
            states,
            events,
            areas,
            zones,
            subscriptions,
        ),
    )
}

/// Answers a message of a client that has authenticated. Where it calls a service, `call` is what
/// it reads as.
pub fn handle_command_phase(
    message: &str,
    call: Result<CallServiceRequest, String>,
    source: &WsSource,
    states: &mut StateStore,
    events: &mut Vec<StateEvent>,
    areas: &mut AreaRegistryStore,
    zones: &mut ZoneStore,
    subscriptions: &mut HashSet<u64>,
) -> (r: Option<(Json, WsAction)>)
    ensures
        command_phase_result(
            json::parsed(encode_utf8(message@)),
            call,
            *source,
            WsModel {
                states: *old(states),
                events: old(events)@,
                areas: *old(areas),
                zones: *old(zones),
                subscriptions: old(subscriptions)@,
            },
            WsModel {
                states: *final(states),
                events: final(events)@,
                areas: *final(areas),
                zones: *final(zones),
                subscriptions: final(subscriptions)@,
            },
            match r {
                Some(p) => Some((p.0@, p.1)),
                None => None,
            },
        ),
        old(states).wf() ==> final(states).wf(),
        old(zones).wf() ==> final(zones).wf(),
{
    let parsed: Option<Json> = json::parse(message.as_bytes());
    let value: Option<&Json> = match &parsed {
        Some(m) => Some(m),
        None => None,
    };
    command_reply(value, call, source, states, events, areas, zones, subscriptions)
}

/// A subscription that is ended leaves the others as they were, and can be ended once.
pub proof fn law_unsubscribe(
    id: u64,
    extra: JsonView,
    before: Set<u64>,
    after: Set<u64>,
    again: Set<u64>,
    r: JsonView,
    action: WsAction,
    r2: JsonView,
    action2: WsAction,
    sub_id: u64,
)
    requires
        extra.field("subscription"@) == Some(JsonView::PosInt(sub_id)),
        unsubscribe_result(id, extra, before.insert(sub_id), after, r, action),
        unsubscribe_result(id, extra, after, again, r2, action2),
    ensures
        r == ok_json(id, JsonView::Null),
        action == WsAction::Unsubscribe(sub_id),
        after == before.remove(sub_id),
        again == after,
        r2 == err_json(id, "not_found"@, "Subscription not found."@),
{
    assert(before.insert(sub_id).remove(sub_id) =~= before.remove(sub_id));
}

} // verus!
