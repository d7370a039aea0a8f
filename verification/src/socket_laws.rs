//! What the WebSocket API tells and does: laws over events, answers and stores.

use vstd::prelude::*;
use vstd::string::*;

use crate::area_registry_store::AreaModel;
use crate::ha_api;
use crate::ha_auth::TokenModel;
use crate::ha_ws::{
    area_json, auth_answer, command_result, compressed_json, current_user_json, device_of,
    entities_event_json, entities_json, entity_json, full_state_json, is_command, query_answer,
    short_entity_json, state_changed_json, without_member, CallServiceRequest, Phase, WsAction,
    WsModel, WsSource,
};
use crate::ids;
use crate::json;
use crate::json::{JsonView, Members, ToJson};
use crate::keyed;
use crate::mobile_device_store::MobileDeviceRecord;
use crate::mobile_entity_store::MobileEntityRecord;
use crate::state_store;
use crate::state_store::{EventModel, StateRun, StateView};
use crate::storage::StoredUser;
use crate::text;
use crate::zone_store;
use crate::zone_store::StoredZone;

verus! {

/// Whether a value tells of a state: its entity, its value, its attributes, its times and its
/// context.
pub open spec fn tells_state(j: JsonView, s: StateView) -> bool {
    &&& j.field("entity_id"@) == Some(JsonView::Str(s.entity_id))
    &&& j.field("state"@) == Some(JsonView::Str(s.state))
    &&& j.field("attributes"@) == Some(JsonView::Object(s.attributes))
    &&& j.field("last_changed"@) == Some(JsonView::Str(s.last_changed))
    &&& j.field("last_updated"@) == Some(JsonView::Str(s.last_updated))
    &&& j.field("context"@) matches Some(c) && c.field("id"@) == Some(JsonView::Str(s.context.id))
}

proof fn lemma_state_names()
    ensures
        "entity_id"@.len() == 9,
        "state"@.len() == 5,
        "attributes"@.len() == 10,
        "last_changed"@.len() == 12,
        "last_updated"@.len() == 12,
        "last_reported"@.len() == 13,
        "context"@.len() == 7,
        "last_changed"@ != "last_updated"@,
        "id"@.len() == 2,
        "type"@.len() == 4,
        "event"@.len() == 5,
        "event_type"@.len() == 10,
        "data"@.len() == 4,
        "new_state"@.len() == 9,
        "old_state"@.len() == 9,
        "entity_id"@ != "new_state"@,
        "entity_id"@ != "old_state"@,
        "new_state"@ != "old_state"@,
        "origin"@.len() == 6,
        "time_fired"@.len() == 10,
        "time_fired"@ != "event_type"@,
        "parent_id"@.len() == 9,
        "user_id"@.len() == 7,
{
    reveal_strlit("entity_id");
    reveal_strlit("state");
    reveal_strlit("attributes");
    reveal_strlit("last_changed");
    reveal_strlit("last_updated");
    reveal_strlit("last_reported");
    reveal_strlit("context");
    reveal_strlit("id");
    reveal_strlit("type");
    reveal_strlit("event");
    reveal_strlit("event_type");
    reveal_strlit("data");
    reveal_strlit("new_state");
    reveal_strlit("old_state");
    reveal_strlit("origin");
    reveal_strlit("time_fired");
    reveal_strlit("parent_id");
    reveal_strlit("user_id");
    assert("last_changed"@[5] == 'c' && "last_updated"@[5] == 'u');
    assert("entity_id"@[0] == 'e' && "new_state"@[0] == 'n' && "old_state"@[0] == 'o');
    assert("time_fired"@[0] == 't' && "event_type"@[0] == 'e');
}

proof fn lemma_full_state(s: StateView)
    ensures
        tells_state(full_state_json(s), s),
{
    lemma_state_names();
    reveal_with_fuel(json::member_from, 7);
}

/// The event that is told of a change of state names the entity. Its new state is the state that the
/// change stored, and its old state is the state that was stored before, or null where there was
/// none. It goes to the subscription, and its context is that of the new state.
pub proof fn law_change_told(sub_id: u64, run: StateRun, s: StateView, now: Seq<char>)
    requires
        state_store::storable(s),
    ensures
        ({
            let after = run.offer(s);
            let told = state_changed_json(sub_id, after.events.last(), now);
            let event = told.field("event"@);
            let data = event->0.field("data"@);
            &&& after.events.len() == run.events.len() + 1
            &&& after.states[s.entity_id] == s
            &&& told.field("id"@) == Some(JsonView::PosInt(sub_id))
            &&& told.field("type"@) == Some(JsonView::Str("event"@))
            &&& event is Some && data is Some
            &&& event->0.field("event_type"@) == Some(JsonView::Str("state_changed"@))
            &&& event->0.field("time_fired"@) == Some(JsonView::Str(now))
            &&& event->0.field("context"@) matches Some(c) && c.field("id"@) == Some(
                JsonView::Str(s.context.id),
            )
            &&& data->0.field("entity_id"@) == Some(JsonView::Str(s.entity_id))
            &&& data->0.field("new_state"@) matches Some(new) && tells_state(new, s)
            &&& if run.states.contains_key(s.entity_id) {
                data->0.field("old_state"@) matches Some(old) && tells_state(
                    old,
                    run.states[s.entity_id],
                )
            } else {
                data->0.field("old_state"@) == Some(JsonView::Null)
            }
        }),
{
    let event: EventModel = run.offer(s).events.last();
    law_event_told(sub_id, event, now);
}

/// The event that is told of a change tells of both its states.
pub proof fn law_event_told(sub_id: u64, change: EventModel, now: Seq<char>)
    ensures
        ({
            let told = state_changed_json(sub_id, change, now);
            let event = told.field("event"@);
            let data = event->0.field("data"@);
            &&& told.field("id"@) == Some(JsonView::PosInt(sub_id))
            &&& told.field("type"@) == Some(JsonView::Str("event"@))
            &&& event is Some && data is Some
            &&& event->0.field("event_type"@) == Some(JsonView::Str("state_changed"@))
            &&& event->0.field("time_fired"@) == Some(JsonView::Str(now))
            &&& event->0.field("context"@) matches Some(c) && c.field("id"@) == Some(
                JsonView::Str(change.0.context.id),
            )
            &&& data->0.field("entity_id"@) == Some(JsonView::Str(change.0.entity_id))
            &&& data->0.field("new_state"@) matches Some(new) && tells_state(new, change.0)
            &&& match change.1 {
                Some(before) => data->0.field("old_state"@) matches Some(old) && tells_state(
                    old,
                    before,
                ),
                None => data->0.field("old_state"@) == Some(JsonView::Null),
            }
        }),
{
    lemma_state_names();
    lemma_full_state(change.0);
    if let Some(before) = change.1 {
        lemma_full_state(before);
    }
    reveal_with_fuel(json::member_from, 6);
}

/// A state as a subscription to entities is told of it: its value, its attributes and its times.
pub proof fn law_compressed_told(
    sub_id: u64,
    additions: Members,
    s: StateView,
    changed: Seq<char>,
    updated: Seq<char>,
)
    ensures
        ({
            let told = compressed_json(s, changed, updated);
            &&& told.field("s"@) == Some(JsonView::Str(s.state))
            &&& told.field("a"@) == Some(JsonView::Object(s.attributes))
            &&& told.field("lc"@) == Some(JsonView::Float(changed))
            &&& told.field("lu"@) == Some(JsonView::Float(updated))
        }),
        ({
            let told = entities_event_json(sub_id, additions);
            &&& told.field("id"@) == Some(JsonView::PosInt(sub_id))
            &&& told.field("type"@) == Some(JsonView::Str("event"@))
            &&& told.field("event"@) matches Some(event) && {
                &&& event.field("a"@) == Some(JsonView::Object(additions))
                &&& event.field("c"@) == Some(JsonView::Object(Seq::empty()))
                &&& event.field("r"@) == Some(JsonView::Array(Seq::empty()))
            }
        }),
{
    lemma_state_names();
    reveal_strlit("s");
    reveal_strlit("a");
    reveal_strlit("c");
    reveal_strlit("r");
    reveal_strlit("lc");
    reveal_strlit("lu");
    assert("s"@.len() == 1 && "a"@.len() == 1 && "c"@.len() == 1 && "r"@.len() == 1 && "lc"@.len()
        == 2 && "lu"@.len() == 2);
    assert("s"@[0] == 's' && "a"@[0] == 'a' && "c"@[0] == 'c' && "r"@[0] == 'r');
    assert("lc"@[1] == 'c' && "lu"@[1] == 'u');
    reveal_with_fuel(json::member_from, 5);
}

/// A client that shows a token that is known is told that it is in; any other is told that it is
/// not.
pub proof fn law_auth_told(message: Option<JsonView>, tokens: TokenModel)
    ensures
        ({
            let (told, phase) = auth_answer(message, tokens);
            let known = message is Some && message->0.field("type"@) == Some(JsonView::Str("auth"@))
                && (message->0.field("access_token"@) matches Some(JsonView::Str(t)) && t.len() > 0
                && tokens.access_tokens.contains_key(t));
            &&& phase == if known {
                Phase::Active
            } else {
                Phase::Auth
            }
            &&& told.field("type"@) == Some(
                JsonView::Str(
                    if known {
                        "auth_ok"@
                    } else {
                        "auth_invalid"@
                    },
                ),
            )
        }),
{
    reveal_strlit("auth");
    reveal_with_fuel(json::member_from, 3);
}

proof fn lemma_without(s: Members, name: Seq<char>, other: Seq<char>)
    requires
        other != name,
    ensures
        json::member(without_member(s, name), other) == json::member(s, other),
    decreases s.len(),
{
    if s.len() > 0 {
        let front = s.drop_last();
        lemma_without(front, name, other);
        lemma_last(s, other);
        if s.last().0 != name {
            let t = without_member(front, name).push(s.last());
            assert(t.drop_last() =~= without_member(front, name));
            lemma_last(t, other);
        }
    }
}

/// The first member of a name is the one of all but the last, or else the last.
proof fn lemma_last(s: Members, name: Seq<char>)
    requires
        s.len() > 0,
    ensures
        json::member(s, name) == match json::member(s.drop_last(), name) {
            Some(v) => Some(v),
            None => if s.last().0 == name {
                Some(s.last().1)
            } else {
                None
            },
        },
{
    lemma_last_from(s, name, 0);
}

proof fn lemma_last_from(s: Members, name: Seq<char>, i: int)
    requires
        s.len() > 0,
        0 <= i < s.len(),
    ensures
        json::member_from(s, name, i) == match json::member_from(s.drop_last(), name, i) {
            Some(v) => Some(v),
            None => if s.last().0 == name {
                Some(s.last().1)
            } else {
                None
            },
        },
    decreases s.len() - i,
{
    if i < s.len() - 1 {
        assert(s.drop_last()[i] == s[i]);
        lemma_last_from(s, name, i + 1);
    } else {
        assert(json::member_from(s, name, i + 1) is None);
    }
}

/// What a command carries beside its number and its type is what the message holds.
pub proof fn law_command_parts(
    message: JsonView,
    id: u64,
    msg_type: Seq<char>,
    extra: JsonView,
    name: Seq<char>,
)
    requires
        is_command(message, id, msg_type, extra),
        name != "id"@,
        name != "type"@,
    ensures
        extra.field(name) == message.field(name),
        message.field("id"@) == Some(JsonView::PosInt(id)),
        message.field("type"@) == Some(JsonView::Str(msg_type)),
{
    let m = message->Object_0;
    lemma_without(m, "id"@, name);
    lemma_without(without_member(m, "id"@), "type"@, name);
}

proof fn lemma_kinds()
    ensures
        "ping"@.len() == 4,
        "get_states"@.len() == 10 && "get_states"@[4] == 's',
        "get_config"@.len() == 10 && "get_config"@[4] == 'c',
        "get_panels"@.len() == 10 && "get_panels"@[4] == 'p',
        "get_services"@.len() == 12 && "get_services"@[0] == 'g',
        "call_service"@.len() == 12 && "call_service"@[0] == 'c',
        "config/device_registry/list"@.len() == 27 && "config/device_registry/list"@[7] == 'd',
        "config/entity_registry/list"@.len() == 27 && "config/entity_registry/list"@[7] == 'e',
        "auth/current_user"@.len() == 17,
        "frontend/get_themes"@.len() == 19,
        "frontend/get_user_data"@.len() == 22,
        "config/area_registry/list"@.len() == 25,
        "zone/list"@.len() == 9,
        "config/entity_registry/list_for_display"@.len() == 39,
        "lovelace/config"@.len() == 15,
        "subscribe_entities"@.len() == 18 && "subscribe_entities"@[0] == 's',
        "unsubscribe_events"@.len() == 18 && "unsubscribe_events"@[0] == 'u',
        "subscribe_events"@.len() == 16,
        "config/area_registry/create"@.len() == 27 && "config/area_registry/create"@[7] == 'a'
            && "config/area_registry/create"@[21] == 'c',
        "config/area_registry/update"@.len() == 27 && "config/area_registry/update"@[7] == 'a'
            && "config/area_registry/update"@[21] == 'u',
        "config/area_registry/delete"@.len() == 27 && "config/area_registry/delete"@[7] == 'a'
            && "config/area_registry/delete"@[21] == 'd',
        "zone/create"@.len() == 11 && "zone/create"@[5] == 'c',
        "zone/update"@.len() == 11 && "zone/update"@[5] == 'u',
        "zone/delete"@.len() == 11 && "zone/delete"@[5] == 'd',
{
    reveal_strlit("ping");
    reveal_strlit("get_states");
    reveal_strlit("get_config");
    reveal_strlit("get_panels");
    reveal_strlit("get_services");
    reveal_strlit("call_service");
    reveal_strlit("config/device_registry/list");
    reveal_strlit("config/entity_registry/list");
    reveal_strlit("auth/current_user");
    reveal_strlit("frontend/get_themes");
    reveal_strlit("frontend/get_user_data");
    reveal_strlit("config/area_registry/list");
    reveal_strlit("zone/list");
    reveal_strlit("config/entity_registry/list_for_display");
    reveal_strlit("lovelace/config");
    reveal_strlit("subscribe_entities");
    reveal_strlit("unsubscribe_events");
    reveal_strlit("subscribe_events");
    reveal_strlit("config/area_registry/create");
    reveal_strlit("config/area_registry/update");
    reveal_strlit("config/area_registry/delete");
    reveal_strlit("zone/create");
    reveal_strlit("zone/update");
    reveal_strlit("zone/delete");
}

proof fn lemma_not_asked(id: u64, msg_type: Seq<char>, source: WsSource, before: WsModel)
    requires
        msg_type == "config/area_registry/create"@ || msg_type == "config/area_registry/update"@
            || msg_type == "config/area_registry/delete"@ || msg_type == "zone/create"@ || msg_type
            == "zone/update"@ || msg_type == "zone/delete"@ || msg_type == "call_service"@
            || msg_type == "subscribe_entities"@ || msg_type == "subscribe_events"@ || msg_type
            == "unsubscribe_events"@,
    ensures
        query_answer(id, msg_type, source, before) is None,
{
    lemma_kinds();
}

/// Whether an answer says that a command is done, with a result.
pub open spec fn done_with(r: JsonView, id: u64, result: JsonView) -> bool {
    &&& r.field("id"@) == Some(JsonView::PosInt(id))
    &&& r.field("type"@) == Some(JsonView::Str("result"@))
    &&& r.field("success"@) == Some(JsonView::Bool(true))
    &&& r.field("result"@) == Some(result)
}

/// Whether an answer says that a command has failed, with a code.
pub open spec fn failed_with(r: JsonView, id: u64, code: Seq<char>) -> bool {
    &&& r.field("id"@) == Some(JsonView::PosInt(id))
    &&& r.field("type"@) == Some(JsonView::Str("result"@))
    &&& r.field("success"@) == Some(JsonView::Bool(false))
    &&& r.field("error"@) matches Some(e) && e.field("code"@) == Some(JsonView::Str(code))
}

proof fn lemma_answer_names()
    ensures
        "id"@.len() == 2,
        "type"@.len() == 4,
        "success"@.len() == 7,
        "result"@.len() == 6,
        "error"@.len() == 5,
        "code"@.len() == 4,
        "message"@.len() == 7,
{
    reveal_strlit("id");
    reveal_strlit("type");
    reveal_strlit("success");
    reveal_strlit("result");
    reveal_strlit("error");
    reveal_strlit("code");
    reveal_strlit("message");
}

proof fn lemma_done(id: u64, result: JsonView)
    ensures
        done_with(crate::ha_ws::ok_json(id, result), id, result),
{
    lemma_answer_names();
    reveal_with_fuel(json::member_from, 5);
}

proof fn lemma_failed(id: u64, code: Seq<char>, message: Seq<char>)
    ensures
        failed_with(crate::ha_ws::err_json(id, code, message), id, code),
{
    lemma_answer_names();
    reveal_with_fuel(json::member_from, 5);
}

/// Whether a value tells of an area.
pub open spec fn tells_area(j: JsonView, a: AreaModel) -> bool {
    &&& j.field("area_id"@) == Some(JsonView::Str(a.area_id))
    &&& j.field("name"@) == Some(JsonView::Str(a.name))
    &&& j.field("aliases"@) matches Some(JsonView::Array(items)) && items.len() == a.aliases.len()
        && forall|i: int|
        0 <= i < items.len() ==> #[trigger] items[i] == JsonView::Str(a.aliases[i])
    &&& j.field("floor_id"@) == Some(text_or_null(a.floor_id))
    &&& j.field("icon"@) == Some(text_or_null(a.icon))
    &&& j.field("picture"@) == Some(text_or_null(a.picture))
}

/// A text, or null for none.
pub open spec fn text_or_null(t: Option<Seq<char>>) -> JsonView {
    if t is Some {
        JsonView::Str(t->0)
    } else {
        JsonView::Null
    }
}

proof fn lemma_area(a: AreaModel)
    ensures
        tells_area(area_json(a), a),
{
    reveal_strlit("area_id");
    reveal_strlit("name");
    reveal_strlit("aliases");
    reveal_strlit("labels");
    reveal_strlit("floor_id");
    reveal_strlit("icon");
    reveal_strlit("picture");
    assert("area_id"@.len() == 7 && "name"@.len() == 4 && "aliases"@.len() == 7 && "labels"@.len()
        == 6 && "floor_id"@.len() == 8 && "icon"@.len() == 4 && "picture"@.len() == 7);
    assert("area_id"@[1] == 'r' && "aliases"@[1] == 'l' && "picture"@[1] == 'i');
    assert("name"@[0] == 'n' && "icon"@[0] == 'i');
    reveal_with_fuel(json::member_from, 8);
}

/// An area that is created has the name given and nothing else, and comes last; the areas before
/// stay. The answer tells of it, and the areas are to be stored. Without a name nothing is created.
pub proof fn law_area_created(
    id: u64,
    extra: JsonView,
    call: Result<CallServiceRequest, String>,
    source: WsSource,
    before: WsModel,
    after: WsModel,
    r: JsonView,
    action: WsAction,
)
    requires
        command_result(
            id,
            "config/area_registry/create"@,
            extra,
            call,
            source,
            before,
            after,
            r,
            action,
        ),
        source.areas_loaded,
    ensures
        extra.field("name"@) matches Some(JsonView::Str(n)) && text::trimmed(n).len() > 0 ==> {
            let areas = after.areas.models();
            let old = before.areas.models();
            let a = areas.last();
            &&& areas.len() == old.len() + 1
            &&& forall|i: int| 0 <= i < old.len() ==> #[trigger] areas[i] == old[i]
            &&& Some(JsonView::Str(a.name)) == extra.field("name"@)
            &&& a.aliases.len() == 0 && a.floor_id is None && a.icon is None && a.picture is None
            &&& r.field("success"@) == Some(JsonView::Bool(true))
            &&& r.field("result"@) matches Some(told) && tells_area(told, a)
            &&& action == WsAction::SaveAreas
        },
        !(extra.field("name"@) matches Some(JsonView::Str(n)) && text::trimmed(n).len() > 0) ==> {
            &&& failed_with(r, id, "invalid_format"@)
            &&& action == WsAction::Nothing
            &&& after.areas == before.areas
        },
        after.zones == before.zones && after.states == before.states && after.subscriptions
            == before.subscriptions,
{
    lemma_not_asked(id, "config/area_registry/create"@, source, before);
    lemma_kinds();
    lemma_failed(id, "invalid_format"@, "name is required"@);
    if let Some(name) = crate::ha_ws::new_name(extra) {
        let area = choose|area: AreaModel|
            {
                &&& ids::is_registry_id(
                    before.areas.areas@,
                    text::slug_of(text::lowercased(name)),
                    area.area_id,
                )
                &&& area == crate::area_registry_store::bare_area(area.area_id, name)
                &&& after.areas.models() == before.areas.models().push(area)
                &&& r == crate::ha_ws::ok_json(id, #[trigger] area_json(area))
                &&& action == WsAction::SaveAreas
            };
        lemma_area(area);
        lemma_done(id, area_json(area));
        assert(after.areas.models().last() == area);
    }
}

/// An optional text of an area or a zone after a change: the one that the change gives, none where
/// it gives anything but a text, and the one before where it gives nothing.
pub open spec fn text_changed(
    given: Option<JsonView>,
    before: Option<Seq<char>>,
    after: Option<Seq<char>>,
) -> bool {
    match given {
        None => after == before,
        Some(JsonView::Str(s)) => after == Some(s),
        Some(_) => after is None,
    }
}

/// A change of an area takes what it gives and keeps the rest; the area keeps its id and its place,
/// and no other area changes. An area that is not known is not found.
pub proof fn law_area_updated(
    id: u64,
    extra: JsonView,
    call: Result<CallServiceRequest, String>,
    source: WsSource,
    before: WsModel,
    after: WsModel,
    r: JsonView,
    action: WsAction,
    area_id: Seq<char>,
)
    requires
        command_result(
            id,
            "config/area_registry/update"@,
            extra,
            call,
            source,
            before,
            after,
            r,
            action,
        ),
        source.areas_loaded,
        extra.field("area_id"@) == Some(JsonView::Str(area_id)),
    ensures
        match keyed::key_pos(before.areas.areas@, area_id) {
            None => {
                &&& failed_with(r, id, "not_found"@)
                &&& after.areas == before.areas
                &&& action == WsAction::Nothing
            },
            Some(i) => {
                let old = before.areas.models()[i];
                let a = after.areas.models()[i];
                &&& old.area_id == area_id
                &&& a.area_id == area_id
                &&& match extra.field("name"@) {
                    Some(JsonView::Str(n)) => a.name == n,
                    _ => a.name == old.name,
                }
                &&& match extra.field("aliases"@) {
                    Some(JsonView::Array(items)) => (forall|k: int|
                        0 <= k < items.len() ==> (#[trigger] items[k]) is Str) ==> a.aliases.len()
                        == items.len() && forall|k: int|
                        0 <= k < items.len() ==> JsonView::Str(#[trigger] a.aliases[k]) == items[k],
                    _ => a.aliases == old.aliases,
                }
                &&& text_changed(extra.field("floor_id"@), old.floor_id, a.floor_id)
                &&& text_changed(extra.field("icon"@), old.icon, a.icon)
                &&& text_changed(extra.field("picture"@), old.picture, a.picture)
                &&& after.areas.models().len() == before.areas.models().len()
                &&& forall|k: int|
                    0 <= k < before.areas.models().len() && k != i
                        ==> #[trigger] after.areas.models()[k] == before.areas.models()[k]
                &&& r.field("success"@) == Some(JsonView::Bool(true))
                &&& r.field("result"@) matches Some(told) && tells_area(told, a)
                &&& action == WsAction::SaveAreas
            },
        },
{
    lemma_not_asked(id, "config/area_registry/update"@, source, before);
    lemma_kinds();
    lemma_failed(id, "not_found"@, "Area not found"@);
    keyed::lemma_key_pos(before.areas.areas@, area_id);
    if let Some(i) = keyed::key_pos(before.areas.areas@, area_id) {
        let a = crate::area_registry_store::updated_area(
            before.areas.models()[i],
            extra.str_field("name"@),
            crate::ha_ws::texts_field(extra, "aliases"@),
            crate::ha_ws::given_text(extra, "floor_id"@),
            crate::ha_ws::given_text(extra, "icon"@),
            crate::ha_ws::given_text(extra, "picture"@),
        );
        if let Some(JsonView::Array(items)) = extra.field("aliases"@) {
            lemma_texts(items);
        }
        lemma_area(a);
        lemma_done(id, area_json(a));
        assert(after.areas.models()[i] == a);
    }
}

/// The texts of a list of texts are all of it, in order.
pub proof fn lemma_texts(items: Seq<JsonView>)
    ensures
        (forall|k: int| 0 <= k < items.len() ==> (#[trigger] items[k]) is Str) ==> {
            let texts = crate::entity_view::texts_of(items);
            &&& texts.len() == items.len()
            &&& forall|k: int| 0 <= k < items.len() ==> JsonView::Str(#[trigger] texts[k]) == items[k]
        },
    decreases items.len(),
{
    if items.len() > 0 && (forall|k: int| 0 <= k < items.len() ==> (#[trigger] items[k]) is Str) {
        let front = items.drop_last();
        assert forall|k: int| 0 <= k < front.len() implies (#[trigger] front[k]) is Str by {
            assert(front[k] == items[k]);
        }
        lemma_texts(front);
        let texts = crate::entity_view::texts_of(items);
        let part = crate::entity_view::texts_of(front);
        assert(items[items.len() - 1] is Str);
        assert forall|k: int| 0 <= k < items.len() implies JsonView::Str(#[trigger] texts[k])
            == items[k] by {
            if k < front.len() {
                assert(texts[k] == part[k]);
                assert(front[k] == items[k]);
            }
        }
    }
}

/// An area or a zone that is deleted is not found any more; the others are as before. One that is
/// not known is not found, and the home zone is not deleted.
pub proof fn law_deleted(
    id: u64,
    extra: JsonView,
    call: Result<CallServiceRequest, String>,
    source: WsSource,
    before: WsModel,
    after: WsModel,
    r: JsonView,
    action: WsAction,
    gone: Seq<char>,
    other: Seq<char>,
)
    requires
        source.areas_loaded,
        source.zones_loaded,
    ensures
        command_result(
            id,
            "config/area_registry/delete"@,
            extra,
            call,
            source,
            before,
            after,
            r,
            action,
        ) && extra.field("area_id"@) == Some(JsonView::Str(gone)) ==> {
            &&& keyed::key_get(after.areas.areas@, gone) is None
            &&& other != gone ==> keyed::key_get(after.areas.areas@, other) == keyed::key_get(
                before.areas.areas@,
                other,
            )
            &&& if keyed::key_get(before.areas.areas@, gone) is Some {
                done_with(r, id, JsonView::Null) && action == WsAction::SaveAreas
            } else {
                failed_with(r, id, "not_found"@) && action == WsAction::Nothing
            }
            &&& after.zones == before.zones
        },
        command_result(id, "zone/delete"@, extra, call, source, before, after, r, action)
            && extra.field("zone_id"@) == Some(JsonView::Str(gone)) && gone != "home"@ ==> {
            &&& keyed::key_get(after.zones.zones@, gone) is None
            &&& other != gone ==> keyed::key_get(after.zones.zones@, other) == keyed::key_get(
                before.zones.zones@,
                other,
            )
            &&& if keyed::key_get(before.zones.zones@, gone) is Some {
                done_with(r, id, JsonView::Null) && action == WsAction::SaveZones
            } else {
                failed_with(r, id, "not_found"@) && action == WsAction::Nothing
            }
            &&& after.areas == before.areas
        },
        (command_result(id, "zone/delete"@, extra, call, source, before, after, r, action)
            || command_result(id, "zone/update"@, extra, call, source, before, after, r, action))
            && extra.field("zone_id"@) == Some(JsonView::Str("home"@)) ==> failed_with(
            r,
            id,
            "not_allowed"@,
        ) && after.zones == before.zones && action == WsAction::Nothing,
{
    lemma_not_asked(id, "config/area_registry/delete"@, source, before);
    lemma_not_asked(id, "zone/delete"@, source, before);
    lemma_not_asked(id, "zone/update"@, source, before);
    lemma_kinds();
    lemma_done(id, JsonView::Null);
    lemma_failed(id, "not_found"@, "Area not found"@);
    lemma_failed(id, "not_found"@, "Zone not found"@);
    lemma_failed(id, "not_allowed"@, "zone.home cannot be deleted"@);
    lemma_failed(id, "not_allowed"@, "zone.home cannot be edited through this API"@);
    keyed::law_removed(before.areas.areas@, gone, other);
    keyed::law_removed(before.zones.zones@, gone, other);
}

/// Whether a value tells of a zone.
pub open spec fn tells_zone(j: JsonView, z: StoredZone) -> bool {
    &&& j.field("id"@) == Some(JsonView::Str(z.zone_id@))
    &&& j.field("name"@) == Some(JsonView::Str(z.name@))
    &&& j.field("latitude"@) == Some(real_or_null(z.latitude.deep_view()))
    &&& j.field("longitude"@) == Some(real_or_null(z.longitude.deep_view()))
    &&& j.field("radius"@) == Some(JsonView::Float(z.radius@))
    &&& j.field("passive"@) == Some(JsonView::Bool(z.passive))
    &&& j.field("icon"@) == Some(text_or_null(z.icon.deep_view()))
}

/// A number with a fraction, or null for none.
pub open spec fn real_or_null(t: Option<Seq<char>>) -> JsonView {
    if t is Some {
        JsonView::Float(t->0)
    } else {
        JsonView::Null
    }
}

proof fn lemma_zone(z: StoredZone)
    ensures
        tells_zone(z.json(), z),
{
    reveal_strlit("id");
    reveal_strlit("name");
    reveal_strlit("latitude");
    reveal_strlit("longitude");
    reveal_strlit("radius");
    reveal_strlit("passive");
    reveal_strlit("icon");
    assert("id"@.len() == 2 && "name"@.len() == 4 && "latitude"@.len() == 8 && "longitude"@.len()
        == 9 && "radius"@.len() == 6 && "passive"@.len() == 7 && "icon"@.len() == 4);
    assert("name"@[0] == 'n' && "icon"@[0] == 'i');
    reveal_with_fuel(json::member_from, 8);
}

/// Whether a place or a size is the one that a member gives, as far as it gives a number: the same
/// text for one with a fraction, and `.0` after the digits for a whole one.
pub open spec fn is_real(given: Option<JsonView>, v: Option<Seq<char>>) -> bool {
    match given {
        Some(JsonView::Float(t)) => v == Some(t),
        Some(JsonView::PosInt(n)) => v == Some(text::decimal(n as nat) + ".0"@),
        Some(JsonView::NegInt(n)) => n < 0 ==> v == Some("-"@ + text::decimal((-n) as nat) + ".0"@),
        _ => v is None,
    }
}

/// A zone that is created has the name and the place given; its radius is the one given, and whether
/// it is passive, or else 100 metres and not. It comes last, and the zones before stay. The answer
/// tells of it, and the zones are to be stored. Without a name nothing is created.
pub proof fn law_zone_created(
    id: u64,
    extra: JsonView,
    call: Result<CallServiceRequest, String>,
    source: WsSource,
    before: WsModel,
    after: WsModel,
    r: JsonView,
    action: WsAction,
)
    requires
        command_result(id, "zone/create"@, extra, call, source, before, after, r, action),
        source.zones_loaded,
    ensures
        r.field("success"@) == Some(JsonView::Bool(true)) ==> {
            let zones = after.zones.zones@;
            let old = before.zones.zones@;
            let z = zones.last();
            &&& zones.len() == old.len() + 1
            &&& forall|i: int| 0 <= i < old.len() ==> #[trigger] zones[i] == old[i]
            &&& extra.field("name"@) == Some(JsonView::Str(z.name@))
            &&& z.zone_id@ != "home"@
            &&& is_real(extra.field("latitude"@), z.latitude.deep_view())
            &&& is_real(extra.field("longitude"@), z.longitude.deep_view())
            &&& extra.field("radius"@) is None ==> z.radius@ == "100.0"@
            &&& extra.field("radius"@) matches Some(JsonView::Float(t)) ==> z.radius@ == t
            &&& extra.field("radius"@) matches Some(JsonView::PosInt(n)) ==> z.radius@
                == text::decimal(n as nat) + ".0"@
            &&& z.passive <==> extra.field("passive"@) == Some(JsonView::Bool(true))
            &&& match extra.field("icon"@) {
                Some(JsonView::Str(s)) => z.icon.deep_view() == Some(s),
                _ => z.icon.deep_view() is None,
            }
            &&& r.field("result"@) matches Some(told) && tells_zone(told, z)
            &&& action == WsAction::SaveZones
        },
        r.field("success"@) != Some(JsonView::Bool(true)) ==> after.zones == before.zones && action
            == WsAction::Nothing && r.field("success"@) == Some(JsonView::Bool(false)),
        !(extra.field("name"@) matches Some(JsonView::Str(n)) && text::trimmed(n).len() > 0)
            ==> failed_with(r, id, "invalid_format"@),
        extra.field("name"@) matches Some(JsonView::Str(n)) && text::trimmed(n).len() > 0
            && !zone_store::blank_slug(text::slug_of(text::lowercased(n))) ==> r.field("success"@)
            == Some(JsonView::Bool(true)),
        after.areas == before.areas,
{
    lemma_not_asked(id, "zone/create"@, source, before);
    lemma_kinds();
    lemma_failed(id, "invalid_format"@, "name is required"@);
    lemma_failed(id, "internal_error"@, "Failed to create zone"@);
    if let Some(name) = crate::ha_ws::new_name(extra) {
        let slug = text::slug_of(text::lowercased(name));
        if !zone_store::blank_slug(slug) {
            let z = choose|z: StoredZone|
                {
                    &&& zone_store::is_zone_id(before.zones.zones@, slug, z.zone_id@)
                    &&& crate::ha_ws::zone_asked(z, extra, name)
                    &&& after.zones.zones@ == before.zones.zones@.push(z)
                    &&& r == crate::ha_ws::ok_json(id, #[trigger] z.json())
                    &&& action == WsAction::SaveZones
                };
            lemma_zone(z);
            lemma_done(id, z.json());
            assert(after.zones.zones@.last() == z);
            let random = choose|random: Seq<char>|
                ids::is_hex_text(random, 32) && z.zone_id@ == #[trigger] zone_store::zone_id_of(
                    before.zones.zones@,
                    slug,
                    random,
                );
            lemma_not_home(before.zones.zones@, slug, random);
        }
    }
}

proof fn lemma_not_home(s: Seq<StoredZone>, slug: Seq<char>, random: Seq<char>)
    requires
        random.len() >= 8,
    ensures
        zone_store::zone_id_of(s, slug, random) != "home"@,
{
    reveal_strlit("home");
    reveal_strlit("_");
    assert("home"@.len() == 4);
    if keyed::key_pos(s, slug) is Some {
        assert(ids::extended_slug(slug, random).len() == slug.len() + 9);
    }
}

/// A change of a zone takes what it gives and keeps the rest; the zone keeps its id and its place in
/// the list, and no other zone changes. A zone that is not known is not found.
pub proof fn law_zone_updated(
    id: u64,
    extra: JsonView,
    call: Result<CallServiceRequest, String>,
    source: WsSource,
    before: WsModel,
    after: WsModel,
    r: JsonView,
    action: WsAction,
    zone_id: Seq<char>,
)
    requires
        command_result(id, "zone/update"@, extra, call, source, before, after, r, action),
        source.zones_loaded,
        extra.field("zone_id"@) == Some(JsonView::Str(zone_id)),
        zone_id != "home"@,
    ensures
        match keyed::key_pos(before.zones.zones@, zone_id) {
            None => {
                &&& failed_with(r, id, "not_found"@)
                &&& after.zones == before.zones
                &&& action == WsAction::Nothing
            },
            Some(i) => {
                let old = before.zones.zones@[i];
                let z = after.zones.zones@[i];
                &&& z.zone_id@ == zone_id
                &&& match extra.field("name"@) {
                    Some(JsonView::Str(n)) => z.name@ == n,
                    _ => z.name@ == old.name@,
                }
                &&& if extra.field("latitude"@) is Some {
                    is_real(extra.field("latitude"@), z.latitude.deep_view())
                } else {
                    z.latitude.deep_view() == old.latitude.deep_view()
                }
                &&& if extra.field("longitude"@) is Some {
                    is_real(extra.field("longitude"@), z.longitude.deep_view())
                } else {
                    z.longitude.deep_view() == old.longitude.deep_view()
                }
                &&& match extra.field("radius"@) {
                    Some(JsonView::Float(t)) => z.radius@ == t,
                    Some(JsonView::PosInt(n)) => z.radius@ == text::decimal(n as nat) + ".0"@,
                    Some(JsonView::NegInt(_)) => true,
                    _ => z.radius@ == old.radius@,
                }
                &&& match extra.field("passive"@) {
                    Some(JsonView::Bool(b)) => z.passive == b,
                    _ => z.passive == old.passive,
                }
                &&& text_changed(extra.field("icon"@), old.icon.deep_view(), z.icon.deep_view())
                &&& after.zones.zones@.len() == before.zones.zones@.len()
                &&& forall|k: int|
                    0 <= k < before.zones.zones@.len() && k != i
                        ==> #[trigger] after.zones.zones@[k] == before.zones.zones@[k]
                &&& r.field("success"@) == Some(JsonView::Bool(true))
                &&& r.field("result"@) matches Some(told) && tells_zone(told, z)
                &&& action == WsAction::SaveZones
            },
        },
{
    lemma_not_asked(id, "zone/update"@, source, before);
    lemma_kinds();
    lemma_failed(id, "not_found"@, "Zone not found"@);
    keyed::lemma_key_pos(before.zones.zones@, zone_id);
    if let Some(i) = keyed::key_pos(before.zones.zones@, zone_id) {
        let z = choose|z: StoredZone|
            {
                &&& crate::ha_ws::zone_changed(before.zones.zones@[i], z, extra)
                &&& after.zones.zones@ == before.zones.zones@.update(i, z)
                &&& r == crate::ha_ws::ok_json(id, #[trigger] z.json())
                &&& action == WsAction::SaveZones
            };
        lemma_zone(z);
        lemma_done(id, z.json());
        assert(after.zones.zones@[i] == z);
    }
}

/// A subscription is known under the number of the command from then on; one to events is to events
/// of the type given, or to all. No state, area or zone changes.
pub proof fn law_subscribed(
    id: u64,
    msg_type: Seq<char>,
    extra: JsonView,
    call: Result<CallServiceRequest, String>,
    source: WsSource,
    before: WsModel,
    after: WsModel,
    r: JsonView,
    action: WsAction,
)
    requires
        command_result(id, msg_type, extra, call, source, before, after, r, action),
        msg_type == "subscribe_entities"@ || msg_type == "subscribe_events"@,
    ensures
        done_with(r, id, JsonView::Null),
        after.subscriptions.contains(id),
        forall|other: u64|
            other != id ==> #[trigger] after.subscriptions.contains(other)
                == before.subscriptions.contains(other),
        after.states == before.states && after.areas == before.areas && after.zones == before.zones,
        msg_type == "subscribe_entities"@ ==> action == WsAction::SubscribeEntities,
        msg_type == "subscribe_events"@ ==> (action matches WsAction::SubscribeEvents(filter)
            && match extra.field("event_type"@) {
            Some(JsonView::Str(t)) => filter is Some && filter->0@ == t,
            _ => filter is None,
        }),
{
    lemma_not_asked(id, msg_type, source, before);
    lemma_kinds();
    lemma_done(id, JsonView::Null);
}

/// Whether a value tells of a sensor of a device as the registry lists it.
pub open spec fn tells_entity(j: JsonView, e: MobileEntityRecord, device_id: Seq<char>) -> bool {
    &&& j.field("entity_id"@) == Some(JsonView::Str(e.entity_id@))
    &&& j.field("name"@) == Some(text_or_null(e.name_by_user.deep_view()))
    &&& j.field("original_name"@) == Some(JsonView::Str(e.sensor_name@))
    &&& j.field("platform"@) == Some(JsonView::Str("mobile_app"@))
    &&& j.field("device_id"@) == Some(JsonView::Str(device_id))
    &&& j.field("area_id"@) == Some(text_or_null(e.user_area_id.deep_view()))
    &&& j.field("disabled_by"@) == Some(
        if e.disabled {
            JsonView::Str("user"@)
        } else {
            JsonView::Null
        },
    )
    &&& j.field("unique_id"@) == Some(JsonView::Str(e.sensor_unique_id@))
    &&& j.field("config_entry_id"@) == Some(JsonView::Str(e.webhook_id@))
    &&& j.field("icon"@) == Some(text_or_null(e.icon.deep_view()))
    &&& j.field("entity_category"@) == Some(text_or_null(e.entity_category.deep_view()))
}

proof fn lemma_entity(e: MobileEntityRecord, device_id: Seq<char>)
    ensures
        tells_entity(entity_json(e, device_id), e, device_id),
{
    reveal_strlit("entity_id");
    reveal_strlit("name");
    reveal_strlit("original_name");
    reveal_strlit("platform");
    reveal_strlit("device_id");
    reveal_strlit("area_id");
    reveal_strlit("disabled_by");
    reveal_strlit("hidden_by");
    reveal_strlit("aliases");
    reveal_strlit("labels");
    reveal_strlit("config_entry_id");
    reveal_strlit("unique_id");
    reveal_strlit("icon");
    reveal_strlit("entity_category");
    assert("entity_id"@.len() == 9 && "name"@.len() == 4 && "original_name"@.len() == 13
        && "platform"@.len() == 8 && "device_id"@.len() == 9 && "area_id"@.len() == 7
        && "disabled_by"@.len() == 11 && "hidden_by"@.len() == 9 && "aliases"@.len() == 7
        && "labels"@.len() == 6 && "config_entry_id"@.len() == 15 && "unique_id"@.len() == 9
        && "icon"@.len() == 4 && "entity_category"@.len() == 15);
    assert("entity_id"@[0] == 'e' && "device_id"@[0] == 'd' && "hidden_by"@[0] == 'h'
        && "unique_id"@[0] == 'u');
    assert("name"@[0] == 'n' && "icon"@[0] == 'i');
    assert("area_id"@[1] == 'r' && "aliases"@[1] == 'l');
    assert("config_entry_id"@[0] == 'c' && "entity_category"@[0] == 'e');
    reveal_with_fuel(json::member_from, 15);
}

/// Whether a value tells of a sensor in short.
pub open spec fn tells_in_short(j: JsonView, e: MobileEntityRecord, device_id: Seq<char>) -> bool {
    &&& j.field("ei"@) == Some(JsonView::Str(e.entity_id@))
    &&& j.field("n"@) == Some(
        JsonView::Str(
            if e.name_by_user is Some {
                e.name_by_user->0@
            } else {
                e.sensor_name@
            },
        ),
    )
    &&& j.field("di"@) == Some(JsonView::Str(device_id))
    &&& j.field("ai"@) == Some(text_or_null(e.user_area_id.deep_view()))
    &&& j.field("dp"@) == Some(text_or_null(e.device_class.deep_view()))
    &&& j.field("ic"@) == Some(text_or_null(e.icon.deep_view()))
    &&& j.field("ec"@) == Some(text_or_null(e.entity_category.deep_view()))
    &&& j.field("db"@) == Some(
        if e.disabled {
            JsonView::Str("user"@)
        } else {
            JsonView::Null
        },
    )
}

proof fn lemma_short_entity(e: MobileEntityRecord, device_id: Seq<char>)
    ensures
        tells_in_short(short_entity_json(e, device_id), e, device_id),
{
    reveal_strlit("ei");
    reveal_strlit("n");
    reveal_strlit("di");
    reveal_strlit("pl");
    reveal_strlit("ai");
    reveal_strlit("dp");
    reveal_strlit("lb");
    reveal_strlit("hb");
    reveal_strlit("db");
    reveal_strlit("ic");
    reveal_strlit("ec");
    assert("n"@.len() == 1 && "ei"@.len() == 2 && "di"@.len() == 2 && "pl"@.len() == 2
        && "ai"@.len() == 2 && "dp"@.len() == 2 && "lb"@.len() == 2 && "hb"@.len() == 2
        && "db"@.len() == 2 && "ic"@.len() == 2 && "ec"@.len() == 2);
    assert("ei"@[0] == 'e' && "ei"@[1] == 'i');
    assert("di"@[0] == 'd' && "di"@[1] == 'i');
    assert("pl"@[0] == 'p' && "ai"@[0] == 'a' && "lb"@[0] == 'l' && "hb"@[0] == 'h');
    assert("dp"@[0] == 'd' && "dp"@[1] == 'p');
    assert("db"@[0] == 'd' && "db"@[1] == 'b');
    assert("ic"@[0] == 'i' && "ec"@[0] == 'e' && "ec"@[1] == 'c');
    reveal_with_fuel(json::member_from, 12);
}

/// The registry lists each sensor once, in order, with the device that it belongs to: the id that
/// the device has, or else its webhook.
pub proof fn law_entities_listed(
    id: u64,
    source: WsSource,
    before: WsModel,
    entities: Vec<MobileEntityRecord>,
    devices: Vec<MobileDeviceRecord>,
    i: int,
)
    requires
        source.entities == Some(entities),
        source.devices == Some(devices),
        0 <= i < entities@.len(),
    ensures
        ({
            let e = entities@[i];
            let device_id = match keyed::key_get(devices@, e.webhook_id@) {
                Some(d) => if d.device_id is Some {
                    d.device_id->0@
                } else {
                    e.webhook_id@
                },
                None => e.webhook_id@,
            };
            let long = query_answer(id, "config/entity_registry/list"@, source, before);
            let short = query_answer(
                id,
                "config/entity_registry/list_for_display"@,
                source,
                before,
            );
            &&& long is Some && (long->0.field("result"@) matches Some(JsonView::Array(told))
                && told.len() == entities@.len() && tells_entity(told[i], e, device_id))
            &&& short is Some && short->0.field("result"@) is Some && (short->0.field(
                "result"@,
            )->0.field("entities"@) matches Some(JsonView::Array(told)) && told.len()
                == entities@.len() && tells_in_short(told[i], e, device_id))
        }),
{
    lemma_kinds();
    let e = entities@[i];
    let device_id = device_of(devices@, e);
    lemma_entity(e, device_id);
    lemma_short_entity(e, device_id);
    let long = entities_json(entities@, devices@, false);
    let short = JsonView::Object(
        json::no_members().push(("entities"@, entities_json(entities@, devices@, true))).push(
            ("entity_categories"@, JsonView::Object(json::no_members())),
        ),
    );
    lemma_done(id, long);
    lemma_done(id, short);
    reveal_with_fuel(json::member_from, 2);
    assert(short.field("entities"@) == Some(entities_json(entities@, devices@, true)));
}

/// The states that are asked for are those that are stored, each once; so are the areas and the
/// zones.
pub proof fn law_stores_listed(id: u64, source: WsSource, before: WsModel, i: int)
    ensures
        ({
            let a = query_answer(id, "get_states"@, source, before);
            &&& a is Some && (a->0.field("result"@) matches Some(JsonView::Array(told))
                && told.len() == before.states.states@.len() && (0 <= i < told.len() ==> tells_state(
                told[i],
                before.states.states@[i]@,
            )))
        }),
        source.areas_loaded ==> {
            let a = query_answer(id, "config/area_registry/list"@, source, before);
            &&& a is Some && (a->0.field("result"@) matches Some(JsonView::Array(told))
                && told.len() == before.areas.areas@.len() && (0 <= i < told.len() ==> tells_area(
                told[i],
                before.areas.areas@[i]@,
            )))
        },
        source.zones_loaded ==> {
            let a = query_answer(id, "zone/list"@, source, before);
            &&& a is Some && a->0.field("result"@) is Some && (a->0.field("result"@)->0.field(
                "items"@,
            ) matches Some(JsonView::Array(told)) && told.len() == before.zones.zones@.len() && (0
                <= i < told.len() ==> tells_zone(told[i], before.zones.zones@[i])))
        },
{
    lemma_kinds();
    let states = json::array_of(before.states.states@);
    let areas = json::array_of(before.areas.areas@);
    let items = json::array_of(before.zones.zones@);
    let zones = JsonView::Object(json::no_members().push(("items"@, items)));
    lemma_done(id, states);
    lemma_done(id, areas);
    lemma_done(id, zones);
    reveal_with_fuel(json::member_from, 2);
    assert(zones.field("items"@) == Some(items));
    if 0 <= i < before.states.states@.len() {
        lemma_state(before.states.states@[i]@);
    }
    if 0 <= i < before.areas.areas@.len() {
        lemma_area(before.areas.areas@[i]@);
    }
    if 0 <= i < before.zones.zones@.len() {
        lemma_zone(before.zones.zones@[i]);
    }
}

proof fn lemma_state(s: StateView)
    ensures
        tells_state(ha_api::state_json(s), s),
{
    lemma_state_names();
    reveal_with_fuel(json::member_from, 8);
}

/// What a client is told of its own account: the name of the user, and an id that goes by the user
/// name alone.
pub proof fn law_current_user(u: StoredUser, v: StoredUser)
    ensures
        current_user_json(Some(u)).field("name"@) == Some(JsonView::Str(u.name@)),
        current_user_json(Some(u)).field("is_owner"@) == Some(JsonView::Bool(true)),
        current_user_json(Some(u)).field("is_admin"@) == Some(JsonView::Bool(true)),
        u.username@ == v.username@ ==> current_user_json(Some(u)).field("id"@) == current_user_json(
            Some(v),
        ).field("id"@),
        current_user_json(None).field("name"@) == Some(JsonView::Str("Admin"@)),
{
    reveal_strlit("id");
    reveal_strlit("name");
    reveal_strlit("is_owner");
    reveal_strlit("is_admin");
    assert("id"@.len() == 2 && "name"@.len() == 4 && "is_owner"@.len() == 8 && "is_admin"@.len()
        == 8);
    assert("is_owner"@[3] == 'o' && "is_admin"@[3] == 'a');
    reveal_with_fuel(json::member_from, 5);
}

/// A call of a service that names its entities and is carried out is answered with success and the
/// context of the call. One that fails is answered with the code of its error: not found where there
/// is no such service, else that its form is not valid.
pub proof fn law_call_answered(
    id: u64,
    request: CallServiceRequest,
    res: Result<crate::service::ServiceOutcome, crate::service::ServiceError>,
)
    ensures
        ({
            let r = crate::ha_ws::call_answer(id, request, res);
            match res {
                Ok(outcome) => {
                    &&& r.field("success"@) == Some(JsonView::Bool(true))
                    &&& r.field("result"@) matches Some(told) && (told.field("context"@) matches Some(
                        c,
                    ) && c.field("id"@) == Some(JsonView::Str(outcome.context.id@)))
                },
                Err(crate::service::ServiceError::NotFound { .. }) => failed_with(
                    r,
                    id,
                    "not_found"@,
                ),
                Err(crate::service::ServiceError::InvalidFormat(_)) => failed_with(
                    r,
                    id,
                    "invalid_format"@,
                ),
                Err(crate::service::ServiceError::ServiceValidation(_)) => failed_with(
                    r,
                    id,
                    "invalid_format"@,
                ),
                Err(_) => failed_with(r, id, "internal_error"@),
            }
        }),
{
    lemma_answer_names();
    reveal_strlit("context");
    reveal_strlit("response");
    assert("context"@.len() == 7 && "response"@.len() == 8);
    reveal_with_fuel(json::member_from, 5);
}

/// The registry tells of a device its id, its name, who made it and what it is; it has no area and
/// is not disabled.
pub proof fn law_device_registered(d: MobileDeviceRecord)
    ensures
        ({
            let told = d.json();
            &&& told.field("id"@) == Some(JsonView::Str(d.webhook_id@))
            &&& told.field("name"@) == Some(JsonView::Str(d.device_name@))
            &&& told.field("manufacturer"@) == Some(JsonView::Str(d.manufacturer@))
            &&& told.field("model"@) == Some(JsonView::Str(d.model@))
            &&& told.field("sw_version"@) == Some(text_or_null(d.os_version.deep_view()))
            &&& told.field("identifiers"@) matches Some(JsonView::Array(ids)) && ids.len() == 1 && (
            ids[0] matches JsonView::Array(pair) && pair.len() == 2 && pair[0] == JsonView::Str(
                "mobile_app"@,
            ) && pair[1] == JsonView::Str(d.webhook_id@))
            &&& told.field("entry_type"@) == Some(JsonView::Str("service"@))
        }),
{
    reveal_strlit("id");
    reveal_strlit("config_entries");
    reveal_strlit("config_entries_subentries");
    reveal_strlit("connections");
    reveal_strlit("created_at");
    reveal_strlit("entry_type");
    reveal_strlit("identifiers");
    reveal_strlit("labels");
    reveal_strlit("modified_at");
    reveal_strlit("name");
    reveal_strlit("manufacturer");
    reveal_strlit("model");
    reveal_strlit("sw_version");
    assert("id"@.len() == 2 && "config_entries"@.len() == 14 && "config_entries_subentries"@.len()
        == 25 && "connections"@.len() == 11 && "created_at"@.len() == 10 && "entry_type"@.len()
        == 10 && "identifiers"@.len() == 11 && "labels"@.len() == 6 && "modified_at"@.len() == 11
        && "name"@.len() == 4 && "manufacturer"@.len() == 12 && "model"@.len() == 5
        && "sw_version"@.len() == 10);
    assert("created_at"@[0] == 'c' && "entry_type"@[0] == 'e' && "sw_version"@[0] == 's');
    assert("connections"@[0] == 'c' && "identifiers"@[0] == 'i' && "modified_at"@[0] == 'm');
    reveal_with_fuel(json::member_from, 14);
}

/// The services are told by domain and by name, each with what it is called, what it does and what
/// it takes.
pub proof fn law_services_told(
    s: Seq<crate::service::DomainModel>,
    d: int,
    k: int,
    f: int,
)
    requires
        0 <= d < s.len(),
        0 <= k < s[d].1.len(),
        0 <= f < s[d].1[k].fields.len(),
    ensures
        crate::ha_ws::services_json(s) matches JsonView::Object(domains) && {
            &&& domains.len() == s.len()
            &&& domains[d].0 == s[d].0
            &&& domains[d].1 matches JsonView::Object(services) && {
                let told = services[k].1;
                &&& services.len() == s[d].1.len()
                &&& services[k].0 == s[d].1[k].service
                &&& told.field("name"@) == Some(JsonView::Str(s[d].1[k].name))
                &&& told.field("description"@) == Some(JsonView::Str(s[d].1[k].description))
                &&& told.field("fields"@) matches Some(JsonView::Object(fields)) && {
                    &&& fields.len() == s[d].1[k].fields.len()
                    &&& fields[f].0 == s[d].1[k].fields[f].0
                    &&& fields[f].1.field("required"@) == Some(
                        JsonView::Bool(s[d].1[k].fields[f].1),
                    )
                    &&& s[d].1[k].fields[f].2 matches Some(j) ==> fields[f].1.field("selector"@)
                        == Some(j)
                }
            }
        },
{
    reveal_strlit("name");
    reveal_strlit("description");
    reveal_strlit("fields");
    reveal_strlit("required");
    reveal_strlit("selector");
    assert("name"@.len() == 4 && "description"@.len() == 11 && "fields"@.len() == 6
        && "required"@.len() == 8 && "selector"@.len() == 8);
    assert("required"@[0] == 'r' && "selector"@[0] == 's');
    reveal_with_fuel(json::member_from, 4);
}

/// A message of a client that is in is answered just where it has a number and a type; one that has
/// not changes nothing.
pub proof fn law_message_answered(
    message: Option<JsonView>,
    call: Result<CallServiceRequest, String>,
    source: WsSource,
    before: WsModel,
    after: WsModel,
    r: Option<(JsonView, WsAction)>,
)
    requires
        crate::ha_ws::command_phase_result(message, call, source, before, after, r),
    ensures
        r is Some <==> message is Some && (message->0.field("id"@) matches Some(JsonView::PosInt(_)))
            && (message->0.field("type"@) matches Some(JsonView::Str(_))),
        r is None ==> after == before,
        r matches Some((reply, _)) ==> reply.field("id"@) == message->0.field("id"@),
{
    if let Some((reply, action)) = r {
        let m = message->0;
        let (id, msg_type, extra) = choose|id: u64, msg_type: Seq<char>, extra: JsonView|
            is_command(m, id, msg_type, extra) && #[trigger] command_result(
                id,
                msg_type,
                extra,
                call,
                source,
                before,
                after,
                reply,
                action,
            );
        crate::ha_ws::law_command_answered(
            id,
            msg_type,
            extra,
            call,
            source,
            before,
            after,
            reply,
            action,
        );
    }
}

/// A client is told first to authenticate, and by which version; one that fails is told why.
pub proof fn law_handshake(message: Option<JsonView>, tokens: TokenModel)
    ensures
        crate::ha_ws::auth_required_json().field("type"@) == Some(JsonView::Str("auth_required"@)),
        crate::ha_ws::auth_required_json().field("ha_version"@) == Some(JsonView::Str("2025.1.0"@)),
        ({
            let (told, phase) = auth_answer(message, tokens);
            &&& phase is Active ==> told.field("ha_version"@) == Some(JsonView::Str("2025.1.0"@))
            &&& phase is Auth ==> told.field("message"@) is Some
            &&& message is Some && message->0.field("type"@) == Some(JsonView::Str("auth"@)) && (
            message->0.field("access_token"@) matches Some(JsonView::Str(_))) && phase is Auth
                ==> told.field("message"@) == Some(
                JsonView::Str("Invalid access token or password"@),
            )
        }),
{
    reveal_strlit("type");
    reveal_strlit("ha_version");
    reveal_strlit("message");
    assert("type"@.len() == 4 && "ha_version"@.len() == 10 && "message"@.len() == 7);
    reveal_with_fuel(json::member_from, 3);
}

/// What is told of the core and of the configuration.
pub proof fn law_core_told(c: crate::app_core::CoreStateResponse, m: crate::app_core::ApiConfigModel)
    ensures
        c.state is Running ==> c.json().field("state"@) == Some(JsonView::Str("RUNNING"@)),
        c.json().field("recorder_state"@) matches Some(r) && r.field("migration_in_progress"@)
            == Some(JsonView::Bool(c.recorder_state.migration_in_progress)) && r.field(
            "migration_is_live"@,
        ) == Some(JsonView::Bool(c.recorder_state.migration_is_live)),
        ({
            let told = ha_api::config_json(m);
            &&& told.field("version"@) == Some(JsonView::Str(m.version))
            &&& told.field("location_name"@) == Some(JsonView::Str(m.location_name))
            &&& told.field("time_zone"@) == Some(JsonView::Str(m.time_zone))
            &&& told.field("language"@) == Some(JsonView::Str(m.language))
            &&& told.field("latitude"@) == Some(JsonView::Float(m.latitude))
            &&& told.field("longitude"@) == Some(JsonView::Float(m.longitude))
            &&& told.field("elevation"@) == Some(JsonView::Float(m.elevation))
            &&& told.field("state"@) == Some(JsonView::Str(m.state))
            &&& told.field("unit_system"@) matches Some(u) && u.field("length"@) == Some(
                JsonView::Str("km"@),
            ) && u.field("mass"@) == Some(JsonView::Str("g"@))
        }),
{
    reveal_strlit("state");
    reveal_strlit("recorder_state");
    reveal_strlit("migration_in_progress");
    reveal_strlit("migration_is_live");
    reveal_strlit("version");
    reveal_strlit("location_name");
    reveal_strlit("time_zone");
    reveal_strlit("language");
    reveal_strlit("latitude");
    reveal_strlit("longitude");
    reveal_strlit("elevation");
    reveal_strlit("unit_system");
    reveal_strlit("length");
    reveal_strlit("mass");
    assert("state"@.len() == 5 && "recorder_state"@.len() == 14 && "migration_in_progress"@.len()
        == 21 && "migration_is_live"@.len() == 17 && "version"@.len() == 7 && "location_name"@.len()
        == 13 && "time_zone"@.len() == 9 && "language"@.len() == 8 && "latitude"@.len() == 8
        && "longitude"@.len() == 9 && "elevation"@.len() == 9 && "unit_system"@.len() == 11
        && "length"@.len() == 6 && "mass"@.len() == 4);
    assert("time_zone"@[0] == 't' && "longitude"@[0] == 'l' && "elevation"@[0] == 'e');
    assert("language"@[2] == 'n' && "latitude"@[2] == 't');
    reveal_with_fuel(json::member_from, 10);
}

/// An id is one of an entity if it is two slugs with a dot between them, and no two underscores
/// stand together in it.
pub proof fn law_entity_ids(domain: Seq<char>, object: Seq<char>)
    requires
        state_store::is_slug(domain),
        state_store::is_slug(object),
        forall|i: int|
            0 <= i && i + 1 < domain.len() ==> !(#[trigger] domain[i] == '_' && domain[i + 1] == '_'),
        forall|i: int|
            0 <= i && i + 1 < object.len() ==> !(#[trigger] object[i] == '_' && object[i + 1] == '_'),
    ensures
        state_store::valid_entity_id(domain + seq!['.'] + object),
        !state_store::valid_entity_id(domain),
{
    let s = domain + seq!['.'] + object;
    let n = domain.len() as int;
    assert(s[n] == '.');
    assert(s.take(n) =~= domain);
    assert(s.skip(n + 1) =~= object);
    if state_store::has_double_underscore(s) {
        let i = choose|i: int| 0 <= i && i + 1 < s.len() && #[trigger] s[i] == '_' && s[i + 1] == '_';
        if i + 1 < n {
            assert(domain[i] == '_');
        } else if i > n {
            assert(object[i - n - 1] == '_');
        }
    }
    if state_store::valid_entity_id(domain) {
        let i = choose|i: int|
            0 <= i < domain.len() && #[trigger] domain[i] == '.' && state_store::is_slug(
                domain.take(i),
            ) && state_store::is_slug(domain.skip(i + 1));
        assert(state_store::is_id_char(domain[i]));
    }
}

/// A state that is set over the API has the attributes of the request, where it gives an object, and
/// none else.
pub proof fn law_attributes_given(data: JsonView)
    ensures
        match data.field("attributes"@) {
            Some(JsonView::Object(m)) => ha_api::attributes_of(data) == m,
            _ => ha_api::attributes_of(data).len() == 0,
        },
{
}

} // verus!
