//! The states over HTTP.

use vstd::prelude::*;

use crate::app_core;
use crate::app_core::{ApiConfigModel, ApiConfigResponse, CoreState, CoreStateResponse, UnitSystem};
use crate::ha_auth;
use crate::ha_auth::message_reply;
use crate::ids;
use crate::json;
use crate::json::{copy_members, to_array, Json, JsonView, Members, ObjectBuilder, ToJson};
use crate::state_store;
use crate::state_store::{
    make_state, Context, ContextView, State, StateAttributes, StateEvent, StateRun, StateStore,
    StateView,
};
use crate::text;
use crate::text::byte_len;
use crate::web::{Reply, ReplyView};

verus! {

/// The JSON form of a context.
pub open spec fn context_json(c: ContextView) -> JsonView {
    JsonView::Object(
        json::no_members().push(("id"@, JsonView::Str(c.id))).push(
            ("parent_id"@, json::opt_str_json(c.parent_id)),
        ).push(("user_id"@, json::opt_str_json(c.user_id))),
    )
}

impl ToJson for Context {
    open spec fn json(&self) -> JsonView {
        context_json(self@)
    }

    fn to_json(&self) -> (r: Json) {
        ObjectBuilder::new().text("id", self.id.as_str()).field(
            "parent_id",
            Json::opt_str(&self.parent_id),
        ).field("user_id", Json::opt_str(&self.user_id)).done()
    }
}

/// The JSON form of a state.
pub open spec fn state_json(s: StateView) -> JsonView {
    JsonView::Object(
        json::no_members().push(("entity_id"@, JsonView::Str(s.entity_id))).push(
            ("state"@, JsonView::Str(s.state)),
        ).push(("attributes"@, JsonView::Object(s.attributes))).push(
            ("last_changed"@, JsonView::Str(s.last_changed)),
        ).push(("last_reported"@, JsonView::Str(s.last_reported))).push(
            ("last_updated"@, JsonView::Str(s.last_updated)),
        ).push(("context"@, context_json(s.context))),
    )
}

impl ToJson for State {
    open spec fn json(&self) -> JsonView {
        state_json(self@)
    }

    fn to_json(&self) -> (r: Json) {
        let attributes: Json = Json::Object(copy_members(&self.attributes));
        assert(attributes@ == JsonView::Object(self@.attributes));
        ObjectBuilder::new().text("entity_id", self.entity_id.as_str()).text(
            "state",
            self.state.as_str(),
        ).field("attributes", attributes).text("last_changed", self.last_changed.as_str()).text(
            "last_reported",
            self.last_reported.as_str(),
        ).text("last_updated", self.last_updated.as_str()).field(
            "context",
            self.context.to_json(),
        ).done()
    }
}

/// The name of a state of the core.
pub open spec fn core_state_name(s: CoreState) -> Seq<char> {
    match s {
        CoreState::NotRunning => "NOT_RUNNING"@,
        CoreState::Starting => "STARTING"@,
        CoreState::Running => "RUNNING"@,
        CoreState::Stopping => "STOPPING"@,
        CoreState::FinalWrite => "FINAL_WRITE"@,
        CoreState::Stopped => "STOPPED"@,
    }
}

impl ToJson for CoreStateResponse {
    open spec fn json(&self) -> JsonView {
        JsonView::Object(
            json::no_members().push(("state"@, JsonView::Str(core_state_name(self.state)))).push(
                (
                    "recorder_state"@,
                    JsonView::Object(
                        json::no_members().push(
                            (
                                "migration_in_progress"@,
                                JsonView::Bool(self.recorder_state.migration_in_progress),
                            ),
                        ).push(
                            (
                                "migration_is_live"@,
                                JsonView::Bool(self.recorder_state.migration_is_live),
                            ),
                        ),
                    ),
                ),
            ),
        )
    }

    fn to_json(&self) -> (r: Json) {
        let name: &str = match self.state {
            CoreState::NotRunning => "NOT_RUNNING",
            CoreState::Starting => "STARTING",
            CoreState::Running => "RUNNING",
            CoreState::Stopping => "STOPPING",
            CoreState::FinalWrite => "FINAL_WRITE",
            CoreState::Stopped => "STOPPED",
        };
        let recorder: Json = ObjectBuilder::new().field(
            "migration_in_progress",
            Json::Bool(self.recorder_state.migration_in_progress),
        ).field("migration_is_live", Json::Bool(self.recorder_state.migration_is_live)).done();
        ObjectBuilder::new().text("state", name).field("recorder_state", recorder).done()
    }
}

impl ToJson for UnitSystem {
    open spec fn json(&self) -> JsonView {
        JsonView::Object(
            json::no_members().push(("length"@, JsonView::Str("km"@))).push(
                ("mass"@, JsonView::Str("g"@)),
            ).push(("temperature"@, JsonView::Str("\u{b0}C"@))).push(
                ("volume"@, JsonView::Str("L"@)),
            ),
        )
    }

    fn to_json(&self) -> (r: Json) {
        ObjectBuilder::new().text("length", "km").text("mass", "g").text(
            "temperature",
            "\u{b0}C",
        ).text("volume", "L").done()
    }
}

/// The JSON form of the configuration.
pub open spec fn config_json(c: ApiConfigModel) -> JsonView {
    JsonView::Object(
        json::no_members().push(("version"@, JsonView::Str(c.version))).push(
            ("location_name"@, JsonView::Str(c.location_name)),
        ).push(("time_zone"@, JsonView::Str(c.time_zone))).push(
            ("language"@, JsonView::Str(c.language)),
        ).push(("latitude"@, JsonView::Float(c.latitude))).push(
            ("longitude"@, JsonView::Float(c.longitude)),
        ).push(("elevation"@, JsonView::Float(c.elevation))).push(
            ("unit_system"@, c.unit_system.json()),
        ).push(("state"@, JsonView::Str(c.state))).push(
            ("components"@, json::strings_json(c.components)),
        ).push(("whitelist_external_dirs"@, json::strings_json(c.whitelist_external_dirs))),
    )
}

fn real_json(r: &json::Real) -> (j: Json)
    ensures
        j@ == JsonView::Float(r@),
{
    Json::Float(r.clone())
}

impl ToJson for ApiConfigResponse {
    open spec fn json(&self) -> JsonView {
        config_json(self@)
    }

    fn to_json(&self) -> (r: Json) {
        ObjectBuilder::new().text("version", self.version.as_str()).text(
            "location_name",
            self.location_name.as_str(),
        ).text("time_zone", self.time_zone.as_str()).text("language", self.language.as_str()).field(
            "latitude",
            real_json(&self.latitude),
        ).field("longitude", real_json(&self.longitude)).field(
            "elevation",
            real_json(&self.elevation),
        ).field("unit_system", self.unit_system.to_json()).text("state", self.state.as_str()).field(
            "components",
            Json::strings(&self.components),
        ).field("whitelist_external_dirs", Json::strings(&self.whitelist_external_dirs)).done()
    }
}

/// The reply that the API runs.
pub fn api_status() -> (r: Reply)
    ensures
        r@ == ReplyView::Json(200, ha_auth::message_json("API running."@)),
{
    message_reply(200, app_core::api_status().message.as_str())
}

/// The reply with the state of the core.
pub fn api_core_state() -> (r: Reply)
    ensures
        r@ == ReplyView::Json(200, app_core::running_core().json()),
{
    Reply::Json(200, app_core::api_core_state().to_json())
}

/// The reply with the configuration.
pub fn api_config(product_name: &str) -> (r: Reply)
    ensures
        r@ == ReplyView::Json(200, config_json(app_core::api_config_model(product_name@))),
{
    Reply::Json(200, app_core::api_config(product_name).to_json())
}

/// The reply with all states.
pub fn api_states_list(states: &StateStore) -> (r: Reply)
    ensures
        r@ == ReplyView::Json(200, json::array_of(states.states@)),
{
    Reply::Json(200, to_array(&states.states))
}

/// The reply with the state of an entity.
pub fn api_state_get(states: &StateStore, entity_id: &str) -> (r: Reply)
    ensures
        r@ == match state_store::state_in(states@, entity_id@) {
            Some(s) => ReplyView::Json(200, state_json(s)),
            None => ReplyView::Json(404, ha_auth::message_json("Entity not found."@)),
        },
{
    match states.get(entity_id) {
        Some(s) => Reply::Json(200, s.to_json()),
        None => message_reply(404, "Entity not found."),
    }
}

/// The attributes in a request: the member of that name, if it is an object.
pub open spec fn attributes_of(data: JsonView) -> Members {
    match data.field("attributes"@) {
        Some(JsonView::Object(m)) => m,
        _ => json::no_members(),
    }
}

/// The attributes in a request.
pub fn get_attributes(data: &Json) -> (r: StateAttributes)
    ensures
        r@ == attributes_of(data@),
{
    match data.get("attributes") {
        Some(j) => match j {
            Json::Object(m) => StateAttributes::from_json_object(m),
            _ => StateAttributes::empty(),
        },
        None => StateAttributes::empty(),
    }
}

/// What a request to set a state returns and does to the states.
pub open spec fn state_set_result(
    before: StateRun,
    after: StateRun,
    entity_id: Seq<char>,
    data: JsonView,
    r: ReplyView,
) -> bool {
    if !state_store::valid_entity_id(entity_id) {
        r == ReplyView::Json(400, ha_auth::message_json("Invalid entity ID specified."@)) && after
            == before
    } else {
        match data.str_field("state"@) {
            None => r == ReplyView::Json(400, ha_auth::message_json("No state specified."@))
                && after == before,
            Some(value) => if text::byte_count(value) > state_store::MAX_STATE_BYTES {
                r == ReplyView::Json(400, ha_auth::message_json("Invalid state specified."@))
                    && after == before
            } else {
                exists|saved: StateView|
                    {
                        &&& made_now(saved, entity_id, value, attributes_of(data))
                        &&& after == #[trigger] before.offer(saved)
                        &&& r == ReplyView::Json(
                            if before.states.contains_key(entity_id) {
                                200
                            } else {
                                201
                            },
                            state_json(saved),
                        )
                    }
            },
        }
    }
}

/// Whether a state has been made now, in a context of its own.
pub open spec fn made_now(
    s: StateView,
    entity_id: Seq<char>,
    value: Seq<char>,
    attributes: Members,
) -> bool {
    &&& s == state_store::state_at(entity_id, value, attributes, s.context, s.last_updated)
    &&& state_store::is_timestamp(s.last_updated)
    &&& ids::is_hex_text(s.context.id, 32)
    &&& s.context.parent_id is None
    &&& s.context.user_id is None
}

/// Sets the state of an entity, as a request asks for.
pub fn api_state_set(
    states: &mut StateStore,
    events: &mut Vec<StateEvent>,
    entity_id: &str,
    data: &Json,
) -> (r: Reply)
    ensures
        state_set_result(
            state_store::run_of(*old(states), old(events)@),
            state_store::run_of(*final(states), final(events)@),
            entity_id@,
            data@,
            r@,
        ),
        old(states).wf() ==> final(states).wf(),
{
    if !State::is_valid_entity_id(entity_id) {
        return message_reply(400, "Invalid entity ID specified.");
    }
    let value: &str = match data.get_str("state") {
        Some(v) => v,
        None => {
            return message_reply(400, "No state specified.");
        },
    };
    if byte_len(value) > 255 {
        return message_reply(400, "Invalid state specified.");
    }
    let is_new: bool = states.get(entity_id).is_none();
    let saved: State = make_state(entity_id, value, get_attributes(data));
    let body: Json = saved.to_json();
    let ghost s = saved@;
    assert(made_now(s, entity_id@, value@, attributes_of(data@)));
    let _ = states.offer(saved, events);
    Reply::Json(
        if is_new {
            201
        } else {
            200
        },
        body,
    )
}

/// What has been set is read back: the entity has the value and the attributes of the request,
/// and its state is the one in the reply. A refused request changes nothing.
pub proof fn law_state_read_back(
    before: StateRun,
    after: StateRun,
    entity_id: Seq<char>,
    data: JsonView,
    r: ReplyView,
)
    requires
        state_set_result(before, after, entity_id, data, r),
    ensures
        match r {
            ReplyView::Json(status, body) => if status == 400 {
                after == before
            } else {
                let found = state_store::state_in(after.states, entity_id);
                &&& status == if before.states.contains_key(entity_id) {
                    200int
                } else {
                    201
                }
                &&& found is Some
                &&& body == state_json(found->0)
                &&& Some(found->0.state) == data.str_field("state"@)
                &&& found->0.attributes == attributes_of(data)
                &&& forall|other: Seq<char>|
                    other != entity_id ==> #[trigger] state_store::state_in(after.states, other)
                        == state_store::state_in(before.states, other)
            },
            _ => false,
        },
{
    if state_store::valid_entity_id(entity_id) && data.str_field("state"@) is Some
        && text::byte_count(data.str_field("state"@)->0) <= state_store::MAX_STATE_BYTES {
        let saved = choose|saved: StateView|
            {
                &&& made_now(saved, entity_id, data.str_field("state"@)->0, attributes_of(data))
                &&& after == #[trigger] before.offer(saved)
                &&& r == ReplyView::Json(
                    if before.states.contains_key(entity_id) {
                        200
                    } else {
                        201
                    },
                    state_json(saved),
                )
            };
        state_store::law_states(before, saved, entity_id);
    }
}

/// A request to set a state leaves all states with points in time.
pub proof fn law_set_timed(
    before: StateRun,
    after: StateRun,
    entity_id: Seq<char>,
    data: JsonView,
    r: ReplyView,
)
    requires
        state_set_result(before, after, entity_id, data, r),
        state_store::all_timed(before),
    ensures
        state_store::all_timed(after),
{
    if after != before {
        let value = data.str_field("state"@)->0;
        let saved = choose|saved: StateView|
            made_now(saved, entity_id, value, attributes_of(data)) && after
                == #[trigger] before.offer(saved);
        state_store::lemma_offer_timed(before, saved);
    }
}

} // verus!
