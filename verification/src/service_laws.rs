//! What service calls do: laws over the states that they leave and the answers that they give.

use vstd::prelude::*;
use vstd::string::*;

use crate::ids;
use crate::json;
use crate::json::{JsonView, Members};
use crate::service::{
    attributes_in, brightness_of, call_result, call_stopped, commanded, commanded_state,
    has_template, is_fresh, made_at, service_catalog, target_entries, target_from_parts,
    ServiceCall, ServiceError, ServiceOutcome,
};
use crate::state_store;
use crate::state_store::{ContextView, StateRun, StateView};

verus! {

/// The attributes that an entity has, if it has a state.
pub open spec fn attribute(
    states: Map<Seq<char>, StateView>,
    id: Seq<char>,
    name: Seq<char>,
) -> Option<JsonView> {
    if states.contains_key(id) {
        json::member(states[id].attributes, name)
    } else {
        None
    }
}

/// A whole number as JSON has it.
pub open spec fn is_whole(j: JsonView, n: int) -> bool {
    match j {
        JsonView::PosInt(m) => m == n,
        JsonView::NegInt(m) => m == n,
        _ => false,
    }
}

proof fn lemma_commanded_at(
    run: StateRun,
    ids: Seq<Seq<char>>,
    value: Seq<char>,
    brightness: Option<i64>,
    context: ContextView,
    timestamps: Seq<Seq<char>>,
    id: Seq<char>,
    name: Seq<char>,
)
    ensures
        ({
            let after = commanded(run, ids, value, brightness, context, timestamps).states;
            if ids.contains(id) {
                &&& after.contains_key(id)
                &&& after[id].entity_id == id
                &&& after[id].state == value
                &&& after[id].context == context
                &&& after[id].last_changed == after[id].last_updated
                &&& after[id].last_reported == after[id].last_updated
                &&& name != "brightness"@ || brightness is None ==> attribute(after, id, name)
                    == attribute(run.states, id, name)
                &&& name == "brightness"@ && brightness is Some ==> {
                    &&& attribute(after, id, name) is Some
                    &&& is_whole(attribute(after, id, name)->0, brightness->0 as int)
                }
            } else {
                state_store::state_in(after, id) == state_store::state_in(run.states, id)
            }
        }),
    decreases ids.len(),
{
    if ids.len() > 0 {
        let n = (ids.len() - 1) as int;
        let front = ids.take(n);
        lemma_commanded_at(run, front, value, brightness, context, timestamps, id, name);
        let before = commanded(run, front, value, brightness, context, timestamps).states;
        let after = commanded(run, ids, value, brightness, context, timestamps).states;
        if ids[n] == id {
            assert(ids.contains(id));
            let old = attributes_in(before, id);
            if brightness is Some {
                json::law_with_member(
                    old,
                    "brightness"@,
                    json::int_json(brightness->0 as int),
                    name,
                );
            }
            assert(after[id] == commanded_state(
                before,
                id,
                value,
                brightness,
                context,
                timestamps[n],
            ));
            assert(attribute(before, id, name) == json::member(old, name));
        } else {
            if ids.contains(id) {
                let k = choose|k: int| 0 <= k < ids.len() && ids[k] == id;
                assert(front[k] == id);
            }
            if front.contains(id) {
                let k = choose|k: int| 0 <= k < front.len() && front[k] == id;
                assert(ids[k] == id);
            }
        }
    }
}

/// Whether a call is for a service that there is.
pub open spec fn is_known(call: ServiceCall) -> bool {
    (call.domain@ == "light"@ || call.domain@ == "switch"@) && (call.service@ == "turn_on"@
        || call.service@ == "turn_off"@)
}

proof fn lemma_names()
    ensures
        "light"@ != "switch"@,
        "turn_on"@ != "turn_off"@,
        "on"@ != "off"@,
        "entity_id"@ != "device_id"@,
{
    reveal_strlit("light");
    reveal_strlit("switch");
    reveal_strlit("turn_on");
    reveal_strlit("turn_off");
    reveal_strlit("on");
    reveal_strlit("off");
    reveal_strlit("entity_id");
    reveal_strlit("device_id");
    assert("light"@.len() == 5 && "switch"@.len() == 6);
    assert("turn_on"@.len() == 7 && "turn_off"@.len() == 8);
    assert("on"@.len() == 2 && "off"@.len() == 3);
    assert("entity_id"@[0] == 'e' && "device_id"@[0] == 'd');
}

/// After a completed call each target entity is on, if it was turned on, and off, if it was turned
/// off. Its brightness is the one that was asked for, and every other attribute has the value that
/// it had before the call; without a brightness all have. All targets share the context of the
/// call, and all other entities stay as they were.
pub proof fn law_called(
    before: StateRun,
    after: StateRun,
    call: ServiceCall,
    outcome: ServiceOutcome,
    id: Seq<char>,
    name: Seq<char>,
)
    requires
        call_result(before, after, call, Ok(outcome)),
    ensures
        ({
            let ids = call.target.entity_ids.deep_view();
            if ids.contains(id) {
                &&& after.states.contains_key(id)
                &&& after.states[id].entity_id == id
                &&& call.service@ == "turn_on"@ ==> after.states[id].state == "on"@
                &&& call.service@ == "turn_off"@ ==> after.states[id].state == "off"@
                &&& call.service@ == "turn_on"@ || call.service@ == "turn_off"@
                &&& name != "brightness"@ || call.data.brightness is None ==> attribute(
                    after.states,
                    id,
                    name,
                ) == attribute(before.states, id, name)
                &&& call.data.brightness is Some ==> {
                    let told = attribute(after.states, id, "brightness"@);
                    told is Some && is_whole(told->0, call.data.brightness->0 as int)
                }
                &&& after.states[id].context == outcome.context@
                &&& after.states[id].last_changed == after.states[id].last_updated
                &&& after.states[id].last_reported == after.states[id].last_updated
            } else {
                state_store::state_in(after.states, id) == state_store::state_in(before.states, id)
            }
        }),
        ids::is_hex_text(outcome.context.id@, 32),
        outcome.response is None,
        after.events.len() == before.events.len() + call.target.entity_ids@.len(),
{
    lemma_names();
    let ids = call.target.entity_ids.deep_view();
    let value = if call.service@ == "turn_on"@ {
        "on"@
    } else {
        "off"@
    };
    let ts = made_at(outcome.changed_states@);
    lemma_commanded_at(
        before,
        ids,
        value,
        call.data.brightness,
        outcome.context@,
        ts,
        id,
        name,
    );
    lemma_commanded_at(
        before,
        ids,
        value,
        call.data.brightness,
        outcome.context@,
        ts,
        id,
        "brightness"@,
    );
    crate::service::law_commanded(
        before,
        ids,
        value,
        call.data.brightness,
        outcome.context@,
        ts,
        id,
    );
}

/// Each change that a completed call tells of replaces the state that the entity had: the one before
/// the call, where the entity is a target once.
pub proof fn law_call_told(
    before: StateRun,
    after: StateRun,
    call: ServiceCall,
    outcome: ServiceOutcome,
    i: int,
)
    requires
        call_result(before, after, call, Ok(outcome)),
        0 <= i < call.target.entity_ids@.len(),
        forall|j: int|
            0 <= j < i ==> (#[trigger] call.target.entity_ids@[j])@
                != call.target.entity_ids@[i]@,
    ensures
        ({
            let id = call.target.entity_ids@[i]@;
            let told = after.events[before.events.len() + i];
            &&& told.0.entity_id == id
            &&& told.0.state == if call.service@ == "turn_on"@ {
                "on"@
            } else {
                "off"@
            }
            &&& told.1 == state_store::state_in(before.states, id)
            &&& outcome.changed_states@[i]@ == told.0
        }),
        forall|k: int|
            0 <= k < before.events.len() ==> #[trigger] after.events[k] == before.events[k],
{
    lemma_names();
    let ids = call.target.entity_ids.deep_view();
    let value = if call.service@ == "turn_on"@ {
        "on"@
    } else {
        "off"@
    };
    let ts = made_at(outcome.changed_states@);
    let b = call.data.brightness;
    let c = outcome.context@;
    assert forall|j: int| 0 <= j < i implies #[trigger] ids[j] != ids[i] by {
        assert(call.target.entity_ids@[j]@ != call.target.entity_ids@[i]@);
    }
    lemma_told(before, ids, value, b, c, ts, i, ids.len() as int);
    let mid = commanded(before, ids.take(i), value, b, c, ts);
    lemma_commanded_at(before, ids.take(i), value, b, c, ts, ids[i], ""@);
    assert(!ids.take(i).contains(ids[i])) by {
        if ids.take(i).contains(ids[i]) {
            let j = choose|j: int| 0 <= j < i && ids.take(i)[j] == ids[i];
            assert(ids[j] != ids[i]);
        }
    }
    assert(ids.take(ids.len() as int) =~= ids);
    let s = commanded_state(mid.states, ids[i], value, b, c, ts[i]);
    assert(ids.take(i + 1).take(i) =~= ids.take(i));
    assert(commanded(before, ids.take(i + 1), value, b, c, ts).states[ids[i]] == s);
}

proof fn lemma_told(
    run: StateRun,
    ids: Seq<Seq<char>>,
    value: Seq<char>,
    brightness: Option<i64>,
    context: ContextView,
    ts: Seq<Seq<char>>,
    i: int,
    n: int,
)
    requires
        0 <= i < n <= ids.len(),
    ensures
        ({
            let after = commanded(run, ids.take(n), value, brightness, context, ts);
            let mid = commanded(run, ids.take(i), value, brightness, context, ts);
            &&& after.events.len() == run.events.len() + n
            &&& after.events[run.events.len() + i] == (
                commanded_state(mid.states, ids[i], value, brightness, context, ts[i]),
                state_store::state_in(mid.states, ids[i]),
            )
            &&& forall|k: int|
                0 <= k < run.events.len() ==> #[trigger] after.events[k] == run.events[k]
        }),
    decreases n,
{
    let m = n - 1;
    let part = ids.take(n);
    assert(part.take(m) =~= ids.take(m));
    assert(part[m] == ids[m]);
    let before = commanded(run, ids.take(m), value, brightness, context, ts);
    if m > 0 {
        lemma_told(
            run,
            ids,
            value,
            brightness,
            context,
            ts,
            if i < m {
                i
            } else {
                0
            },
            m,
        );
    } else {
        assert(ids.take(0) =~= Seq::empty());
    }
    let after = commanded(run, part, value, brightness, context, ts);
    assert forall|k: int| 0 <= k < run.events.len() implies #[trigger] after.events[k]
        == run.events[k] by {
        assert(after.events[k] == before.events[k]);
    }
}

/// A call for a service that there is not finds nothing, one that asks for a response is not valid,
/// and one that names no entity is not well formed; none of these changes anything. A call with
/// entity ids succeeds if all are such, and is not well formed if one is not.
pub proof fn law_call_answered(
    before: StateRun,
    after: StateRun,
    call: ServiceCall,
    r: Result<ServiceOutcome, ServiceError>,
)
    requires
        call_result(before, after, call, r),
    ensures
        !is_known(call) ==> after == before && (r matches Err(ServiceError::NotFound {
            domain,
            service,
        }) && domain@ == call.domain@ && service@ == call.service@),
        is_known(call) && call.return_response ==> after == before && (r matches Err(
            ServiceError::ServiceValidation(_),
        )),
        is_known(call) && !call.return_response && call.target.entity_ids@.len() == 0 ==> after
            == before && (r matches Err(ServiceError::InvalidFormat(_))),
        is_known(call) && !call.return_response && call.target.entity_ids@.len() > 0 ==> {
            let all_valid = forall|i: int|
                0 <= i < call.target.entity_ids@.len() ==> state_store::valid_entity_id(
                    (#[trigger] call.target.entity_ids@[i])@,
                );
            &&& r is Ok <==> all_valid
            &&& !all_valid ==> r matches Err(ServiceError::InvalidFormat(_))
        },
{
    lemma_names();
    let ids = call.target.entity_ids.deep_view();
    assert forall|i: int| 0 <= i < ids.len() implies #[trigger] ids[i]
        == call.target.entity_ids@[i]@ by {}
    if is_known(call) && !call.return_response && ids.len() > 0 {
        match r {
            Ok(outcome) => {
                assert forall|i: int|
                    0 <= i < call.target.entity_ids@.len() implies state_store::valid_entity_id(
                    (#[trigger] call.target.entity_ids@[i])@,
                ) by {
                    assert(state_store::valid_entity_id(ids[i]));
                }
            },
            Err(ServiceError::InvalidFormat(m)) => {
                let value = if call.service@ == "turn_on"@ {
                    "on"@
                } else {
                    "off"@
                };
                let context = choose|context: ContextView|
                    is_fresh(context) && #[trigger] call_stopped(
                        before,
                        after,
                        ids,
                        value,
                        call.data.brightness,
                        context,
                        m@,
                    );
                let (ts, k) = choose|ts: Seq<Seq<char>>, k: int|
                    {
                        &&& ts.len() == k < ids.len()
                        &&& !state_store::valid_entity_id(ids[k])
                        &&& after == #[trigger] commanded(
                            before,
                            ids.take(k),
                            value,
                            call.data.brightness,
                            context,
                            ts,
                        )
                    };
                assert(!state_store::valid_entity_id(call.target.entity_ids@[k]@));
            },
            Err(_) => {},
        }
    }
}

proof fn lemma_entries(items: Seq<JsonView>, key: Seq<char>)
    ensures
        ({
            let plain = forall|i: int|
                0 <= i < items.len() ==> (#[trigger] items[i] matches JsonView::Str(s)
                    && !has_template(s));
            match target_entries(items, key) {
                Ok(r) => {
                    &&& plain
                    &&& r.len() == items.len()
                    &&& forall|i: int| 0 <= i < r.len() ==> items[i] == JsonView::Str(#[trigger] r[i])
                },
                Err(_) => !plain,
            }
        }),
    decreases items.len(),
{
    if items.len() > 0 {
        let front = items.drop_last();
        let n = (items.len() - 1) as int;
        lemma_entries(front, key);
        assert(forall|i: int| 0 <= i < n ==> #[trigger] front[i] == items[i]);
        match target_entries(front, key) {
            Ok(r) => {
                if let Ok(all) = target_entries(items, key) {
                    assert forall|i: int| 0 <= i < all.len() implies items[i] == JsonView::Str(
                        #[trigger] all[i],
                    ) by {
                        if i < n {
                            assert(all[i] == r[i]);
                            assert(front[i] == items[i]);
                        }
                    }
                    assert forall|i: int| 0 <= i < items.len() implies (
                    #[trigger] items[i] matches JsonView::Str(s) && !has_template(s)) by {
                        if i < n {
                            assert(front[i] == items[i]);
                        }
                    }
                } else {
                    assert(!(items[n] matches JsonView::Str(s) && !has_template(s)));
                }
            },
            Err(_) => {
                let i = choose|i: int|
                    0 <= i < front.len() && !(#[trigger] front[i] matches JsonView::Str(s)
                        && !has_template(s));
                assert(items[i] == front[i]);
            },
        }
    }
}

/// Whether a value names ids as a target does: a text, or a list of texts, none of them a template.
pub open spec fn names_ids(given: JsonView) -> bool {
    match given {
        JsonView::Str(s) => !has_template(s),
        JsonView::Array(items) => forall|i: int|
            0 <= i < items.len() ==> (#[trigger] items[i] matches JsonView::Str(s)
                && !has_template(s)),
        _ => false,
    }
}

/// Whether ids are those that a value names, in order.
pub open spec fn are_ids(given: Option<JsonView>, ids: Seq<Seq<char>>) -> bool {
    match given {
        None => ids.len() == 0,
        Some(JsonView::Str(s)) => ids.len() == 1 && ids[0] == s,
        Some(JsonView::Array(items)) => ids.len() == items.len() && forall|i: int|
            0 <= i < items.len() ==> items[i] == JsonView::Str(#[trigger] ids[i]),
        Some(_) => false,
    }
}

proof fn lemma_normalized(given: JsonView, key: Seq<char>)
    ensures
        match crate::service::normalized_target(given, key) {
            Ok(ids) => names_ids(given) && are_ids(Some(given), ids),
            Err(_) => !names_ids(given),
        },
{
    if let JsonView::Array(items) = given {
        lemma_entries(items, key);
    }
}

/// The entities of a target are those that it names, or else those that the data name, and so are
/// its devices. The target and the data are refused just where one of them names ids in another
/// form than a text or a list of texts, or by a template.
pub proof fn law_target(target: Option<JsonView>, data: Members)
    ensures
        ({
            let r = target_from_parts(target, Some(data));
            let own_entity = if target is Some {
                target->0.field("entity_id"@)
            } else {
                None
            };
            let own_device = if target is Some {
                target->0.field("device_id"@)
            } else {
                None
            };
            let data_entity = json::member(data, "entity_id"@);
            let data_device = json::member(data, "device_id"@);
            &&& r is Ok <==> {
                &&& own_entity is Some ==> names_ids(own_entity->0)
                &&& own_device is Some ==> names_ids(own_device->0)
                &&& data_entity is Some ==> names_ids(data_entity->0)
                &&& data_device is Some ==> names_ids(data_device->0)
            }
            &&& r matches Ok((entities, devices)) ==> {
                &&& are_ids(
                    if own_entity is Some {
                        own_entity
                    } else {
                        data_entity
                    },
                    entities,
                )
                &&& are_ids(
                    if own_device is Some {
                        own_device
                    } else {
                        data_device
                    },
                    devices,
                )
            }
        }),
{
    if let Some(t) = target {
        if let Some(v) = t.field("entity_id"@) {
            lemma_normalized(v, "entity_id"@);
        }
        if let Some(v) = t.field("device_id"@) {
            lemma_normalized(v, "device_id"@);
        }
    }
    if let Some(v) = json::member(data, "entity_id"@) {
        lemma_normalized(v, "entity_id"@);
    }
    if let Some(v) = json::member(data, "device_id"@) {
        lemma_normalized(v, "device_id"@);
    }
}

/// The brightness of a call is the whole number that the data give under that name; nothing stands
/// for none, and a text is refused.
pub proof fn law_brightness(data: Members)
    ensures
        match json::member(data, "brightness"@) {
            None => brightness_of(data) matches Ok(None),
            Some(JsonView::Null) => brightness_of(data) matches Ok(None),
            Some(JsonView::PosInt(n)) => n <= i64::MAX ==> (brightness_of(data) matches Ok(Some(b))
                && b == n),
            Some(JsonView::NegInt(n)) => brightness_of(data) matches Ok(Some(b)) && b == n,
            Some(JsonView::Float(_)) => brightness_of(data) matches Ok(None),
            Some(_) => brightness_of(data) is Err,
        },
{
}

/// There are two domains of services, lights and switches, and each can be turned on and off. Only
/// turning on a light takes a brightness, from 0 to 255.
pub proof fn law_catalog()
    ensures
        ({
            let c = service_catalog();
            &&& c.len() == 2
            &&& c[0].0 == "light"@ && c[1].0 == "switch"@
            &&& forall|i: int|
                0 <= i < 2 ==> {
                    let services = #[trigger] c[i].1;
                    &&& services.len() == 2
                    &&& services[0].service == "turn_on"@ && services[0].name == "Turn on"@
                    &&& services[1].service == "turn_off"@ && services[1].name == "Turn off"@
                }
            &&& c[0].1[0].fields.len() == 2
            &&& c[0].1[0].fields[0].0 == "brightness"@ && c[0].1[0].fields[1].0 == "entity_id"@
            &&& c[0].1[1].fields.len() == 1 && c[0].1[1].fields[0].0 == "entity_id"@
            &&& c[1].1[0].fields.len() == 1 && c[1].1[0].fields[0].0 == "entity_id"@
            &&& c[1].1[1].fields.len() == 1 && c[1].1[1].fields[0].0 == "entity_id"@
            &&& !c[0].1[0].fields[0].1
        }),
{
}

/// What an error tells: its code, and for a service that there is not the domain and the service.
pub proof fn law_error_told(e: ServiceError)
    ensures
        e.json() matches JsonView::Object(m) && m.len() >= 2 && m[0].0 == "code"@ && m[1].0
            == "message"@,
        match e {
            ServiceError::NotFound { domain, service } => {
                &&& e.json()->Object_0[0].1 == JsonView::Str("not_found"@)
                &&& e.json()->Object_0[1].1 == JsonView::Str(
                    "Service "@ + domain@ + "."@ + service@ + " not found."@,
                )
            },
            ServiceError::InvalidFormat(m) => {
                &&& e.json()->Object_0[0].1 == JsonView::Str("invalid_format"@)
                &&& e.json()->Object_0[1].1 == JsonView::Str(m@)
            },
            ServiceError::ServiceValidation(m) => {
                &&& e.json()->Object_0[0].1 == JsonView::Str("service_validation_error"@)
                &&& e.json()->Object_0[1].1 == JsonView::Str(m@)
            },
            ServiceError::HomeAssistant(m) => {
                &&& e.json()->Object_0[0].1 == JsonView::Str("home_assistant_error"@)
                &&& e.json()->Object_0[1].1 == JsonView::Str(m@)
            },
            ServiceError::Unknown(m) => {
                &&& e.json()->Object_0[0].1 == JsonView::Str("unknown_error"@)
                &&& e.json()->Object_0[1].1 == JsonView::Str(m@)
            },
        },
{
}

/// The brightness of a light can be chosen from 0 to 255, and the entities of a service are those of
/// its domain. No field has to be given.
pub proof fn law_selectors()
    ensures
        ({
            let c = service_catalog();
            &&& c[0].1[0].fields[0].2 matches Some(j) && (j.field("number"@) matches Some(range)
                && range.field("min"@) == Some(JsonView::PosInt(0)) && range.field("max"@) == Some(
                JsonView::PosInt(255),
            ))
            &&& c[0].1[0].fields[1].2 matches Some(j) && (j.field("entity"@) matches Some(e)
                && e.field("domain"@) == Some(JsonView::Str("light"@)))
            &&& c[0].1[1].fields[0].2 matches Some(j) && (j.field("entity"@) matches Some(e)
                && e.field("domain"@) == Some(JsonView::Str("light"@)))
            &&& forall|k: int|
                0 <= k < 2 ==> (#[trigger] c[1].1[k]).fields[0].2 is Some
                    && c[1].1[k].fields[0].2->0.field("entity"@) is Some
                    && c[1].1[k].fields[0].2->0.field("entity"@)->0.field("domain"@) == Some(
                    JsonView::Str("switch"@),
                )
            &&& forall|d: int, k: int, f: int|
                0 <= d < 2 && 0 <= k < 2 && 0 <= f < c[d].1[k].fields.len()
                    ==> !(#[trigger] c[d].1[k].fields[f]).1
        }),
{
    reveal_strlit("min");
    reveal_strlit("max");
    assert("min"@[1] == 'i' && "max"@[1] == 'a');
    reveal_with_fuel(json::member_from, 3);
}

/// A call with an id that is none stops there: the entities before it are turned as the call asks,
/// and all others stay as they were.
pub proof fn law_call_stopped(
    before: StateRun,
    after: StateRun,
    call: ServiceCall,
    r: Result<ServiceOutcome, ServiceError>,
    id: Seq<char>,
)
    requires
        call_result(before, after, call, r),
        is_known(call),
        !call.return_response,
        r is Err,
        call.target.entity_ids@.len() > 0,
    ensures
        exists|k: int|
            {
                &&& 0 <= k < call.target.entity_ids@.len()
                &&& !state_store::valid_entity_id((#[trigger] call.target.entity_ids@[k])@)
                &&& call.target.entity_ids.deep_view().take(k).contains(id) ==> {
                    &&& after.states.contains_key(id)
                    &&& after.states[id].state == if call.service@ == "turn_on"@ {
                        "on"@
                    } else {
                        "off"@
                    }
                }
                &&& !call.target.entity_ids.deep_view().take(k).contains(id)
                    ==> state_store::state_in(after.states, id) == state_store::state_in(
                    before.states,
                    id,
                )
            },
{
    lemma_names();
    law_call_answered(before, after, call, r);
    let ids = call.target.entity_ids.deep_view();
    assert forall|i: int| 0 <= i < ids.len() implies #[trigger] ids[i]
        == call.target.entity_ids@[i]@ by {}
    if let Err(ServiceError::InvalidFormat(m)) = r {
        let value = if call.service@ == "turn_on"@ {
            "on"@
        } else {
            "off"@
        };
        let context = choose|context: ContextView|
            is_fresh(context) && #[trigger] call_stopped(
                before,
                after,
                ids,
                value,
                call.data.brightness,
                context,
                m@,
            );
        let (ts, k) = choose|ts: Seq<Seq<char>>, k: int|
            {
                &&& ts.len() == k < ids.len()
                &&& !state_store::valid_entity_id(ids[k])
                &&& after == #[trigger] commanded(
                    before,
                    ids.take(k),
                    value,
                    call.data.brightness,
                    context,
                    ts,
                )
            };
        lemma_commanded_at(
            before,
            ids.take(k),
            value,
            call.data.brightness,
            context,
            ts,
            id,
            ""@,
        );
        assert(!state_store::valid_entity_id(call.target.entity_ids@[k]@));
    }
}

} // verus!
