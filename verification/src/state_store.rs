//! Entity states and the store that holds the current one of every entity.

use vstd::prelude::*;
use vstd::string::*;

use crate::clock;
use crate::clock::now_iso8601;
use crate::ids;
use crate::ids::new_simple_uuid;
use crate::json;
use crate::json::{copy_members, Json, Members};
use crate::keyed;
use crate::keyed::{put, remove_key, position, Keyed};
use crate::text;
use crate::text::{byte_len, chars_of};

verus! {

/// The longest state value, in bytes.
pub const MAX_STATE_BYTES: usize = 255;

/// What caused a state change.
pub struct Context {
    pub id: String,
    pub parent_id: Option<String>,
    pub user_id: Option<String>,
}

/// The mathematical value of a [`Context`].
pub struct ContextView {
    pub id: Seq<char>,
    pub parent_id: Option<Seq<char>>,
    pub user_id: Option<Seq<char>>,
}

impl View for Context {
    type V = ContextView;

    open spec fn view(&self) -> ContextView {
        ContextView {
            id: self.id@,
            parent_id: self.parent_id.deep_view(),
            user_id: self.user_id.deep_view(),
        }
    }
}

impl Clone for Context {
    fn clone(&self) -> (r: Self)
        ensures
            r == *self,
    {
        Context {
            id: self.id.clone(),
            parent_id: self.parent_id.clone(),
            user_id: self.user_id.clone(),
        }
    }
}

impl Context {
    /// A context with neither parent nor user.
    pub fn new(id: String) -> (r: Self)
        ensures
            r == (Context { id, parent_id: None, user_id: None }),
    {
        Context { id, parent_id: None, user_id: None }
    }
}

/// Attributes of a state: named JSON values.
pub struct StateAttributes {
    pub members: Vec<(String, Json)>,
}

impl View for StateAttributes {
    type V = Members;

    open spec fn view(&self) -> Members {
        json::members_view(self.members@)
    }
}

impl StateAttributes {
    /// No attributes.
    pub fn empty() -> (r: Self)
        ensures
            r@ == json::no_members(),
    {
        StateAttributes { members: Vec::new() }
    }

    /// The members of a JSON object.
    pub fn from_json_object(obj: &Vec<(String, Json)>) -> (r: Self)
        ensures
            r@ == json::members_view(obj@),
    {
        StateAttributes { members: copy_members(obj) }
    }

    /// The attributes as the members of a JSON object.
    pub fn into_inner(self) -> (r: Vec<(String, Json)>)
        ensures
            r == self.members,
    {
        self.members
    }
}

impl Default for StateAttributes {
    fn default() -> (r: Self)
        ensures
            r@ == json::no_members(),
    {
        StateAttributes::empty()
    }
}

/// The state of one entity.
pub struct State {
    pub entity_id: String,
    pub state: String,
    pub attributes: Vec<(String, Json)>,
    pub last_changed: String,
    pub last_reported: String,
    pub last_updated: String,
    pub context: Context,
}

/// The mathematical value of a [`State`].
pub struct StateView {
    pub entity_id: Seq<char>,
    pub state: Seq<char>,
    pub attributes: Members,
    pub last_changed: Seq<char>,
    pub last_reported: Seq<char>,
    pub last_updated: Seq<char>,
    pub context: ContextView,
}

impl View for State {
    type V = StateView;

    open spec fn view(&self) -> StateView {
        StateView {
            entity_id: self.entity_id@,
            state: self.state@,
            attributes: json::members_view(self.attributes@),
            last_changed: self.last_changed@,
            last_reported: self.last_reported@,
            last_updated: self.last_updated@,
            context: self.context@,
        }
    }
}

impl Keyed for State {
    open spec fn key(&self) -> Seq<char> {
        self.entity_id@
    }

    fn key_str(&self) -> (r: &str) {
        self.entity_id.as_str()
    }
}

impl Clone for State {
    fn clone(&self) -> (r: Self)
        ensures
            r@ == self@,
    {
        State {
            entity_id: self.entity_id.clone(),
            state: self.state.clone(),
            attributes: copy_members(&self.attributes),
            last_changed: self.last_changed.clone(),
            last_reported: self.last_reported.clone(),
            last_updated: self.last_updated.clone(),
            context: self.context.clone(),
        }
    }
}

/// Whether a character may stand in a domain or an object id.
pub open spec fn is_id_char(c: char) -> bool {
    ('0' <= c && c <= '9') || ('a' <= c && c <= 'z') || c == '_'
}

/// Whether a text can be a domain or an object id: some id characters, with no underscore at
/// either end.
pub open spec fn is_slug(s: Seq<char>) -> bool {
    &&& s.len() > 0
    &&& s[0] != '_'
    &&& s.last() != '_'
    &&& forall|i: int| 0 <= i < s.len() ==> is_id_char(#[trigger] s[i])
}

/// Whether a text has two underscores in a row.
pub open spec fn has_double_underscore(s: Seq<char>) -> bool {
    exists|i: int| 0 <= i && i + 1 < s.len() && #[trigger] s[i] == '_' && s[i + 1] == '_'
}

/// Whether a text is an entity id: a domain, a dot and an object id, with no two underscores in
/// a row.
pub open spec fn valid_entity_id(s: Seq<char>) -> bool {
    &&& exists|i: int| 0 <= i < s.len() && #[trigger] s[i] == '.' && is_slug(s.take(i)) && is_slug(s.skip(i + 1))
    &&& !has_double_underscore(s)
}

fn id_char(c: char) -> (r: bool)
    ensures
        r == is_id_char(c),
{
    ('0' <= c && c <= '9') || ('a' <= c && c <= 'z') || c == '_'
}

/// Whether the characters from `from` up to `to` can be a domain or an object id.
fn slug_between(cs: &Vec<char>, from: usize, to: usize) -> (r: bool)
    requires
        from <= to <= cs.len(),
    ensures
        r == is_slug(cs@.subrange(from as int, to as int)),
{
    let ghost s = cs@.subrange(from as int, to as int);
    if from == to || cs[from] == '_' || cs[to - 1] == '_' {
        assert(from != to ==> s[0] == cs@[from as int] && s.last() == cs@[to - 1]);
        return false;
    }
    let mut i: usize = from;
    while i < to
        invariant
            from <= i <= to <= cs.len(),
            s == cs@.subrange(from as int, to as int),
            forall|k: int| 0 <= k < i - from ==> is_id_char(#[trigger] s[k]),
        decreases to - i,
    {
        if !id_char(cs[i]) {
            assert(s[i - from] == cs@[i as int]);
            return false;
        }
        i += 1;
    }
    true
}

/// Whether some characters have two underscores in a row.
fn double_underscore(cs: &Vec<char>) -> (r: bool)
    ensures
        r == has_double_underscore(cs@),
{
    let mut i: usize = 0;
    while cs.len() - i > 1
        invariant
            i <= cs.len(),
            forall|k: int| 0 <= k < i && k + 1 < cs.len() ==> !(#[trigger] cs@[k] == '_' && cs@[k + 1] == '_'),
        decreases cs.len() - i,
    {
        if cs[i] == '_' && cs[i + 1] == '_' {
            assert(cs@[i as int] == '_');
            return true;
        }
        i += 1;
    }
    false
}

impl State {
    /// Whether a text is an entity id.
    pub fn is_valid_entity_id(entity_id: &str) -> (r: bool)
        ensures
            r == valid_entity_id(entity_id@),
    {
        let cs: Vec<char> = chars_of(entity_id);
        let n: usize = cs.len();
        let mut dot: usize = 0;
        while dot < n && cs[dot] != '.'
            invariant
                dot <= n,
                n == cs.len(),
                forall|k: int| 0 <= k < dot ==> #[trigger] cs@[k] != '.',
            decreases n - dot,
        {
            dot += 1;
        }
        if dot == n {
            return false;
        }
        let ghost s = cs@;
        assert forall|i: int| 0 <= i < s.len() && #[trigger] s[i] == '.' && is_slug(s.take(i))
            && is_slug(s.skip(i + 1)) implies i == dot by {
            if i > dot {
                assert(s.take(i)[dot as int] == '.');
            }
        }
        assert(s.subrange(0, dot as int) =~= s.take(dot as int));
        assert(s.subrange(dot + 1, n as int) =~= s.skip(dot + 1));
        slug_between(&cs, 0, dot) && slug_between(&cs, dot + 1, n) && !double_underscore(&cs)
    }
}

/// Why a state is refused.
pub enum StateError {
    InvalidEntityId(String),
    StateTooLong,
}

impl StateError {
    /// What the error says.
    pub open spec fn text(self) -> Seq<char> {
        match self {
            StateError::InvalidEntityId(id) => "Invalid entity ID: "@ + id@,
            StateError::StateTooLong => "State value exceeds maximum length of 255"@,
        }
    }

    /// What the error says.
    pub fn message(&self) -> (r: String)
        ensures
            r@ == self.text(),
    {
        match self {
            StateError::InvalidEntityId(id) => {
                let mut out: String = "Invalid entity ID: ".to_owned();
                out.append(id.as_str());
                out
            },
            StateError::StateTooLong => "State value exceeds maximum length of 255".to_owned(),
        }
    }
}

/// A state change: the new state and the one it replaced.
pub struct StateEvent {
    pub state: State,
    pub old_state: Option<State>,
}

/// A state change as a mathematical value: the new state and the one it replaced.
pub type EventModel = (StateView, Option<StateView>);

impl View for StateEvent {
    type V = EventModel;

    open spec fn view(&self) -> EventModel {
        (
            self.state@,
            match self.old_state {
                Some(s) => Some(s@),
                None => None,
            },
        )
    }
}

/// The state of an entity in a map of states.
pub open spec fn state_in(states: Map<Seq<char>, StateView>, id: Seq<char>) -> Option<StateView> {
    if states.contains_key(id) {
        Some(states[id])
    } else {
        None
    }
}

/// States, and the changes that led to them.
pub struct StateRun {
    pub states: Map<Seq<char>, StateView>,
    pub events: Seq<EventModel>,
}

/// State changes as mathematical values.
pub open spec fn events_model(events: Seq<StateEvent>) -> Seq<EventModel> {
    events.map_values(|e: StateEvent| e@)
}

impl StateRun {
    /// After a state has been offered: it is stored if it may be.
    pub open spec fn offer(self, s: StateView) -> StateRun {
        if storable(s) {
            StateRun {
                states: self.states.insert(s.entity_id, s),
                events: self.events.push((s, state_in(self.states, s.entity_id))),
            }
        } else {
            self
        }
    }
}

/// The current state of every entity.
pub struct StateStore {
    pub states: Vec<State>,
}

impl View for StateStore {
    type V = Map<Seq<char>, StateView>;

    open spec fn view(&self) -> Map<Seq<char>, StateView> {
        keyed::map_of(self.states@)
    }
}

/// A store and the changes so far, as a mathematical value.
pub open spec fn run_of(states: StateStore, events: Seq<StateEvent>) -> StateRun {
    StateRun { states: states@, events: events_model(events) }
}

/// Whether a state may be stored.
pub open spec fn storable(s: StateView) -> bool {
    valid_entity_id(s.entity_id) && text::byte_count(s.state) <= MAX_STATE_BYTES
}

impl StateStore {
    /// Every state is stored once, under an entity id, with a value of bounded length.
    pub open spec fn wf(&self) -> bool {
        &&& keyed::distinct_keys(self.states@)
        &&& forall|i: int| 0 <= i < self.states@.len() ==> storable((#[trigger] self.states@[i])@)
    }

    /// A store without states.
    pub fn new() -> (r: Self)
        ensures
            r.wf(),
            r@ == Map::<Seq<char>, StateView>::empty(),
            r.states@.len() == 0,
    {
        let r = StateStore { states: Vec::new() };
        assert(r@ =~= Map::<Seq<char>, StateView>::empty());
        r
    }

    /// All current states.
    pub fn all(&self) -> (r: Vec<State>)
        ensures
            r@.len() == self.states@.len(),
            forall|i: int| 0 <= i < r@.len() ==> (#[trigger] r@[i])@ == self.states@[i]@,
    {
        let mut out: Vec<State> = Vec::new();
        let mut i: usize = 0;
        while i < self.states.len()
            invariant
                i <= self.states@.len(),
                out@.len() == i,
                forall|k: int| 0 <= k < i ==> (#[trigger] out@[k])@ == self.states@[k]@,
            decreases self.states@.len() - i,
        {
            out.push(self.states[i].clone());
            i += 1;
        }
        out
    }

    /// The state of an entity.
    pub fn get(&self, entity_id: &str) -> (r: Option<State>)
        ensures
            match r {
                Some(s) => self@.contains_key(entity_id@) && s@ == self@[entity_id@],
                None => !self@.contains_key(entity_id@),
            },
    {
        match position(&self.states, entity_id) {
            Some(i) => Some(self.states[i].clone()),
            None => None,
        }
    }

    /// Stores a state in place of the one its entity had, and returns the change.
    ///
    /// Refuses an entity id that is none, and a value of more than 255 bytes; the store then
    /// stays as it was.
    pub fn set(&mut self, state: State) -> (r: Result<StateEvent, StateError>)
        ensures
            match r {
                Ok(event) => {
                    &&& storable(state@)
                    &&& event@ == (state@, state_in(old(self)@, state@.entity_id))
                    &&& final(self)@ == old(self)@.insert(state@.entity_id, state@)
                },
                Err(StateError::InvalidEntityId(id)) => {
                    &&& !valid_entity_id(state@.entity_id)
                    &&& id@ == state@.entity_id
                    &&& *final(self) == *old(self)
                },
                Err(StateError::StateTooLong) => {
                    &&& valid_entity_id(state@.entity_id)
                    &&& text::byte_count(state@.state) > MAX_STATE_BYTES
                    &&& *final(self) == *old(self)
                },
            },
            old(self).wf() ==> final(self).wf(),
    {
        if !State::is_valid_entity_id(state.entity_id.as_str()) {
            return Err(StateError::InvalidEntityId(state.entity_id));
        }
        if byte_len(state.state.as_str()) > MAX_STATE_BYTES {
            return Err(StateError::StateTooLong);
        }
        let copy: State = state.clone();
        proof {
            keyed::lemma_map_put(self.states@, copy);
            keyed::lemma_put(self.states@, copy);
        }
        let old_state: Option<State> = put(&mut self.states, copy);
        Ok(StateEvent { state, old_state })
    }

    /// Offers a state. Where it may be stored, the change is noted.
    pub fn offer(&mut self, state: State, events: &mut Vec<StateEvent>) -> (r: bool)
        ensures
            r == storable(state@),
            run_of(*final(self), final(events)@) == run_of(*old(self), old(events)@).offer(state@),
            old(self).wf() ==> final(self).wf(),
    {
        let ghost before = events@;
        match self.set(state) {
            Ok(event) => {
                events.push(event);
                assert(events_model(events@) =~= events_model(before).push(event@));
                true
            },
            Err(_) => false,
        }
    }

    /// Removes the state of an entity. Returns whether there was one.
    pub fn remove(&mut self, entity_id: &str) -> (r: bool)
        ensures
            r == old(self)@.contains_key(entity_id@),
            final(self)@ == old(self)@.remove(entity_id@),
            old(self).wf() ==> final(self).wf(),
    {
        proof {
            keyed::lemma_without_key(self.states@, entity_id@);
            keyed::lemma_map_without_key(self.states@, entity_id@);
        }
        remove_key(&mut self.states, entity_id)
    }
}

impl Default for StateStore {
    fn default() -> (r: Self)
        ensures
            r.wf(),
            r@ == Map::<Seq<char>, StateView>::empty(),
    {
        StateStore::new()
    }
}

/// A state made at a given time: all three timestamps show it.
pub open spec fn state_at(
    entity_id: Seq<char>,
    state: Seq<char>,
    attributes: Members,
    context: ContextView,
    timestamp: Seq<char>,
) -> StateView {
    StateView {
        entity_id,
        state,
        attributes,
        last_changed: timestamp,
        last_reported: timestamp,
        last_updated: timestamp,
        context,
    }
}

/// Whether a text is a point in time.
pub open spec fn is_timestamp(s: Seq<char>) -> bool {
    exists|secs: u64, micros: u64|
        micros < 1_000_000 && s == #[trigger] clock::iso_text(secs as nat, micros as nat)
}

/// A state made at a given time.
pub fn make_state_at(
    entity_id: &str,
    state_value: &str,
    attributes: StateAttributes,
    context: Context,
    timestamp: String,
) -> (r: State)
    ensures
        r@ == state_at(entity_id@, state_value@, attributes@, context@, timestamp@),
{
    State {
        entity_id: entity_id.to_owned(),
        state: state_value.to_owned(),
        attributes: attributes.into_inner(),
        last_changed: timestamp.clone(),
        last_reported: timestamp.clone(),
        last_updated: timestamp,
        context,
    }
}

/// A state made now, in a given context.
pub fn make_state_with_context(
    entity_id: &str,
    state_value: &str,
    attributes: StateAttributes,
    context: Context,
) -> (r: State)
    ensures
        is_timestamp(r@.last_updated),
        r@ == state_at(entity_id@, state_value@, attributes@, context@, r@.last_updated),
{
    let ts: String = now_iso8601();
    make_state_at(entity_id, state_value, attributes, context, ts)
}

/// A fresh context id.
pub fn new_context_id() -> (r: String)
    ensures
        ids::is_hex_text(r@, 32),
{
    new_simple_uuid()
}

/// A state made now, in a context of its own.
pub fn make_state(
    entity_id: &str,
    state_value: &str,
    attributes: StateAttributes,
) -> (r: State)
    ensures
        is_timestamp(r@.last_updated),
        ids::is_hex_text(r@.context.id, 32),
        r@.context.parent_id is None,
        r@.context.user_id is None,
        r@ == state_at(entity_id@, state_value@, attributes@, r@.context, r@.last_updated),
{
    make_state_with_context(entity_id, state_value, attributes, Context::new(new_context_id()))
}

/// Whether the three times of a state are points in time.
pub open spec fn is_timed(s: StateView) -> bool {
    is_timestamp(s.last_changed) && is_timestamp(s.last_updated) && is_timestamp(s.last_reported)
}

/// Whether all states, and all that changes have led to, have points in time.
pub open spec fn all_timed(run: StateRun) -> bool {
    &&& forall|id: Seq<char>| #[trigger] run.states.contains_key(id) ==> is_timed(run.states[id])
    &&& forall|i: int| 0 <= i < run.events.len() ==> is_timed((#[trigger] run.events[i]).0)
}

/// The times of all states are points in time, whatever state with such times is offered; one that
/// is made at a point in time has them.
pub proof fn law_timed(
    run: StateRun,
    s: StateView,
    entity_id: Seq<char>,
    state: Seq<char>,
    attributes: Members,
    context: ContextView,
    timestamp: Seq<char>,
)
    ensures
        all_timed(run) && is_timed(s) ==> all_timed(run.offer(s)),
        is_timestamp(timestamp) ==> is_timed(
            state_at(entity_id, state, attributes, context, timestamp),
        ),
{
    lemma_offer_timed(run, s);
}

/// A state with points in time leaves all with such.
pub proof fn lemma_offer_timed(run: StateRun, s: StateView)
    ensures
        all_timed(run) && is_timed(s) ==> all_timed(run.offer(s)),
{
    if all_timed(run) && is_timed(s) && storable(s) {
        let after = run.offer(s);
        assert forall|id: Seq<char>| #[trigger] after.states.contains_key(id) implies is_timed(
            after.states[id],
        ) by {
            if id != s.entity_id {
                assert(run.states.contains_key(id));
            }
        }
        assert forall|i: int| 0 <= i < after.events.len() implies is_timed(
            (#[trigger] after.events[i]).0,
        ) by {
            if i < run.events.len() {
                assert(after.events[i] == run.events[i]);
            }
        }
    }
}

/// A state that has been stored is the one that its entity has; the other entities keep theirs. A
/// state that has been removed is gone.
pub proof fn law_states(run: StateRun, s: StateView, id: Seq<char>)
    ensures
        storable(s) ==> state_in(run.offer(s).states, s.entity_id) == Some(s),
        id != s.entity_id ==> state_in(run.offer(s).states, id) == state_in(run.states, id),
        !storable(s) ==> run.offer(s) == run,
        state_in(run.states.remove(id), id) is None,
        id != s.entity_id ==> state_in(run.states.remove(s.entity_id), id) == state_in(
            run.states,
            id,
        ),
        storable(s) ==> run.offer(s).events == run.events.push(
            (s, state_in(run.states, s.entity_id)),
        ),
{
}

} // verus!
