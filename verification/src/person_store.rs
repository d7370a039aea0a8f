//! The persons of the household, and where they are.

use vstd::prelude::*;

use crate::json::Real;
use crate::keyed;
use crate::keyed::{copy_all, lookup, put, remove_key, Keyed, Record};
use crate::text::{copy_strings, str_eq};
use crate::zone_store::StoredZone;

verus! {

/// A person.
pub struct Person {
    /// The entity id is `person.` and this.
    pub id: String,
    pub name: String,
    /// The webhooks of the devices that say where the person is.
    pub device_trackers: Vec<String>,
    pub user_id: Option<String>,
}

/// The mathematical value of a [`Person`].
pub struct PersonModel {
    pub id: Seq<char>,
    pub name: Seq<char>,
    pub device_trackers: Seq<Seq<char>>,
    pub user_id: Option<Seq<char>>,
}

impl View for Person {
    type V = PersonModel;

    open spec fn view(&self) -> PersonModel {
        PersonModel {
            id: self.id@,
            name: self.name@,
            device_trackers: self.device_trackers.deep_view(),
            user_id: self.user_id.deep_view(),
        }
    }
}

impl Keyed for Person {
    open spec fn key(&self) -> Seq<char> {
        self.id@
    }

    fn key_str(&self) -> (r: &str) {
        self.id.as_str()
    }
}

impl Clone for Person {
    fn clone(&self) -> (r: Self)
        ensures
            r@ == self@,
    {
        Person {
            id: self.id.clone(),
            name: self.name.clone(),
            device_trackers: copy_strings(&self.device_trackers),
            user_id: self.user_id.clone(),
        }
    }
}

/// Where a person is.
pub struct PersonState {
    pub person_id: String,
    /// The name of a zone, or `not_home`.
    pub state: String,
    pub latitude: Option<Real>,
    pub longitude: Option<Real>,
    pub gps_accuracy: Option<Real>,
    /// The webhook of the device that has told.
    pub source: Option<String>,
}

/// The mathematical value of a [`PersonState`].
pub struct PersonStateModel {
    pub person_id: Seq<char>,
    pub state: Seq<char>,
    pub latitude: Option<Seq<char>>,
    pub longitude: Option<Seq<char>>,
    pub gps_accuracy: Option<Seq<char>>,
    pub source: Option<Seq<char>>,
}

impl View for PersonState {
    type V = PersonStateModel;

    open spec fn view(&self) -> PersonStateModel {
        PersonStateModel {
            person_id: self.person_id@,
            state: self.state@,
            latitude: self.latitude.deep_view(),
            longitude: self.longitude.deep_view(),
            gps_accuracy: self.gps_accuracy.deep_view(),
            source: self.source.deep_view(),
        }
    }
}

impl Keyed for PersonState {
    open spec fn key(&self) -> Seq<char> {
        self.person_id@
    }

    fn key_str(&self) -> (r: &str) {
        self.person_id.as_str()
    }
}

impl Clone for PersonState {
    fn clone(&self) -> (r: Self)
        ensures
            r == *self,
    {
        PersonState {
            person_id: self.person_id.clone(),
            state: self.state.clone(),
            latitude: self.latitude.clone(),
            longitude: self.longitude.clone(),
            gps_accuracy: self.gps_accuracy.clone(),
            source: self.source.clone(),
        }
    }
}

impl Record for PersonState {
    fn dup(&self) -> (r: Self) {
        self.clone()
    }
}

/// Whether a zone has a place and is marked as one that a location lies in.
pub open spec fn zone_holds(zones: Seq<StoredZone>, inside: Seq<bool>, i: int) -> bool {
    &&& 0 <= i < zones.len()
    &&& zones[i].latitude is Some
    &&& zones[i].longitude is Some
    &&& i < inside.len()
    &&& inside[i]
}

/// The name of the first zone at or after `i` that a location lies in.
pub open spec fn zone_from(zones: Seq<StoredZone>, inside: Seq<bool>, i: int) -> Option<Seq<char>>
    decreases zones.len() - i,
{
    if i < 0 || i >= zones.len() {
        None
    } else if zone_holds(zones, inside, i) {
        Some(zones[i].name@)
    } else {
        zone_from(zones, inside, i + 1)
    }
}

/// The name of the first zone that a location lies in, from marks that say of each zone whether the
/// location is within its radius. A zone without a place holds nothing.
pub fn find_zone(zones: &Vec<StoredZone>, inside: &Vec<bool>) -> (r: Option<String>)
    ensures
        r.deep_view() == zone_from(zones@, inside@, 0),
{
    let mut i: usize = 0;
    while i < zones.len()
        invariant
            i <= zones.len(),
            zone_from(zones@, inside@, 0) == zone_from(zones@, inside@, i as int),
        decreases zones.len() - i,
    {
        if zones[i].latitude.is_some() && zones[i].longitude.is_some() && i < inside.len()
            && inside[i] {
            return Some(zones[i].name.clone());
        }
        i += 1;
    }
    None
}

/// What becomes known of a person from a device that reports a location.
pub open spec fn located(
    id: Seq<char>,
    device_id: Seq<char>,
    lat: Seq<char>,
    lon: Seq<char>,
    accuracy: Seq<char>,
    zone: Option<Seq<char>>,
) -> PersonStateModel {
    PersonStateModel {
        person_id: id,
        state: match zone {
            Some(name) => name,
            None => "not_home"@,
        },
        latitude: Some(lat),
        longitude: Some(lon),
        gps_accuracy: Some(accuracy),
        source: Some(device_id),
    }
}

/// Where persons are after a device has reported a location: those that the device tracks are
/// there, the others where they were.
pub open spec fn located_all(
    states: Map<Seq<char>, PersonStateModel>,
    persons: Seq<PersonModel>,
    device_id: Seq<char>,
    lat: Seq<char>,
    lon: Seq<char>,
    accuracy: Seq<char>,
    zone: Option<Seq<char>>,
) -> Map<Seq<char>, PersonStateModel>
    decreases persons.len(),
{
    if persons.len() == 0 {
        states
    } else {
        let before = located_all(
            states,
            persons.drop_last(),
            device_id,
            lat,
            lon,
            accuracy,
            zone,
        );
        if persons.last().device_trackers.contains(device_id) {
            let id = persons.last().id;
            before.insert(id, located(id, device_id, lat, lon, accuracy, zone))
        } else {
            before
        }
    }
}

/// A report moves exactly the persons that the device tracks.
pub proof fn law_located(
    states: Map<Seq<char>, PersonStateModel>,
    persons: Seq<PersonModel>,
    device_id: Seq<char>,
    lat: Seq<char>,
    lon: Seq<char>,
    accuracy: Seq<char>,
    zone: Option<Seq<char>>,
    id: Seq<char>,
)
    ensures
        ({
            let after = located_all(states, persons, device_id, lat, lon, accuracy, zone);
            if exists|i: int|
                0 <= i < persons.len() && #[trigger] persons[i].id == id
                    && persons[i].device_trackers.contains(device_id) {
                after.dom().contains(id) && after[id] == located(
                    id,
                    device_id,
                    lat,
                    lon,
                    accuracy,
                    zone,
                )
            } else {
                after.dom().contains(id) == states.dom().contains(id) && (states.dom().contains(
                    id,
                ) ==> after[id] == states[id])
            }
        }),
    decreases persons.len(),
{
    if persons.len() > 0 {
        let front = persons.drop_last();
        law_located(states, front, device_id, lat, lon, accuracy, zone, id);
        if exists|i: int|
            0 <= i < persons.len() && #[trigger] persons[i].id == id
                && persons[i].device_trackers.contains(device_id) {
            let i = choose|i: int|
                0 <= i < persons.len() && #[trigger] persons[i].id == id
                    && persons[i].device_trackers.contains(device_id);
            if i < front.len() {
                assert(front[i].id == id && front[i].device_trackers.contains(device_id));
            }
        }
        if exists|i: int|
            0 <= i < front.len() && #[trigger] front[i].id == id
                && front[i].device_trackers.contains(device_id) {
            let i = choose|i: int|
                0 <= i < front.len() && #[trigger] front[i].id == id
                    && front[i].device_trackers.contains(device_id);
            assert(persons[i].id == id);
        }
    }
}

/// Whether texts hold one text.
fn holds(v: &Vec<String>, want: &str) -> (r: bool)
    ensures
        r == v.deep_view().contains(want@),
{
    let mut i: usize = 0;
    while i < v.len()
        invariant
            i <= v.len(),
            forall|j: int| 0 <= j < i ==> #[trigger] v.deep_view()[j] != want@,
        decreases v.len() - i,
    {
        if str_eq(v[i].as_str(), want) {
            assert(v.deep_view()[i as int] == want@);
            return true;
        }
        assert(v.deep_view()[i as int] != want@);
        i += 1;
    }
    false
}

/// The persons of the household, and where they are.
pub struct PersonStore {
    pub persons: Vec<Person>,
    pub states: Vec<PersonState>,
}

impl Default for PersonStore {
    fn default() -> (r: Self)
        ensures
            r.models() == Seq::<PersonModel>::empty(),
            r.places() == Map::<Seq<char>, PersonStateModel>::empty(),
            r.wf(),
    {
        PersonStore::new()
    }
}

impl PersonStore {
    /// The persons, in the order in which they were added.
    pub open spec fn models(&self) -> Seq<PersonModel> {
        keyed::views(self.persons@)
    }

    /// Where each person is.
    pub open spec fn places(&self) -> Map<Seq<char>, PersonStateModel> {
        keyed::map_of(self.states@)
    }

    /// No person is stored twice.
    pub open spec fn wf(&self) -> bool {
        keyed::distinct_keys(self.persons@) && keyed::distinct_keys(self.states@)
    }

    /// A store without persons.
    pub fn new() -> (r: Self)
        ensures
            r.models() == Seq::<PersonModel>::empty(),
            r.places() == Map::<Seq<char>, PersonStateModel>::empty(),
            r.wf(),
    {
        let r = PersonStore { persons: Vec::new(), states: Vec::new() };
        assert(r.models() =~= Seq::<PersonModel>::empty());
        assert(r.places() =~= Map::<Seq<char>, PersonStateModel>::empty());
        r
    }

    /// All persons.
    pub fn all_persons(&self) -> (r: Vec<Person>)
        ensures
            keyed::views(r@) == self.models(),
    {
        let mut out: Vec<Person> = Vec::new();
        let mut i: usize = 0;
        while i < self.persons.len()
            invariant
                i <= self.persons.len(),
                keyed::views(out@) == self.models().take(i as int),
            decreases self.persons.len() - i,
        {
            let ghost before = out@;
            out.push(self.persons[i].clone());
            i += 1;
            assert(keyed::views(out@) =~= keyed::views(before).push(self.persons@[i - 1]@));
            assert(self.models().take(i as int) =~= self.models().take(i - 1).push(
                self.models()[i - 1],
            ));
        }
        assert(self.models().take(i as int) =~= self.models());
        out
    }

    /// Adds a person, or replaces the one with the same id.
    pub fn add_or_update(&mut self, person: Person)
        ensures
            final(self).persons@ == keyed::with(old(self).persons@, person),
            final(self).states == old(self).states,
            old(self).wf() ==> final(self).wf(),
    {
        proof {
            keyed::lemma_put(self.persons@, person);
        }
        let _ = put(&mut self.persons, person);
    }

    /// Removes a person. Says whether there was one.
    pub fn remove(&mut self, person_id: &str) -> (r: bool)
        ensures
            final(self).persons@ == keyed::without_key(old(self).persons@, person_id@),
            final(self).states == old(self).states,
            r == (keyed::key_pos(old(self).persons@, person_id@) is Some),
            old(self).wf() ==> final(self).wf(),
    {
        proof {
            keyed::lemma_without_key(self.persons@, person_id@);
        }
        remove_key(&mut self.persons, person_id)
    }

    /// Notes that a device has reported a location, with marks that say of each zone whether the
    /// location is within its radius.
    pub fn handle_location_update(
        &mut self,
        device_id: &str,
        lat: &Real,
        lon: &Real,
        accuracy: &Real,
        zones: &Vec<StoredZone>,
        inside: &Vec<bool>,
    )
        ensures
            final(self).persons == old(self).persons,
            final(self).places() == located_all(
                old(self).places(),
                old(self).models(),
                device_id@,
                lat@,
                lon@,
                accuracy@,
                zone_from(zones@, inside@, 0),
            ),
            old(self).wf() ==> final(self).wf(),
    {
        let zone: Option<String> = find_zone(zones, inside);
        let state: String = match zone {
            Some(name) => name,
            None => "not_home".to_owned(),
        };
        let ghost zone_name = zone_from(zones@, inside@, 0);
        let ghost models = self.models();
        let mut i: usize = 0;
        assert(models.take(0) =~= Seq::empty());
        while i < self.persons.len()
            invariant
                i <= self.persons@.len(),
                self.persons == old(self).persons,
                models == self.models(),
                state@ == match zone_name {
                    Some(name) => name,
                    None => "not_home"@,
                },
                self.places() == located_all(
                    old(self).places(),
                    models.take(i as int),
                    device_id@,
                    lat@,
                    lon@,
                    accuracy@,
                    zone_name,
                ),
                keyed::distinct_keys(old(self).states@) ==> keyed::distinct_keys(self.states@),
            decreases self.persons@.len() - i,
        {
            proof {
                assert(models.take(i + 1).drop_last() =~= models.take(i as int));
                assert(models.take(i + 1).last() == self.persons@[i as int]@);
            }
            if holds(&self.persons[i].device_trackers, device_id) {
                let next: PersonState = PersonState {
                    person_id: self.persons[i].id.clone(),
                    state: state.clone(),
                    latitude: Some(lat.clone()),
                    longitude: Some(lon.clone()),
                    gps_accuracy: Some(accuracy.clone()),
                    source: Some(device_id.to_owned()),
                };
                proof {
                    keyed::lemma_put(self.states@, next);
                    keyed::lemma_map_put(self.states@, next);
                    assert(next@ == located(
                        self.persons@[i as int]@.id,
                        device_id@,
                        lat@,
                        lon@,
                        accuracy@,
                        zone_name,
                    ));
                }
                let _ = put(&mut self.states, next);
            }
            i += 1;
        }
        assert(models.take(i as int) =~= models);
    }

    /// Where a person is.
    pub fn get_state(&self, person_id: &str) -> (r: Option<PersonState>)
        ensures
            r == keyed::key_get(self.states@, person_id@),
            match r {
                Some(s) => self.places().dom().contains(person_id@) && self.places()[person_id@]
                    == s@,
                None => !self.places().dom().contains(person_id@),
            },
    {
        lookup(&self.states, person_id)
    }

    /// Where all persons are.
    pub fn all_states(&self) -> (r: Vec<PersonState>)
        ensures
            r@ == self.states@,
    {
        copy_all(&self.states)
    }
}

} // verus!
