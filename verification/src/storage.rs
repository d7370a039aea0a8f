//! What is persisted of onboarding.

use vstd::prelude::*;

use crate::ids;
use crate::ids::new_uuid;
use crate::json::Real;
use crate::text;
use crate::text::{str_eq, trim};

verus! {

/// The owner's account.
pub struct StoredUser {
    pub name: String,
    pub username: String,
    pub password: String,
    pub language: String,
}

/// The mathematical value of a [`StoredUser`].
pub struct StoredUserModel {
    pub name: Seq<char>,
    pub username: Seq<char>,
    pub password: Seq<char>,
    pub language: Seq<char>,
}

impl View for StoredUser {
    type V = StoredUserModel;

    open spec fn view(&self) -> StoredUserModel {
        StoredUserModel {
            name: self.name@,
            username: self.username@,
            password: self.password@,
            language: self.language@,
        }
    }
}

impl Clone for StoredUser {
    fn clone(&self) -> (r: Self)
        ensures
            r == *self,
    {
        StoredUser {
            name: self.name.clone(),
            username: self.username.clone(),
            password: self.password.clone(),
            language: self.language.clone(),
        }
    }
}

/// How far onboarding has come, and what it has asked.
pub struct OnboardingState {
    pub version: u32,
    pub onboarded: bool,
    pub updated_at_unix_ms: u128,
    pub done: Vec<String>,
    pub user: Option<StoredUser>,
    pub location_name: Option<String>,
    pub country: Option<String>,
    pub language: Option<String>,
    pub time_zone: Option<String>,
    pub unit_system: Option<String>,
    pub latitude: Option<Real>,
    pub longitude: Option<Real>,
    pub radius: Real,
}

/// The mathematical value of an [`OnboardingState`].
pub struct OnboardingModel {
    pub version: u32,
    pub onboarded: bool,
    pub updated_at_unix_ms: u128,
    pub done: Seq<Seq<char>>,
    pub user: Option<StoredUserModel>,
    pub location_name: Option<Seq<char>>,
    pub country: Option<Seq<char>>,
    pub language: Option<Seq<char>>,
    pub time_zone: Option<Seq<char>>,
    pub unit_system: Option<Seq<char>>,
    pub latitude: Option<Seq<char>>,
    pub longitude: Option<Seq<char>>,
    pub radius: Seq<char>,
}

/// An optional account as a mathematical value.
pub open spec fn opt_user(u: Option<StoredUser>) -> Option<StoredUserModel> {
    match u {
        Some(v) => Some(v@),
        None => None,
    }
}

impl View for OnboardingState {
    type V = OnboardingModel;

    open spec fn view(&self) -> OnboardingModel {
        OnboardingModel {
            version: self.version,
            onboarded: self.onboarded,
            updated_at_unix_ms: self.updated_at_unix_ms,
            done: self.done.deep_view(),
            user: opt_user(self.user),
            location_name: self.location_name.deep_view(),
            country: self.country.deep_view(),
            language: self.language.deep_view(),
            time_zone: self.time_zone.deep_view(),
            unit_system: self.unit_system.deep_view(),
            latitude: self.latitude.deep_view(),
            longitude: self.longitude.deep_view(),
            radius: self.radius@,
        }
    }
}

/// Onboarding that has not begun.
pub open spec fn fresh_onboarding(now_ms: u128) -> OnboardingModel {
    OnboardingModel {
        version: 1,
        onboarded: false,
        updated_at_unix_ms: now_ms,
        done: Seq::empty(),
        user: None,
        location_name: None,
        country: None,
        language: None,
        time_zone: None,
        unit_system: None,
        latitude: None,
        longitude: None,
        radius: "100.0"@,
    }
}

impl OnboardingModel {
    /// Whether a step has been done.
    pub open spec fn has_done(self, step: Seq<char>) -> bool {
        self.done.contains(step)
    }
}

impl OnboardingState {
    /// Onboarding that has not begun, at a given time.
    pub fn fresh(now_ms: u128) -> (r: Self)
        ensures
            r@ == fresh_onboarding(now_ms),
    {
        let r = OnboardingState {
            version: 1,
            onboarded: false,
            updated_at_unix_ms: now_ms,
            done: Vec::new(),
            user: None,
            location_name: None,
            country: None,
            language: None,
            time_zone: None,
            unit_system: None,
            latitude: None,
            longitude: None,
            radius: "100.0".to_owned(),
        };
        assert(r@.done =~= Seq::<Seq<char>>::empty());
        r
    }

    /// Whether a step has been done.
    pub fn step_done(&self, step: &str) -> (r: bool)
        ensures
            r == self@.has_done(step@),
    {
        let mut i: usize = 0;
        while i < self.done.len()
            invariant
                i <= self.done.len(),
                forall|k: int| 0 <= k < i ==> #[trigger] self.done.deep_view()[k] != step@,
            decreases self.done.len() - i,
        {
            assert(self.done.deep_view()[i as int] == self.done@[i as int]@);
            if str_eq(self.done[i].as_str(), step) {
                assert(self@.done.contains(step@));
                return true;
            }
            i += 1;
        }
        false
    }
}

impl Default for OnboardingState {
    fn default() -> (r: Self)
        ensures
            r@ == fresh_onboarding(r@.updated_at_unix_ms),
    {
        OnboardingState::fresh(crate::clock::now_unix_ms())
    }
}

/// Onboarding after the first boot with a configured home: the configured place is taken, unless
/// onboarding has one already or the configuration gives none.
pub open spec fn with_home_zone(
    o: OnboardingModel,
    latitude: Option<Seq<char>>,
    longitude: Option<Seq<char>>,
    radius: Seq<char>,
) -> OnboardingModel {
    if o.latitude is None && o.longitude is None && latitude is Some && longitude is Some {
        OnboardingModel { latitude, longitude, radius, ..o }
    } else {
        o
    }
}

/// Takes the place of the home from the configuration on first boot. Says whether anything has
/// changed.
pub fn seed_home_zone_coords_if_unset(
    state: &mut OnboardingState,
    latitude: &Option<Real>,
    longitude: &Option<Real>,
    radius: &Real,
) -> (r: bool)
    ensures
        final(state)@ == with_home_zone(
            old(state)@,
            latitude.deep_view(),
            longitude.deep_view(),
            radius@,
        ),
        r == (old(state)@.latitude is None && old(state)@.longitude is None && latitude is Some
            && longitude is Some),
{
    if state.latitude.is_some() || state.longitude.is_some() {
        return false;
    }
    match (latitude, longitude) {
        (Some(lat), Some(lon)) => {
            state.latitude = Some(lat.clone());
            state.longitude = Some(lon.clone());
            state.radius = radius.clone();
            true
        },
        _ => false,
    }
}

/// A place that has been taken stays, whatever is configured later.
pub proof fn law_home_zone_once(
    o: OnboardingModel,
    first: (Seq<char>, Seq<char>, Seq<char>),
    later: (Option<Seq<char>>, Option<Seq<char>>, Seq<char>),
)
    ensures
        ({
            let seeded = with_home_zone(o, Some(first.0), Some(first.1), first.2);
            with_home_zone(seeded, later.0, later.1, later.2) == seeded
        }),
{
}

/// The instance id: what the file that keeps it holds, without white space at either end, or a
/// fresh one where there is no file yet.
pub fn instance_id(stored: Option<&str>) -> (r: String)
    ensures
        match stored {
            Some(contents) => r@ == text::trimmed(contents@),
            None => ids::is_hyphenated(r@),
        },
{
    match stored {
        Some(contents) => trim(contents),
        None => new_uuid(),
    }
}

} // verus!
