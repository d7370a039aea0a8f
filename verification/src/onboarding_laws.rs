//! What onboarding stores and what operations answer: laws over the state of onboarding and over
//! the states of entities.

use vstd::prelude::*;
use vstd::string::*;

use crate::app_core::{
    mode_of_onboarding, operation_result, owner_set_up, policy_of, progress_of, reported,
    user_created, user_step_over, with_completion, with_core_config, with_owner, with_step,
    with_user, AuthorizeBootstrapInput, Discoverability, OnboardingCoreConfigInput,
    OnboardingUserInput, OperationError, OperationRequest, OperationResult, RuntimeMode,
};
use crate::auth_store;
use crate::service::{ServiceError, ServiceOutcome};
use crate::state_store;
use crate::state_store::{StateEvent, StateStore};
use crate::storage::{OnboardingModel, OnboardingState};
use crate::text;

verus! {

/// Whether nothing is stored of a home but its place, which onboarding does not ask for.
pub open spec fn same_place(before: OnboardingState, after: OnboardingState) -> bool {
    &&& after.version == before.version
    &&& after.latitude.deep_view() == before.latitude.deep_view()
    &&& after.longitude.deep_view() == before.longitude.deep_view()
    &&& after.radius@ == before.radius@
}

/// Whether an account is the same.
pub open spec fn same_account(before: OnboardingState, after: OnboardingState) -> bool {
    match (before.user, after.user) {
        (None, None) => true,
        (Some(u), Some(v)) => u.name@ == v.name@ && u.username@ == v.username@ && u.password@
            == v.password@ && u.language@ == v.language@,
        _ => false,
    }
}

/// After the home has been configured, its name, its country, its time zone and its unit system are
/// those of the request. Its language is that of the request or, where it gives none, the one before.
/// The step is noted, the home is onboarded, and the account and the place stay as they were.
pub proof fn law_core_configured(
    before: OnboardingState,
    after: OnboardingState,
    input: OnboardingCoreConfigInput,
    now_ms: u128,
)
    requires
        after@ == with_core_config(before@, input, now_ms),
    ensures
        after.location_name.deep_view() == input.location_name.deep_view(),
        after.country.deep_view() == input.country.deep_view(),
        after.time_zone.deep_view() == input.time_zone.deep_view(),
        after.unit_system.deep_view() == input.unit_system.deep_view(),
        after.language.deep_view() == if input.language is Some {
            input.language.deep_view()
        } else {
            before.language.deep_view()
        },
        after.onboarded,
        after.updated_at_unix_ms == now_ms,
        after.done.deep_view().contains("core_config"@),
        forall|step: Seq<char>|
            step != "core_config"@ ==> #[trigger] after.done.deep_view().contains(step)
                == before.done.deep_view().contains(step),
        same_account(before, after),
        same_place(before, after),
{
    lemma_pushed(before@.done, "core_config"@);
}

proof fn lemma_pushed(done: Seq<Seq<char>>, step: Seq<char>)
    ensures
        done.push(step).contains(step),
        forall|other: Seq<char>|
            other != step ==> #[trigger] done.push(step).contains(other) == done.contains(other),
{
    let after = done.push(step);
    assert(after[done.len() as int] == step);
    assert forall|other: Seq<char>| other != step implies #[trigger] after.contains(other)
        == done.contains(other) by {
        if done.contains(other) {
            let k = choose|k: int| 0 <= k < done.len() && done[k] == other;
            assert(after[k] == other);
        }
        if after.contains(other) {
            let k = choose|k: int| 0 <= k < after.len() && after[k] == other;
            assert(done[k] == other);
        }
    }
}

/// After the first user has been created, the account has the name, the user name and the language
/// of the request, and its password is kept as passwords are. The language is that of the home from
/// then on. The home is not onboarded by it, and nothing else of it changes.
pub proof fn law_user_created(
    before: OnboardingState,
    after: OnboardingState,
    input: OnboardingUserInput,
    now_ms: u128,
)
    requires
        user_created(before@, after@, input, now_ms),
    ensures
        after.user matches Some(u) && {
            &&& u.name@ == input.name@
            &&& u.username@ == input.username@
            &&& u.language@ == input.language@
            &&& auth_store::is_stored_password(u.password@, input.password@)
        },
        after.language.deep_view() == Some(input.language@),
        after.onboarded == before.onboarded,
        after.updated_at_unix_ms == now_ms,
        after.done.deep_view().contains("user"@),
        forall|step: Seq<char>|
            step != "user"@ ==> #[trigger] after.done.deep_view().contains(step)
                == before.done.deep_view().contains(step),
        after.location_name.deep_view() == before.location_name.deep_view(),
        after.country.deep_view() == before.country.deep_view(),
        after.time_zone.deep_view() == before.time_zone.deep_view(),
        after.unit_system.deep_view() == before.unit_system.deep_view(),
        same_place(before, after),
{
    lemma_pushed(before@.done, "user"@);
    let stored = choose|stored: Seq<char>|
        auth_store::is_stored_password(stored, input.password@) && after@ == #[trigger] with_user(
            before@,
            input,
            stored,
            now_ms,
        );
    assert(after@.user is Some);
}

/// An owner that is set up has the name, the user name, the password and the language given, and the
/// home has the name given and the same language. Both steps are done, and the home is onboarded.
pub proof fn law_owner_set_up(
    before: OnboardingState,
    after: OnboardingState,
    owner: AuthorizeBootstrapInput,
    now_ms: u128,
)
    requires
        owner_set_up(before@, after@, owner@, now_ms),
    ensures
        after.user matches Some(u) && {
            &&& u.name@ == owner.display_name@
            &&& u.username@ == owner.username@
            &&& u.language@ == owner.language@
            &&& auth_store::is_stored_password(u.password@, owner.password@)
        },
        after.location_name.deep_view() == Some(owner.location_name@),
        after.language.deep_view() == Some(owner.language@),
        after.onboarded,
        after.updated_at_unix_ms == now_ms,
        forall|step: Seq<char>| #[trigger]
            after.done.deep_view().contains(step) <==> (step == "user"@ || step
                == "core_config"@),
        after.country.deep_view() == before.country.deep_view(),
        after.time_zone.deep_view() == before.time_zone.deep_view(),
        after.unit_system.deep_view() == before.unit_system.deep_view(),
        same_place(before, after),
{
    let stored = choose|stored: Seq<char>|
        auth_store::is_stored_password(stored, owner@.password) && after@ == #[trigger] with_owner(
            before@,
            owner@,
            stored,
            now_ms,
        );
    assert(after@.user is Some);
    lemma_two_steps(after@.done);
}

proof fn lemma_two_steps(done: Seq<Seq<char>>)
    requires
        done == crate::app_core::completed_steps(),
    ensures
        forall|step: Seq<char>| #[trigger]
            done.contains(step) <==> (step == "user"@ || step == "core_config"@),
{
    assert(done[0] == "user"@ && done[1] == "core_config"@);
}

/// Completing onboarding notes both steps and keeps all that is stored of the home and of the
/// account.
pub proof fn law_completed(before: OnboardingState, after: OnboardingState, now_ms: u128)
    requires
        after@ == with_completion(before@, now_ms),
    ensures
        after.onboarded,
        after.updated_at_unix_ms == now_ms,
        forall|step: Seq<char>| #[trigger]
            after.done.deep_view().contains(step) <==> (step == "user"@ || step
                == "core_config"@),
        after.location_name.deep_view() == before.location_name.deep_view(),
        after.country.deep_view() == before.country.deep_view(),
        after.language.deep_view() == before.language.deep_view(),
        after.time_zone.deep_view() == before.time_zone.deep_view(),
        after.unit_system.deep_view() == before.unit_system.deep_view(),
        same_account(before, after),
        same_place(before, after),
{
    lemma_two_steps(after@.done);
}

/// A step that is noted is done from then on; all else stays as it was.
pub proof fn law_step_noted(
    before: OnboardingState,
    after: OnboardingState,
    step: Seq<char>,
    now_ms: u128,
)
    requires
        after@ == with_step(before@, step, now_ms),
    ensures
        after.done.deep_view().contains(step),
        forall|other: Seq<char>|
            other != step ==> #[trigger] after.done.deep_view().contains(other)
                == before.done.deep_view().contains(other),
        after.onboarded == before.onboarded,
        after.updated_at_unix_ms == now_ms,
        after.location_name.deep_view() == before.location_name.deep_view(),
        after.country.deep_view() == before.country.deep_view(),
        after.language.deep_view() == before.language.deep_view(),
        after.time_zone.deep_view() == before.time_zone.deep_view(),
        after.unit_system.deep_view() == before.unit_system.deep_view(),
        same_account(before, after),
        same_place(before, after),
{
    lemma_pushed(before@.done, step);
}

/// Progress tells of each step whether it is noted, and whether the home is onboarded. The step of
/// the user is over where it is noted or where there is an account. A home runs in operation once it
/// is onboarded, and waits to be claimed before.
pub proof fn law_progress(s: OnboardingState)
    ensures
        progress_of(s@).user_done <==> s.done.deep_view().contains("user"@),
        progress_of(s@).core_config_done <==> s.done.deep_view().contains("core_config"@),
        progress_of(s@).analytics_done <==> s.done.deep_view().contains("analytics"@),
        progress_of(s@).integration_done <==> s.done.deep_view().contains("integration"@),
        progress_of(s@).onboarded == s.onboarded,
        user_step_over(s@) <==> s.done.deep_view().contains("user"@) || s.user is Some,
        mode_of_onboarding(s.onboarded) == if s.onboarded {
            RuntimeMode::WifiOperational
        } else {
            RuntimeMode::UnprovisionedWifi
        },
{
}

/// What each mode allows. A disabled home reads, writes and tells nothing. One that is reached over
/// Bluetooth reads what is cached, in pages, and has to be woken to write. One that is not claimed
/// writes without a session; over Bluetooth it does not write at all.
pub proof fn law_modes(mode: RuntimeMode)
    ensures
        ({
            let p = policy_of(mode);
            let over_wifi = mode is UnprovisionedWifi || mode is WifiOperational;
            let over_ble = mode is UnprovisionedBle || mode is BleOperational;
            let claimed = mode is WifiOperational || mode is BleOperational || mode is Maintenance;
            &&& p.read_policy.live_allowed <==> over_wifi || mode is Maintenance
            &&& p.read_policy.cached_allowed <==> !(mode is Disabled)
            &&& p.read_policy.stale_allowed <==> over_ble || mode is WifiOperational
                || mode is Maintenance
            &&& p.read_policy.paging_required <==> over_ble
            &&& p.write_policy.writes_allowed <==> mode is UnprovisionedWifi || claimed
            &&& p.write_policy.writes_require_auth <==> claimed
            &&& p.write_policy.writes_require_wake <==> over_ble
            &&& p.discoverability == if mode is UnprovisionedBle {
                Discoverability::OnboardingOnly
            } else if mode is Maintenance {
                Discoverability::MaintenanceOnly
            } else if mode is Disabled {
                Discoverability::Hidden
            } else {
                Discoverability::Operational
            }
            &&& p.connectability is AuthenticatedOnly <==> claimed
            &&& p.connectability is Disabled <==> mode is Disabled
            &&& p.auth_policy is TokenSession <==> mode is WifiOperational
            &&& p.auth_policy is BondedSession <==> mode is BleOperational
            &&& p.auth_policy is MaintenanceOnly <==> mode is Maintenance
            &&& p.auth_policy is NoAuth <==> mode is Disabled
            &&& p.power_policy is AlwaysOn <==> over_wifi || mode is Maintenance
            &&& p.power_policy is WakeForCommands <==> mode is BleOperational
            &&& p.event_policy is RichStreamUnsupported <==> over_wifi
            &&& p.event_policy is MinimalNotifications <==> over_ble
            &&& p.compatibility_policy is WifiHaCompat <==> over_wifi
            &&& p.compatibility_policy is BleCompactProtocol <==> over_ble
            &&& p.transition_policy is Disallowed <==> mode is Disabled
            &&& p.transition_policy is MaintenanceOnly <==> mode is WifiOperational
                || mode is BleOperational
            &&& p.max_page_size == if over_wifi {
                512int
            } else if over_ble {
                32
            } else if mode is Maintenance {
                128
            } else {
                0
            }
            &&& p.max_event_batch == if mode is WifiOperational {
                256int
            } else if mode is UnprovisionedWifi {
                128
            } else if mode is Maintenance {
                32
            } else if over_ble {
                16
            } else {
                0
            }
        }),
{
}

/// A state that is set is stored with the value and the attributes given, and read back so. It is
/// refused just where the id is none or the value is too long. No other entity is touched.
pub proof fn law_state_set(
    mode: RuntimeMode,
    product_name: Seq<char>,
    before: StateStore,
    after: StateStore,
    events0: Seq<StateEvent>,
    events1: Seq<StateEvent>,
    request: OperationRequest<'_>,
    r: OperationResult,
    other: Seq<char>,
)
    requires
        operation_result(mode, product_name, before, after, events0, events1, request, r),
        request is SetEntityState,
    ensures
        request matches OperationRequest::SetEntityState { entity_id, state, attributes, .. } && {
            &&& r is EntityState <==> state_store::valid_entity_id(entity_id@) && text::byte_count(
                state@,
            ) <= 255
            &&& !(r is EntityState) ==> r == OperationResult::Error(OperationError::InvalidRequest)
                && after@ == before@
            &&& r matches OperationResult::EntityState(saved) ==> {
                &&& after@.contains_key(entity_id@)
                &&& after@[entity_id@] == saved@
                &&& saved@.entity_id == entity_id@
                &&& saved@.state == state@
                &&& saved@.attributes == attributes@
                &&& saved@.last_changed == saved@.last_updated
                &&& saved@.last_reported == saved@.last_updated
                &&& events1.len() == events0.len() + 1
                &&& events1[events0.len() as int]@.0 == saved@
                &&& events1[events0.len() as int]@.1 == if before@.contains_key(entity_id@) {
                    Some(before@[entity_id@])
                } else {
                    None
                }
                &&& other != entity_id@ ==> state_store::state_in(after@, other)
                    == state_store::state_in(before@, other)
            }
        },
{
    if let OperationRequest::SetEntityState { entity_id, state, attributes, .. } = request {
        let run0 = state_store::run_of(before, events0);
        let run1 = state_store::run_of(after, events1);
        if let OperationResult::EntityState(saved) = r {
            assert(run1 == run0.offer(saved@));
            assert(run1.events.len() == events1.len());
            assert(run1.events[events0.len() as int] == events1[events0.len() as int]@);
        }
    }
}

/// A call of a service is answered with what it did; a service that there is not, with not found,
/// and a call that is not well formed or not valid, as an invalid request.
pub proof fn law_reported(res: Result<ServiceOutcome, ServiceError>, r: OperationResult)
    requires
        reported(res, r),
    ensures
        res matches Ok(outcome) ==> r == OperationResult::ServiceCallCompleted(outcome),
        res matches Err(ServiceError::NotFound { .. }) ==> r == OperationResult::Error(
            OperationError::NotFound,
        ),
        res matches Err(ServiceError::InvalidFormat(_)) ==> r == OperationResult::Error(
            OperationError::InvalidRequest,
        ),
        res matches Err(ServiceError::ServiceValidation(_)) ==> r == OperationResult::Error(
            OperationError::InvalidRequest,
        ),
        res is Err ==> r is Error,
{
}

/// Only setting a state and calling a service change states. Reading one gives what is stored, and
/// listing them gives each of them once.
pub proof fn law_reads(
    mode: RuntimeMode,
    product_name: Seq<char>,
    before: StateStore,
    after: StateStore,
    events0: Seq<StateEvent>,
    events1: Seq<StateEvent>,
    request: OperationRequest<'_>,
    r: OperationResult,
)
    requires
        operation_result(mode, product_name, before, after, events0, events1, request, r),
    ensures
        !(request is SetEntityState) && !(request is CallService) ==> after@ == before@ && events1
            == events0,
        request matches OperationRequest::GetEntityState { entity_id, .. } ==> {
            &&& r is EntityState <==> before@.contains_key(entity_id@)
            &&& r matches OperationResult::EntityState(s) ==> s@ == before@[entity_id@]
            &&& !(r is EntityState) ==> r == OperationResult::Error(OperationError::NotFound)
        },
        request matches OperationRequest::ListEntityStates { .. } ==> r matches
            OperationResult::EntityStates(all) && all@.len() == before.states@.len() && forall|
            i: int,
        |
            0 <= i < all@.len() ==> (#[trigger] all@[i])@ == before.states@[i]@,
        request is GetRuntimeStatus ==> (r matches OperationResult::RuntimeStatus(s) && s.mode == mode),
        request is GetOnboardingStatus ==> (r matches OperationResult::OnboardingStatus(s) && s.mode
            == mode),
        request is GetConfigSummary ==> (r matches OperationResult::ConfigSummary(c)
            && c.location_name@ == product_name),
{
}

/// What the home tells of itself: that the API runs, that the core runs and nothing is migrated, and
/// the services that there are.
pub proof fn law_told_of_itself(
    mode: RuntimeMode,
    product_name: Seq<char>,
    before: StateStore,
    after: StateStore,
    events0: Seq<StateEvent>,
    events1: Seq<StateEvent>,
    request: OperationRequest<'_>,
    r: OperationResult,
)
    requires
        operation_result(mode, product_name, before, after, events0, events1, request, r),
    ensures
        request is GetApiStatus ==> (r matches OperationResult::ApiStatus(s) && s.message@
            == "API running."@),
        request is GetCoreState ==> (r matches OperationResult::CoreState(s) && s.state is Running
            && !s.recorder_state.migration_in_progress && !s.recorder_state.migration_is_live),
        request is ListServices ==> (r matches OperationResult::ServiceCatalog(c) && c@.len() == 2
            && c@[0].domain@ == "light"@ && c@[1].domain@ == "switch"@ && c@[0].services@.len() == 2
            && c@[1].services@.len() == 2),
        request is GetConfigSummary ==> (r matches OperationResult::ConfigSummary(c)
            && c.time_zone@ == "UTC"@ && c.language@ == "en"@ && c.state@ == "RUNNING"@),
        request is RequestWake ==> (r matches OperationResult::WakeStatus(w) && w.accepted
            && w.already_awake),
        request is RequestTransition || request is OpenSession || request is CloseSession ==> r
            == OperationResult::Ack,
{
    if let OperationResult::ServiceCatalog(c) = r {
        let models = c@.map_values(|d: crate::service::ServiceDomainCatalog| d@);
        if request is ListServices {
            crate::service_laws::law_catalog();
            assert(models == crate::service::service_catalog());
            assert(models[0] == c@[0]@ && models[1] == c@[1]@);
        }
    }
}

/// Before anything is set up, no step is done, there is no account and no place, and the radius of
/// the home is 100 metres.
pub proof fn law_fresh(now_ms: u128, step: Seq<char>)
    ensures
        ({
            let o = crate::storage::fresh_onboarding(now_ms);
            &&& !o.onboarded
            &&& !o.has_done(step)
            &&& o.user is None && o.location_name is None && o.country is None && o.language is None
                && o.time_zone is None && o.unit_system is None && o.latitude is None
                && o.longitude is None
            &&& o.radius == "100.0"@
            &&& o.updated_at_unix_ms == now_ms
        }),
{
}

/// The place of the home is taken from the configuration only where it has none yet, and only as a
/// whole.
pub proof fn law_home_placed(
    o: OnboardingModel,
    latitude: Option<Seq<char>>,
    longitude: Option<Seq<char>>,
    radius: Seq<char>,
)
    ensures
        ({
            let r = crate::storage::with_home_zone(o, latitude, longitude, radius);
            &&& if o.latitude is None && o.longitude is None && latitude is Some
                && longitude is Some {
                r.latitude == latitude && r.longitude == longitude && r.radius == radius
            } else {
                r.latitude == o.latitude && r.longitude == o.longitude && r.radius == o.radius
            }
            &&& r.onboarded == o.onboarded && r.done == o.done && r.user == o.user
                && r.location_name == o.location_name && r.language == o.language
        }),
{
}

/// The status of the running home: nobody has claimed it, it is awake, and what it tells is live.
pub proof fn law_status(mode: RuntimeMode)
    ensures
        ({
            let s = crate::app_core::runtime_status(mode);
            &&& s.mode == mode
            &&& s.ownership is Unclaimed
            &&& s.power is Awake
            &&& s.freshness.state is Live
            &&& s.freshness.age_ms == 0 && s.freshness.sampled_at_ms == 0
            &&& !s.freshness.wake_required
        }),
{
}

} // verus!
