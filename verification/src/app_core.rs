//! The core: runtime modes and their policies, operations, and onboarding.

use vstd::prelude::*;

use crate::auth_store;
use crate::auth_store::stored_password;
use crate::config::AppConfig;
use crate::ids;
use crate::json::{Members, Real};
use crate::service;
use crate::service::{
    ServiceCall, ServiceDomainCatalog, ServiceError, ServiceOutcome, ServiceRegistry,
};
use crate::state_store;
use crate::state_store::{
    make_state, State, StateAttributes, StateEvent, StateRun, StateStore,
};
use crate::storage::{OnboardingModel, OnboardingState, StoredUser, StoredUserModel};
use crate::text;
use crate::text::byte_len;

verus! {

/// The version that the API reports.
pub const VERSION: &'static str = "0.1.0";

/// The transport that a build serves.
#[derive(Clone, Copy, Debug, PartialEq, Eq, Structural)]
pub enum BuildTransport {
    Wifi,
    Ble,
}

/// How the device runs.
#[derive(Clone, Copy, Debug, PartialEq, Eq, Structural)]
pub enum RuntimeMode {
    UnprovisionedWifi,
    WifiOperational,
    UnprovisionedBle,
    BleOperational,
    Maintenance,
    Disabled,
}

/// The mode of a device that is, or is not, onboarded.
pub open spec fn mode_of_onboarding(onboarded: bool) -> RuntimeMode {
    if onboarded {
        RuntimeMode::WifiOperational
    } else {
        RuntimeMode::UnprovisionedWifi
    }
}

impl RuntimeMode {
    /// The number of the mode.
    pub open spec fn number(self) -> u8 {
        match self {
            RuntimeMode::UnprovisionedWifi => 1,
            RuntimeMode::WifiOperational => 2,
            RuntimeMode::UnprovisionedBle => 3,
            RuntimeMode::BleOperational => 4,
            RuntimeMode::Maintenance => 5,
            RuntimeMode::Disabled => 6,
        }
    }

    /// The mode with a number; the default mode for a number that none has.
    pub open spec fn of_number(value: u8) -> RuntimeMode {
        match value {
            1 => RuntimeMode::UnprovisionedWifi,
            2 => RuntimeMode::WifiOperational,
            3 => RuntimeMode::UnprovisionedBle,
            4 => RuntimeMode::BleOperational,
            5 => RuntimeMode::Maintenance,
            6 => RuntimeMode::Disabled,
            _ => mode_of_onboarding(false),
        }
    }

    /// The mode of a device that has not been onboarded.
    pub fn default_for_build() -> (r: Self)
        ensures
            r == mode_of_onboarding(false),
    {
        RuntimeMode::UnprovisionedWifi
    }

    /// The mode of an onboarded device.
    pub fn operational_for_build() -> (r: Self)
        ensures
            r == mode_of_onboarding(true),
    {
        RuntimeMode::WifiOperational
    }

    /// The mode that persisted onboarding calls for.
    pub fn from_persisted_onboarding(onboarded: bool) -> (r: Self)
        ensures
            r == mode_of_onboarding(onboarded),
    {
        if onboarded {
            RuntimeMode::operational_for_build()
        } else {
            RuntimeMode::default_for_build()
        }
    }

    /// The transport of a mode.
    pub fn build_transport(self) -> (r: BuildTransport)
        ensures
            r == match self {
                RuntimeMode::UnprovisionedBle | RuntimeMode::BleOperational => BuildTransport::Ble,
                _ => BuildTransport::Wifi,
            },
    {
        match self {
            RuntimeMode::UnprovisionedWifi | RuntimeMode::WifiOperational => BuildTransport::Wifi,
            RuntimeMode::UnprovisionedBle | RuntimeMode::BleOperational => BuildTransport::Ble,
            RuntimeMode::Maintenance | RuntimeMode::Disabled => current_build_transport(),
        }
    }

    /// The number of the mode.
    pub fn to_u8(self) -> (r: u8)
        ensures
            r == self.number(),
    {
        match self {
            RuntimeMode::UnprovisionedWifi => 1,
            RuntimeMode::WifiOperational => 2,
            RuntimeMode::UnprovisionedBle => 3,
            RuntimeMode::BleOperational => 4,
            RuntimeMode::Maintenance => 5,
            RuntimeMode::Disabled => 6,
        }
    }

    /// The mode with a number; the default mode for a number that none has.
    pub fn from_u8(value: u8) -> (r: Self)
        ensures
            r == RuntimeMode::of_number(value),
    {
        match value {
            1 => RuntimeMode::UnprovisionedWifi,
            2 => RuntimeMode::WifiOperational,
            3 => RuntimeMode::UnprovisionedBle,
            4 => RuntimeMode::BleOperational,
            5 => RuntimeMode::Maintenance,
            6 => RuntimeMode::Disabled,
            _ => RuntimeMode::default_for_build(),
        }
    }
}

/// A mode comes back from its number.
pub proof fn law_mode_number(mode: RuntimeMode)
    ensures
        RuntimeMode::of_number(mode.number()) == mode,
{
}

/// The transport of this build.
pub fn current_build_transport() -> (r: BuildTransport)
    ensures
        r == BuildTransport::Wifi,
{
    BuildTransport::Wifi
}

/// A change of mode that can be asked for.
#[derive(Clone, Copy, Debug, PartialEq, Eq, Structural)]
pub enum ModeTransition {
    CompleteOnboarding,
    EnterMaintenance,
    ExitMaintenance,
    EnableOperationalMode,
    DisableInteractiveTransport,
    FactoryReset,
}

#[derive(Clone, Copy, Debug, PartialEq, Eq, Structural)]
pub enum OwnershipState {
    Unclaimed,
    Claimed,
    TransferPending,
    ResetPending,
}

#[derive(Clone, Copy, Debug, PartialEq, Eq, Structural)]
pub enum PowerStateSummary {
    Awake,
    SleepEligible,
    Sleeping,
    Waking,
    Sampling,
    Degraded,
}

#[derive(Clone, Copy, Debug, PartialEq, Eq, Structural)]
pub enum Discoverability {
    Hidden,
    OnboardingOnly,
    Operational,
    MaintenanceOnly,
}

#[derive(Clone, Copy, Debug, PartialEq, Eq, Structural)]
pub enum Connectability {
    Disabled,
    ClaimOnly,
    AuthenticatedOnly,
    Mixed,
}

#[derive(Clone, Copy, Debug, PartialEq, Eq, Structural)]
pub enum AuthPolicy {
    NoAuth,
    OnboardingClaim,
    TokenSession,
    BondedSession,
    MaintenanceOnly,
}

#[derive(Clone, Copy, Debug, PartialEq, Eq, Structural)]
pub enum PowerPolicy {
    AlwaysOn,
    SleepyCachedReads,
    WakeForLiveReads,
    WakeForCommands,
}

#[derive(Clone, Copy, Debug, PartialEq, Eq, Structural)]
pub enum EventPolicy {
    NoEvents,
    MinimalNotifications,
    RichStreamUnsupported,
}

#[derive(Clone, Copy, Debug, PartialEq, Eq, Structural)]
pub enum CompatibilityPolicy {
    NativeOnly,
    WifiHaCompat,
    BleCompactProtocol,
}

#[derive(Clone, Copy, Debug, PartialEq, Eq, Structural)]
pub enum TransitionPolicy {
    Disallowed,
    MaintenanceOnly,
    Allowed,
}

/// A set of permissions, one bit each.
#[derive(Clone, Copy, Debug, PartialEq, Eq, Structural)]
pub struct PermissionFlags {
    pub bits: u32,
}

impl PermissionFlags {
    /// No permission.
    pub fn none() -> (r: Self)
        ensures
            r == (PermissionFlags { bits: 0 }),
    {
        PermissionFlags { bits: 0 }
    }

    /// Reading states.
    pub fn read_state() -> (r: Self)
        ensures
            r == (PermissionFlags { bits: 1 }),
    {
        PermissionFlags { bits: 1 }
    }

    /// Writing states.
    pub fn write_state() -> (r: Self)
        ensures
            r == (PermissionFlags { bits: 2 }),
    {
        PermissionFlags { bits: 2 }
    }

    /// Calling services.
    pub fn call_service() -> (r: Self)
        ensures
            r == (PermissionFlags { bits: 4 }),
    {
        PermissionFlags { bits: 4 }
    }

    /// Changing the configuration.
    pub fn configure() -> (r: Self)
        ensures
            r == (PermissionFlags { bits: 8 }),
    {
        PermissionFlags { bits: 8 }
    }

    /// Changing the runtime mode.
    pub fn manage_mode() -> (r: Self)
        ensures
            r == (PermissionFlags { bits: 16 }),
    {
        PermissionFlags { bits: 16 }
    }

    /// Whether every permission of `other` is among these.
    pub open spec fn includes(self, other: PermissionFlags) -> bool {
        self.bits & other.bits == other.bits
    }

    /// The permissions of both.
    pub open spec fn union(self, other: PermissionFlags) -> PermissionFlags {
        PermissionFlags { bits: self.bits | other.bits }
    }

    /// Whether every permission of `other` is among these.
    pub fn contains(self, other: Self) -> (r: bool)
        ensures
            r == self.includes(other),
    {
        (self.bits & other.bits) == other.bits
    }
}

impl Default for PermissionFlags {
    fn default() -> (r: Self)
        ensures
            r.bits == 0,
    {
        PermissionFlags::none()
    }
}

impl core::ops::BitOr for PermissionFlags {
    type Output = PermissionFlags;

    fn bitor(self, rhs: PermissionFlags) -> (r: PermissionFlags) {
        PermissionFlags { bits: self.bits | rhs.bits }
    }
}

impl vstd::std_specs::ops::BitOrSpecImpl for PermissionFlags {
    open spec fn obeys_bitor_spec() -> bool {
        true
    }

    open spec fn bitor_req(self, rhs: PermissionFlags) -> bool {
        true
    }

    open spec fn bitor_spec(self, rhs: PermissionFlags) -> PermissionFlags {
        self.union(rhs)
    }
}

/// The permissions of both sets are in their union, it adds no others, and a set is included in
/// itself.
pub proof fn law_permissions(a: PermissionFlags, b: PermissionFlags, c: PermissionFlags)
    ensures
        a.union(b).includes(a),
        a.union(b).includes(b),
        c.includes(a.union(b)) == (c.includes(a) && c.includes(b)),
        a.includes(a),
        a.includes(PermissionFlags { bits: 0 }),
{
    let x = a.bits;
    let y = b.bits;
    let z = c.bits;
    assert((x | y) & x == x) by (bit_vector);
    assert((x | y) & y == y) by (bit_vector);
    assert((z & (x | y) == (x | y)) == ((z & x == x) && (z & y == y))) by (bit_vector);
    assert(x & x == x) by (bit_vector);
    assert(x & 0 == 0) by (bit_vector);
}

impl core::ops::BitOrAssign for PermissionFlags {
    fn bitor_assign(&mut self, rhs: PermissionFlags)
        ensures
            *final(self) == old(self).union(rhs),
    {
        self.bits = self.bits | rhs.bits;
    }
}

#[derive(Clone, Copy, Debug, PartialEq, Eq, Structural)]
pub enum PrincipalKind {
    AnonymousClaim,
    OwnerApp,
    MaintenanceClient,
}

#[derive(Clone, Copy, Debug, PartialEq, Eq, Structural)]
pub enum AuthStrength {
    Unauthenticated,
    ClaimVerified,
    TokenVerified,
    Bonded,
    MaintenanceVerified,
}

#[derive(Clone, Copy, Debug, PartialEq, Eq, Structural)]
pub enum DeviceBindingState {
    Unbound,
    Bound,
    RotationPending,
}

#[derive(Clone, Copy, Debug, PartialEq, Eq, Structural)]
pub enum FreshnessRequirement {
    CachedAllowed,
    LivePreferred,
    LiveRequired,
}

#[derive(Clone, Copy, Debug, PartialEq, Eq)]
pub struct SessionContext {
    pub principal: PrincipalKind,
    pub auth_strength: AuthStrength,
    pub permissions: PermissionFlags,
    pub session_id: u64,
    pub binding: DeviceBindingState,
    pub freshness: FreshnessRequirement,
    pub maintenance_scope: bool,
}

#[derive(Clone, Copy, Debug, PartialEq, Eq, Structural)]
pub enum Consistency {
    CachedAllowed,
    LivePreferred,
    LiveRequired,
}

#[derive(Clone, Copy, Debug, PartialEq, Eq, Structural)]
pub enum DeadlineClass {
    Background,
    Interactive,
    Immediate,
}

#[derive(Clone, Copy, Debug, PartialEq, Eq)]
pub struct OperationMeta {
    pub request_id: u32,
    pub consistency: Consistency,
    pub deadline: DeadlineClass,
    pub allow_cached: bool,
    pub allow_deferred: bool,
}

#[derive(Clone, Copy, Debug, PartialEq, Eq, Structural)]
pub enum OperationError {
    InvalidRequest,
    Unauthorized,
    Forbidden,
    NotFound,
    UnsupportedInMode,
    WakeRequired,
    Busy,
    Conflict,
    StaleCursor,
    DeferredOnly,
    Internal,
}

#[derive(Clone, Copy, Debug, PartialEq, Eq, Structural)]
pub enum FreshnessState {
    Live,
    CachedFresh,
    CachedStale,
    UnavailableUntilWake,
}

#[derive(Clone, Copy, Debug, PartialEq, Eq, Structural)]
pub struct FreshnessInfo {
    pub state: FreshnessState,
    pub age_ms: u32,
    pub sampled_at_ms: u64,
    pub wake_required: bool,
}

#[derive(Clone, Copy, Debug, PartialEq, Eq)]
pub struct QueryCursor {
    pub generation: u32,
    pub offset: u32,
}

#[derive(Clone, Copy, Debug, PartialEq, Eq)]
pub struct PageRequest {
    pub limit: u16,
    pub cursor: Option<QueryCursor>,
    pub include_attributes: bool,
}

#[derive(Clone, Copy, Debug, PartialEq, Eq, Structural)]
pub enum DomainKind {
    Any,
    Sensor,
    BinarySensor,
    Light,
    Switch,
    Other,
}

#[derive(Clone, Copy, Debug, PartialEq, Eq)]
pub struct StateFilter {
    pub domain: DomainKind,
    pub changed_since: Option<QueryCursor>,
    pub include_attributes: bool,
}

#[derive(Clone, Copy, Debug, PartialEq, Eq)]
pub struct EntityHandle(pub u32);

/// A state value in compact form.
#[derive(Clone, Copy, Debug, PartialEq, Eq)]
pub enum StateValue<'a> {
    Bool(bool),
    Int(i64),
    Float(&'a str),
    SmallText(&'a str),
}

#[derive(Clone, Copy, Debug, PartialEq, Eq)]
pub struct StateAttr<'a> {
    pub key: &'a str,
    pub value: &'a str,
}

#[derive(Clone, Copy, Debug, PartialEq, Eq)]
pub struct EntityStateView<'a> {
    pub entity: EntityHandle,
    pub entity_id: &'a str,
    pub state: StateValue<'a>,
    pub freshness: FreshnessInfo,
    pub context_id: u64,
    pub last_updated_ms: u64,
}

#[derive(Clone, Copy, Debug, PartialEq, Eq)]
pub struct ServiceDescriptor {
    pub domain: DomainKind,
    pub service_id: u16,
    pub capability_flags: u16,
    pub response_required: bool,
    pub schema_id: u16,
}

#[derive(Clone, Copy, Debug, PartialEq, Eq, Structural)]
pub struct RuntimeStatus {
    pub mode: RuntimeMode,
    pub ownership: OwnershipState,
    pub power: PowerStateSummary,
    pub freshness: FreshnessInfo,
}

#[derive(Clone, Copy, Debug, PartialEq, Eq, Structural)]
pub struct OnboardingStatus {
    pub claimed: bool,
    pub mode: RuntimeMode,
}

#[derive(Clone, Copy, Debug, PartialEq, Eq)]
pub struct ConfigSummary<'a> {
    pub product_name: &'a str,
    pub mode: RuntimeMode,
}

#[derive(Clone, Copy, Debug, PartialEq, Eq, Structural)]
pub enum WakeReason {
    ReadLiveState,
    ExecuteCommand,
    Maintenance,
}

#[derive(Clone, Copy, Debug, PartialEq, Eq)]
pub struct WakeRequest {
    pub reason: WakeReason,
}

#[derive(Clone, Copy, Debug, PartialEq, Eq, Structural)]
pub struct WakeStatus {
    pub accepted: bool,
    pub already_awake: bool,
}

#[derive(Clone, Copy, Debug, PartialEq, Eq, Structural)]
pub enum DomainEvent {
    StateChanged,
    ServiceCompleted,
    OnboardingAdvanced,
    OwnershipChanged,
    RuntimeModeChanged,
    PowerStateChanged,
    FaultRaised,
}

/// The reply of the API that it runs.
pub struct ApiStatusResponse {
    pub message: String,
}

/// Whether the core runs.
#[derive(Clone, Copy, Debug, PartialEq, Eq, Structural)]
pub enum CoreState {
    NotRunning,
    Starting,
    Running,
    Stopping,
    FinalWrite,
    Stopped,
}

/// Whether the recorder is being migrated.
#[derive(Clone, Copy, Debug, PartialEq, Eq, Structural)]
pub struct RecorderState {
    pub migration_in_progress: bool,
    pub migration_is_live: bool,
}

/// The state of the core.
#[derive(Clone, Copy, Debug, PartialEq, Eq, Structural)]
pub struct CoreStateResponse {
    pub state: CoreState,
    pub recorder_state: RecorderState,
}

/// The units that values are given in.
#[derive(Clone, Copy, Debug, PartialEq, Eq, Structural)]
pub enum UnitSystem {
    Metric,
}

/// The configuration that the API reports.
pub struct ApiConfigResponse {
    pub version: String,
    pub location_name: String,
    pub time_zone: String,
    pub language: String,
    pub latitude: Real,
    pub longitude: Real,
    pub elevation: Real,
    pub unit_system: UnitSystem,
    pub state: String,
    pub components: Vec<String>,
    pub whitelist_external_dirs: Vec<String>,
}

/// The mathematical value of an [`ApiConfigResponse`].
pub struct ApiConfigModel {
    pub version: Seq<char>,
    pub location_name: Seq<char>,
    pub time_zone: Seq<char>,
    pub language: Seq<char>,
    pub latitude: Seq<char>,
    pub longitude: Seq<char>,
    pub elevation: Seq<char>,
    pub unit_system: UnitSystem,
    pub state: Seq<char>,
    pub components: Seq<Seq<char>>,
    pub whitelist_external_dirs: Seq<Seq<char>>,
}

impl View for ApiConfigResponse {
    type V = ApiConfigModel;

    open spec fn view(&self) -> ApiConfigModel {
        ApiConfigModel {
            version: self.version@,
            location_name: self.location_name@,
            time_zone: self.time_zone@,
            language: self.language@,
            latitude: self.latitude@,
            longitude: self.longitude@,
            elevation: self.elevation@,
            unit_system: self.unit_system,
            state: self.state@,
            components: self.components.deep_view(),
            whitelist_external_dirs: self.whitelist_external_dirs.deep_view(),
        }
    }
}

/// The configuration that the API reports for a product of a given name.
pub open spec fn api_config_model(product_name: Seq<char>) -> ApiConfigModel {
    ApiConfigModel {
        version: VERSION@,
        location_name: product_name,
        time_zone: "UTC"@,
        language: "en"@,
        latitude: "0.0"@,
        longitude: "0.0"@,
        elevation: "0.0"@,
        unit_system: UnitSystem::Metric,
        state: "RUNNING"@,
        components: Seq::empty().push("api"@).push("core"@),
        whitelist_external_dirs: Seq::empty(),
    }
}

/// The reply of the API that it runs.
pub fn api_status() -> (r: ApiStatusResponse)
    ensures
        r.message@ == "API running."@,
{
    ApiStatusResponse { message: "API running.".to_owned() }
}

/// The core runs, and nothing is being migrated.
pub open spec fn running_core() -> CoreStateResponse {
    CoreStateResponse {
        state: CoreState::Running,
        recorder_state: RecorderState { migration_in_progress: false, migration_is_live: false },
    }
}

/// The state of the core.
pub fn api_core_state() -> (r: CoreStateResponse)
    ensures
        r == running_core(),
{
    CoreStateResponse {
        state: CoreState::Running,
        recorder_state: RecorderState { migration_in_progress: false, migration_is_live: false },
    }
}

/// The configuration that the API reports for a product of a given name.
pub fn api_config(product_name: &str) -> (r: ApiConfigResponse)
    ensures
        r@ == api_config_model(product_name@),
{
    let mut components: Vec<String> = Vec::new();
    components.push("api".to_owned());
    components.push("core".to_owned());
    let r = ApiConfigResponse {
        version: VERSION.to_owned(),
        location_name: product_name.to_owned(),
        time_zone: "UTC".to_owned(),
        language: "en".to_owned(),
        latitude: "0.0".to_owned(),
        longitude: "0.0".to_owned(),
        elevation: "0.0".to_owned(),
        unit_system: UnitSystem::Metric,
        state: "RUNNING".to_owned(),
        components,
        whitelist_external_dirs: Vec::new(),
    };
    assert(r@.components =~= Seq::empty().push("api"@).push("core"@));
    assert(r@.whitelist_external_dirs =~= Seq::<Seq<char>>::empty());
    r
}

#[derive(Clone, Copy, Debug, PartialEq, Eq, Structural)]
pub struct ReadPolicy {
    pub live_allowed: bool,
    pub cached_allowed: bool,
    pub stale_allowed: bool,
    pub paging_required: bool,
}

#[derive(Clone, Copy, Debug, PartialEq, Eq, Structural)]
pub struct WritePolicy {
    pub writes_allowed: bool,
    pub writes_require_auth: bool,
    pub writes_require_wake: bool,
}

#[derive(Clone, Copy, Debug, PartialEq, Eq, Structural)]
pub struct TransportPolicy {
    pub discoverability: Discoverability,
    pub connectability: Connectability,
    pub auth_policy: AuthPolicy,
    pub power_policy: PowerPolicy,
    pub read_policy: ReadPolicy,
    pub write_policy: WritePolicy,
    pub event_policy: EventPolicy,
    pub compatibility_policy: CompatibilityPolicy,
    pub transition_policy: TransitionPolicy,
    pub max_page_size: u16,
    pub max_event_batch: u16,
}

/// Keeps the current mode, as its number.
#[derive(Debug)]
pub struct ModeController {
    pub mode: u8,
}

impl ModeController {
    /// The current mode.
    pub open spec fn current(&self) -> RuntimeMode {
        RuntimeMode::of_number(self.mode)
    }

    /// A controller in a given mode.
    pub fn new(initial_mode: RuntimeMode) -> (r: Self)
        ensures
            r.current() == initial_mode,
    {
        ModeController { mode: initial_mode.to_u8() }
    }

    /// The current mode.
    pub fn current_mode(&self) -> (r: RuntimeMode)
        ensures
            r == self.current(),
    {
        RuntimeMode::from_u8(self.mode)
    }

    /// Changes the mode.
    pub fn set_mode(&mut self, mode: RuntimeMode)
        ensures
            final(self).current() == mode,
    {
        self.mode = mode.to_u8();
    }
}

/// Finds the policy of a mode.
#[derive(Debug)]
pub struct PolicyResolver;

/// The policy of a mode, one field after the other.
pub open spec fn policy_of(mode: RuntimeMode) -> TransportPolicy {
    let unprovisioned = mode is UnprovisionedWifi || mode is UnprovisionedBle;
    let wifi = mode is UnprovisionedWifi || mode is WifiOperational;
    let ble = mode is UnprovisionedBle || mode is BleOperational;
    let disabled = mode is Disabled;
    TransportPolicy {
        discoverability: match mode {
            RuntimeMode::UnprovisionedBle => Discoverability::OnboardingOnly,
            RuntimeMode::Maintenance => Discoverability::MaintenanceOnly,
            RuntimeMode::Disabled => Discoverability::Hidden,
            _ => Discoverability::Operational,
        },
        connectability: if disabled {
            Connectability::Disabled
        } else if unprovisioned {
            Connectability::ClaimOnly
        } else {
            Connectability::AuthenticatedOnly
        },
        auth_policy: match mode {
            RuntimeMode::WifiOperational => AuthPolicy::TokenSession,
            RuntimeMode::BleOperational => AuthPolicy::BondedSession,
            RuntimeMode::Maintenance => AuthPolicy::MaintenanceOnly,
            RuntimeMode::Disabled => AuthPolicy::NoAuth,
            _ => AuthPolicy::OnboardingClaim,
        },
        power_policy: match mode {
            RuntimeMode::UnprovisionedBle | RuntimeMode::Disabled => PowerPolicy::SleepyCachedReads,
            RuntimeMode::BleOperational => PowerPolicy::WakeForCommands,
            _ => PowerPolicy::AlwaysOn,
        },
        read_policy: ReadPolicy {
            live_allowed: !ble && !disabled,
            cached_allowed: !disabled,
            stale_allowed: !disabled && !(mode is UnprovisionedWifi),
            paging_required: ble,
        },
        write_policy: WritePolicy {
            writes_allowed: !disabled && !(mode is UnprovisionedBle),
            writes_require_auth: !disabled && !unprovisioned,
            writes_require_wake: ble,
        },
        event_policy: if wifi {
            EventPolicy::RichStreamUnsupported
        } else if ble {
            EventPolicy::MinimalNotifications
        } else {
            EventPolicy::NoEvents
        },
        compatibility_policy: if wifi {
            CompatibilityPolicy::WifiHaCompat
        } else if ble {
            CompatibilityPolicy::BleCompactProtocol
        } else {
            CompatibilityPolicy::NativeOnly
        },
        transition_policy: if disabled {
            TransitionPolicy::Disallowed
        } else if mode is WifiOperational || mode is BleOperational {
            TransitionPolicy::MaintenanceOnly
        } else {
            TransitionPolicy::Allowed
        },
        max_page_size: if wifi {
            512
        } else if ble {
            32
        } else if disabled {
            0
        } else {
            128
        },
        max_event_batch: match mode {
            RuntimeMode::UnprovisionedWifi => 128,
            RuntimeMode::WifiOperational => 256,
            RuntimeMode::Maintenance => 32,
            RuntimeMode::Disabled => 0,
            _ => 16,
        },
    }
}

/// Once a device is provisioned nobody writes without authentication, before that nobody needs
/// any, and a disabled device neither reads nor writes.
pub proof fn law_policy(mode: RuntimeMode)
    ensures
        (mode is WifiOperational || mode is BleOperational || mode is Maintenance) ==> {
            &&& policy_of(mode).write_policy.writes_require_auth
            &&& policy_of(mode).connectability is AuthenticatedOnly
        },
        (mode is UnprovisionedWifi || mode is UnprovisionedBle) ==> {
            &&& policy_of(mode).connectability is ClaimOnly
            &&& policy_of(mode).auth_policy is OnboardingClaim
        },
        mode is Disabled ==> {
            &&& !policy_of(mode).read_policy.live_allowed
            &&& !policy_of(mode).read_policy.cached_allowed
            &&& !policy_of(mode).write_policy.writes_allowed
            &&& policy_of(mode).max_page_size == 0
        },
{
}

impl PolicyResolver {
    /// A resolver.
    pub fn new() -> Self {
        PolicyResolver
    }

    /// The policy of a mode.
    pub fn policy_for(&self, mode: RuntimeMode) -> (r: TransportPolicy)
        ensures
            r == policy_of(mode),
    {
        match mode {
            RuntimeMode::UnprovisionedWifi => TransportPolicy {
                discoverability: Discoverability::Operational,
                connectability: Connectability::ClaimOnly,
                auth_policy: AuthPolicy::OnboardingClaim,
                power_policy: PowerPolicy::AlwaysOn,
                read_policy: ReadPolicy {
                    live_allowed: true,
                    cached_allowed: true,
                    stale_allowed: false,
                    paging_required: false,
                },
                write_policy: WritePolicy {
                    writes_allowed: true,
                    writes_require_auth: false,
                    writes_require_wake: false,
                },
                event_policy: EventPolicy::RichStreamUnsupported,
                compatibility_policy: CompatibilityPolicy::WifiHaCompat,
                transition_policy: TransitionPolicy::Allowed,
                max_page_size: 512,
                max_event_batch: 128,
            },
            RuntimeMode::WifiOperational => TransportPolicy {
                discoverability: Discoverability::Operational,
                connectability: Connectability::AuthenticatedOnly,
                auth_policy: AuthPolicy::TokenSession,
                power_policy: PowerPolicy::AlwaysOn,
                read_policy: ReadPolicy {
                    live_allowed: true,
                    cached_allowed: true,
                    stale_allowed: true,
                    paging_required: false,
                },
                write_policy: WritePolicy {
                    writes_allowed: true,
                    writes_require_auth: true,
                    writes_require_wake: false,
                },
                event_policy: EventPolicy::RichStreamUnsupported,
                compatibility_policy: CompatibilityPolicy::WifiHaCompat,
                transition_policy: TransitionPolicy::MaintenanceOnly,
                max_page_size: 512,
                max_event_batch: 256,
            },
            RuntimeMode::UnprovisionedBle => TransportPolicy {
                discoverability: Discoverability::OnboardingOnly,
                connectability: Connectability::ClaimOnly,
                auth_policy: AuthPolicy::OnboardingClaim,
                power_policy: PowerPolicy::SleepyCachedReads,
                read_policy: ReadPolicy {
                    live_allowed: false,
                    cached_allowed: true,
                    stale_allowed: true,
                    paging_required: true,
                },
                write_policy: WritePolicy {
                    writes_allowed: false,
                    writes_require_auth: false,
                    writes_require_wake: true,
                },
                event_policy: EventPolicy::MinimalNotifications,
                compatibility_policy: CompatibilityPolicy::BleCompactProtocol,
                transition_policy: TransitionPolicy::Allowed,
                max_page_size: 32,
                max_event_batch: 16,
            },
            RuntimeMode::BleOperational => TransportPolicy {
                discoverability: Discoverability::Operational,
                connectability: Connectability::AuthenticatedOnly,
                auth_policy: AuthPolicy::BondedSession,
                power_policy: PowerPolicy::WakeForCommands,
                read_policy: ReadPolicy {
                    live_allowed: false,
                    cached_allowed: true,
                    stale_allowed: true,
                    paging_required: true,
                },
                write_policy: WritePolicy {
                    writes_allowed: true,
                    writes_require_auth: true,
                    writes_require_wake: true,
                },
                event_policy: EventPolicy::MinimalNotifications,
                compatibility_policy: CompatibilityPolicy::BleCompactProtocol,
                transition_policy: TransitionPolicy::MaintenanceOnly,
                max_page_size: 32,
                max_event_batch: 16,
            },
            RuntimeMode::Maintenance => TransportPolicy {
                discoverability: Discoverability::MaintenanceOnly,
                connectability: Connectability::AuthenticatedOnly,
                auth_policy: AuthPolicy::MaintenanceOnly,
                power_policy: PowerPolicy::AlwaysOn,
                read_policy: ReadPolicy {
                    live_allowed: true,
                    cached_allowed: true,
                    stale_allowed: true,
                    paging_required: false,
                },
                write_policy: WritePolicy {
                    writes_allowed: true,
                    writes_require_auth: true,
                    writes_require_wake: false,
                },
                event_policy: EventPolicy::NoEvents,
                compatibility_policy: CompatibilityPolicy::NativeOnly,
                transition_policy: TransitionPolicy::Allowed,
                max_page_size: 128,
                max_event_batch: 32,
            },
            RuntimeMode::Disabled => TransportPolicy {
                discoverability: Discoverability::Hidden,
                connectability: Connectability::Disabled,
                auth_policy: AuthPolicy::NoAuth,
                power_policy: PowerPolicy::SleepyCachedReads,
                read_policy: ReadPolicy {
                    live_allowed: false,
                    cached_allowed: false,
                    stale_allowed: false,
                    paging_required: false,
                },
                write_policy: WritePolicy {
                    writes_allowed: false,
                    writes_require_auth: false,
                    writes_require_wake: false,
                },
                event_policy: EventPolicy::NoEvents,
                compatibility_policy: CompatibilityPolicy::NativeOnly,
                transition_policy: TransitionPolicy::Disallowed,
                max_page_size: 0,
                max_event_batch: 0,
            },
        }
    }
}

impl Default for PolicyResolver {
    fn default() -> Self {
        PolicyResolver::new()
    }
}

/// An operation that a transport asks for.
pub enum OperationRequest<'a> {
    GetApiStatus,
    GetCoreState,
    GetRuntimeStatus,
    GetOnboardingStatus,
    OpenSession,
    CloseSession,
    GetEntityState { entity_id: &'a str, meta: OperationMeta },
    ListEntityStates { page: PageRequest, filter: StateFilter, meta: OperationMeta },
    SetEntityState {
        entity_id: &'a str,
        state: &'a str,
        attributes: StateAttributes,
        meta: OperationMeta,
    },
    ListServices { page: PageRequest, meta: OperationMeta },
    CallService { call: ServiceCall, meta: OperationMeta },
    GetConfigSummary,
    RequestWake { request: WakeRequest },
    RequestTransition { target: ModeTransition },
}

/// What an operation gives back.
pub enum OperationResult {
    Ack,
    ApiStatus(ApiStatusResponse),
    CoreState(CoreStateResponse),
    RuntimeStatus(RuntimeStatus),
    OnboardingStatus(OnboardingStatus),
    EntityState(State),
    EntityStates(Vec<State>),
    ServiceCatalog(Vec<ServiceDomainCatalog>),
    ServiceCallAccepted,
    ServiceCallCompleted(ServiceOutcome),
    ConfigSummary(ApiConfigResponse),
    WakeStatus(WakeStatus),
    Error(OperationError),
}

/// The core of the controller: its mode and the policies of the modes.
#[derive(Debug)]
pub struct AppCore {
    pub mode_controller: ModeController,
    pub policy_resolver: PolicyResolver,
}

/// What setting the state of an entity returns and does to the states.
pub open spec fn set_state_result(
    before: StateRun,
    after: StateRun,
    entity_id: Seq<char>,
    state: Seq<char>,
    attributes: Members,
    r: OperationResult,
) -> bool {
    if !state_store::valid_entity_id(entity_id) || text::byte_count(state)
        > state_store::MAX_STATE_BYTES {
        r == OperationResult::Error(OperationError::InvalidRequest) && after == before
    } else {
        &&& r matches OperationResult::EntityState(saved)
        &&& saved@ == state_store::state_at(
            entity_id,
            state,
            attributes,
            saved@.context,
            saved@.last_updated,
        )
        &&& state_store::is_timestamp(saved@.last_updated)
        &&& ids::is_hex_text(saved@.context.id, 32)
        &&& saved@.context.parent_id is None
        &&& saved@.context.user_id is None
        &&& after == before.offer(saved@)
    }
}

/// How an operation reports what a service call gave.
pub open spec fn reported(
    res: Result<ServiceOutcome, ServiceError>,
    r: OperationResult,
) -> bool {
    r == match res {
        Ok(outcome) => OperationResult::ServiceCallCompleted(outcome),
        Err(ServiceError::NotFound { .. }) => OperationResult::Error(OperationError::NotFound),
        Err(ServiceError::InvalidFormat(_)) | Err(ServiceError::ServiceValidation(_)) =>
            OperationResult::Error(OperationError::InvalidRequest),
        Err(_) => OperationResult::Error(OperationError::Internal),
    }
}

/// A device that is awake and reads live.
pub open spec fn runtime_status(mode: RuntimeMode) -> RuntimeStatus {
    RuntimeStatus {
        mode,
        ownership: OwnershipState::Unclaimed,
        power: PowerStateSummary::Awake,
        freshness: FreshnessInfo {
            state: FreshnessState::Live,
            age_ms: 0,
            sampled_at_ms: 0,
            wake_required: false,
        },
    }
}

/// What an operation returns and does to the states, in a given mode and for a product of a
/// given name, and which changes of states it tells of.
pub open spec fn operation_result(
    mode: RuntimeMode,
    product_name: Seq<char>,
    before: StateStore,
    after: StateStore,
    events0: Seq<StateEvent>,
    events1: Seq<StateEvent>,
    request: OperationRequest<'_>,
    r: OperationResult,
) -> bool {
    let same = after == before && events1 == events0;
    let run0 = state_store::run_of(before, events0);
    let run1 = state_store::run_of(after, events1);
    match request {
        OperationRequest::GetApiStatus => {
            &&& r matches OperationResult::ApiStatus(status)
            &&& status.message@ == "API running."@
            &&& same
        },
        OperationRequest::GetCoreState => {
            &&& r == OperationResult::CoreState(running_core())
            &&& same
        },
        OperationRequest::GetConfigSummary => {
            &&& r matches OperationResult::ConfigSummary(config)
            &&& config@ == api_config_model(product_name)
            &&& same
        },
        OperationRequest::GetEntityState { entity_id, .. } => {
            &&& same
            &&& if before@.contains_key(entity_id@) {
                r matches OperationResult::EntityState(s) && s@ == before@[entity_id@]
            } else {
                r == OperationResult::Error(OperationError::NotFound)
            }
        },
        OperationRequest::ListEntityStates { .. } => {
            &&& same
            &&& r matches OperationResult::EntityStates(all)
            &&& all@.len() == before.states@.len()
            &&& forall|i: int| 0 <= i < all@.len() ==> (#[trigger] all@[i])@ == before.states@[i]@
        },
        OperationRequest::SetEntityState { entity_id, state, attributes, .. } => set_state_result(
            run0,
            run1,
            entity_id@,
            state@,
            attributes@,
            r,
        ),
        OperationRequest::ListServices { .. } => {
            &&& same
            &&& r matches OperationResult::ServiceCatalog(catalog)
            &&& catalog@.map_values(|d: ServiceDomainCatalog| d@) == service::service_catalog()
        },
        OperationRequest::CallService { call, .. } => exists|res: Result<
            ServiceOutcome,
            ServiceError,
        >| #[trigger] service::call_result(run0, run1, call, res) && reported(res, r),
        OperationRequest::GetRuntimeStatus => {
            &&& r == OperationResult::RuntimeStatus(runtime_status(mode))
            &&& same
        },
        OperationRequest::GetOnboardingStatus => {
            &&& r == OperationResult::OnboardingStatus(OnboardingStatus { claimed: false, mode })
            &&& same
        },
        OperationRequest::RequestWake { .. } => {
            &&& r == OperationResult::WakeStatus(WakeStatus { accepted: true, already_awake: true })
            &&& same
        },
        OperationRequest::RequestTransition { .. }
        | OperationRequest::OpenSession
        | OperationRequest::CloseSession => r == OperationResult::Ack && same,
    }
}

/// An operation leaves all states with points in time.
pub proof fn law_operation_timed(
    mode: RuntimeMode,
    product_name: Seq<char>,
    before: StateStore,
    after: StateStore,
    events0: Seq<StateEvent>,
    events1: Seq<StateEvent>,
    request: OperationRequest<'_>,
    r: OperationResult,
)
    requires
        operation_result(mode, product_name, before, after, events0, events1, request, r),
        state_store::all_timed(state_store::run_of(before, events0)),
    ensures
        state_store::all_timed(state_store::run_of(after, events1)),
{
    let run0 = state_store::run_of(before, events0);
    let run1 = state_store::run_of(after, events1);
    match request {
        OperationRequest::SetEntityState { entity_id, state, .. } => {
            if let OperationResult::EntityState(saved) = r {
                state_store::lemma_offer_timed(run0, saved@);
            }
        },
        OperationRequest::CallService { call, .. } => {
            let res = choose|res: Result<ServiceOutcome, ServiceError>| #[trigger]
                service::call_result(run0, run1, call, res) && reported(res, r);
            service::law_call_timed(run0, run1, call, res);
        },
        _ => {},
    }
}

impl AppCore {
    /// The current mode.
    pub open spec fn mode(&self) -> RuntimeMode {
        self.mode_controller.current()
    }

    /// A core in the default mode.
    pub fn new() -> (r: Self)
        ensures
            r.mode() == mode_of_onboarding(false),
    {
        AppCore {
            mode_controller: ModeController::new(RuntimeMode::default_for_build()),
            policy_resolver: PolicyResolver::new(),
        }
    }

    /// The current mode.
    pub fn runtime_mode(&self) -> (r: RuntimeMode)
        ensures
            r == self.mode(),
    {
        self.mode_controller.current_mode()
    }

    /// Changes the mode.
    pub fn set_runtime_mode(&mut self, mode: RuntimeMode)
        ensures
            final(self).mode() == mode,
    {
        self.mode_controller.set_mode(mode);
    }

    /// The policy of the current mode.
    pub fn transport_policy(&self) -> (r: TransportPolicy)
        ensures
            r == policy_of(self.mode()),
    {
        self.policy_resolver.policy_for(self.runtime_mode())
    }

    /// Carries out an operation.
    pub fn execute(
        &self,
        config: &AppConfig,
        states: &mut StateStore,
        events: &mut Vec<StateEvent>,
        services: &ServiceRegistry,
        request: OperationRequest<'_>,
    ) -> (r: OperationResult)
        ensures
            operation_result(
                self.mode(),
                config.ui.product_name@,
                *old(states),
                *final(states),
                old(events)@,
                final(events)@,
                request,
                r,
            ),
            old(states).wf() ==> final(states).wf(),
    {
        match request {
            OperationRequest::GetApiStatus => OperationResult::ApiStatus(api_status()),
            OperationRequest::GetCoreState => OperationResult::CoreState(api_core_state()),
            OperationRequest::GetConfigSummary => OperationResult::ConfigSummary(
                api_config(config.ui.product_name.as_str()),
            ),
            OperationRequest::GetEntityState { entity_id, .. } => match states.get(entity_id) {
                Some(state) => OperationResult::EntityState(state),
                None => OperationResult::Error(OperationError::NotFound),
            },
            OperationRequest::ListEntityStates { .. } => OperationResult::EntityStates(
                states.all(),
            ),
            OperationRequest::SetEntityState { entity_id, state, attributes, .. } => {
                if !State::is_valid_entity_id(entity_id) {
                    return OperationResult::Error(OperationError::InvalidRequest);
                }
                if byte_len(state) > 255 {
                    return OperationResult::Error(OperationError::InvalidRequest);
                }
                let next_state: State = make_state(entity_id, state, attributes);
                if !states.offer(next_state, events) {
                    return OperationResult::Error(OperationError::InvalidRequest);
                }
                match states.get(entity_id) {
                    Some(saved) => OperationResult::EntityState(saved),
                    None => OperationResult::Error(OperationError::Internal),
                }
            },
            OperationRequest::ListServices { .. } => OperationResult::ServiceCatalog(
                services.describe(),
            ),
            OperationRequest::CallService { call, .. } => {
                let ghost before = state_store::run_of(*states, events@);
                let res: Result<ServiceOutcome, ServiceError> = services.call(
                    states,
                    events,
                    &call,
                );
                assert(service::call_result(
                    before,
                    state_store::run_of(*states, events@),
                    call,
                    res,
                ));
                match res {
                    Ok(outcome) => OperationResult::ServiceCallCompleted(outcome),
                    Err(ServiceError::NotFound { .. }) => OperationResult::Error(
                        OperationError::NotFound,
                    ),
                    Err(ServiceError::InvalidFormat(_)) | Err(
                        ServiceError::ServiceValidation(_),
                    ) => OperationResult::Error(OperationError::InvalidRequest),
                    Err(_) => OperationResult::Error(OperationError::Internal),
                }
            },
            OperationRequest::GetRuntimeStatus => OperationResult::RuntimeStatus(
                RuntimeStatus {
                    mode: self.runtime_mode(),
                    ownership: OwnershipState::Unclaimed,
                    power: PowerStateSummary::Awake,
                    freshness: FreshnessInfo {
                        state: FreshnessState::Live,
                        age_ms: 0,
                        sampled_at_ms: 0,
                        wake_required: false,
                    },
                },
            ),
            OperationRequest::GetOnboardingStatus => OperationResult::OnboardingStatus(
                OnboardingStatus { claimed: false, mode: self.runtime_mode() },
            ),
            OperationRequest::RequestWake { .. } => OperationResult::WakeStatus(
                WakeStatus { accepted: true, already_awake: true },
            ),
            OperationRequest::RequestTransition { .. }
            | OperationRequest::OpenSession
            | OperationRequest::CloseSession => OperationResult::Ack,
        }
    }
}

impl Default for AppCore {
    fn default() -> (r: Self)
        ensures
            r.mode() == mode_of_onboarding(false),
    {
        AppCore::new()
    }
}

/// Which steps of onboarding are done.
#[derive(Clone, Copy, Debug, PartialEq, Eq, Structural)]
pub struct OnboardingProgress {
    pub user_done: bool,
    pub core_config_done: bool,
    pub analytics_done: bool,
    pub integration_done: bool,
    pub onboarded: bool,
}

/// Which steps of onboarding are done.
pub open spec fn progress_of(s: OnboardingModel) -> OnboardingProgress {
    OnboardingProgress {
        user_done: s.has_done("user"@),
        core_config_done: s.has_done("core_config"@),
        analytics_done: s.has_done("analytics"@),
        integration_done: s.has_done("integration"@),
        onboarded: s.onboarded,
    }
}

impl OnboardingProgress {
    /// Which steps of onboarding are done.
    pub fn from_state(state: &OnboardingState) -> (r: Self)
        ensures
            r == progress_of(state@),
    {
        OnboardingProgress {
            user_done: state.step_done("user"),
            core_config_done: state.step_done("core_config"),
            analytics_done: state.step_done("analytics"),
            integration_done: state.step_done("integration"),
            onboarded: state.onboarded,
        }
    }
}

/// The account that onboarding creates.
pub struct OnboardingUserInput {
    pub name: String,
    pub username: String,
    pub password: String,
    pub language: String,
}

/// What onboarding asks about the home.
pub struct OnboardingCoreConfigInput {
    pub location_name: Option<String>,
    pub country: Option<String>,
    pub language: Option<String>,
    pub time_zone: Option<String>,
    pub unit_system: Option<String>,
}

impl Default for OnboardingCoreConfigInput {
    fn default() -> (r: Self)
        ensures
            r == (OnboardingCoreConfigInput {
                location_name: None,
                country: None,
                language: None,
                time_zone: None,
                unit_system: None,
            }),
    {
        OnboardingCoreConfigInput {
            location_name: None,
            country: None,
            language: None,
            time_zone: None,
            unit_system: None,
        }
    }
}

/// What the first authorization asks of an owner.
pub struct AuthorizeBootstrapInput {
    pub display_name: String,
    pub username: String,
    pub password: String,
    pub location_name: String,
    pub language: String,
}

/// The mathematical value of an [`AuthorizeBootstrapInput`].
pub struct OwnerModel {
    pub display_name: Seq<char>,
    pub username: Seq<char>,
    pub password: Seq<char>,
    pub location_name: Seq<char>,
    pub language: Seq<char>,
}

impl View for AuthorizeBootstrapInput {
    type V = OwnerModel;

    open spec fn view(&self) -> OwnerModel {
        OwnerModel {
            display_name: self.display_name@,
            username: self.username@,
            password: self.password@,
            location_name: self.location_name@,
            language: self.language@,
        }
    }
}

#[derive(Clone, Copy, Debug, PartialEq, Eq, Structural)]
pub enum CreateOnboardingUserOutcome {
    Created,
    UserStepAlreadyDone,
}

#[derive(Clone, Copy, Debug, PartialEq, Eq, Structural)]
pub enum CompleteCoreConfigOutcome {
    Completed,
    CoreConfigStepAlreadyDone,
    UserStepRequired,
}

#[derive(Clone, Copy, Debug, PartialEq, Eq, Structural)]
pub enum CompleteAnalyticsOutcome {
    Completed,
    AlreadyDone,
}

#[derive(Clone, Copy, Debug, PartialEq, Eq, Structural)]
pub enum CompleteIntegrationOutcome {
    Completed,
    AlreadyDone,
}

/// The account that an input describes, with what is stored of its password.
pub open spec fn account_of(input: OnboardingUserInput, stored: Seq<char>) -> StoredUserModel {
    StoredUserModel {
        name: input.name@,
        username: input.username@,
        password: stored,
        language: input.language@,
    }
}

/// Whether the step that creates the account is over.
pub open spec fn user_step_over(s: OnboardingModel) -> bool {
    s.has_done("user"@) || s.user is Some
}

/// Onboarding after the account has been created, with what is stored of its password.
pub open spec fn with_user(
    s: OnboardingModel,
    input: OnboardingUserInput,
    stored: Seq<char>,
    now_ms: u128,
) -> OnboardingModel {
    OnboardingModel {
        user: Some(account_of(input, stored)),
        language: Some(input.language@),
        done: s.done.push("user"@),
        updated_at_unix_ms: now_ms,
        ..s
    }
}

/// Onboarding after the home has been configured.
pub open spec fn with_core_config(
    s: OnboardingModel,
    input: OnboardingCoreConfigInput,
    now_ms: u128,
) -> OnboardingModel {
    OnboardingModel {
        location_name: input.location_name.deep_view(),
        country: input.country.deep_view(),
        language: match input.language {
            Some(l) => Some(l@),
            None => s.language,
        },
        time_zone: input.time_zone.deep_view(),
        unit_system: input.unit_system.deep_view(),
        done: s.done.push("core_config"@),
        onboarded: true,
        updated_at_unix_ms: now_ms,
        ..s
    }
}

/// The steps of a completed onboarding.
pub open spec fn completed_steps() -> Seq<Seq<char>> {
    Seq::empty().push("user"@).push("core_config"@)
}

/// Onboarding after it has been declared complete.
pub open spec fn with_completion(s: OnboardingModel, now_ms: u128) -> OnboardingModel {
    OnboardingModel {
        onboarded: true,
        done: completed_steps(),
        updated_at_unix_ms: now_ms,
        ..s
    }
}

/// Onboarding after the first authorization has set up the owner, with what is stored of the
/// password.
pub open spec fn with_owner(
    s: OnboardingModel,
    owner: OwnerModel,
    stored: Seq<char>,
    now_ms: u128,
) -> OnboardingModel {
    OnboardingModel {
        user: Some(
            StoredUserModel {
                name: owner.display_name,
                username: owner.username,
                password: stored,
                language: owner.language,
            },
        ),
        location_name: Some(owner.location_name),
        language: Some(owner.language),
        onboarded: true,
        done: completed_steps(),
        updated_at_unix_ms: now_ms,
        ..s
    }
}

/// Onboarding after one more step.
pub open spec fn with_step(s: OnboardingModel, step: Seq<char>, now_ms: u128) -> OnboardingModel {
    OnboardingModel { done: s.done.push(step), updated_at_unix_ms: now_ms, ..s }
}

/// The steps of a completed onboarding.
fn completed_step_list() -> (r: Vec<String>)
    ensures
        r.deep_view() == completed_steps(),
{
    let mut done: Vec<String> = Vec::new();
    done.push("user".to_owned());
    done.push("core_config".to_owned());
    assert(done.deep_view() =~= completed_steps());
    done
}

/// Whether onboarding has been completed with an owner, whose password is stored as a hash.
pub open spec fn owner_set_up(
    before: OnboardingModel,
    after: OnboardingModel,
    owner: OwnerModel,
    now_ms: u128,
) -> bool {
    exists|stored: Seq<char>|
        auth_store::is_stored_password(stored, owner.password) && after == #[trigger] with_owner(
            before,
            owner,
            stored,
            now_ms,
        )
}

/// Whether an account has been created, whose password is stored as a hash.
pub open spec fn user_created(
    before: OnboardingModel,
    after: OnboardingModel,
    input: OnboardingUserInput,
    now_ms: u128,
) -> bool {
    exists|stored: Seq<char>|
        auth_store::is_stored_password(stored, input.password@) && after == #[trigger] with_user(
            before,
            input,
            stored,
            now_ms,
        )
}

/// Sets up the owner, and completes onboarding with it.
pub fn apply_owner(state: &mut OnboardingState, input: &AuthorizeBootstrapInput, now_ms: u128)
    ensures
        owner_set_up(old(state)@, final(state)@, input@, now_ms),
{
    let stored: String = stored_password(input.password.as_str());
    let ghost kept = stored@;
    state.user = Some(
        StoredUser {
            name: input.display_name.clone(),
            username: input.username.clone(),
            password: stored,
            language: input.language.clone(),
        },
    );
    state.location_name = Some(input.location_name.clone());
    state.language = Some(input.language.clone());
    state.done = completed_step_list();
    state.onboarded = true;
    state.updated_at_unix_ms = now_ms;
    assert(state@ == with_owner(old(state)@, input@, kept, now_ms));
}

/// Appends a step.
fn push_step(state: &mut OnboardingState, step: &str, now_ms: u128)
    ensures
        final(state)@ == with_step(old(state)@, step@, now_ms),
{
    let ghost before = state@.done;
    state.done.push(step.to_owned());
    state.updated_at_unix_ms = now_ms;
    assert(state@.done =~= before.push(step@));
}

impl AppCore {
    /// Puts the device into the mode that onboarding calls for.
    pub fn sync_runtime_mode_from_onboarding(&mut self, onboarding: &OnboardingState)
        ensures
            final(self).mode() == mode_of_onboarding(onboarding@.onboarded),
    {
        self.set_runtime_mode(RuntimeMode::from_persisted_onboarding(onboarding.onboarded));
    }

    /// Which steps of onboarding are done.
    pub fn onboarding_progress(&mut self, state: &OnboardingState) -> (r: OnboardingProgress)
        ensures
            r == progress_of(state@),
            final(self).mode() == mode_of_onboarding(state@.onboarded),
    {
        self.sync_runtime_mode_from_onboarding(state);
        OnboardingProgress::from_state(state)
    }

    /// Whether onboarding is complete.
    pub fn is_onboarded(&mut self, state: &OnboardingState) -> (r: bool)
        ensures
            r == state@.onboarded,
            final(self).mode() == mode_of_onboarding(state@.onboarded),
    {
        self.sync_runtime_mode_from_onboarding(state);
        state.onboarded
    }

    /// Creates the owner's account, unless there is one.
    pub fn create_onboarding_user(
        &mut self,
        state: &mut OnboardingState,
        input: &OnboardingUserInput,
        now_ms: u128,
    ) -> (r: CreateOnboardingUserOutcome)
        ensures
            r == if user_step_over(old(state)@) {
                CreateOnboardingUserOutcome::UserStepAlreadyDone
            } else {
                CreateOnboardingUserOutcome::Created
            },
            r is UserStepAlreadyDone ==> *final(state) == *old(state),
            r is Created ==> user_created(old(state)@, final(state)@, *input, now_ms),
            final(self).mode() == mode_of_onboarding(final(state)@.onboarded),
    {
        self.sync_runtime_mode_from_onboarding(state);
        if state.step_done("user") || state.user.is_some() {
            return CreateOnboardingUserOutcome::UserStepAlreadyDone;
        }
        let stored: String = stored_password(input.password.as_str());
        let ghost kept = stored@;
        state.user = Some(
            StoredUser {
                name: input.name.clone(),
                username: input.username.clone(),
                password: stored,
                language: input.language.clone(),
            },
        );
        state.language = Some(input.language.clone());
        push_step(state, "user", now_ms);
        assert(state@ == with_user(old(state)@, *input, kept, now_ms));
        self.sync_runtime_mode_from_onboarding(state);
        CreateOnboardingUserOutcome::Created
    }

    /// Configures the home, once the owner's account exists.
    pub fn complete_onboarding_core_config(
        &mut self,
        state: &mut OnboardingState,
        input: &OnboardingCoreConfigInput,
        now_ms: u128,
    ) -> (r: CompleteCoreConfigOutcome)
        ensures
            r == if old(state)@.has_done("core_config"@) {
                CompleteCoreConfigOutcome::CoreConfigStepAlreadyDone
            } else if !old(state)@.has_done("user"@) {
                CompleteCoreConfigOutcome::UserStepRequired
            } else {
                CompleteCoreConfigOutcome::Completed
            },
            !(r is Completed) ==> *final(state) == *old(state),
            r is Completed ==> final(state)@ == with_core_config(old(state)@, *input, now_ms),
            final(self).mode() == mode_of_onboarding(final(state)@.onboarded),
    {
        self.sync_runtime_mode_from_onboarding(state);
        if state.step_done("core_config") {
            return CompleteCoreConfigOutcome::CoreConfigStepAlreadyDone;
        }
        if !state.step_done("user") {
            return CompleteCoreConfigOutcome::UserStepRequired;
        }
        let ghost before = state@;
        state.location_name = input.location_name.clone();
        state.country = input.country.clone();
        if input.language.is_some() {
            state.language = input.language.clone();
        }
        state.time_zone = input.time_zone.clone();
        state.unit_system = input.unit_system.clone();
        push_step(state, "core_config", now_ms);
        proof {
            let k = choose|k: int| 0 <= k < before.done.len() && before.done[k] == "user"@;
            assert(state@.done[k] == "user"@);
            assert(state@.done.last() == "core_config"@);
        }
        state.onboarded = state.step_done("user") && state.step_done("core_config");
        self.sync_runtime_mode_from_onboarding(state);
        CompleteCoreConfigOutcome::Completed
    }

    /// Notes that the question about analytics is answered.
    pub fn complete_onboarding_analytics(
        &mut self,
        state: &mut OnboardingState,
        now_ms: u128,
    ) -> (r: CompleteAnalyticsOutcome)
        ensures
            r is AlreadyDone == old(state)@.has_done("analytics"@),
            r is AlreadyDone ==> *final(state) == *old(state),
            r is Completed ==> final(state)@ == with_step(old(state)@, "analytics"@, now_ms),
            final(self).mode() == mode_of_onboarding(final(state)@.onboarded),
    {
        self.sync_runtime_mode_from_onboarding(state);
        if state.step_done("analytics") {
            return CompleteAnalyticsOutcome::AlreadyDone;
        }
        push_step(state, "analytics", now_ms);
        CompleteAnalyticsOutcome::Completed
    }

    /// Notes that an app has been connected.
    pub fn complete_onboarding_integration(
        &mut self,
        state: &mut OnboardingState,
        now_ms: u128,
    ) -> (r: CompleteIntegrationOutcome)
        ensures
            r is AlreadyDone == old(state)@.has_done("integration"@),
            r is AlreadyDone ==> *final(state) == *old(state),
            r is Completed ==> final(state)@ == with_step(old(state)@, "integration"@, now_ms),
            final(self).mode() == mode_of_onboarding(final(state)@.onboarded),
    {
        self.sync_runtime_mode_from_onboarding(state);
        if state.step_done("integration") {
            return CompleteIntegrationOutcome::AlreadyDone;
        }
        push_step(state, "integration", now_ms);
        CompleteIntegrationOutcome::Completed
    }

    /// Declares onboarding complete.
    pub fn complete_onboarding(&mut self, state: &mut OnboardingState, now_ms: u128)
        ensures
            final(state)@ == with_completion(old(state)@, now_ms),
            final(self).mode() == mode_of_onboarding(true),
    {
        state.onboarded = true;
        state.done = completed_step_list();
        state.updated_at_unix_ms = now_ms;
        self.sync_runtime_mode_from_onboarding(state);
    }

    /// Sets up the owner at the first authorization, and completes onboarding with it.
    pub fn bootstrap_authorized_owner(
        &mut self,
        state: &mut OnboardingState,
        input: &AuthorizeBootstrapInput,
        now_ms: u128,
    )
        ensures
            owner_set_up(old(state)@, final(state)@, input@, now_ms),
            final(self).mode() == mode_of_onboarding(true),
    {
        apply_owner(state, input, now_ms);
        self.sync_runtime_mode_from_onboarding(state);
    }
}

/// A step that has just been added has been done, and so have the steps before it.
proof fn lemma_push_done(done: Seq<Seq<char>>, step: Seq<char>)
    ensures
        done.push(step).contains(step),
        forall|t: Seq<char>| done.contains(t) ==> #[trigger] done.push(step).contains(t),
{
    assert(done.push(step)[done.len() as int] == step);
    assert forall|t: Seq<char>| done.contains(t) implies #[trigger] done.push(step).contains(t) by {
        let k = choose|k: int| 0 <= k < done.len() && done[k] == t;
        assert(done.push(step)[k] == t);
    }
}

/// Onboarding goes from the account to the configuration: an account makes its step done and
/// cannot be created again, and the configuration that follows completes onboarding and cannot
/// be given again.
pub proof fn law_onboarding_order(
    s: OnboardingModel,
    user: OnboardingUserInput,
    stored: Seq<char>,
    config: OnboardingCoreConfigInput,
    t1: u128,
    t2: u128,
)
    requires
        !user_step_over(s),
    ensures
        with_user(s, user, stored, t1).has_done("user"@),
        user_step_over(with_user(s, user, stored, t1)),
        with_user(s, user, stored, t1).onboarded == s.onboarded,
        with_core_config(with_user(s, user, stored, t1), config, t2).has_done("user"@),
        with_core_config(with_user(s, user, stored, t1), config, t2).has_done("core_config"@),
        with_core_config(with_user(s, user, stored, t1), config, t2).onboarded,
        with_core_config(with_user(s, user, stored, t1), config, t2).user == Some(account_of(user, stored)),
{
    lemma_push_done(s.done, "user"@);
    lemma_push_done(s.done.push("user"@), "core_config"@);
}

/// A declared completion and an owner's set-up leave both steps done.
pub proof fn law_completion(s: OnboardingModel, owner: OwnerModel, stored: Seq<char>, t: u128)
    ensures
        with_completion(s, t).has_done("user"@),
        with_completion(s, t).has_done("core_config"@),
        with_completion(s, t).onboarded,
        with_owner(s, owner, stored, t).has_done("user"@),
        with_owner(s, owner, stored, t).has_done("core_config"@),
        with_owner(s, owner, stored, t).onboarded,
        user_step_over(with_owner(s, owner, stored, t)),
{
    lemma_push_done(Seq::empty(), "user"@);
    lemma_push_done(Seq::empty().push("user"@), "core_config"@);
}

/// The owner can log in with the password that was given, unless it is too long to be hashed and
/// looks like a hash.
pub proof fn law_new_owner(
    before: OnboardingModel,
    after: OnboardingModel,
    owner: OwnerModel,
    t: u128,
)
    requires
        owner_set_up(before, after, owner, t),
        hashable(owner.password),
    ensures
        auth_store::credentials_match(after.user, Some(owner.username), Some(owner.password)),
{
}

/// The user of a new account can log in with the password that was given, unless it is too long to
/// be hashed and looks like a hash.
pub proof fn law_new_user(
    before: OnboardingModel,
    after: OnboardingModel,
    input: OnboardingUserInput,
    t: u128,
)
    requires
        user_created(before, after, input, t),
        hashable(input.password@),
    ensures
        auth_store::credentials_match(after.user, Some(input.username@), Some(input.password@)),
{
}

/// Whether a password can be hashed, or does not look like a hash.
pub open spec fn hashable(password: Seq<char>) -> bool {
    text::byte_count(password) <= auth_store::MAX_PASSWORD_BYTES || !auth_store::is_hashed(password)
}

} // verus!
