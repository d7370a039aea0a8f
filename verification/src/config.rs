//! What is configured: where to listen, where to store, and what to start with.

use vstd::prelude::*;

use crate::json::Real;

verus! {

/// The configuration of the controller.
pub struct AppConfig {
    pub server: ServerConfig,
    pub storage: StorageConfig,
    pub ui: UiConfig,
    pub areas: AreasConfig,
    pub history: HistoryConfig,
    pub home_zone: HomeZoneConfig,
    pub mdns: MdnsConfig,
}

/// Area names that the area registry starts with on first boot.
pub struct AreasConfig {
    pub names: Vec<String>,
}

impl Default for AreasConfig {
    fn default() -> (r: Self)
        ensures
            r.names@.len() == 0,
    {
        AreasConfig { names: default_areas() }
    }
}

/// The area names of a configuration that lists none.
pub fn default_areas() -> (r: Vec<String>)
    ensures
        r@.len() == 0,
{
    Vec::new()
}

/// Where to listen and how much to log.
pub struct ServerConfig {
    pub host: String,
    pub port: u16,
    pub log_level: String,
}

/// Where data is stored.
pub struct StorageConfig {
    pub data_dir: String,
}

/// What the user interface shows.
pub struct UiConfig {
    pub product_name: String,
}

/// How many readings are kept of each entity.
#[derive(Clone, Copy, Debug)]
pub struct HistoryConfig {
    pub capacity: usize,
}

impl Default for HistoryConfig {
    fn default() -> (r: Self)
        ensures
            r.capacity == 1000,
    {
        HistoryConfig { capacity: default_history_capacity() }
    }
}

/// How many readings are kept where the configuration does not say.
pub fn default_history_capacity() -> (r: usize)
    ensures
        r == 1000,
{
    1000
}

/// Where the home is, for as long as onboarding has not said.
pub struct HomeZoneConfig {
    pub latitude: Option<Real>,
    pub longitude: Option<Real>,
    /// In metres.
    pub radius: Real,
}

impl Default for HomeZoneConfig {
    fn default() -> (r: Self)
        ensures
            r.latitude is None,
            r.longitude is None,
            r.radius@ == "100.0"@,
    {
        HomeZoneConfig { latitude: None, longitude: None, radius: "100.0".to_owned() }
    }
}

/// What is announced on the network.
pub struct MdnsConfig {
    /// The interfaces whose addresses are not announced: the starts of their names.
    pub exclude_interfaces: Vec<String>,
}

impl Default for MdnsConfig {
    fn default() -> (r: Self)
        ensures
            r.exclude_interfaces@.len() == 0,
    {
        MdnsConfig { exclude_interfaces: Vec::new() }
    }
}

/// The port of a configuration that names none.
pub fn default_port() -> (r: u16)
    ensures
        r == 8124,
{
    8124
}

/// The address of a configuration that names none: every interface.
pub fn default_host() -> (r: String)
    ensures
        r@ == "0.0.0.0"@,
{
    "0.0.0.0".to_owned()
}

/// The log level of a configuration that names none.
pub fn default_log_level() -> (r: String)
    ensures
        r@ == "INFO"@,
{
    "INFO".to_owned()
}

} // verus!
