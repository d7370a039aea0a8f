//! Log levels.

use vstd::prelude::*;

verus! {

/// Takes note of the configured log level.
///
/// The level of the running subscriber is set once, from the environment, so a level from the
/// configuration has no effect yet.
pub fn apply_config_log_level(log_level: &str) {
    let _ = log_level;
}

} // verus!
