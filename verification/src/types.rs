//! Plain configuration records with built-in defaults.

use vstd::prelude::*;

verus! {

/// Retry and timeout settings.
#[derive(Clone, Copy, Debug, PartialEq, Eq, Structural)]
pub struct Settings {
    pub retries: u32,
    pub timeout_ms: u32,
}

/// An application configuration record: a schema version, its settings, and
/// a list of feature flags.
#[derive(Clone, Debug)]
pub struct AppConfig {
    pub config_version: u32,
    pub settings: Settings,
    pub features: Vec<(String, bool)>,
}

impl Default for AppConfig {
    /// The built-in defaults: schema version 2, five retries, a five-second
    /// timeout, and the single feature flag `beta_feature_x`, switched on.
    fn default() -> (r: AppConfig)
        ensures
            r.config_version == 2,
            r.settings == (Settings { retries: 5, timeout_ms: 5000 }),
            r.features@.len() == 1,
            r.features@[0].0@ == "beta_feature_x"@,
            r.features@[0].1 == true,
    {
        let mut features: Vec<(String, bool)> = Vec::new();
        features.push(("beta_feature_x".to_owned(), true));
        AppConfig {
            config_version: 2,
            settings: Settings { retries: 5, timeout_ms: 5000 },
            features,
        }
    }
}

} // verus!
