//! What the app reports about itself.

use vstd::prelude::*;

verus! {

/// The app's name, version and platform.
#[derive(Debug, Clone)]
pub struct HealthSnapshot {
    pub app_name: String,
    pub app_version: String,
    pub target_platform: String,
}

impl HealthSnapshot {
    /// A snapshot holding the three given texts.
    pub fn new(app_name: &str, app_version: &str, target_platform: &str) -> (r: Self)
        ensures
            r.app_name@ == app_name@,
            r.app_version@ == app_version@,
            r.target_platform@ == target_platform@,
    {
        HealthSnapshot {
            app_name: app_name.to_owned(),
            app_version: app_version.to_owned(),
            target_platform: target_platform.to_owned(),
        }
    }
}

} // verus!
