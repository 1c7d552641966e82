//! Launcher configuration: the registry credentials and the auto-update
//! switch. Reading the config file and the environment belongs to the
//! shell; here live the record and its defaults.

use vstd::prelude::*;

verus! {

/// The launcher's persisted settings.
#[derive(Debug, Clone)]
pub struct Config {
    pub msa_client_id: Option<String>,
    pub msa_client_secret: Option<String>,
    pub curseforge_api_key: Option<String>,
    pub auto_update_enabled: bool,
}

/// The default for the auto-update switch: on.
pub fn default_auto_update() -> (b: bool)
    ensures
        b,
{
    true
}

impl Default for Config {
    /// An empty configuration with auto-update on.
    fn default() -> (c: Config)
        ensures
            c.msa_client_id is None,
            c.msa_client_secret is None,
            c.curseforge_api_key is None,
            c.auto_update_enabled,
    {
        Config {
            msa_client_id: None,
            msa_client_secret: None,
            curseforge_api_key: None,
            auto_update_enabled: default_auto_update(),
        }
    }
}

} // verus!
