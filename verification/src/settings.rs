//! What the user has settled.

use vstd::prelude::*;

verus! {

/// The name of the file that keeps the settings.
pub const SETTINGS_FILE: &'static str = "settings.json";

/// The user's settings.
#[derive(Clone, Copy, Debug, PartialEq, Eq, Structural)]
pub struct SettingsData {
    /// Whether other devices may reach the speech server. There is no authentication, so this is
    /// for trusted networks only.
    pub network_access: bool,
}

impl Default for SettingsData {
    /// The server is reached from this machine only.
    fn default() -> (r: Self)
        ensures
            !r.network_access,
    {
        SettingsData { network_access: false }
    }
}

/// The settings that are in force, given those that could be read and understood.
pub open spec fn in_force(stored: Option<SettingsData>) -> SettingsData {
    match stored {
        Some(s) => s,
        None => SettingsData { network_access: false },
    }
}

/// The settings that are in force, given those that could be read and understood.
pub fn load_settings(stored: Option<SettingsData>) -> (r: SettingsData)
    ensures
        r.network_access == (stored matches Some(s) && s.network_access),
        r == in_force(stored),
{
    match stored {
        Some(s) => s,
        None => SettingsData::default(),
    }
}

/// Whether other devices may reach the speech server.
pub fn get_network_access(settings: &SettingsData) -> (r: bool)
    ensures
        r == settings.network_access,
{
    settings.network_access
}

/// A step in putting changed settings into effect.
#[derive(Clone, Copy, Debug, PartialEq, Eq, Structural)]
pub enum SettingsStep {
    /// Save these settings, if that can be done.
    Save(SettingsData),
    /// Stop the speech server.
    StopServer,
    /// Start the speech server, with the settings that are in force.
    StartServer,
}

/// The steps that put `settings` into effect: they are saved, and the server is started anew, so
/// that it listens where they say.
pub open spec fn settling(settings: SettingsData) -> Seq<SettingsStep> {
    seq![SettingsStep::Save(settings), SettingsStep::StopServer, SettingsStep::StartServer]
}

/// Lets other devices reach the speech server, or no longer. The change is in force at once; the
/// steps that it takes then are returned, to be done in this order whatever comes of each.
pub fn set_network_access(settings: &mut SettingsData, enabled: bool) -> (r: Vec<SettingsStep>)
    ensures
        final(settings).network_access == enabled,
        r@ == settling(*final(settings)),
{
    settings.network_access = enabled;
    let steps: Vec<SettingsStep> = vec![
        SettingsStep::Save(*settings),
        SettingsStep::StopServer,
        SettingsStep::StartServer,
    ];
    steps
}

/// The address that a server with the given network access listens on.
pub open spec fn host_for(network_access: bool) -> Seq<char> {
    if network_access {
        "0.0.0.0"@
    } else {
        "127.0.0.1"@
    }
}

/// The address that the speech server listens on: all of the machine's, or only the one by which
/// the machine reaches itself.
pub fn bind_host(settings: &SettingsData) -> (r: &'static str)
    ensures
        r@ == host_for(settings.network_access),
{
    if settings.network_access {
        "0.0.0.0"
    } else {
        "127.0.0.1"
    }
}

/// Settings that were stored are in force as they are; without any, other devices may not reach the
/// server.
pub proof fn law_safe_unless_settled_otherwise(s: SettingsData)
    ensures
        in_force(Some(s)) == s,
        !in_force(None).network_access,
        host_for(in_force(None).network_access) == "127.0.0.1"@,
{
}

} // verus!
