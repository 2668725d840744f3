//! The persisted configuration's shape: the local profile, the saved devices
//! and the user's preferences. Reading and writing the file is the
//! application's; these are the values every command works on.

use vstd::prelude::*;

use crate::text::owned;

verus! {

/// The store file name.
pub const STORE_FILE: &'static str = "settings.json";

/// The local profile: a username and, unless removed, an Argon2 PHC string.
/// The profile itself tells first launch apart from "configured, but opens
/// without a prompt".
#[derive(Debug, Clone)]
pub struct AuthConfig {
    pub username: String,
    pub password_hash: Option<String>,
}

/// A device the user added or discovered. The UUID is the identity: it
/// survives a DHCP lease change, which the IP does not.
#[derive(Debug)]
pub struct SavedDevice {
    /// UPnP UDN uuid.
    pub uuid: String,
    /// DDMS `USN` (a MAC), a fallback identity.
    pub usn: String,
    pub ip: String,
    /// Local friendly name; `None` = show the device's own name.
    pub alias: Option<String>,
    /// Last known transport (`ethernet` | `wifi`).
    pub net_mode: Option<String>,
    /// Unix ms of the last successful contact.
    pub last_seen: Option<i64>,
    /// Added by hand rather than discovered: a scan must not prune it.
    pub pinned_manual: bool,
}

impl Clone for SavedDevice {
    fn clone(&self) -> (r: Self)
        ensures
            r == *self,
    {
        SavedDevice {
            uuid: self.uuid.clone(),
            usn: self.usn.clone(),
            ip: self.ip.clone(),
            alias: self.alias.clone(),
            net_mode: self.net_mode.clone(),
            last_seen: self.last_seen,
            pinned_manual: self.pinned_manual,
        }
    }
}

impl Default for SavedDevice {
    fn default() -> (r: Self)
        ensures
            r.uuid@.len() == 0,
            r.usn@.len() == 0,
            r.ip@.len() == 0,
            r.alias is None,
            r.net_mode is None,
            r.last_seen is None,
            !r.pinned_manual,
    {
        SavedDevice {
            uuid: String::new(),
            usn: String::new(),
            ip: String::new(),
            alias: None,
            net_mode: None,
            last_seen: None,
            pinned_manual: false,
        }
    }
}

/// User preferences.
#[derive(Debug, Clone)]
pub struct Settings {
    /// Status poll interval in ms.
    pub poll_ms: u64,
    /// CIDR for the subnet sweep; `None` = auto-detect.
    pub subnet: Option<String>,
    pub theme: String,
    /// Group Guard behaviour: "ask" | "always" | "never".
    pub guard_mode: String,
    /// Master-offline failover: "prompt" | "auto" | "never".
    pub failover_mode: String,
    pub start_at_login: bool,
}

impl Default for Settings {
    fn default() -> (r: Self)
        ensures
            r.poll_ms == 3000,
            r.subnet is None,
            r.theme@ == "dark"@,
            r.guard_mode@ == "ask"@,
            r.failover_mode@ == "prompt"@,
            !r.start_at_login,
    {
        Settings {
            poll_ms: 3000,
            subnet: None,
            theme: owned("dark"),
            guard_mode: owned("ask"),
            failover_mode: owned("prompt"),
            start_at_login: false,
        }
    }
}

/// The whole persisted configuration.
#[derive(Debug, Clone)]
pub struct Config {
    pub auth: Option<AuthConfig>,
    pub devices: Vec<SavedDevice>,
    pub settings: Settings,
    /// Skip the login screen on this machine.
    pub remember_me: bool,
}

impl Default for Config {
    fn default() -> (r: Self)
        ensures
            r.auth is None,
            r.devices@.len() == 0,
            r.settings.poll_ms == 3000,
            r.settings.subnet is None,
            r.settings.theme@ == "dark"@,
            r.settings.guard_mode@ == "ask"@,
            r.settings.failover_mode@ == "prompt"@,
            !r.settings.start_at_login,
            !r.remember_me,
    {
        Config { auth: None, devices: Vec::new(), settings: Settings::default(), remember_me: false }
    }
}

} // verus!
