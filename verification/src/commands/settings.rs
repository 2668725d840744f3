//! Settings decisions: the partial update the settings page sends, and the
//! sweep subnet, validated with the parser the scan uses (including the /16
//! cap) so an unsweepable range is rejected when it is set.

use vstd::prelude::*;

use crate::discovery::{ipv4_net_text, network_of, parse_cidr, Cidr};
use crate::error::AppError;
use crate::store::Settings;
use crate::text::{trim, trimmed};

verus! {

/// A partial settings update: only the fields the user changed are present.
#[derive(Debug, Clone)]
pub struct SettingsPatch {
    pub poll_ms: Option<u64>,
    pub theme: Option<String>,
    pub http_timeout_ms: Option<u64>,
    pub start_at_login: Option<bool>,
}

impl Default for SettingsPatch {
    fn default() -> (r: Self)
        ensures
            r.poll_ms is None,
            r.theme is None,
            r.http_timeout_ms is None,
            r.start_at_login is None,
    {
        SettingsPatch { poll_ms: None, theme: None, http_timeout_ms: None, start_at_login: None }
    }
}

/// Apply a partial update: each present field replaces the stored one; the
/// launch-at-login flag takes `autostart`, the state the OS registration
/// actually reached, rather than the request. `http_timeout_ms` has no stored
/// counterpart and changes nothing.
pub fn apply_patch(settings: &mut Settings, patch: SettingsPatch, autostart: Option<bool>)
    ensures
        final(settings).poll_ms == match patch.poll_ms {
            Some(v) => v,
            None => old(settings).poll_ms,
        },
        final(settings).theme == match patch.theme {
            Some(t) => t,
            None => old(settings).theme,
        },
        final(settings).start_at_login == match autostart {
            Some(v) => v,
            None => old(settings).start_at_login,
        },
        final(settings).subnet == old(settings).subnet,
        final(settings).guard_mode == old(settings).guard_mode,
        final(settings).failover_mode == old(settings).failover_mode,
{
    if let Some(v) = patch.poll_ms {
        settings.poll_ms = v;
    }
    if let Some(t) = patch.theme {
        settings.theme = t;
    }
    if let Some(v) = autostart {
        settings.start_at_login = v;
    }
}

/// The subnet setting a request asks for: a blank or absent one restores
/// auto-detection (`None`); any other must parse as a sweepable range, which
/// is stored in its canonical form.
pub fn subnet_setting(cidr: Option<&str>) -> (r: Result<Option<String>, AppError>)
    ensures
        match cidr {
            None => r matches Ok(None),
            Some(c) => if trim(c@).len() == 0 {
                r matches Ok(None)
            } else {
                match ipv4_net_text(trim(trim(c@))) {
                    Some((a, p)) => if p >= 16 {
                        r matches Ok(Some(s)) && s@ == (Cidr {
                            network: network_of(a, p) as u32,
                            prefix: p,
                        }).text()
                    } else {
                        r matches Err(AppError::InvalidInput(_))
                    },
                    None => r matches Err(AppError::InvalidInput(_)),
                }
            },
        },
{
    match cidr {
        None => Ok(None),
        Some(c) => {
            let t = trimmed(c);
            if t.as_str().unicode_len() == 0 {
                return Ok(None);
            }
            match parse_cidr(t.as_str()) {
                Ok(net) => Ok(Some(net.to_string())),
                Err(e) => Err(e),
            }
        },
    }
}

} // verus!
