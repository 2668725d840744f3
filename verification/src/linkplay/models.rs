//! The Linkplay API's responses as plain values, and the app's own view of a
//! device built from them: group role, player state, group members and the
//! per-device snapshot the frontend renders and the poller diffs.
//!
//! Decoding the tolerant wire JSON (lenient numbers and flags, unknown keys
//! kept for the debug pane) is the application's; these types hold what the
//! logic reads.

use vstd::prelude::*;

pub use crate::luci::model::display_name;
use crate::luci::model::{display_name_of, display_name_spec, opt_view};
use crate::text::{dec, owned, push_dec, same_text, trim, trimmed};

verus! {

/// `getStatusEx`: device identity, firmware and group role.
#[derive(Debug, Clone)]
pub struct StatusEx {
    pub uuid: String,
    pub device_name: String,
    pub group_name: String,
    pub firmware: String,
    pub hardware: String,
    pub project: String,
    pub mcu_ver: String,
    pub rssi: Option<i32>,
    pub ssid: String,
    pub essid: String,
    /// `1` while this device follows a master: the primary role signal.
    pub group: u8,
    pub master_uuid: String,
    pub master_ip: String,
    /// Wired address (empty on Wi-Fi only).
    pub eth2: String,
    /// Wi-Fi client address.
    pub apcli0: String,
    pub upnp_uuid: String,
}

impl Default for StatusEx {
    fn default() -> (r: Self)
        ensures
            r.uuid@.len() == 0,
            r.device_name@.len() == 0,
            r.group_name@.len() == 0,
            r.firmware@.len() == 0,
            r.hardware@.len() == 0,
            r.project@.len() == 0,
            r.mcu_ver@.len() == 0,
            r.rssi is None,
            r.ssid@.len() == 0,
            r.essid@.len() == 0,
            r.group == 0,
            r.master_uuid@.len() == 0,
            r.master_ip@.len() == 0,
            r.eth2@.len() == 0,
            r.apcli0@.len() == 0,
            r.upnp_uuid@.len() == 0,
    {
        StatusEx {
            uuid: String::new(),
            device_name: String::new(),
            group_name: String::new(),
            firmware: String::new(),
            hardware: String::new(),
            project: String::new(),
            mcu_ver: String::new(),
            rssi: None,
            ssid: String::new(),
            essid: String::new(),
            group: 0,
            master_uuid: String::new(),
            master_ip: String::new(),
            eth2: String::new(),
            apcli0: String::new(),
            upnp_uuid: String::new(),
        }
    }
}

/// `getPlayerStatus`: transport state, volume and the current track.
#[derive(Debug, Clone)]
pub struct PlayerStatus {
    /// `play` | `stop` | `pause` | `load`.
    pub status: String,
    /// Input/source code (see [`source_label`]).
    pub mode: u32,
    pub vol: u8,
    pub mute: bool,
    /// Position and length in ms.
    pub curpos: u64,
    pub totlen: u64,
    pub title: String,
    pub artist: String,
    pub album: String,
}

/// One member of a master's group.
#[derive(Debug, Clone)]
pub struct SlaveEntry {
    pub name: String,
    pub uuid: String,
    pub ip: String,
    pub version: String,
    pub channel: i32,
    pub volume: u8,
    pub mute: bool,
}

/// `multiroom:getSlaveList`: the master's view of its group.
#[derive(Debug, Clone)]
pub struct SlaveList {
    pub slaves: u32,
    pub slave_list: Vec<SlaveEntry>,
}

impl Default for SlaveList {
    fn default() -> (r: Self)
        ensures
            r.slaves == 0,
            r.slave_list@.len() == 0,
    {
        SlaveList { slaves: 0, slave_list: Vec::new() }
    }
}

/// The label of a player `mode`: known codes by name, the rest as `mode <n>`
/// (an unseen firmware still tells the user something, and the number is the
/// bug report).
pub open spec fn mode_label(mode: u32) -> Seq<char> {
    if mode == 0 {
        "idle"@
    } else if mode == 1 {
        "airplay"@
    } else if mode == 2 {
        "dlna"@
    } else if mode == 10 {
        "network"@
    } else if mode == 11 {
        "usb"@
    } else if mode == 31 {
        "spotify"@
    } else if mode == 40 {
        "line-in"@
    } else if mode == 41 {
        "bluetooth"@
    } else if mode == 43 {
        "optical"@
    } else if mode == 47 {
        "line-in2"@
    } else if mode == 51 {
        "usb-dac"@
    } else if mode == 99 {
        "follower"@
    } else {
        "mode "@ + dec(mode as nat)
    }
}

/// Human label for a `getPlayerStatus.mode`.
pub fn source_label(mode: u32) -> (r: String)
    ensures
        r@ == mode_label(mode),
{
    match mode {
        0 => owned("idle"),
        1 => owned("airplay"),
        2 => owned("dlna"),
        10 => owned("network"),
        11 => owned("usb"),
        31 => owned("spotify"),
        40 => owned("line-in"),
        41 => owned("bluetooth"),
        43 => owned("optical"),
        47 => owned("line-in2"),
        51 => owned("usb-dac"),
        99 => owned("follower"),
        n => {
            let mut r = owned("mode ");
            push_dec(&mut r, n as u64);
            r
        },
    }
}

/// Blank (or the zero address) means "unset" on this API far more often than
/// it means "".
pub open spec fn unset_or(s: Seq<char>) -> Option<Seq<char>> {
    let t = trim(s);
    if t.len() == 0 || t == "0.0.0.0"@ {
        None
    } else {
        Some(t)
    }
}

/// The trimmed text, or `None` when it is blank or `0.0.0.0`.
pub fn blank_to_none(s: &str) -> (r: Option<String>)
    ensures
        opt_view(r) == unset_or(s@),
{
    let t = trimmed(s);
    if t.as_str().unicode_len() == 0 || same_text(t.as_str(), "0.0.0.0") {
        None
    } else {
        Some(t)
    }
}

/// Group role, derived from `getStatusEx` and `getSlaveList`.
#[derive(Debug, Clone, PartialEq, Eq)]
pub enum DeviceRole {
    Master { slave_uuids: Vec<String> },
    Slave { master_uuid: Option<String>, master_ip: Option<String> },
    Solo,
}

/// The role in plain values: a master's member ids, a follower's master.
pub ghost enum RoleView {
    Master(Seq<Seq<char>>),
    Slave(Option<Seq<char>>, Option<Seq<char>>),
    Solo,
}

pub open spec fn role_view(r: DeviceRole) -> RoleView {
    match r {
        DeviceRole::Master { slave_uuids } => RoleView::Master(
            slave_uuids@.map_values(|s: String| s@),
        ),
        DeviceRole::Slave { master_uuid, master_ip } => RoleView::Slave(
            opt_view(master_uuid),
            opt_view(master_ip),
        ),
        DeviceRole::Solo => RoleView::Solo,
    }
}

/// A member's id: its uuid, else its ip.
pub open spec fn member_id(e: SlaveEntry) -> Seq<char> {
    if e.uuid@.len() == 0 {
        e.ip@
    } else {
        e.uuid@
    }
}

/// The non-empty ids of the listed members, in order.
pub open spec fn member_ids(list: Seq<SlaveEntry>) -> Seq<Seq<char>>
    decreases list.len(),
{
    if list.len() == 0 {
        Seq::empty()
    } else {
        let rest = member_ids(list.drop_last());
        if member_id(list.last()).len() == 0 {
            rest
        } else {
            rest.push(member_id(list.last()))
        }
    }
}

/// The group role. Following someone beats being followed (a just-kicked
/// firmware can briefly report a stale member list while `group` and
/// `master_ip` are already right); player mode 99 ("follower") is the last
/// resort, telling only *that* the device follows, not whom.
pub open spec fn role_of(status: StatusEx, slaves: Option<SlaveList>, player_mode: Option<u32>) -> RoleView {
    let mip = unset_or(status.master_ip@);
    let muuid = unset_or(status.master_uuid@);
    if status.group == 1 || mip is Some {
        RoleView::Slave(muuid, mip)
    } else if slaves matches Some(list) && (list.slaves > 0 || list.slave_list@.len() > 0) {
        RoleView::Master(member_ids(slaves.unwrap().slave_list@))
    } else if player_mode == Some(99u32) {
        RoleView::Slave(muuid, mip)
    } else {
        RoleView::Solo
    }
}

fn member_id_string(e: &SlaveEntry) -> (r: String)
    ensures
        r@ == member_id(*e),
{
    if e.uuid.as_str().unicode_len() == 0 {
        e.ip.clone()
    } else {
        e.uuid.clone()
    }
}

fn collect_member_ids(list: &Vec<SlaveEntry>) -> (r: Vec<String>)
    ensures
        r@.map_values(|s: String| s@) == member_ids(list@),
{
    let mut out: Vec<String> = Vec::new();
    let mut i: usize = 0;
    while i < list.len()
        invariant
            i <= list@.len(),
            out@.map_values(|s: String| s@) == member_ids(list@.take(i as int)),
        decreases list@.len() - i,
    {
        assert(list@.take(i + 1).drop_last() =~= list@.take(i as int));
        let id = member_id_string(&list[i]);
        if id.as_str().unicode_len() > 0 {
            let ghost before = out@;
            out.push(id);
            assert(out@.map_values(|s: String| s@) =~= before.map_values(|s: String| s@).push(
                member_id(list@[i as int]),
            ));
        }
        i = i + 1;
    }
    assert(list@.take(i as int) =~= list@);
    out
}


/// Derive the group role from a poll round.
pub fn derive_role(status: &StatusEx, slaves: Option<&SlaveList>, player_mode: Option<u32>) -> (r:
    DeviceRole)
    ensures
        role_view(r) == role_of(
            *status,
            match slaves {
                Some(l) => Some(*l),
                None => None,
            },
            player_mode,
        ),
{
    let master_ip = blank_to_none(status.master_ip.as_str());
    let master_uuid = blank_to_none(status.master_uuid.as_str());
    if status.group == 1 || master_ip.is_some() {
        return DeviceRole::Slave { master_uuid, master_ip };
    }
    if let Some(list) = slaves {
        if list.slaves > 0 || list.slave_list.len() > 0 {
            let slave_uuids = collect_member_ids(&list.slave_list);
            return DeviceRole::Master { slave_uuids };
        }
    }
    if player_mode == Some(99u32) {
        return DeviceRole::Slave { master_uuid, master_ip };
    }
    DeviceRole::Solo
}

/// Playback state as the UI wants it.
#[derive(Debug, Clone, PartialEq, Eq)]
pub struct PlayerInfo {
    pub status: String,
    /// Raw `mode` code, kept for the debug pane.
    pub mode: u32,
    /// Label for `mode`.
    pub source: String,
    pub vol: u8,
    pub mute: bool,
    pub curpos: u64,
    pub totlen: u64,
    pub title: String,
    pub artist: String,
    pub album: String,
}

impl PlayerInfo {
    /// The UI shape of a player status: every field carried over, plus the
    /// mode's label.
    pub fn from(p: &PlayerStatus) -> (r: Self)
        ensures
            r.status@ == p.status@,
            r.mode == p.mode,
            r.source@ == mode_label(p.mode),
            r.vol == p.vol,
            r.mute == p.mute,
            r.curpos == p.curpos,
            r.totlen == p.totlen,
            r.title@ == p.title@,
            r.artist@ == p.artist@,
            r.album@ == p.album@,
    {
        PlayerInfo {
            status: p.status.clone(),
            mode: p.mode,
            source: source_label(p.mode),
            vol: p.vol,
            mute: p.mute,
            curpos: p.curpos,
            totlen: p.totlen,
            title: p.title.clone(),
            artist: p.artist.clone(),
            album: p.album.clone(),
        }
    }
}

/// A group member as listed by the master.
#[derive(Debug, Clone, PartialEq, Eq)]
pub struct SlaveInfo {
    pub uuid: String,
    pub name: String,
    pub ip: String,
    pub volume: u8,
    pub mute: bool,
}

/// The member as the UI shows it.
pub open spec fn slave_info_of(s: SlaveEntry, i: SlaveInfo) -> bool {
    &&& i.uuid@ == s.uuid@
    &&& i.name@ == s.name@
    &&& i.ip@ == s.ip@
    &&& i.volume == s.volume
    &&& i.mute == s.mute
}

impl SlaveInfo {
    /// The UI shape of a listed member.
    pub fn from(s: &SlaveEntry) -> (r: Self)
        ensures
            slave_info_of(*s, r),
    {
        SlaveInfo {
            uuid: s.uuid.clone(),
            name: s.name.clone(),
            ip: s.ip.clone(),
            volume: s.volume,
            mute: s.mute,
        }
    }
}

fn slave_infos(list: &Vec<SlaveEntry>) -> (r: Vec<SlaveInfo>)
    ensures
        r@.len() == list@.len(),
        forall|i: int| 0 <= i < list@.len() ==> slave_info_of(list@[i], #[trigger] r@[i]),
{
    let mut out: Vec<SlaveInfo> = Vec::new();
    let mut i: usize = 0;
    while i < list.len()
        invariant
            i <= list@.len(),
            out@.len() == i,
            forall|k: int| 0 <= k < i ==> slave_info_of(list@[k], #[trigger] out@[k]),
        decreases list@.len() - i,
    {
        out.push(SlaveInfo::from(&list[i]));
        i = i + 1;
    }
    out
}

/// The per-device state the frontend renders and the poller diffs.
#[derive(Debug, Clone, PartialEq, Eq)]
pub struct DeviceSnapshot {
    pub uuid: String,
    pub ip: String,
    /// Name reported by the device itself.
    pub name: String,
    /// Local override; `None` means "use the device's own name".
    pub alias: Option<String>,
    /// What the UI prints: alias, else device name, else the IP.
    pub display_name: String,
    pub online: bool,
    pub role: DeviceRole,
    pub group_name: String,
    pub firmware: String,
    pub hardware: String,
    pub project: String,
    pub mcu_ver: String,
    pub rssi: Option<i32>,
    pub ssid: String,
    /// Absent while the device is idle, a follower, or offline.
    pub player: Option<PlayerInfo>,
    pub slaves: Vec<SlaveInfo>,
    /// Unix ms of the last successful poll; `None` if never reached.
    pub last_seen: Option<i64>,
}

impl DeviceSnapshot {
    /// The offline placeholder for a saved device not reached yet: what a cold
    /// start lists so the list renders immediately.
    pub fn offline(uuid: &str, ip: &str, alias: Option<String>, last_seen: Option<i64>) -> (r:
        Self)
        ensures
            r.uuid@ == uuid@,
            r.ip@ == ip@,
            r.name@.len() == 0,
            r.display_name@ == display_name_spec(opt_view(alias), Seq::empty(), ip@),
            opt_view(r.alias) == opt_view(alias),
            !r.online,
            r.role is Solo,
            r.group_name@.len() == 0,
            r.firmware@.len() == 0,
            r.hardware@.len() == 0,
            r.project@.len() == 0,
            r.mcu_ver@.len() == 0,
            r.rssi is None,
            r.ssid@.len() == 0,
            r.player is None,
            r.slaves@.len() == 0,
            r.last_seen == last_seen,
    {
        let display_name = display_name_of(&alias, "", ip);
        proof {
            reveal_strlit("");
            assert(""@ =~= Seq::<char>::empty());
        }
        DeviceSnapshot {
            uuid: owned(uuid),
            ip: owned(ip),
            name: String::new(),
            display_name,
            alias,
            online: false,
            role: DeviceRole::Solo,
            group_name: String::new(),
            firmware: String::new(),
            hardware: String::new(),
            project: String::new(),
            mcu_ver: String::new(),
            rssi: None,
            ssid: String::new(),
            player: None,
            slaves: Vec::new(),
            last_seen,
        }
    }

    /// A live snapshot from one poll round.
    pub fn build(
        ip: &str,
        alias: Option<String>,
        status: &StatusEx,
        player: Option<&PlayerStatus>,
        slaves: Option<&SlaveList>,
        last_seen: i64,
    ) -> (r: Self)
        ensures
            r.uuid@ == status.uuid@,
            r.ip@ == ip@,
            r.name@ == status.device_name@,
            r.display_name@ == display_name_spec(opt_view(alias), status.device_name@, ip@),
            opt_view(r.alias) == opt_view(alias),
            r.online,
            role_view(r.role) == role_of(
                *status,
                match slaves {
                    Some(l) => Some(*l),
                    None => None,
                },
                match player {
                    Some(p) => Some(p.mode),
                    None => None,
                },
            ),
            r.group_name@ == status.group_name@,
            r.firmware@ == status.firmware@,
            r.hardware@ == status.hardware@,
            r.project@ == status.project@,
            r.mcu_ver@ == status.mcu_ver@,
            r.rssi == status.rssi,
            r.ssid@ == if status.ssid@.len() == 0 {
                status.essid@
            } else {
                status.ssid@
            },
            match player {
                Some(p) => r.player matches Some(i) && i.status@ == p.status@ && i.mode == p.mode
                    && i.source@ == mode_label(p.mode) && i.vol == p.vol && i.mute == p.mute
                    && i.curpos == p.curpos && i.totlen == p.totlen && i.title@ == p.title@
                    && i.artist@ == p.artist@ && i.album@ == p.album@,
                None => r.player is None,
            },
            match slaves {
                Some(l) => r.slaves@.len() == l.slave_list@.len() && forall|i: int|
                    0 <= i < l.slave_list@.len() ==> slave_info_of(
                        l.slave_list@[i],
                        #[trigger] r.slaves@[i],
                    ),
                None => r.slaves@.len() == 0,
            },
            r.last_seen == Some(last_seen),
    {
        let mode = match player {
            Some(p) => Some(p.mode),
            None => None,
        };
        let role = derive_role(status, slaves, mode);
        let display_name = display_name_of(&alias, status.device_name.as_str(), ip);
        let ssid = if status.ssid.as_str().unicode_len() == 0 {
            status.essid.clone()
        } else {
            status.ssid.clone()
        };
        let player_info = match player {
            Some(p) => Some(PlayerInfo::from(p)),
            None => None,
        };
        let slave_list = match slaves {
            Some(l) => slave_infos(&l.slave_list),
            None => Vec::new(),
        };
        DeviceSnapshot {
            uuid: status.uuid.clone(),
            ip: owned(ip),
            name: status.device_name.clone(),
            display_name,
            alias,
            online: true,
            role,
            group_name: status.group_name.clone(),
            firmware: status.firmware.clone(),
            hardware: status.hardware.clone(),
            project: status.project.clone(),
            mcu_ver: status.mcu_ver.clone(),
            rssi: status.rssi,
            ssid,
            player: player_info,
            slaves: slave_list,
            last_seen: Some(last_seen),
        }
    }

    /// Mark a known snapshot unreachable, keeping the identity fields so the
    /// card does not blank out when a device drops off.
    pub fn mark_offline(&mut self)
        ensures
            !final(self).online,
            final(self).player is None,
            final(self).slaves@.len() == 0,
            final(self).role is Solo,
            final(self).uuid == old(self).uuid,
            final(self).ip == old(self).ip,
            final(self).name == old(self).name,
            final(self).alias == old(self).alias,
            final(self).display_name == old(self).display_name,
            final(self).group_name == old(self).group_name,
            final(self).firmware == old(self).firmware,
            final(self).hardware == old(self).hardware,
            final(self).project == old(self).project,
            final(self).mcu_ver == old(self).mcu_ver,
            final(self).rssi == old(self).rssi,
            final(self).ssid == old(self).ssid,
            final(self).last_seen == old(self).last_seen,
    {
        self.online = false;
        self.player = None;
        self.slaves.clear();
        self.role = DeviceRole::Solo;
    }
}

/// Following someone beats being followed: a device that reports a master
/// (the group flag, or a master address) is a follower whatever member list
/// and player mode come with it.
pub proof fn law_following_beats_member_list(
    status: StatusEx,
    slaves: Option<SlaveList>,
    player_mode: Option<u32>,
)
    requires
        status.group == 1 || unset_or(status.master_ip@) is Some,
    ensures
        role_of(status, slaves, player_mode) == RoleView::Slave(
            unset_or(status.master_uuid@),
            unset_or(status.master_ip@),
        ),
{
}

} // verus!
