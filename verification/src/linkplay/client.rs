//! The typed Linkplay commands. Every piece of command syntax lives in
//! [`LinkplayCommand::to_query`], one place to fix when a firmware wants
//! something slightly different; the HTTP transport around it is the
//! application's.

use vstd::prelude::*;
use vstd::utf8::encode_utf8;

use crate::error::AppError;
use crate::text::{dec, eq_ignore_ascii_case, eq_ignore_case, owned, push_char, push_dec, trim, trimmed};

verus! {

/// Per-request timeout in seconds: one dead device never stalls a polling
/// cycle.
pub const DEFAULT_TIMEOUT_SECS: u64 = 2;

/// Delays (ms) after each failed attempt of a state-changing command; no
/// delay follows the last attempt.
pub const RETRY_BACKOFF_MS: [u64; 3] = [200, 600, 1400];

/// Which join syntax to send: firmware generations disagree, so the choice is
/// explicit rather than hidden in a string.
#[derive(Debug, Clone, PartialEq, Eq)]
pub enum JoinVariant {
    /// The canonical form, sent to the follower.
    Eth,
    /// The same payload under the `multiroom:` namespace (newer builds).
    MultiroomEth,
    /// The legacy SoftAP form, carrying the master's hex-encoded SSID.
    LegacySsid { ssid_hex: String },
}

/// Transport controls.
#[derive(Debug, Clone, Copy, PartialEq, Eq, Structural)]
pub enum TransportCmd {
    Pause,
    Resume,
    /// Play/pause toggle.
    OnePause,
    Stop,
    Prev,
    Next,
}

pub open spec fn transport_word(t: TransportCmd) -> Seq<char> {
    match t {
        TransportCmd::Pause => "pause"@,
        TransportCmd::Resume => "resume"@,
        TransportCmd::OnePause => "onepause"@,
        TransportCmd::Stop => "stop"@,
        TransportCmd::Prev => "prev"@,
        TransportCmd::Next => "next"@,
    }
}

impl TransportCmd {
    /// The verb the player command takes.
    pub fn as_str(self) -> (r: &'static str)
        ensures
            r@ == transport_word(self),
    {
        match self {
            TransportCmd::Pause => "pause",
            TransportCmd::Resume => "resume",
            TransportCmd::OnePause => "onepause",
            TransportCmd::Stop => "stop",
            TransportCmd::Prev => "prev",
            TransportCmd::Next => "next",
        }
    }
}

/// The complete set of device commands the app knows how to send.
#[derive(Debug, Clone, PartialEq, Eq)]
pub enum LinkplayCommand {
    GetStatusEx,
    GetPlayerStatus,
    GetSlaveList,
    /// Sent to the follower that should join `master_ip`.
    JoinGroup { master_ip: String, variant: JoinVariant },
    /// Leave (on a follower) or dissolve (on a master).
    Ungroup,
    /// Sent to the master to eject one member.
    KickSlave { slave_ip: String },
    SlaveVolume { slave_ip: String, vol: u8 },
    SlaveMute { slave_ip: String, mute: bool },
    SetVolume(u8),
    SetMute(bool),
    Transport(TransportCmd),
    /// Absolute position, in seconds.
    Seek(u32),
    SetDeviceName(String),
}

/// The uppercase hex digit of a nibble.
pub open spec fn hex_upper(n: int) -> char {
    if n < 10 {
        (n + 48) as char
    } else {
        (n + 55) as char
    }
}

/// `%XX` for one byte, uppercase hex.
pub open spec fn pct_byte(b: u8) -> Seq<char> {
    seq!['%', hex_upper((b / 16) as int), hex_upper((b % 16) as int)]
}

/// The bytes a device name keeps as they are: ASCII letters, digits and the
/// unreserved `-`, `_`, `.`, `~`. Every other byte, non-ASCII ones included,
/// is percent-encoded.
pub open spec fn name_keeps(b: u8) -> bool {
    ||| (0x30 <= b <= 0x39)
    ||| (0x41 <= b <= 0x5a)
    ||| (0x61 <= b <= 0x7a)
    ||| b == 0x2d
    ||| b == 0x5f
    ||| b == 0x2e
    ||| b == 0x7e
}

/// The percent-encoded form of a name's UTF-8 bytes.
pub open spec fn name_encoded(bs: Seq<u8>) -> Seq<char>
    decreases bs.len(),
{
    if bs.len() == 0 {
        Seq::empty()
    } else {
        name_encoded(bs.drop_last()) + if name_keeps(bs.last()) {
            seq![bs.last() as char]
        } else {
            pct_byte(bs.last())
        }
    }
}

/// `0` or `1`, as the API spells a flag.
pub open spec fn flag_text(b: bool) -> Seq<char> {
    if b {
        "1"@
    } else {
        "0"@
    }
}

/// A volume clamped to the API's 0..=100.
pub open spec fn vol_text(v: u8) -> Seq<char> {
    dec(if v <= 100 {
        v as nat
    } else {
        100
    })
}

/// The `command=` value of each command.
pub open spec fn query_text(c: LinkplayCommand) -> Seq<char> {
    match c {
        LinkplayCommand::GetStatusEx => "getStatusEx"@,
        LinkplayCommand::GetPlayerStatus => "getPlayerStatus"@,
        LinkplayCommand::GetSlaveList => "multiroom:getSlaveList"@,
        LinkplayCommand::JoinGroup { master_ip, variant } => match variant {
            JoinVariant::Eth => "ConnectMasterAp:JoinGroupMaster:eth"@ + master_ip@
                + ":wifi0.0.0.0"@,
            JoinVariant::MultiroomEth => "multiroom:JoinGroupMaster:eth"@ + master_ip@
                + ":wifi0.0.0.0"@,
            JoinVariant::LegacySsid { ssid_hex } => "ConnectMasterAp:ssid="@ + ssid_hex@
                + ":ch=0:auth=OPEN:encry=NONE:pwd=:chext=0"@,
        },
        LinkplayCommand::Ungroup => "multiroom:Ungroup"@,
        LinkplayCommand::KickSlave { slave_ip } => "multiroom:SlaveKickout:"@ + slave_ip@,
        LinkplayCommand::SlaveVolume { slave_ip, vol } => "multiroom:SlaveVolume:"@ + slave_ip@
            + ":"@ + vol_text(vol),
        LinkplayCommand::SlaveMute { slave_ip, mute } => "multiroom:SlaveMute:"@ + slave_ip@
            + ":"@ + flag_text(mute),
        LinkplayCommand::SetVolume(vol) => "setPlayerCmd:vol:"@ + vol_text(vol),
        LinkplayCommand::SetMute(mute) => "setPlayerCmd:mute:"@ + flag_text(mute),
        LinkplayCommand::Transport(cmd) => "setPlayerCmd:"@ + transport_word(cmd),
        LinkplayCommand::Seek(secs) => "setPlayerCmd:seek:"@ + dec(secs as nat),
        LinkplayCommand::SetDeviceName(name) => "setDeviceName:"@ + name_encoded(
            encode_utf8(name@),
        ),
    }
}

/// `percent_encoding::percent_encode_byte`: `%` and the byte's two hex
/// digits, uppercase, as its table shows.
#[verifier::external_body]
fn percent_encode_byte(b: u8) -> (r: &'static str)
    ensures
        r@ == pct_byte(b),
{
    percent_encoding::percent_encode_byte(b)
}

fn push_vol(out: &mut String, vol: u8)
    ensures
        final(out)@ == old(out)@ + vol_text(vol),
{
    let v: u64 = if vol <= 100 {
        vol as u64
    } else {
        100
    };
    push_dec(out, v);
}

fn push_flag(out: &mut String, b: bool)
    ensures
        final(out)@ == old(out)@ + flag_text(b),
{
    if b {
        out.append("1");
    } else {
        out.append("0");
    }
}

fn push_name_encoded(out: &mut String, name: &str)
    ensures
        final(out)@ == old(out)@ + name_encoded(encode_utf8(name@)),
{
    let bytes = name.as_bytes();
    let ghost out0 = out@;
    let mut i: usize = 0;
    while i < bytes.len()
        invariant
            i <= bytes@.len(),
            bytes@ == encode_utf8(name@),
            out@ == out0 + name_encoded(bytes@.take(i as int)),
        decreases bytes@.len() - i,
    {
        let b = bytes[i];
        proof {
            assert(bytes@.take(i + 1).drop_last() =~= bytes@.take(i as int));
            assert(bytes@.take(i + 1).last() == b);
        }
        let keep = (0x30 <= b && b <= 0x39) || (0x41 <= b && b <= 0x5a) || (0x61 <= b && b
            <= 0x7a) || b == 0x2d || b == 0x5f || b == 0x2e || b == 0x7e;
        if keep {
            push_char(out, b as char);
        } else {
            out.append(percent_encode_byte(b));
        }
        proof {
            assert(out@ =~= out0 + name_encoded(bytes@.take(i + 1)));
        }
        i = i + 1;
    }
    assert(bytes@.take(i as int) =~= bytes@);
}

impl LinkplayCommand {
    /// The `command=` value: the single place Linkplay syntax is written.
    pub fn to_query(&self) -> (r: String)
        ensures
            r@ == query_text(*self),
    {
        match self {
            LinkplayCommand::GetStatusEx => owned("getStatusEx"),
            LinkplayCommand::GetPlayerStatus => owned("getPlayerStatus"),
            LinkplayCommand::GetSlaveList => owned("multiroom:getSlaveList"),
            LinkplayCommand::JoinGroup { master_ip, variant } => match variant {
                JoinVariant::Eth => {
                    let mut r = owned("ConnectMasterAp:JoinGroupMaster:eth");
                    r.append(master_ip.as_str());
                    r.append(":wifi0.0.0.0");
                    r
                },
                JoinVariant::MultiroomEth => {
                    let mut r = owned("multiroom:JoinGroupMaster:eth");
                    r.append(master_ip.as_str());
                    r.append(":wifi0.0.0.0");
                    r
                },
                JoinVariant::LegacySsid { ssid_hex } => {
                    let mut r = owned("ConnectMasterAp:ssid=");
                    r.append(ssid_hex.as_str());
                    r.append(":ch=0:auth=OPEN:encry=NONE:pwd=:chext=0");
                    r
                },
            },
            LinkplayCommand::Ungroup => owned("multiroom:Ungroup"),
            LinkplayCommand::KickSlave { slave_ip } => {
                let mut r = owned("multiroom:SlaveKickout:");
                r.append(slave_ip.as_str());
                r
            },
            LinkplayCommand::SlaveVolume { slave_ip, vol } => {
                let mut r = owned("multiroom:SlaveVolume:");
                r.append(slave_ip.as_str());
                r.append(":");
                push_vol(&mut r, *vol);
                r
            },
            LinkplayCommand::SlaveMute { slave_ip, mute } => {
                let mut r = owned("multiroom:SlaveMute:");
                r.append(slave_ip.as_str());
                r.append(":");
                push_flag(&mut r, *mute);
                r
            },
            LinkplayCommand::SetVolume(vol) => {
                let mut r = owned("setPlayerCmd:vol:");
                push_vol(&mut r, *vol);
                r
            },
            LinkplayCommand::SetMute(mute) => {
                let mut r = owned("setPlayerCmd:mute:");
                push_flag(&mut r, *mute);
                r
            },
            LinkplayCommand::Transport(cmd) => {
                let mut r = owned("setPlayerCmd:");
                r.append(cmd.as_str());
                r
            },
            LinkplayCommand::Seek(secs) => {
                let mut r = owned("setPlayerCmd:seek:");
                push_dec(&mut r, *secs as u64);
                r
            },
            LinkplayCommand::SetDeviceName(name) => {
                let mut r = owned("setDeviceName:");
                push_name_encoded(&mut r, name.as_str());
                r
            },
        }
    }
}

/// What a reply to a command whose only valid answer is `OK` amounts to: `OK`
/// (trimmed, any case) is success; anything else is a device error quoting
/// the command and the reply.
pub fn expect_ok(ip: &str, query: &str, body: &str) -> (r: Result<(), AppError>)
    ensures
        eq_ignore_case(trim(body@), "OK"@) ==> r is Ok,
        !eq_ignore_case(trim(body@), "OK"@) ==> (r matches Err(AppError::Device(m)) && m@ == ip@
            + " rejected `"@ + query@ + "`: "@ + trim(body@)),
{
    let t = trimmed(body);
    if eq_ignore_ascii_case(t.as_str(), "OK") {
        Ok(())
    } else {
        let mut m = owned(ip);
        m.append(" rejected `");
        m.append(query);
        m.append("`: ");
        m.append(t.as_str());
        Err(AppError::Device(m))
    }
}

/// The pause (ms) after failed attempt `attempt` (counting from 0) of a
/// retried command, or `None` after the last attempt.
pub fn retry_delay_ms(attempt: usize) -> (r: Option<u64>)
    ensures
        attempt + 1 < 3 ==> r == Some(RETRY_BACKOFF_MS@[attempt as int]),
        attempt + 1 >= 3 ==> r is None,
{
    if attempt < RETRY_BACKOFF_MS.len() - 1 {
        Some(RETRY_BACKOFF_MS[attempt])
    } else {
        None
    }
}

} // verus!
