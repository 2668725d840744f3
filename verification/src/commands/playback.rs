//! Per-device playback control: the payloads volume, mute and transport
//! commands send. Transport prefers UPnP AVTransport and falls back to the
//! vendor `PLAYCNTRL` with the verb as an uppercase payload.

use vstd::prelude::*;

use crate::error::AppError;
use crate::text::{dec, owned, push_dec};
use crate::upnp::{transport_of, Transport};

verus! {

/// The uppercase verb `PLAYCNTRL` takes for each transport action.
pub open spec fn playcntrl_text(t: Transport) -> Seq<char> {
    match t {
        Transport::Play => "PLAY"@,
        Transport::Pause => "PAUSE"@,
        Transport::Next => "NEXT"@,
        Transport::Previous => "PREV"@,
        Transport::Stop => "STOP"@,
    }
}

/// The uppercase ASCII verb the vendor `PLAYCNTRL` takes for a transport
/// action.
pub fn playcntrl_verb(t: Transport) -> (r: &'static str)
    ensures
        r@ == playcntrl_text(t),
{
    match t {
        Transport::Play => "PLAY",
        Transport::Pause => "PAUSE",
        Transport::Next => "NEXT",
        Transport::Previous => "PREV",
        Transport::Stop => "STOP",
    }
}

/// The transport a frontend command names, or the invalid-input error that
/// quotes it.
pub fn transport_command(cmd: &str) -> (r: Result<Transport, AppError>)
    ensures
        match transport_of(cmd@) {
            Some(t) => r == Ok::<Transport, AppError>(t),
            None => r matches Err(AppError::InvalidInput(m)) && m@ == "Unknown transport command \u{201c}"@
                + cmd@ + "\u{201d}."@,
        },
{
    match Transport::parse(cmd) {
        Some(t) => Ok(t),
        None => {
            let mut m = owned("Unknown transport command \u{201c}");
            m.append(cmd);
            m.append("\u{201d}.");
            Err(AppError::InvalidInput(m))
        },
    }
}

/// The `VOLUME` payload: the level clamped to 0..=100, in decimal.
pub fn volume_payload(vol: u8) -> (r: String)
    ensures
        r@ == dec(if vol <= 100 {
            vol as nat
        } else {
            100
        }),
{
    let v: u64 = if vol <= 100 {
        vol as u64
    } else {
        100
    };
    let mut r = String::new();
    push_dec(&mut r, v);
    assert(Seq::<char>::empty() + dec(v as nat) =~= dec(v as nat));
    r
}

/// The `Mute_Unmute` payload.
pub fn mute_payload(mute: bool) -> (r: &'static str)
    ensures
        r@ == if mute {
            "MUTE"@
        } else {
            "UNMUTE"@
        },
{
    if mute {
        "MUTE"
    } else {
        "UNMUTE"
    }
}

} // verus!
