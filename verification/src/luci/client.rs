//! What the Luci connection decides about its traffic: the ports and
//! timeouts it uses, what a correlated reply amounts to, and whether an
//! uncorrelated frame is a device push worth forwarding. The TLS socket, the
//! reader task and the waiters are the application's.

use vstd::prelude::*;

use super::codec::Frame;
use super::messagebox::MessageBox;
use crate::error::AppError;
use crate::text::{dec, owned, push_dec};

verus! {

/// The Luci TLS port.
pub const LUCI_PORT: u16 = 7777;
/// Seconds a request waits for its correlated reply.
pub const REQUEST_TIMEOUT_SECS: u64 = 3;
/// Seconds the TCP connect and the TLS handshake may each take.
pub const CONNECT_TIMEOUT_SECS: u64 = 4;
/// Depth of the device-push channel.
pub const EVENT_CHANNEL_CAPACITY: usize = 64;

/// The answer to a request: the reply's payload when its status is 1 (OK),
/// else a device error naming the command and the status.
pub fn reply_payload(ip: &str, command: u16, reply: Frame) -> (r: Result<String, AppError>)
    ensures
        reply.status == 1 ==> (r matches Ok(p) && p@ == reply.payload@),
        reply.status != 1 ==> (r matches Err(AppError::Device(m)) && m@ == ip@ + " rejected command "@
            + dec(command as nat) + " (status "@ + dec(reply.status as nat) + ")."@),
{
    if reply.status == 1 {
        Ok(reply.payload)
    } else {
        let mut m = owned(ip);
        m.append(" rejected command ");
        push_dec(&mut m, command as u64);
        m.append(" (status ");
        push_dec(&mut m, reply.status as u64);
        m.append(").");
        Err(AppError::Device(m))
    }
}

/// A frame no waiter claimed is forwarded as a device push when its command
/// is a known `MessageBox`; unknown commands are dropped.
pub fn push_event(frame: Frame) -> (r: Option<(MessageBox, u8, String)>)
    ensures
        match MessageBox::spec_from_id(frame.command) {
            Some(mb) => r matches Some((b, s, p)) && b == mb && s == frame.status && p@
                == frame.payload@,
            None => r is None,
        },
{
    match MessageBox::try_from(frame.command) {
        Ok(mb) => Some((mb, frame.status, frame.payload)),
        Err(_) => None,
    }
}

} // verus!
