//! Which LAN this machine is on, as the sweep needs it: the /24 around the
//! local address. Finding the local address is the application's.

use vstd::prelude::*;

use crate::text::{dec, push_dec};

verus! {

/// `a.b.c.0/24` for the address `a.b.c.d`.
pub open spec fn cidr24_text(o: [u8; 4]) -> Seq<char> {
    dec(o[0] as nat) + "."@ + dec(o[1] as nat) + "."@ + dec(o[2] as nat) + ".0/24"@
}

/// The /24 the address with these octets sits in, in CIDR form. A /24 is the
/// pragmatic assumption for a home LAN: 254 probes is a fast sweep.
pub fn derive_cidr24(octets: [u8; 4]) -> (r: String)
    ensures
        r@ == cidr24_text(octets),
{
    let mut r = String::new();
    push_dec(&mut r, octets[0] as u64);
    r.append(".");
    push_dec(&mut r, octets[1] as u64);
    r.append(".");
    push_dec(&mut r, octets[2] as u64);
    r.append(".0/24");
    proof {
        assert(Seq::<char>::empty() + dec(octets[0] as nat) =~= dec(octets[0] as nat));
    }
    r
}

} // verus!
