//! PCM serialisation for the capture sink: decoded interleaved `i16` samples
//! become true little-endian s16le bytes regardless of host endianness, the
//! exact geometry the RAOP pipeline takes.

use vstd::prelude::*;

verus! {

/// The sample as the unsigned 16-bit pattern it is stored as.
pub open spec fn bits16(s: i16) -> int {
    if s < 0 {
        s + 65536
    } else {
        s as int
    }
}

/// Serialise interleaved `i16` samples as little-endian bytes (s16le): two
/// bytes per sample, low byte first.
pub fn s16_to_le_bytes(samples: &[i16]) -> (r: Vec<u8>)
    requires
        samples@.len() * 2 <= usize::MAX,
    ensures
        r@.len() == samples@.len() * 2,
        forall|i: int|
            0 <= i < samples@.len() ==> r@[2 * i] == bits16(#[trigger] samples@[i]) % 256 && r@[2
                * i + 1] == bits16(samples@[i]) / 256,
{
    let mut out: Vec<u8> = Vec::with_capacity(samples.len() * 2);
    let mut k: usize = 0;
    while k < samples.len()
        invariant
            k <= samples@.len(),
            out@.len() == 2 * k,
            forall|i: int|
                0 <= i < k ==> out@[2 * i] == bits16(#[trigger] samples@[i]) % 256 && out@[2 * i
                    + 1] == bits16(samples@[i]) / 256,
        decreases samples@.len() - k,
    {
        let s = samples[k];
        let u: u16 = if s < 0 {
            ((s as i32) + 65536) as u16
        } else {
            s as u16
        };
        out.push((u % 256) as u8);
        out.push((u / 256) as u8);
        k = k + 1;
    }
    out
}

} // verus!
