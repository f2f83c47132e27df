use byteorder::{ByteOrder, LittleEndian};
use vstd::prelude::*;

verus! {

/// The least significant byte of `n`'s two's complement form.
pub open spec fn low_byte(n: i16) -> u8 {
    ((n as int) % 256) as u8
}

/// The most significant byte of `n`'s two's complement form.
pub open spec fn high_byte(n: i16) -> u8 {
    ((n as int) / 256 % 256) as u8
}

/// Relies on byteorder's `LittleEndian::write_i16`: the two bytes of `n`,
/// least significant first.
#[verifier::external_body]
fn le_bytes(n: i16) -> (r: [u8; 2])
    ensures
        r@[0] == low_byte(n),
        r@[1] == high_byte(n),
{
    let mut b = [0u8, 0u8];
    LittleEndian::write_i16(&mut b, n);
    b
}

/// Raw headerless PCM: each sample as a 16-bit little-endian integer.
pub fn encode_pcm(samples: &Vec<i16>) -> (r: Vec<u8>)
    requires
        2 * samples@.len() <= usize::MAX,
    ensures
        r@.len() == 2 * samples@.len(),
        forall|i: int|
            0 <= i < samples@.len() ==> {
                &&& r@[2 * i] == low_byte(#[trigger] samples@[i])
                &&& r@[2 * i + 1] == high_byte(samples@[i])
            },
{
    let mut out: Vec<u8> = Vec::new();
    let mut i: usize = 0;
    while i < samples.len()
        invariant
            i <= samples@.len(),
            out@.len() == 2 * i,
            forall|m: int|
                0 <= m < i ==> {
                    &&& out@[2 * m] == low_byte(#[trigger] samples@[m])
                    &&& out@[2 * m + 1] == high_byte(samples@[m])
                },
        decreases samples@.len() - i,
    {
        let b = le_bytes(samples[i]);
        out.push(b[0]);
        out.push(b[1]);
        i = i + 1;
    }
    out
}

} // verus!
