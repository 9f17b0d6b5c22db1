//! One-byte modular sum carried as the trailer of every sensor frame.
use vstd::prelude::*;

verus! {

/// Arithmetic sum of the bytes, read as unsigned 8-bit integers.
pub open spec fn byte_sum(s: Seq<u8>) -> int
    decreases s.len(),
{
    if s.len() == 0 {
        0
    } else {
        byte_sum(s.drop_last()) + s.last() as int
    }
}

/// The checksum of `s`: the low eight bits of its byte sum.
pub open spec fn checksum_of(s: Seq<u8>) -> u8 {
    (byte_sum(s) % 256) as u8
}

/// Low-order eight bits of the sum of `data`. The running value is kept
/// reduced in 32-bit arithmetic, so any length is accepted.
pub fn calculate_checksum(data: &[u8]) -> (r: u8)
    ensures
        r == checksum_of(data@),
        r as int == byte_sum(data@) % 256,
{
    let mut acc: u32 = 0;
    let mut i: usize = 0;
    while i < data.len()
        invariant
            i <= data@.len(),
            acc < 256,
            acc as int == byte_sum(data@.take(i as int)) % 256,
        decreases data@.len() - i,
    {
        proof {
            let t = data@.take(i as int + 1);
            assert(t.drop_last() =~= data@.take(i as int));
            assert(t.last() == data@[i as int]);
        }
        acc = (acc + data[i] as u32) % 256;
        i = i + 1;
    }
    proof {
        assert(data@.take(i as int) =~= data@);
    }
    acc as u8
}

/// Whether `checksum` is the checksum of `data`.
pub fn verify_checksum(data: &[u8], checksum: u8) -> (r: bool)
    ensures
        r <==> checksum as int == byte_sum(data@) % 256,
{
    calculate_checksum(data) == checksum
}

} // verus!
