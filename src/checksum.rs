//! The single-byte XOR checksum that closes every 128-byte record.
use vstd::prelude::*;

use crate::error::MCError;
use crate::FRAME;

verus! {

/// XOR of the first `n` bytes of `s`.
pub open spec fn xor_prefix(s: Seq<u8>, n: int) -> u8
    decreases n,
{
    if n <= 0 {
        0
    } else {
        xor_prefix(s, n - 1) ^ s[n - 1]
    }
}

/// The checksum of a record: the XOR of its first 127 bytes.
pub open spec fn checksum_of(s: Seq<u8>) -> u8 {
    xor_prefix(s, 127)
}

/// A record whose last byte is the checksum of the bytes before it.
pub open spec fn checksum_ok(s: Seq<u8>) -> bool {
    s[127] == checksum_of(s)
}

/// The record with its checksum byte recomputed.
pub open spec fn stamp(s: Seq<u8>) -> Seq<u8> {
    s.update(127, checksum_of(s))
}

/// XOR of the first `n` bytes only reads those bytes.
pub proof fn lemma_xor_prefix_depends_on_prefix(s: Seq<u8>, t: Seq<u8>, n: int)
    requires
        0 <= n <= s.len(),
        n <= t.len(),
        forall|i: int| 0 <= i < n ==> s[i] == t[i],
    ensures
        xor_prefix(s, n) == xor_prefix(t, n),
    decreases n,
{
    if n > 0 {
        lemma_xor_prefix_depends_on_prefix(s, t, n - 1);
    }
}

/// Stamping keeps the first 127 bytes, so the checksum is unchanged by it.
pub proof fn lemma_checksum_of_stamp(s: Seq<u8>)
    requires
        s.len() >= FRAME,
    ensures
        checksum_of(stamp(s)) == checksum_of(s),
        stamp(s).len() == s.len(),
{
    lemma_xor_prefix_depends_on_prefix(s, stamp(s), 127);
}

/// Every stamped record validates; a stamped record whose last byte is then set to any other
/// value does not.
pub proof fn lemma_stamp_validates(s: Seq<u8>, b: u8)
    requires
        s.len() >= FRAME,
    ensures
        checksum_ok(stamp(s)),
        b != stamp(s)[127] ==> !checksum_ok(stamp(s).update(127, b)),
{
    lemma_checksum_of_stamp(s);
    lemma_xor_prefix_depends_on_prefix(stamp(s), stamp(s).update(127, b), 127);
}

/// Stamping a record that already validates changes nothing.
pub proof fn lemma_stamp_valid_is_identity(s: Seq<u8>)
    requires
        s.len() >= FRAME,
        checksum_ok(s),
    ensures
        stamp(s) == s,
{
    assert(stamp(s) =~= s);
}

/// Calculates the checksum of a frame: the XOR of its first 127 bytes (of all of them, when
/// fewer are given).
pub fn calc_checksum(d: &[u8]) -> (c: u8)
    ensures
        c == xor_prefix(d@, if d@.len() < 127 { d@.len() as int } else { 127 }),
{
    let n: usize = if d.len() < FRAME - 1 { d.len() } else { FRAME - 1 };
    let mut c: u8 = 0;
    let mut i: usize = 0;
    while i < n
        invariant
            i <= n,
            n <= d@.len(),
            n == (if d@.len() < 127 { d@.len() as int } else { 127 }),
            c == xor_prefix(d@, i as int),
        decreases n - i,
    {
        c = c ^ d[i];
        i = i + 1;
    }
    c
}

/// Checks that the checksum byte of a frame matches the frame's contents.
pub fn validate_checksum(d: &[u8]) -> (r: Result<(), MCError>)
    requires
        d@.len() >= FRAME,
    ensures
        r is Ok <==> checksum_ok(d@),
        r matches Err(e) ==> e is BadChecksum,
{
    let c = calc_checksum(d);
    if c != d[FRAME - 1] {
        return Err(MCError::BadChecksum);
    }
    Ok(())
}

/// Recomputes the checksum byte of a frame after its contents were edited.
pub fn update_checksum(d: &mut [u8])
    requires
        old(d)@.len() >= FRAME,
    ensures
        final(d)@ == stamp(old(d)@),
        checksum_ok(final(d)@),
{
    let c = calc_checksum(d);
    d[FRAME - 1] = c;
    proof {
        assert(d@ =~= stamp(old(d)@));
        lemma_stamp_validates(old(d)@, 0);
    }
}

} // verus!
