//! Error-control checksum of PI 1: the ISO 8073 (transport class 4) Fletcher checksum computed
//! modulo 255 over the whole FPDU. The two check bytes stand at the end of the FPDU and are not
//! counted in its length field.

use vstd::prelude::*;

verus! {

/// Number of check bytes appended to a FPDU when the CRC option is negotiated.
pub const CRC_LEN: usize = 2;

/// First Fletcher accumulator: the plain sum of the bytes.
pub open spec fn byte_sum(s: Seq<u8>) -> int
    decreases s.len(),
{
    if s.len() == 0 {
        0
    } else {
        byte_sum(s.drop_last()) + s.last() as int
    }
}

/// Second Fletcher accumulator: the sum of the running sums.
pub open spec fn running_sum(s: Seq<u8>) -> int
    decreases s.len(),
{
    if s.len() == 0 {
        0
    } else {
        running_sum(s.drop_last()) + byte_sum(s)
    }
}

/// A byte string carries correct check bytes when both accumulators vanish modulo 255.
pub open spec fn checks(s: Seq<u8>) -> bool {
    &&& s.len() >= CRC_LEN
    &&& byte_sum(s) % 255 == 0
    &&& running_sum(s) % 255 == 0
}

/// The two check bytes of `s`.
pub open spec fn check_bytes(s: Seq<u8>) -> Seq<u8> {
    let zeroed = s.push(0u8).push(0u8);
    let c0 = byte_sum(zeroed);
    let c1 = running_sum(zeroed);
    seq![((c0 - c1) % 255) as u8, ((c1 - 2 * c0) % 255) as u8]
}

/// Appending two bytes to a byte string.
proof fn lemma_push_two(s: Seq<u8>, a: u8, b: u8)
    ensures
        byte_sum(s.push(a).push(b)) == byte_sum(s) + a + b,
        running_sum(s.push(a).push(b)) == running_sum(s) + 2 * byte_sum(s) + 2 * a + b,
{
    let t = s.push(a);
    assert(t.drop_last() =~= s);
    assert(byte_sum(t) == byte_sum(s) + a);
    assert(running_sum(t) == running_sum(s) + byte_sum(t));
    assert(t.push(b).drop_last() =~= t);
    assert(byte_sum(t.push(b)) == byte_sum(t) + b);
}

/// Check bytes computed for a message always verify once appended to it.
pub proof fn law_appended_check_bytes_verify(s: Seq<u8>)
    ensures
        check_bytes(s).len() == CRC_LEN,
        checks(s + check_bytes(s)),
{
    let zeroed = s.push(0u8).push(0u8);
    lemma_push_two(s, 0, 0);
    let a = check_bytes(s)[0];
    let b = check_bytes(s)[1];
    lemma_push_two(s, a, b);
    assert(s + check_bytes(s) =~= s.push(a).push(b));
    let s1 = byte_sum(s);
    let s2 = running_sum(s) + 2 * byte_sum(s);
    assert(byte_sum(zeroed) == s1);
    assert(running_sum(zeroed) == s2);
    assert(a as int == (s1 - s2) % 255);
    assert(b as int == (s2 - 2 * s1) % 255);
}

/// Sums of a byte string in which the byte at `i` was replaced.
proof fn lemma_update_sums(s: Seq<u8>, i: int, b: u8)
    requires
        0 <= i < s.len(),
    ensures
        byte_sum(s.update(i, b)) == byte_sum(s) + b - s[i],
        running_sum(s.update(i, b)) == running_sum(s) + (s.len() - i) * (b - s[i]),
    decreases s.len(),
{
    let t = s.update(i, b);
    if i == s.len() - 1 {
        assert(t.drop_last() =~= s.drop_last());
        assert((s.len() - i) * (b - s[i]) == b - s[i]) by (nonlinear_arith)
            requires
                s.len() - i == 1,
        ;
    } else {
        lemma_update_sums(s.drop_last(), i, b);
        assert(t.drop_last() =~= s.drop_last().update(i, b));
        assert((s.len() - i) * (b - s[i]) == (s.len() - 1 - i) * (b - s[i]) + (b - s[i]))
            by (nonlinear_arith);
    }
}

/// Replacing one byte of a correctly checked message by another value is always detected, save
/// for the exchange of 0 and 255, which are equal modulo 255.
pub proof fn law_single_byte_corruption_is_detected(s: Seq<u8>, i: int, b: u8)
    requires
        checks(s),
        0 <= i < s.len(),
        b != s[i],
        !(b == 0 && s[i] == 255) && !(b == 255 && s[i] == 0),
    ensures
        !checks(s.update(i, b)),
{
    lemma_update_sums(s, i, b);
}

fn sums(bytes: &[u8]) -> (r: (u32, u32))
    ensures
        r.0 == byte_sum(bytes@) % 255,
        r.1 == running_sum(bytes@) % 255,
{
    let mut s1: u32 = 0;
    let mut s2: u32 = 0;
    let mut i: usize = 0;
    while i < bytes.len()
        invariant
            i <= bytes.len(),
            s1 == byte_sum(bytes@.take(i as int)) % 255,
            s2 == running_sum(bytes@.take(i as int)) % 255,
        decreases bytes.len() - i,
    {
        let b: u8 = bytes[i];
        proof {
            assert(bytes@.take(i + 1).drop_last() =~= bytes@.take(i as int));
        }
        s1 = (s1 + b as u32) % 255;
        s2 = (s2 + s1) % 255;
        i += 1;
    }
    proof {
        assert(bytes@.take(i as int) =~= bytes@);
    }
    (s1, s2)
}

/// The check bytes may be computed from the reduced sums.
proof fn lemma_check_byte_values(t1: int, t2: int, s1: int, s2: int)
    requires
        s1 == t1 % 255,
        s2 == t2 % 255,
    ensures
        ({
            let c = (s2 + 2 * s1) % 255;
            &&& (s1 + 255 - c) % 255 == (t1 - (t2 + 2 * t1)) % 255
            &&& (c + 2 * (255 - s1)) % 255 == ((t2 + 2 * t1) - 2 * t1) % 255
        }),
{
    let q1 = t1 / 255;
    let q2 = t2 / 255;
    let c = (s2 + 2 * s1) % 255;
    let q3 = (s2 + 2 * s1) / 255;
    assert(t1 == 255 * q1 + s1 && t2 == 255 * q2 + s2 && s2 + 2 * s1 == 255 * q3 + c);
    vstd::arithmetic::div_mod::lemma_mod_multiples_vanish(1 - q3 + q1 + q2, t1 - (t2 + 2 * t1), 255);
    vstd::arithmetic::div_mod::lemma_mod_multiples_vanish(2 - q3 - q2, t2, 255);
}

/// Compute the two check bytes for `fpdu` (the FPDU bytes without check bytes).
#[must_use]
pub fn compute(fpdu: &[u8]) -> (r: [u8; 2])
    ensures
        r@ == check_bytes(fpdu@),
{
    let (s1, s2) = sums(fpdu);
    let ghost t1 = byte_sum(fpdu@);
    let ghost t2 = running_sum(fpdu@);
    proof {
        lemma_push_two(fpdu@, 0, 0);
        lemma_check_byte_values(t1, t2, s1 as int, s2 as int);
    }
    // Two zero bytes stand where the check bytes will go: they leave the first sum as it is and
    // add it twice to the second.
    let s2: u32 = (s2 + 2 * s1) % 255;
    let x: u32 = (s1 + 255 - s2) % 255;
    let y: u32 = (s2 + 2 * (255 - s1)) % 255;
    let r: [u8; 2] = [x as u8, y as u8];
    proof {
        assert(r@ =~= check_bytes(fpdu@));
    }
    r
}

/// Verify a FPDU followed by its two check bytes.
#[must_use]
pub fn verify(fpdu_with_crc: &[u8]) -> (r: bool)
    ensures
        r == checks(fpdu_with_crc@),
{
    if fpdu_with_crc.len() < CRC_LEN {
        return false;
    }
    let (s1, s2) = sums(fpdu_with_crc);
    s1 == 0 && s2 == 0
}

/// Append the check bytes to `fpdu` in place.
pub fn append(fpdu: &mut Vec<u8>)
    ensures
        final(fpdu)@ == old(fpdu)@ + check_bytes(old(fpdu)@),
        checks(final(fpdu)@),
{
    let c = compute(fpdu.as_slice());
    fpdu.push(c[0]);
    fpdu.push(c[1]);
    proof {
        law_appended_check_bytes_verify(old(fpdu)@);
        assert(fpdu@ =~= old(fpdu)@ + check_bytes(old(fpdu)@));
    }
}

} // verus!
