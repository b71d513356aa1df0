//! Sampling values out of a fetched byte buffer.
//!
//! Each sampler draws a random offset into the buffer and reads at that
//! offset; everything past the draw is deterministic and stated exactly
//! against the bytes at the chosen offset.

use vstd::prelude::*;

verus! {

/// Relies on rand::random_range over `0..n`, which returns a value of the
/// range and panics only when the range is empty.
#[verifier::external_body]
fn random_below(n: usize) -> (r: usize)
    requires
        n >= 1,
    ensures
        r < n,
{
    rand::random_range(0..n)
}

/// The four bytes at `start`, combined big-endian.
pub open spec fn spec_be32_at(frame: Seq<u8>, start: int) -> u32
    recommends
        0 <= start,
        start + 4 <= frame.len(),
{
    (frame[start] * 0x100_0000 + frame[start + 1] * 0x1_0000 + frame[start + 2] * 0x100
        + frame[start + 3]) as u32
}

/// Whether the byte at `at` is odd.
pub open spec fn spec_odd_at(frame: Seq<u8>, at: int) -> bool
    recommends
        0 <= at < frame.len(),
{
    frame[at] % 2 == 1
}

/// The signed reading of an unsigned draw: reinterpreted as two's complement
/// and negated when the boolean draw asks for it. The negation wraps, so the
/// minimum value stays itself.
pub open spec fn spec_signed(value: u32, negate: bool) -> i32 {
    let s = value as i32;
    if negate && s != i32::MIN {
        (-(s as int)) as i32
    } else {
        s
    }
}

/// The unsigned value read at a given offset: the 32-bit big-endian word
/// over `frame[start .. start + 4]`.
pub fn unsigned_at(frame: &Vec<u8>, start: usize) -> (r: u32)
    requires
        start + 4 <= frame.len(),
    ensures
        r == spec_be32_at(frame@, start as int),
{
    let b0 = frame[start];
    let b1 = frame[start + 1];
    let b2 = frame[start + 2];
    let b3 = frame[start + 3];
    let r = ((b0 as u32) << 24) | ((b1 as u32) << 16) | ((b2 as u32) << 8) | (b3 as u32);
    proof {
        assert(((b0 as u32) << 24) | ((b1 as u32) << 16) | ((b2 as u32) << 8) | (b3 as u32)
            == (b0 * 0x100_0000 + b1 * 0x1_0000 + b2 * 0x100 + b3) as u32) by (bit_vector);
    }
    r
}

/// Whether the byte at offset `at` is odd.
pub fn boolean_at(frame: &Vec<u8>, at: usize) -> (r: bool)
    requires
        at < frame@.len(),
    ensures
        r == spec_odd_at(frame@, at as int),
{
    let b = frame[at];
    let r = b & 1 != 0;
    proof {
        assert((b & 1 != 0) == (b % 2 == 1)) by (bit_vector);
    }
    r
}

/// An unsigned 32-bit sample: the big-endian word at a random offset in
/// `[0, len - 4]`.
pub fn get_unsigned(frame: &Vec<u8>) -> (r: u32)
    requires
        frame@.len() >= 4,
    ensures
        exists|i: int| 0 <= i <= frame@.len() - 4 && r == spec_be32_at(frame@, i),
{
    let start = random_below(frame.len() - 3);
    let r = unsigned_at(frame, start);
    proof {
        assert(0 <= (start as int) && start as int <= frame@.len() - 4 && r == spec_be32_at(frame@, start as int));
    }
    r
}

/// A boolean sample: whether the byte at a random offset is odd.
pub fn get_bool(frame: &Vec<u8>) -> (r: bool)
    requires
        frame@.len() >= 1,
    ensures
        exists|i: int| 0 <= i < frame@.len() && r == spec_odd_at(frame@, i),
{
    let at = random_below(frame.len());
    let r = boolean_at(frame, at);
    proof {
        assert(0 <= (at as int) && (at as int) < frame@.len() && r == spec_odd_at(frame@, at as int));
    }
    r
}

/// A signed sample: an unsigned draw reinterpreted as two's complement,
/// negated when an independent boolean draw over the same buffer is true.
pub fn get_signed(frame: &Vec<u8>) -> (r: i32)
    requires
        frame@.len() >= 4,
    ensures
        exists|i: int, j: int|
            0 <= i <= frame@.len() - 4 && 0 <= j < frame@.len() && r == spec_signed(
                spec_be32_at(frame@, i),
                spec_odd_at(frame@, j),
            ),
{
    let value = get_unsigned(frame);
    let negate = get_bool(frame);
    let s = #[verifier::truncate] (value as i32);
    let r = if negate && s != i32::MIN {
        -s
    } else {
        s
    };
    proof {
        let i = choose|i: int| 0 <= i <= frame@.len() - 4 && value == spec_be32_at(frame@, i);
        let j = choose|j: int| 0 <= j < frame@.len() && negate == spec_odd_at(frame@, j);
        assert(r == spec_signed(spec_be32_at(frame@, i), spec_odd_at(frame@, j)));
    }
    r
}

} // verus!
