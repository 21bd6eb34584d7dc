//! The byte layout of a squished float.
//!
//! A float is stored as its difference from the previous value. A small
//! difference is written as a 16-bit fixed-point number (8 fractional bits),
//! low byte first. Any other difference is written as the escape marker (the
//! 16-bit pattern `0x8000`, low byte first) followed by the 32 bits of the
//! `f32` difference, low byte first. The host computes the difference and its
//! fixed-point value; this module lays out the bytes.

use vstd::prelude::*;

verus! {

/// The 16-bit pattern that marks an escaped difference.
pub const ESCAPE_MARKER: u16 = 0x8000;

/// The bytes of a 16-bit pattern, low byte first.
pub open spec fn le_bytes_16(x: u16) -> Seq<u8> {
    seq![(x % 256) as u8, (x / 256) as u8]
}

/// The bytes of a 32-bit pattern, low byte first.
pub open spec fn le_bytes_32(x: u32) -> Seq<u8> {
    seq![(x % 256) as u8, ((x / 256) % 256) as u8, ((x / 65536) % 256) as u8, (x / 16777216) as u8]
}

/// The frame of a small difference: its fixed-point value as two's complement, low byte first.
pub open spec fn spec_fixed_frame(fixed_point: i16) -> Seq<u8> {
    le_bytes_16(fixed_point as u16)
}

/// The frame of an escaped difference: the marker, then the bits of the `f32` difference.
pub open spec fn spec_escaped_frame(diff_bits: u32) -> Seq<u8> {
    le_bytes_16(ESCAPE_MARKER) + le_bytes_32(diff_bits)
}

/// Lays out a small difference.
pub fn fixed_frame(fixed_point: i16) -> (bytes: Vec<u8>)
    ensures
        bytes@ == spec_fixed_frame(fixed_point),
{
    let u: u16 = fixed_point as u16;
    let lo: u8 = (u & 0xff) as u8;
    let hi: u8 = (u >> 8) as u8;
    assert(lo == (u % 256) as u8 && hi == (u / 256) as u8) by (bit_vector)
        requires
            lo == (u & 0xff) as u8,
            hi == (u >> 8) as u8;
    let mut bytes: Vec<u8> = Vec::new();
    bytes.push(lo);
    bytes.push(hi);
    assert(bytes@ =~= spec_fixed_frame(fixed_point));
    bytes
}

/// Lays out an escaped difference.
pub fn escaped_frame(diff_bits: u32) -> (bytes: Vec<u8>)
    ensures
        bytes@ == spec_escaped_frame(diff_bits),
{
    let b0: u8 = (diff_bits & 0xff) as u8;
    let b1: u8 = ((diff_bits >> 8) & 0xff) as u8;
    let b2: u8 = ((diff_bits >> 16) & 0xff) as u8;
    let b3: u8 = ((diff_bits >> 24) & 0xff) as u8;
    assert(b0 == (diff_bits % 256) as u8 && b1 == ((diff_bits / 256) % 256) as u8
        && b2 == ((diff_bits / 65536) % 256) as u8 && b3 == (diff_bits / 16777216) as u8) by (bit_vector)
        requires
            b0 == (diff_bits & 0xff) as u8,
            b1 == ((diff_bits >> 8) & 0xff) as u8,
            b2 == ((diff_bits >> 16) & 0xff) as u8,
            b3 == ((diff_bits >> 24) & 0xff) as u8;
    let mut bytes: Vec<u8> = Vec::new();
    bytes.push(0x00);
    bytes.push(0x80);
    bytes.push(b0);
    bytes.push(b1);
    bytes.push(b2);
    bytes.push(b3);
    assert(bytes@ =~= spec_escaped_frame(diff_bits));
    bytes
}

/// The frame for one squished float: escaped when `escape` holds, else fixed point.
/// Also gives the count that the writer reports (that of its last write: the four
/// bytes of an escaped difference, or the two of a fixed-point one).
pub fn squish_frame(escape: bool, fixed_point: i16, diff_bits: u32) -> (r: (Vec<u8>, usize))
    ensures
        r.0@ == (if escape { spec_escaped_frame(diff_bits) } else { spec_fixed_frame(fixed_point) }),
        r.1 == (if escape { 4usize } else { 2usize }),
{
    if escape {
        (escaped_frame(diff_bits), 4)
    } else {
        (fixed_frame(fixed_point), 2)
    }
}

/// Reads back the fixed-point value of a two-byte frame.
pub open spec fn spec_read_fixed(bytes: Seq<u8>) -> i16 {
    ((bytes[1] as u16) * 256 + (bytes[0] as u16)) as i16
}

/// Reads back the `f32` bits of an escaped frame.
pub open spec fn spec_read_escaped(bytes: Seq<u8>) -> u32 {
    ((bytes[5] as u32) * 16777216 + (bytes[4] as u32) * 65536 + (bytes[3] as u32) * 256 + (bytes[2] as u32)) as u32
}

/// A fixed-point frame reads back as the value that was written, and never looks like the
/// escape marker unless the value is the marker's own pattern (-32768).
pub proof fn law_fixed_frame_round_trip(x: i16)
    ensures
        spec_read_fixed(spec_fixed_frame(x)) == x,
        (spec_fixed_frame(x) =~= le_bytes_16(ESCAPE_MARKER)) <==> x == -32768,
{
    let u: u16 = x as u16;
    assert(((((u / 256) as u8) as u16) * 256 + (((u % 256) as u8) as u16)) as i16 == x) by (bit_vector)
        requires
            u == x as u16;
    assert(((u % 256) as u8 == 0 && (u / 256) as u8 == 0x80) <==> x == -32768) by (bit_vector)
        requires
            u == x as u16;
    assert(le_bytes_16(ESCAPE_MARKER) =~= seq![0u8, 0x80u8]);
    if spec_fixed_frame(x) =~= le_bytes_16(ESCAPE_MARKER) {
        assert(spec_fixed_frame(x)[0] == 0u8);
        assert(spec_fixed_frame(x)[1] == 0x80u8);
    }
}

/// An escaped frame starts with the marker and reads back as the bits that were written.
pub proof fn law_escaped_frame_round_trip(bits: u32)
    ensures
        spec_escaped_frame(bits).len() == 6,
        spec_escaped_frame(bits).subrange(0, 2) =~= le_bytes_16(ESCAPE_MARKER),
        spec_read_escaped(spec_escaped_frame(bits)) == bits,
{
    let f = spec_escaped_frame(bits);
    assert(f[2] == (bits % 256) as u8);
    assert(f[3] == ((bits / 256) % 256) as u8);
    assert(f[4] == ((bits / 65536) % 256) as u8);
    assert(f[5] == (bits / 16777216) as u8);
    assert(((((bits / 16777216) as u8) as u32) * 16777216 + ((((bits / 65536) % 256) as u8) as u32) * 65536
        + ((((bits / 256) % 256) as u8) as u32) * 256 + (((bits % 256) as u8) as u32)) as u32 == bits) by (bit_vector);
}

} // verus!
