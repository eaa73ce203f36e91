//! The 24-bit checksum that guards each compressed quantum.
//!
//! The checksum is taken from a 64-bit hash that runs four independent lanes
//! over the input, 48 bytes at a time (each block gives every lane one
//! big-endian word for each of its three registers), then folds the twelve
//! lane registers into one state.
use vstd::prelude::*;

use core::ops::BitXorAssign;

use super::vec::{rotate_left_word, rotl32, Vec4D};

verus! {

/// Wrapping addition of 32-bit words.
pub open spec fn wadd(x: u32, y: u32) -> u32 {
    vstd::wrapping::u32_specs::wrapping_add(x, y)
}

/// Wrapping subtraction of 32-bit words.
pub open spec fn wsub(x: u32, y: u32) -> u32 {
    vstd::wrapping::u32_specs::wrapping_sub(x, y)
}

/// The byte at index `i` of `data`, or 0 past its end.
pub open spec fn byte_at(data: Seq<u8>, i: int) -> u8 {
    if 0 <= i < data.len() {
        data[i]
    } else {
        0
    }
}

/// The big-endian word made of the bytes at `i .. i + 4` of `data`, read
/// with zeros past its end.
pub open spec fn word_at(data: Seq<u8>, i: int) -> u32 {
    ((byte_at(data, i) as u32) << 24u32) | ((byte_at(data, i + 1) as u32) << 16u32) | ((byte_at(
        data,
        i + 2,
    ) as u32) << 8u32) | (byte_at(data, i + 3) as u32)
}

/// One mixing step: `x -= z; x ^= rotl(z, s); z += y`.
pub open spec fn mix_step(x: u32, y: u32, z: u32, s: u32) -> (u32, u32) {
    let x1 = wsub(x, z);
    let x2 = x1 ^ rotl32(z, s);
    (x2, wadd(z, y))
}

/// The mixing round of three registers.
pub open spec fn mix(a: u32, b: u32, c: u32) -> (u32, u32, u32) {
    let (a, c) = mix_step(a, b, c, 4);
    let (b, a) = mix_step(b, c, a, 6);
    let (c, b) = mix_step(c, a, b, 8);
    let (a, c) = mix_step(a, b, c, 16);
    let (b, a) = mix_step(b, c, a, 19);
    let (c, b) = mix_step(c, a, b, 4);
    (a, b, c)
}

/// One final step: `x ^= z; x -= rotl(z, s)`.
pub open spec fn final_step(x: u32, z: u32, s: u32) -> u32 {
    wsub(x ^ z, rotl32(z, s))
}

/// The final round of three registers.
pub open spec fn final_mix(a: u32, b: u32, c: u32) -> (u32, u32, u32) {
    let c = final_step(c, b, 14);
    let a = final_step(a, c, 11);
    let b = final_step(b, a, 25);
    let c = final_step(c, b, 16);
    let a = final_step(a, c, 4);
    let b = final_step(b, a, 14);
    let c = final_step(c, b, 24);
    (a, b, c)
}

/// The number of 48-byte blocks that cover `len` bytes.
pub open spec fn block_count(len: nat) -> nat {
    if len % 48 == 0 {
        len / 48
    } else {
        len / 48 + 1
    }
}

/// The registers of lane `lane` after the first `n` blocks of `data`.
pub open spec fn lane_state(data: Seq<u8>, n: nat, lane: int) -> (u32, u32, u32)
    decreases n,
{
    if n == 0 {
        let len = data.len() as u32;
        (wadd(0xDEADBEEFu32, len), 0x206F85B3u32, wsub(0x5768B525u32, len))
    } else {
        let (a, b, c) = lane_state(data, (n - 1) as nat, lane);
        let base = 48 * (n - 1) + 4 * lane;
        mix(
            wadd(a, word_at(data, base)),
            wadd(b, word_at(data, base + 16)),
            wadd(c, word_at(data, base + 32)),
        )
    }
}

/// Every lane starts from the length of the whole input, taken as a 32-bit
/// word: its first register is 0xDEADBEEF plus the length and its third
/// 0x5768B525 minus the length, both modulo 2^32, and its second is
/// 0x206F85B3. An input shorter than 2^32 bytes adds its exact length.
pub proof fn law_lanes_start_from_length(data: Seq<u8>, lane: int)
    ensures
        ({
            let start = lane_state(data, 0, lane);
            let n = (data.len() as u32) as int;
            &&& start.0 as int == (0xDEADBEEF + n) % 0x1_0000_0000
            &&& start.1 == 0x206F85B3u32
            &&& start.2 as int == (0x5768B525 + 0x1_0000_0000 - n) % 0x1_0000_0000
            &&& data.len() < 0x1_0000_0000 ==> n == data.len()
        }),
{
}

/// The hash of `data` as `(fb, fc)`, the two registers that it is made of.
pub open spec fn hash_registers(data: Seq<u8>) -> (u32, u32) {
    let n = block_count(data.len());
    let l0 = lane_state(data, n, 0);
    let l1 = lane_state(data, n, 1);
    let l2 = lane_state(data, n, 2);
    let l3 = lane_state(data, n, 3);
    let (fa, fb, fc) = mix(l0.0, l1.0, l2.0);
    let (fa, fb, fc) = mix(wadd(fa, l3.0), wadd(fb, l0.1), wadd(fc, l1.1));
    let (fa, fb, fc) = mix(wadd(fa, l2.1), wadd(fb, l3.1), wadd(fc, l0.2));
    let (_fa, fb, fc) = final_mix(wadd(fa, l1.2), wadd(fb, l2.2), wadd(fc, l3.2));
    (fb, fc)
}

/// The 64-bit hash of `data`.
pub open spec fn hash_spec(data: Seq<u8>) -> u64 {
    let (fb, fc) = hash_registers(data);
    ((fb as u64) << 32u64) | (fc as u64)
}

/// The checksum of `data`: the low 24 bits of its hash.
#[verifier::opaque]
pub open spec fn crc_spec(data: Seq<u8>) -> u32 {
    (hash_spec(data) & 0xFFFFFFu64) as u32
}

/// The checksum of a compressed quantum.
pub fn compute_crc(data: &[u8]) -> (r: u32)
    ensures
        r == crc_spec(data@),
        r < 0x1000000,
{
    let crc = big_hash(data);
    reveal(crc_spec);
    assert(crc & 0xFFFFFFu64 < 0x1000000u64) by (bit_vector);
    (crc & 0xFFFFFF) as u32
}

/// The byte at `base + off` of `data`, or 0 past its end.
fn read_byte(data: &[u8], base: usize, off: usize) -> (r: u8)
    requires
        base < data@.len(),
    ensures
        r == byte_at(data@, base + off),
{
    if off < data.len() - base {
        data[base + off]
    } else {
        0
    }
}

/// The big-endian word at `base + off` of `data`, read with zeros past its
/// end.
fn read_word(data: &[u8], base: usize, off: usize) -> (r: u32)
    requires
        base < data@.len(),
        off <= 44,
    ensures
        r == word_at(data@, base + off),
{
    let b0 = read_byte(data, base, off) as u32;
    let b1 = read_byte(data, base, off + 1) as u32;
    let b2 = read_byte(data, base, off + 2) as u32;
    let b3 = read_byte(data, base, off + 3) as u32;
    (b0 << 24) | (b1 << 16) | (b2 << 8) | b3
}

/// One mixing step on each lane: `x -= z; x ^= rotl(z, s); z += y`.
fn mix_step_lanes(x: Vec4D<u32>, y: Vec4D<u32>, z: Vec4D<u32>, s: u32) -> (r: (
    Vec4D<u32>,
    Vec4D<u32>,
))
    requires
        x@.len() == 4,
        y@.len() == 4,
        z@.len() == 4,
    ensures
        r.0@.len() == 4,
        r.1@.len() == 4,
        forall|i: int|
            0 <= i < 4 ==> (#[trigger] r.0@[i], r.1@[i]) == mix_step(x@[i], y@[i], z@[i], s),
{
    let mut x1 = x.wrapping_sub(z);
    x1.bitxor_assign(z.rotate_left(s));
    let z1 = z.wrapping_add(y);
    (x1, z1)
}

/// The mixing round on each lane.
fn mix_lanes(a: Vec4D<u32>, b: Vec4D<u32>, c: Vec4D<u32>) -> (r: (
    Vec4D<u32>,
    Vec4D<u32>,
    Vec4D<u32>,
))
    requires
        a@.len() == 4,
        b@.len() == 4,
        c@.len() == 4,
    ensures
        r.0@.len() == 4,
        r.1@.len() == 4,
        r.2@.len() == 4,
        forall|i: int|
            0 <= i < 4 ==> (#[trigger] r.0@[i], r.1@[i], r.2@[i]) == mix(a@[i], b@[i], c@[i]),
{
    let (a1, c1) = mix_step_lanes(a, b, c, 4);
    let (b1, a2) = mix_step_lanes(b, c1, a1, 6);
    let (c2, b2) = mix_step_lanes(c1, a2, b1, 8);
    let (a3, c3) = mix_step_lanes(a2, b2, c2, 16);
    let (b3, a4) = mix_step_lanes(b2, c3, a3, 19);
    let (c4, b4) = mix_step_lanes(c3, a4, b3, 4);
    assert forall|i: int| 0 <= i < 4 implies (#[trigger] a4@[i], b4@[i], c4@[i]) == mix(
        a@[i],
        b@[i],
        c@[i],
    ) by {
        assert((a1@[i], c1@[i]) == mix_step(a@[i], b@[i], c@[i], 4));
        assert((b1@[i], a2@[i]) == mix_step(b@[i], c1@[i], a1@[i], 6));
        assert((c2@[i], b2@[i]) == mix_step(c1@[i], a2@[i], b1@[i], 8));
        assert((a3@[i], c3@[i]) == mix_step(a2@[i], b2@[i], c2@[i], 16));
        assert((b3@[i], a4@[i]) == mix_step(b2@[i], c3@[i], a3@[i], 19));
        assert((c4@[i], b4@[i]) == mix_step(c3@[i], a4@[i], b3@[i], 4));
    }
    (a4, b4, c4)
}

/// One mixing step on words.
fn mix_step_words(x: u32, y: u32, z: u32, s: u32) -> (r: (u32, u32))
    ensures
        r == mix_step(x, y, z, s),
{
    let x1 = x.wrapping_sub(z);
    let x2 = x1 ^ rotate_left_word(z, s);
    (x2, z.wrapping_add(y))
}

/// The mixing round on words.
fn mix_words(a: u32, b: u32, c: u32) -> (r: (u32, u32, u32))
    ensures
        r == mix(a, b, c),
{
    let (a, c) = mix_step_words(a, b, c, 4);
    let (b, a) = mix_step_words(b, c, a, 6);
    let (c, b) = mix_step_words(c, a, b, 8);
    let (a, c) = mix_step_words(a, b, c, 16);
    let (b, a) = mix_step_words(b, c, a, 19);
    let (c, b) = mix_step_words(c, a, b, 4);
    (a, b, c)
}

/// One final step on words.
fn final_step_word(x: u32, z: u32, s: u32) -> (r: u32)
    ensures
        r == final_step(x, z, s),
{
    (x ^ z).wrapping_sub(rotate_left_word(z, s))
}

/// The final round on words.
fn final_mix_words(a: u32, b: u32, c: u32) -> (r: (u32, u32, u32))
    ensures
        r == final_mix(a, b, c),
{
    let c = final_step_word(c, b, 14);
    let a = final_step_word(a, c, 11);
    let b = final_step_word(b, a, 25);
    let c = final_step_word(c, b, 16);
    let a = final_step_word(a, c, 4);
    let b = final_step_word(b, a, 14);
    let c = final_step_word(c, b, 24);
    (a, b, c)
}

/// The 64-bit hash of `data`.
fn big_hash(data: &[u8]) -> (r: u64)
    ensures
        r == hash_spec(data@),
{
    let length = #[verifier::truncate] (data.len() as u32);
    let mut a = Vec4D::splat(0xDEADBEEFu32.wrapping_add(length));
    let mut b = Vec4D::splat(0x206F85B3u32);
    let mut c = Vec4D::splat(0x5768B525u32.wrapping_sub(length));
    let len = data.len();
    let n = len / 48 + if len % 48 == 0 {
        0
    } else {
        1
    };
    let mut k: usize = 0;
    while k < n
        invariant
            n == block_count(data@.len()),
            len == data@.len(),
            k <= n,
            a@.len() == 4,
            b@.len() == 4,
            c@.len() == 4,
            forall|i: int|
                0 <= i < 4 ==> (#[trigger] a@[i], b@[i], c@[i]) == lane_state(data@, k as nat, i),
        decreases n - k,
    {
        assert(48 * k < data@.len()) by (nonlinear_arith)
            requires
                k < n,
                n == block_count(data@.len()),
        ;
        let base = 48 * k;
        let qa = Vec4D::from_array(
            [
                read_word(data, base, 0),
                read_word(data, base, 4),
                read_word(data, base, 8),
                read_word(data, base, 12),
            ],
        );
        let qb = Vec4D::from_array(
            [
                read_word(data, base, 16),
                read_word(data, base, 20),
                read_word(data, base, 24),
                read_word(data, base, 28),
            ],
        );
        let qc = Vec4D::from_array(
            [
                read_word(data, base, 32),
                read_word(data, base, 36),
                read_word(data, base, 40),
                read_word(data, base, 44),
            ],
        );
        let a1 = a.wrapping_add(qa);
        let b1 = b.wrapping_add(qb);
        let c1 = c.wrapping_add(qc);
        let (a2, b2, c2) = mix_lanes(a1, b1, c1);
        assert forall|i: int| 0 <= i < 4 implies (#[trigger] a2@[i], b2@[i], c2@[i])
            == lane_state(data@, (k + 1) as nat, i) by {
            assert(qa@[i] == word_at(data@, 48 * k + 4 * i));
            assert(qb@[i] == word_at(data@, 48 * k + 4 * i + 16));
            assert(qc@[i] == word_at(data@, 48 * k + 4 * i + 32));
            assert((a@[i], b@[i], c@[i]) == lane_state(data@, k as nat, i));
        }
        a = a2;
        b = b2;
        c = c2;
        k = k + 1;
    }
    let a: [u32; 4] = a.into();
    let b: [u32; 4] = b.into();
    let c: [u32; 4] = c.into();
    let (fa, fb, fc) = mix_words(a[0], a[1], a[2]);
    let (fa, fb, fc) = mix_words(
        fa.wrapping_add(a[3]),
        fb.wrapping_add(b[0]),
        fc.wrapping_add(b[1]),
    );
    let (fa, fb, fc) = mix_words(
        fa.wrapping_add(b[2]),
        fb.wrapping_add(b[3]),
        fc.wrapping_add(c[0]),
    );
    let (_fa, fb, fc) = final_mix_words(
        fa.wrapping_add(c[1]),
        fb.wrapping_add(c[2]),
        fc.wrapping_add(c[3]),
    );
    ((fb as u64) << 32) | (fc as u64)
}

} // verus!
