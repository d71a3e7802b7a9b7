//! Bridges between the bit-level operations the hardware performs and the
//! arithmetic in which the contracts of this crate are written.
//!
//! Every lemma here is discharged by the bit-vector solver. The proofs in
//! the rest of the crate call these lemmas and reason about `/`, `%`, `+`
//! and `-`.

use vstd::prelude::*;

verus! {

/// `1` for `true`, `0` for `false`.
pub open spec fn b2i(b: bool) -> int {
    if b {
        1
    } else {
        0
    }
}

/// The value of bit `n` alone: two to the power `n`, for the eight bits of a byte.
pub open spec fn bit_weight(n: u8) -> u8 {
    if n == 0 {
        1
    } else if n == 1 {
        2
    } else if n == 2 {
        4
    } else if n == 3 {
        8
    } else if n == 4 {
        16
    } else if n == 5 {
        32
    } else if n == 6 {
        64
    } else {
        128
    }
}

/// Whether bit `n` of `v` is set.
pub open spec fn bit_is_set(v: u8, n: u8) -> bool {
    (v / bit_weight(n)) % 2 == 1
}

/// `v` with bit `n` forced to `on`.
pub open spec fn with_bit(v: u8, n: u8, on: bool) -> u8 {
    if on == bit_is_set(v, n) {
        v
    } else if on {
        (v + bit_weight(n)) as u8
    } else {
        (v - bit_weight(n)) as u8
    }
}

/// The low nibble of a byte.
pub proof fn lemma_low_nibble(v: u8)
    by (bit_vector)
    ensures
        v & 0x0f == v % 16,
{
}

/// The high nibble of a byte.
pub proof fn lemma_high_nibble(v: u8)
    by (bit_vector)
    ensures
        v & 0xf0 == v - v % 16,
{
}

/// The low bits of a byte kept by a mask are its remainder by a power of two.
pub proof fn lemma_low_bits(v: u8)
    by (bit_vector)
    ensures
        v & 0x01 == v % 2,
        v & 0x03 == v % 4,
        v & 0x07 == v % 8,
        v & 0x1f == v % 32,
        v & 0x3f == v % 64,
        v & 0x7f == v % 128,
{
}

/// Shifts, rotations, the nibble swap and the complement of one byte, as
/// arithmetic.
pub proof fn lemma_shifts(v: u8)
    by (bit_vector)
    ensures
        v & 0x01 == v % 2,
        v >> 1 == v / 2,
        v << 1 == (v % 128) * 2,
        (v >> 7) & 1 == v / 128,
        (v >> 4) | (v << 4) == v / 16 + (v % 16) * 16,
        (v >> 1) | (v & 0x80) == v / 2 + (v / 128) * 128,
        (v << 1) | ((v >> 7) & 1) == (v % 128) * 2 + v / 128,
        (v >> 1) | ((v & 1) << 7) == v / 2 + (v % 2) * 128,
        !v == 255 - v,
{
}

/// Setting and clearing each of the four flag bits of a byte moves it by that
/// bit's weight, or not at all.
pub proof fn lemma_flag_masks(f: u8)
    by (bit_vector)
    ensures
        (f & 0x80 != 0) == (f / 128 == 1),
        (f & 0x40 != 0) == ((f / 64) % 2 == 1),
        (f & 0x20 != 0) == ((f / 32) % 2 == 1),
        (f & 0x10 != 0) == ((f / 16) % 2 == 1),
        f | 0x80 == f + (1 - f / 128) * 128,
        f | 0x40 == f + (1 - (f / 64) % 2) * 64,
        f | 0x20 == f + (1 - (f / 32) % 2) * 32,
        f | 0x10 == f + (1 - (f / 16) % 2) * 16,
        f & 0x7f == f - (f / 128) * 128,
        f & 0xbf == f - ((f / 64) % 2) * 64,
        f & 0xdf == f - ((f / 32) % 2) * 32,
        f & 0xef == f - ((f / 16) % 2) * 16,
        f == (f / 128) * 128 + ((f / 64) % 2) * 64 + ((f / 32) % 2) * 32 + ((f / 16) % 2) * 16 + f
            % 16,
{
}

/// The four flag bits packed above the low nibble of `low`.
pub proof fn lemma_flags_pack(low: u8, z: bool, n: bool, h: bool, c: bool)
    by (bit_vector)
    ensures
        (if z {
            0x80u8
        } else {
            0u8
        }) | (if n {
            0x40u8
        } else {
            0u8
        }) | (if h {
            0x20u8
        } else {
            0u8
        }) | (if c {
            0x10u8
        } else {
            0u8
        }) | (low & 0x0f) == (if z {
            128u8
        } else {
            0u8
        }) + (if n {
            64u8
        } else {
            0u8
        }) + (if h {
            32u8
        } else {
            0u8
        }) + (if c {
            16u8
        } else {
            0u8
        }) + low % 16,
{
}

/// A byte shifted by one place with a single bit brought in at the free end.
pub proof fn lemma_shift_in(v: u8, bit: u8)
    by (bit_vector)
    requires
        bit <= 1,
    ensures
        (v << 1) | bit == (v % 128) * 2 + bit,
        (v >> 1) | (bit << 7) == v / 2 + bit * 128,
{
}

/// Testing, clearing and setting one bit of a byte chosen by its number.
pub proof fn lemma_single_bit(v: u8, n: u8)
    by (bit_vector)
    requires
        n < 8,
    ensures
        ((v >> n) & 1 == 1) == bit_is_set(v, n),
        ((v >> n) & 1 == 0) == !bit_is_set(v, n),
        v & !(1u8 << n) == with_bit(v, n, false),
        v | (1u8 << n) == with_bit(v, n, true),
        (v & (1u8 << n) != 0) == bit_is_set(v, n),
        bit_is_set(v | (1u8 << n), n),
        !bit_is_set(v & !(1u8 << n), n),
{
}

/// Changing one bit of a byte leaves every other bit as it was.
pub proof fn lemma_other_bits_kept(v: u8, n: u8, k: u8, on: bool)
    by (bit_vector)
    requires
        n < 8,
        k < 8,
        k != n,
    ensures
        bit_is_set(with_bit(v, n, on), k) == bit_is_set(v, k),
        bit_is_set(with_bit(v, n, on), n) == on,
{
}

/// The two bytes of a sixteen-bit word, taken apart.
pub proof fn lemma_word_split(w: u16)
    by (bit_vector)
    ensures
        (w >> 8) as u8 == w / 256,
        w as u8 == w % 256,
        (w & 0xff) as u8 == w % 256,
        ((w >> 8) & 0xff) as u8 == w / 256,
        (w & 0xf0) as u8 == (w % 256) - (w % 16),
{
}

/// Two bytes put together into a sixteen-bit word.
pub proof fn lemma_word_join(hi: u8, lo: u8)
    by (bit_vector)
    ensures
        ((hi as u16) << 8) | (lo as u16) == hi * 256 + lo,
        (lo as u16) | ((hi as u16) << 8) == hi * 256 + lo,
        0xff00u16 | (lo as u16) == 0xff00 + lo,
        (hi as u16) << 8 == hi * 256,
{
}

/// One byte of a sixteen-bit register replaced, as the transfer unit's
/// address registers are written: the high byte whole, or the low byte with
/// its low nibble dropped.
pub proof fn lemma_word_replace(w: u16, v: u8)
    by (bit_vector)
    ensures
        (w & 0x00ff) | ((v as u16) << 8) == (v as u16) * 256 + w % 256,
        (w & 0xff00) | ((v as u16) & 0xf0) == (w / 256) * 256 + ((v as u16) - (v as u16) % 16),
{
}

/// The two fields of the ROM bank register: five low bits and two high bits.
pub proof fn lemma_bank_fields(r: u8, v: u8)
    by (bit_vector)
    requires
        r < 128,
    ensures
        (r & 0x60) | (v & 0x1f) == (r / 32) * 32 + v % 32,
        (r & 0x1f) | ((v & 0x03) << 5) == r % 32 + (v % 4) * 32,
        v & 0x1f == v % 32,
        v & 0x03 == v % 4,
        v & 0x01 == v % 2,
        v & 0x0f == v % 16,
        (v & 0x1f) | 0x80 == 128 + v % 32,
{
}

/// The low bits of a sixteen-bit word kept by a mask.
pub proof fn lemma_word_low(w: u16)
    by (bit_vector)
    ensures
        w & 0x0fff == w % 4096,
        w & 0x00ff == w % 256,
        w & 0x000f == w % 16,
{
}

/// The three five-bit channels of a fifteen-bit colour.
pub proof fn lemma_color_fields(w: u16)
    by (bit_vector)
    ensures
        w & 0x1f == w % 32,
        (w >> 5) & 0x1f == (w / 32) % 32,
        (w >> 10) & 0x1f == (w / 1024) % 32,
{
}

/// The low twenty bits, and the low eight bits, of a thirty-two-bit count.
pub proof fn lemma_cycle_window(x: u32)
    by (bit_vector)
    ensures
        x & 0xf_ffff == x % 0x10_0000,
        x & 0xff == x % 256,
{
}

/// The two-bit colour number that two bit planes hold at one bit position.
pub proof fn lemma_color_number(low: u8, high: u8, n: u8)
    by (bit_vector)
    requires
        n < 8,
    ensures
        ((high >> n) & 1) << 1 | ((low >> n) & 1) == (if bit_is_set(high, n) {
            2u8
        } else {
            0u8
        }) + (if bit_is_set(low, n) {
            1u8
        } else {
            0u8
        }),
{
}

/// The two bits that a palette register holds for each colour number.
pub proof fn lemma_palette_shade(palette: u8, color: u8)
    by (bit_vector)
    requires
        color < 4,
    ensures
        (palette >> (color * 2)) & 0x03 == if color == 0 {
            palette % 4
        } else if color == 1 {
            (palette / 4) % 4
        } else if color == 2 {
            (palette / 16) % 4
        } else {
            palette / 64
        },
{
}

/// The three octal fields of an opcode.
pub proof fn lemma_opcode_fields(op: u8)
    by (bit_vector)
    ensures
        op & 0x07 == op % 8,
        (op >> 3) & 0x07 == (op / 8) % 8,
        (op >> 6) & 0x03 == op / 64,
{
}

} // verus!
