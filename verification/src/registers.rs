//! The register file of the processor.

use crate::bits::{b2i, lemma_flag_masks, lemma_word_join, lemma_word_split};
use vstd::prelude::*;

verus! {

/// Eight byte registers, the stack pointer and the program counter.
///
/// The top four bits of `f` are the Zero, Subtract, Half-carry and Carry
/// flags, from bit 7 down to bit 4.
#[derive(Clone, Copy, Debug, PartialEq, Eq, Structural)]
pub struct Registers {
    pub a: u8,
    pub b: u8,
    pub c: u8,
    pub d: u8,
    pub e: u8,
    pub h: u8,
    pub l: u8,
    pub f: u8,
    pub sp: u16,
    pub pc: u16,
}

/// The sixteen-bit value of a register pair.
#[verifier::opaque]
pub open spec fn pair(hi: u8, lo: u8) -> u16 {
    (hi * 256 + lo) as u16
}

/// The high byte of a sixteen-bit value.
#[verifier::opaque]
pub open spec fn high_byte(w: u16) -> u8 {
    (w / 256) as u8
}

/// The low byte of a sixteen-bit value.
#[verifier::opaque]
pub open spec fn low_byte(w: u16) -> u8 {
    (w % 256) as u8
}

/// Whether the Zero flag, bit 7, is set in the flags byte `f`.
#[verifier::opaque]
pub open spec fn zero_flag(f: u8) -> bool {
    f / 128 == 1
}

/// Whether the Subtract flag, bit 6, is set in the flags byte `f`.
#[verifier::opaque]
pub open spec fn subtract_flag(f: u8) -> bool {
    (f / 64) % 2 == 1
}

/// Whether the Half-carry flag, bit 5, is set in the flags byte `f`.
#[verifier::opaque]
pub open spec fn half_carry_flag(f: u8) -> bool {
    (f / 32) % 2 == 1
}

/// Whether the Carry flag, bit 4, is set in the flags byte `f`.
#[verifier::opaque]
pub open spec fn carry_flag(f: u8) -> bool {
    (f / 16) % 2 == 1
}

/// The flags byte `f` with its four flags replaced and its low nibble kept.
#[verifier::opaque]
pub open spec fn packed_flags(f: u8, z: bool, n: bool, h: bool, c: bool) -> u8 {
    (flags_byte(z, n, h, c) + f % 16) as u8
}

/// The top nibble of a flags byte in which exactly the given flags are set.
pub open spec fn flags_byte(z: bool, n: bool, h: bool, c: bool) -> u8 {
    (128 * b2i(z) + 64 * b2i(n) + 32 * b2i(h) + 16 * b2i(c)) as u8
}

impl Registers {
    /// The flags byte keeps its low nibble clear.
    pub open spec fn flags_clean(self) -> bool {
        self.f % 16 == 0
    }

    pub open spec fn spec_flag_z(&self) -> bool {
        zero_flag(self.f)
    }

    pub open spec fn spec_flag_n(&self) -> bool {
        subtract_flag(self.f)
    }

    pub open spec fn spec_flag_h(&self) -> bool {
        half_carry_flag(self.f)
    }

    pub open spec fn spec_flag_c(&self) -> bool {
        carry_flag(self.f)
    }

    /// The same registers with the four flags replaced; the low nibble of `f`
    /// is carried over.
    pub open spec fn with_flags(self, z: bool, n: bool, h: bool, c: bool) -> Registers {
        Registers { f: packed_flags(self.f, z, n, h, c), ..self }
    }

    pub open spec fn with_flag_z(self, v: bool) -> Registers {
        self.with_flags(v, self.spec_flag_n(), self.spec_flag_h(), self.spec_flag_c())
    }

    pub open spec fn with_flag_n(self, v: bool) -> Registers {
        self.with_flags(self.spec_flag_z(), v, self.spec_flag_h(), self.spec_flag_c())
    }

    pub open spec fn with_flag_h(self, v: bool) -> Registers {
        self.with_flags(self.spec_flag_z(), self.spec_flag_n(), v, self.spec_flag_c())
    }

    pub open spec fn with_flag_c(self, v: bool) -> Registers {
        self.with_flags(self.spec_flag_z(), self.spec_flag_n(), self.spec_flag_h(), v)
    }

    pub open spec fn spec_af(&self) -> u16 {
        pair(self.a, self.f)
    }

    pub open spec fn spec_bc(&self) -> u16 {
        pair(self.b, self.c)
    }

    pub open spec fn spec_de(&self) -> u16 {
        pair(self.d, self.e)
    }

    pub open spec fn spec_hl(&self) -> u16 {
        pair(self.h, self.l)
    }

    pub open spec fn with_af(self, v: u16) -> Registers {
        Registers { a: high_byte(v), f: (low_byte(v) - low_byte(v) % 16) as u8, ..self }
    }

    pub open spec fn with_bc(self, v: u16) -> Registers {
        Registers { b: high_byte(v), c: low_byte(v), ..self }
    }

    pub open spec fn with_de(self, v: u16) -> Registers {
        Registers { d: high_byte(v), e: low_byte(v), ..self }
    }

    pub open spec fn with_hl(self, v: u16) -> Registers {
        Registers { h: high_byte(v), l: low_byte(v), ..self }
    }

    /// The register file as the processor leaves it at power-on.
    pub open spec fn power_on() -> Registers {
        Registers {
            a: 0x01,
            b: 0x00,
            c: 0x13,
            d: 0x00,
            e: 0xd8,
            h: 0x01,
            l: 0x4d,
            f: 0xb0,
            sp: 0xfffe,
            pc: 0x0100,
        }
    }

    pub fn new() -> (r: Self)
        ensures
            r == Self::power_on(),
            r.flags_clean(),
    {
        Registers {
            a: 0x01,
            b: 0x00,
            c: 0x13,
            d: 0x00,
            e: 0xd8,
            h: 0x01,
            l: 0x4d,
            f: 0xb0,
            sp: 0xfffe,
            pc: 0x0100,
        }
    }

    #[verifier::when_used_as_spec(spec_flag_z)]
    pub fn flag_z(&self) -> (r: bool)
        ensures
            r == self.spec_flag_z(),
    {
        proof {
            reveal(zero_flag);
            lemma_flag_masks(self.f);
        }
        self.f & 0x80 != 0
    }

    pub fn set_flag_z(&mut self, v: bool)
        ensures
            *final(self) == old(self).with_flag_z(v),
            final(self).flags_clean() == old(self).flags_clean(),
    {
        proof {
            reveal(zero_flag);
            reveal(subtract_flag);
            reveal(half_carry_flag);
            reveal(carry_flag);
            reveal(packed_flags);
            lemma_flag_masks(self.f);
        }
        self.f = if v {
            self.f | 0x80
        } else {
            self.f & 0x7f
        };
    }

    #[verifier::when_used_as_spec(spec_flag_n)]
    pub fn flag_n(&self) -> (r: bool)
        ensures
            r == self.spec_flag_n(),
    {
        proof {
            reveal(subtract_flag);
            lemma_flag_masks(self.f);
        }
        self.f & 0x40 != 0
    }

    pub fn set_flag_n(&mut self, v: bool)
        ensures
            *final(self) == old(self).with_flag_n(v),
            final(self).flags_clean() == old(self).flags_clean(),
    {
        proof {
            reveal(zero_flag);
            reveal(subtract_flag);
            reveal(half_carry_flag);
            reveal(carry_flag);
            reveal(packed_flags);
            lemma_flag_masks(self.f);
        }
        self.f = if v {
            self.f | 0x40
        } else {
            self.f & 0xbf
        };
    }

    #[verifier::when_used_as_spec(spec_flag_h)]
    pub fn flag_h(&self) -> (r: bool)
        ensures
            r == self.spec_flag_h(),
    {
        proof {
            reveal(half_carry_flag);
            lemma_flag_masks(self.f);
        }
        self.f & 0x20 != 0
    }

    pub fn set_flag_h(&mut self, v: bool)
        ensures
            *final(self) == old(self).with_flag_h(v),
            final(self).flags_clean() == old(self).flags_clean(),
    {
        proof {
            reveal(zero_flag);
            reveal(subtract_flag);
            reveal(half_carry_flag);
            reveal(carry_flag);
            reveal(packed_flags);
            lemma_flag_masks(self.f);
        }
        self.f = if v {
            self.f | 0x20
        } else {
            self.f & 0xdf
        };
    }

    #[verifier::when_used_as_spec(spec_flag_c)]
    pub fn flag_c(&self) -> (r: bool)
        ensures
            r == self.spec_flag_c(),
    {
        proof {
            reveal(carry_flag);
            lemma_flag_masks(self.f);
        }
        self.f & 0x10 != 0
    }

    pub fn set_flag_c(&mut self, v: bool)
        ensures
            *final(self) == old(self).with_flag_c(v),
            final(self).flags_clean() == old(self).flags_clean(),
    {
        proof {
            reveal(zero_flag);
            reveal(subtract_flag);
            reveal(half_carry_flag);
            reveal(carry_flag);
            reveal(packed_flags);
            lemma_flag_masks(self.f);
        }
        self.f = if v {
            self.f | 0x10
        } else {
            self.f & 0xef
        };
    }

    #[verifier::when_used_as_spec(spec_af)]
    pub fn af(&self) -> (r: u16)
        ensures
            r == self.spec_af(),
    {
        proof {
            reveal(pair);
            lemma_word_join(self.a, self.f);
        }
        (self.a as u16) << 8 | (self.f as u16)
    }

    pub fn set_af(&mut self, v: u16)
        ensures
            *final(self) == old(self).with_af(v),
            final(self).flags_clean(),
    {
        proof {
            reveal(high_byte);
            reveal(low_byte);
            lemma_word_split(v);
        }
        self.a = (v >> 8) as u8;
        self.f = (v & 0xf0) as u8;
    }

    #[verifier::when_used_as_spec(spec_bc)]
    pub fn bc(&self) -> (r: u16)
        ensures
            r == self.spec_bc(),
    {
        proof {
            reveal(pair);
            lemma_word_join(self.b, self.c);
        }
        (self.b as u16) << 8 | (self.c as u16)
    }

    pub fn set_bc(&mut self, v: u16)
        ensures
            *final(self) == old(self).with_bc(v),
            final(self).flags_clean() == old(self).flags_clean(),
    {
        proof {
            reveal(high_byte);
            reveal(low_byte);
            lemma_word_split(v);
        }
        self.b = (v >> 8) as u8;
        self.c = v as u8;
    }

    #[verifier::when_used_as_spec(spec_de)]
    pub fn de(&self) -> (r: u16)
        ensures
            r == self.spec_de(),
    {
        proof {
            reveal(pair);
            lemma_word_join(self.d, self.e);
        }
        (self.d as u16) << 8 | (self.e as u16)
    }

    pub fn set_de(&mut self, v: u16)
        ensures
            *final(self) == old(self).with_de(v),
            final(self).flags_clean() == old(self).flags_clean(),
    {
        proof {
            reveal(high_byte);
            reveal(low_byte);
            lemma_word_split(v);
        }
        self.d = (v >> 8) as u8;
        self.e = v as u8;
    }

    #[verifier::when_used_as_spec(spec_hl)]
    pub fn hl(&self) -> (r: u16)
        ensures
            r == self.spec_hl(),
    {
        proof {
            reveal(pair);
            lemma_word_join(self.h, self.l);
        }
        (self.h as u16) << 8 | (self.l as u16)
    }

    pub fn set_hl(&mut self, v: u16)
        ensures
            *final(self) == old(self).with_hl(v),
            final(self).flags_clean() == old(self).flags_clean(),
    {
        proof {
            reveal(high_byte);
            reveal(low_byte);
            lemma_word_split(v);
        }
        self.h = (v >> 8) as u8;
        self.l = v as u8;
    }
}

/// A register pair reads back the value last written to it: BC, DE and HL
/// exactly, AF with the low nibble of the flags byte cleared.
pub proof fn lemma_pair_round_trip(r: Registers, v: u16)
    ensures
        r.with_bc(v).spec_bc() == v,
        r.with_de(v).spec_de() == v,
        r.with_hl(v).spec_hl() == v,
        r.with_af(v).spec_af() == v - v % 16,
        r.with_af(v).flags_clean(),
{
    reveal(pair);
    reveal(high_byte);
    reveal(low_byte);
}

/// A sixteen-bit value is the pair of its two bytes, and the bytes of a pair
/// are the bytes it was made of.
pub proof fn lemma_pair_bytes(w: u16, hi: u8, lo: u8)
    ensures
        pair(high_byte(w), low_byte(w)) == w,
        high_byte(pair(hi, lo)) == hi,
        low_byte(pair(hi, lo)) == lo,
        pair(hi, lo) == hi * 256 + lo,
        high_byte(w) == w / 256,
        low_byte(w) == w % 256,
{
    reveal(pair);
    reveal(high_byte);
    reveal(low_byte);
}

/// Writing one flag changes neither the other three flags nor the low nibble
/// of the flags byte, and the flag reads back as written.
pub proof fn lemma_flags_independent(r: Registers, z: bool, n: bool, h: bool, c: bool)
    ensures
        r.with_flags(z, n, h, c).spec_flag_z() == z,
        r.with_flags(z, n, h, c).spec_flag_n() == n,
        r.with_flags(z, n, h, c).spec_flag_h() == h,
        r.with_flags(z, n, h, c).spec_flag_c() == c,
        r.with_flags(z, n, h, c).f % 16 == r.f % 16,
        r.with_flags(r.spec_flag_z(), r.spec_flag_n(), r.spec_flag_h(), r.spec_flag_c()) == r,
        r.with_flags(z, n, h, c) == (Registers { f: r.with_flags(z, n, h, c).f, ..r }),
        r.with_flags(z, n, h, c).flags_clean() == r.flags_clean(),
{
    reveal(zero_flag);
    reveal(subtract_flag);
    reveal(half_carry_flag);
    reveal(carry_flag);
    reveal(packed_flags);
}

} // verus!
