//! The arithmetic and logic unit: every operation that computes a value and
//! the flags that go with it, on the register file alone.
//!
//! Each contract gives the result as plain arithmetic on the operands and the
//! four flags as the truth table of the instruction set: Zero when the result
//! is zero, Subtract by the polarity of the operation, Half-carry on a carry
//! or borrow out of the low nibble, Carry on one out of the whole operand.

use crate::bits::{
    b2i, lemma_flags_pack, lemma_low_nibble, lemma_shift_in, lemma_shifts, lemma_word_low,
};
use crate::registers::{lemma_flags_independent, packed_flags, Registers};
use vstd::prelude::*;

verus! {

/// `x` reduced to a byte.
#[verifier::opaque]
pub open spec fn wrap8(x: int) -> u8 {
    (x % 256) as u8
}

/// `x` reduced to sixteen bits.
#[verifier::opaque]
pub open spec fn wrap16(x: int) -> u16 {
    (x % 65536) as u16
}

/// The value of a byte read as a two's-complement offset.
pub open spec fn signed_offset(e: u8) -> int {
    if e < 128 {
        e as int
    } else {
        e - 256
    }
}

/// `base` moved by the signed offset `e`, within sixteen bits.
pub open spec fn offset_address(base: u16, e: u8) -> u16 {
    wrap16(base + signed_offset(e))
}

/// `base` moved by the signed offset `e`.
pub fn add_signed_offset(base: u16, e: u8) -> (r: u16)
    ensures
        r == offset_address(base, e),
{
    proof {
        reveal(wrap16);
    }
    if e < 128 {
        base.wrapping_add(e as u16)
    } else {
        base.wrapping_sub(256 - e as u16)
    }
}

/// The result of rotation or shift `op` on `value`, with the carry `carry`
/// coming in: rotate left, rotate right, the same two through the carry,
/// shift left, arithmetic shift right, nibble swap, logical shift right.
#[verifier::opaque]
pub open spec fn shifted(op: int, value: u8, carry: int) -> u8 {
    if op == 0 {
        ((value % 128) * 2 + value / 128) as u8
    } else if op == 1 {
        (value / 2 + (value % 2) * 128) as u8
    } else if op == 2 {
        ((value % 128) * 2 + carry) as u8
    } else if op == 3 {
        (value / 2 + carry * 128) as u8
    } else if op == 4 {
        ((value % 128) * 2) as u8
    } else if op == 5 {
        (value / 2 + (value / 128) * 128) as u8
    } else if op == 6 {
        (value / 16 + (value % 16) * 16) as u8
    } else {
        value / 2
    }
}

/// The bit that rotation or shift `op` pushes out of `value`; the nibble
/// swap pushes none.
#[verifier::opaque]
pub open spec fn shifted_out(op: int, value: u8) -> bool {
    if op == 0 || op == 2 || op == 4 {
        value >= 128
    } else if op == 6 {
        false
    } else {
        value % 2 == 1
    }
}

/// The accumulator after decimal adjustment, and the carry that goes with it.
#[verifier::opaque]
pub open spec fn decimal_adjust(a: u8, n: bool, h: bool, c: bool) -> (u8, bool) {
    if !n {
        let high = c || a > 0x99;
        let a1 = if high {
            a.wrapping_add(0x60)
        } else {
            a
        };
        let a2 = if h || a1 % 16 > 9 {
            a1.wrapping_add(0x06)
        } else {
            a1
        };
        (a2, high)
    } else {
        let a1 = if c {
            a.wrapping_sub(0x60)
        } else {
            a
        };
        let a2 = if h {
            a1.wrapping_sub(0x06)
        } else {
            a1
        };
        (a2, c)
    }
}

/// Corrects the accumulator to packed decimal after an addition (`n` clear)
/// or a subtraction (`n` set) of packed decimal operands.
pub fn adjust_decimal(a: u8, n: bool, h: bool, c: bool) -> (r: (u8, bool))
    ensures
        r == decimal_adjust(a, n, h, c),
{
    proof {
        reveal(decimal_adjust);
    }
    if !n {
        let high = c || a > 0x99;
        let a1 = if high {
            a.wrapping_add(0x60)
        } else {
            a
        };
        proof {
            lemma_low_nibble(a1);
        }
        let a2 = if h || (a1 & 0x0f) > 0x09 {
            a1.wrapping_add(0x06)
        } else {
            a1
        };
        (a2, high)
    } else {
        let a1 = if c {
            a.wrapping_sub(0x60)
        } else {
            a
        };
        let a2 = if h {
            a1.wrapping_sub(0x06)
        } else {
            a1
        };
        (a2, c)
    }
}

impl Registers {
    pub open spec fn carry_in(self) -> int {
        b2i(self.spec_flag_c())
    }

    pub open spec fn with_a(self, a: u8) -> Registers {
        Registers { a, ..self }
    }

    /// `A + value + carry`, with carry `0` or `1`.
    #[verifier::opaque]
    pub open spec fn after_add(self, value: u8, carry: int) -> Registers {
        let sum = self.a + value + carry;
        self.with_a(wrap8(sum)).with_flags(
            wrap8(sum) == 0,
            false,
            self.a % 16 + value % 16 + carry > 15,
            sum > 255,
        )
    }

    /// The flags of `A - value - borrow`, with borrow `0` or `1`; the
    /// accumulator is left alone.
    #[verifier::opaque]
    pub open spec fn after_compare(self, value: u8, borrow: int) -> Registers {
        self.with_flags(
            wrap8(self.a - value - borrow) == 0,
            true,
            self.a % 16 < value % 16 + borrow,
            self.a < value + borrow,
        )
    }

    /// `A - value - borrow`, with borrow `0` or `1`.
    #[verifier::opaque]
    pub open spec fn after_sub(self, value: u8, borrow: int) -> Registers {
        self.with_a(wrap8(self.a - value - borrow)).with_flags(
            wrap8(self.a - value - borrow) == 0,
            true,
            self.a % 16 < value % 16 + borrow,
            self.a < value + borrow,
        )
    }

    #[verifier::opaque]
    pub open spec fn after_and(self, value: u8) -> Registers {
        self.with_a(self.a & value).with_flags(self.a & value == 0, false, true, false)
    }

    #[verifier::opaque]
    pub open spec fn after_xor(self, value: u8) -> Registers {
        self.with_a(self.a ^ value).with_flags(self.a ^ value == 0, false, false, false)
    }

    #[verifier::opaque]
    pub open spec fn after_or(self, value: u8) -> Registers {
        self.with_a(self.a | value).with_flags(self.a | value == 0, false, false, false)
    }

    /// The flags of `value + 1`; Carry is kept.
    #[verifier::opaque]
    pub open spec fn after_inc(self, value: u8) -> Registers {
        self.with_flags(value == 255, false, value % 16 == 15, self.spec_flag_c())
    }

    /// The flags of `value - 1`; Carry is kept.
    #[verifier::opaque]
    pub open spec fn after_dec(self, value: u8) -> Registers {
        self.with_flags(value == 1, true, value % 16 == 0, self.spec_flag_c())
    }

    /// `HL + value`; Zero is kept, Half-carry is the carry out of bit 11.
    #[verifier::opaque]
    pub open spec fn after_add_hl(self, value: u16) -> Registers {
        let hl = self.spec_hl();
        self.with_hl(hl.wrapping_add(value)).with_flags(
            self.spec_flag_z(),
            false,
            hl % 4096 + value % 4096 > 4095,
            hl + value > 65535,
        )
    }

    /// The flags of `SP + e` for a signed byte `e`: both carries are those of
    /// the unsigned addition of `e` to the low byte of `SP`.
    #[verifier::opaque]
    pub open spec fn after_offset_sp(self, e: u8) -> Registers {
        self.with_flags(false, false, self.sp % 16 + e % 16 > 15, self.sp % 256 + e > 255)
    }

    /// The flags after rotation or shift `op` of `value`.
    pub open spec fn after_shift(self, op: int, value: u8) -> Registers {
        self.with_flags(
            shifted(op, value, self.carry_in()) == 0,
            false,
            false,
            shifted_out(op, value),
        )
    }

    /// The accumulator after one of the four short rotations `op`, which
    /// always clear Zero.
    pub open spec fn after_rotate_a(self, op: int) -> Registers {
        self.with_a(shifted(op, self.a, self.carry_in())).with_flags(
            false,
            false,
            false,
            shifted_out(op, self.a),
        )
    }

    pub open spec fn after_daa(self) -> Registers {
        let adjusted = decimal_adjust(
            self.a,
            self.spec_flag_n(),
            self.spec_flag_h(),
            self.spec_flag_c(),
        );
        self.with_a(adjusted.0).with_flags(adjusted.0 == 0, self.spec_flag_n(), false, adjusted.1)
    }

    pub open spec fn after_cpl(self) -> Registers {
        self.with_a((255 - self.a) as u8).with_flags(
            self.spec_flag_z(),
            true,
            true,
            self.spec_flag_c(),
        )
    }

    pub open spec fn after_scf(self) -> Registers {
        self.with_flags(self.spec_flag_z(), false, false, true)
    }

    pub open spec fn after_ccf(self) -> Registers {
        self.with_flags(self.spec_flag_z(), false, false, !self.spec_flag_c())
    }

    /// Writes all four flags at once.
    pub fn set_flags(&mut self, z: bool, n: bool, h: bool, c: bool)
        ensures
            *final(self) == old(self).with_flags(z, n, h, c),
            final(self).flags_clean() == old(self).flags_clean(),
    {
        proof {
            reveal(packed_flags);
            lemma_flags_pack(self.f, z, n, h, c);
        }
        let zb: u8 = if z {
            0x80
        } else {
            0
        };
        let nb: u8 = if n {
            0x40
        } else {
            0
        };
        let hb: u8 = if h {
            0x20
        } else {
            0
        };
        let cb: u8 = if c {
            0x10
        } else {
            0
        };
        self.f = zb | nb | hb | cb | (self.f & 0x0f);
    }

    /// The carry flag as `0` or `1`.
    fn carry_bit(&self) -> (r: u8)
        ensures
            r == self.carry_in(),
            r <= 1,
    {
        if self.flag_c() {
            1
        } else {
            0
        }
    }

    /// Adds `value` and `carry` to the accumulator.
    fn add_with(&mut self, value: u8, carry: u8)
        requires
            carry <= 1,
        ensures
            *final(self) == old(self).after_add(value, carry as int),
            final(self).flags_clean() == old(self).flags_clean(),
    {
        proof {
            reveal(Registers::after_add);
            reveal(wrap8);
            lemma_low_nibble(self.a);
            lemma_low_nibble(value);
        }
        let result = self.a.wrapping_add(value).wrapping_add(carry);
        let half = (self.a & 0x0f) + (value & 0x0f) + carry > 0x0f;
        let full = self.a as u16 + value as u16 + carry as u16 > 0xff;
        self.a = result;
        self.set_flags(result == 0, false, half, full);
    }

    /// Sets the flags of subtracting `value` and `borrow` from the
    /// accumulator, and returns the difference.
    fn compare_with(&mut self, value: u8, borrow: u8) -> (result: u8)
        requires
            borrow <= 1,
        ensures
            result == wrap8(old(self).a - value - borrow),
            *final(self) == old(self).after_compare(value, borrow as int),
            final(self).with_a(result) == old(self).after_sub(value, borrow as int),
            final(self).flags_clean() == old(self).flags_clean(),
    {
        proof {
            reveal(Registers::after_compare);
            reveal(Registers::after_sub);
            reveal(packed_flags);
            reveal(wrap8);
            lemma_low_nibble(self.a);
            lemma_low_nibble(value);
        }
        let result = self.a.wrapping_sub(value).wrapping_sub(borrow);
        let half = (self.a & 0x0f) < (value & 0x0f) + borrow;
        let full = (self.a as u16) < (value as u16 + borrow as u16);
        self.set_flags(result == 0, true, half, full);
        result
    }

    pub fn add8(&mut self, value: u8)
        ensures
            *final(self) == old(self).after_add(value, 0),
            final(self).flags_clean() == old(self).flags_clean(),
    {
        self.add_with(value, 0);
    }

    pub fn adc8(&mut self, value: u8)
        ensures
            *final(self) == old(self).after_add(value, old(self).carry_in()),
            final(self).flags_clean() == old(self).flags_clean(),
    {
        let carry = self.carry_bit();
        self.add_with(value, carry);
    }

    pub fn sub8(&mut self, value: u8)
        ensures
            *final(self) == old(self).after_sub(value, 0),
            final(self).flags_clean() == old(self).flags_clean(),
    {
        self.a = self.compare_with(value, 0);
    }

    pub fn sbc8(&mut self, value: u8)
        ensures
            *final(self) == old(self).after_sub(value, old(self).carry_in()),
            final(self).flags_clean() == old(self).flags_clean(),
    {
        let carry = self.carry_bit();
        self.a = self.compare_with(value, carry);
    }

    pub fn and8(&mut self, value: u8)
        ensures
            *final(self) == old(self).after_and(value),
            final(self).flags_clean() == old(self).flags_clean(),
    {
        proof {
            reveal(Registers::after_and);
        }
        self.a &= value;
        self.set_flags(self.a == 0, false, true, false);
    }

    pub fn xor8(&mut self, value: u8)
        ensures
            *final(self) == old(self).after_xor(value),
            final(self).flags_clean() == old(self).flags_clean(),
    {
        proof {
            reveal(Registers::after_xor);
        }
        self.a ^= value;
        self.set_flags(self.a == 0, false, false, false);
    }

    pub fn or8(&mut self, value: u8)
        ensures
            *final(self) == old(self).after_or(value),
            final(self).flags_clean() == old(self).flags_clean(),
    {
        proof {
            reveal(Registers::after_or);
        }
        self.a |= value;
        self.set_flags(self.a == 0, false, false, false);
    }

    pub fn cp8(&mut self, value: u8)
        ensures
            *final(self) == old(self).after_compare(value, 0),
            final(self).flags_clean() == old(self).flags_clean(),
    {
        let _ = self.compare_with(value, 0);
    }

    pub fn inc8(&mut self, value: u8) -> (result: u8)
        ensures
            result == value.wrapping_add(1),
            *final(self) == old(self).after_inc(value),
            final(self).flags_clean() == old(self).flags_clean(),
    {
        proof {
            reveal(Registers::after_inc);
            lemma_low_nibble(value);
        }
        let result = value.wrapping_add(1);
        let carry = self.flag_c();
        self.set_flags(result == 0, false, (value & 0x0f) == 0x0f, carry);
        result
    }

    pub fn dec8(&mut self, value: u8) -> (result: u8)
        ensures
            result == value.wrapping_sub(1),
            *final(self) == old(self).after_dec(value),
            final(self).flags_clean() == old(self).flags_clean(),
    {
        proof {
            reveal(Registers::after_dec);
            lemma_low_nibble(value);
        }
        let result = value.wrapping_sub(1);
        let carry = self.flag_c();
        self.set_flags(result == 0, true, (value & 0x0f) == 0, carry);
        result
    }

    pub fn add_hl(&mut self, value: u16)
        ensures
            *final(self) == old(self).after_add_hl(value),
            final(self).flags_clean() == old(self).flags_clean(),
    {
        let hl = self.hl();
        proof {
            reveal(Registers::after_add_hl);
            lemma_word_low(hl);
            lemma_word_low(value);
        }
        let result = hl.wrapping_add(value);
        let zero = self.flag_z();
        let half = (hl & 0x0fff) + (value & 0x0fff) > 0x0fff;
        let carry = hl as u32 + value as u32 > 0xffff;
        self.set_hl(result);
        self.set_flags(zero, false, half, carry);
    }

    /// Sets the flags of adding the signed byte `e` to the stack pointer and
    /// returns the sum; the stack pointer itself is not written.
    pub fn offset_sp(&mut self, e: u8) -> (result: u16)
        ensures
            result == offset_address(old(self).sp, e),
            *final(self) == old(self).after_offset_sp(e),
            final(self).flags_clean() == old(self).flags_clean(),
    {
        let sp = self.sp;
        proof {
            reveal(Registers::after_offset_sp);
            lemma_word_low(sp);
            lemma_low_nibble(e);
        }
        let result = add_signed_offset(sp, e);
        let half = (sp & 0x0f) + ((e & 0x0f) as u16) > 0x0f;
        let carry = (sp & 0xff) + (e as u16) > 0xff;
        self.set_flags(false, false, half, carry);
        result
    }

    pub fn rlca(&mut self)
        ensures
            *final(self) == old(self).after_rotate_a(0),
            final(self).flags_clean() == old(self).flags_clean(),
    {
        proof {
            reveal(shifted);
            reveal(shifted_out);
            lemma_shifts(self.a);
        }
        let carry = (self.a >> 7) & 1;
        self.a = (self.a << 1) | carry;
        self.set_flags(false, false, false, carry == 1);
    }

    pub fn rrca(&mut self)
        ensures
            *final(self) == old(self).after_rotate_a(1),
            final(self).flags_clean() == old(self).flags_clean(),
    {
        proof {
            reveal(shifted);
            reveal(shifted_out);
            lemma_shifts(self.a);
        }
        let carry = self.a & 1;
        self.a = (self.a >> 1) | (carry << 7);
        self.set_flags(false, false, false, carry == 1);
    }

    pub fn rla(&mut self)
        ensures
            *final(self) == old(self).after_rotate_a(2),
            final(self).flags_clean() == old(self).flags_clean(),
    {
        let carry = self.carry_bit();
        proof {
            reveal(shifted);
            reveal(shifted_out);
            lemma_shifts(self.a);
            lemma_shift_in(self.a, carry);
        }
        let new_carry = (self.a >> 7) & 1;
        self.a = (self.a << 1) | carry;
        self.set_flags(false, false, false, new_carry == 1);
    }

    pub fn rra(&mut self)
        ensures
            *final(self) == old(self).after_rotate_a(3),
            final(self).flags_clean() == old(self).flags_clean(),
    {
        let carry = self.carry_bit();
        proof {
            reveal(shifted);
            reveal(shifted_out);
            lemma_shifts(self.a);
            lemma_shift_in(self.a, carry);
        }
        let new_carry = self.a & 1;
        self.a = (self.a >> 1) | (carry << 7);
        self.set_flags(false, false, false, new_carry == 1);
    }

    pub fn rlc(&mut self, value: u8) -> (result: u8)
        ensures
            result == shifted(0, value, old(self).carry_in()),
            *final(self) == old(self).after_shift(0, value),
            final(self).flags_clean() == old(self).flags_clean(),
    {
        proof {
            reveal(shifted);
            reveal(shifted_out);
            lemma_shifts(value);
        }
        let carry = (value >> 7) & 1;
        let result = (value << 1) | carry;
        self.set_flags(result == 0, false, false, carry == 1);
        result
    }

    pub fn rrc(&mut self, value: u8) -> (result: u8)
        ensures
            result == shifted(1, value, old(self).carry_in()),
            *final(self) == old(self).after_shift(1, value),
            final(self).flags_clean() == old(self).flags_clean(),
    {
        proof {
            reveal(shifted);
            reveal(shifted_out);
            lemma_shifts(value);
        }
        let carry = value & 1;
        let result = (value >> 1) | (carry << 7);
        self.set_flags(result == 0, false, false, carry == 1);
        result
    }

    pub fn rl(&mut self, value: u8) -> (result: u8)
        ensures
            result == shifted(2, value, old(self).carry_in()),
            *final(self) == old(self).after_shift(2, value),
            final(self).flags_clean() == old(self).flags_clean(),
    {
        let carry = self.carry_bit();
        proof {
            reveal(shifted);
            reveal(shifted_out);
            lemma_shifts(value);
            lemma_shift_in(value, carry);
        }
        let new_carry = (value >> 7) & 1;
        let result = (value << 1) | carry;
        self.set_flags(result == 0, false, false, new_carry == 1);
        result
    }

    pub fn rr(&mut self, value: u8) -> (result: u8)
        ensures
            result == shifted(3, value, old(self).carry_in()),
            *final(self) == old(self).after_shift(3, value),
            final(self).flags_clean() == old(self).flags_clean(),
    {
        let carry = self.carry_bit();
        proof {
            reveal(shifted);
            reveal(shifted_out);
            lemma_shifts(value);
            lemma_shift_in(value, carry);
        }
        let new_carry = value & 1;
        let result = (value >> 1) | (carry << 7);
        self.set_flags(result == 0, false, false, new_carry == 1);
        result
    }

    pub fn sla(&mut self, value: u8) -> (result: u8)
        ensures
            result == shifted(4, value, old(self).carry_in()),
            *final(self) == old(self).after_shift(4, value),
            final(self).flags_clean() == old(self).flags_clean(),
    {
        proof {
            reveal(shifted);
            reveal(shifted_out);
            lemma_shifts(value);
        }
        let carry = (value >> 7) & 1;
        let result = value << 1;
        self.set_flags(result == 0, false, false, carry == 1);
        result
    }

    pub fn sra(&mut self, value: u8) -> (result: u8)
        ensures
            result == shifted(5, value, old(self).carry_in()),
            *final(self) == old(self).after_shift(5, value),
            final(self).flags_clean() == old(self).flags_clean(),
    {
        proof {
            reveal(shifted);
            reveal(shifted_out);
            lemma_shifts(value);
        }
        let carry = value & 1;
        let result = (value >> 1) | (value & 0x80);
        self.set_flags(result == 0, false, false, carry == 1);
        result
    }

    pub fn srl(&mut self, value: u8) -> (result: u8)
        ensures
            result == shifted(7, value, old(self).carry_in()),
            *final(self) == old(self).after_shift(7, value),
            final(self).flags_clean() == old(self).flags_clean(),
    {
        proof {
            reveal(shifted);
            reveal(shifted_out);
            lemma_shifts(value);
        }
        let carry = value & 1;
        let result = value >> 1;
        self.set_flags(result == 0, false, false, carry == 1);
        result
    }

    pub fn swap(&mut self, value: u8) -> (result: u8)
        ensures
            result == shifted(6, value, old(self).carry_in()),
            *final(self) == old(self).after_shift(6, value),
            final(self).flags_clean() == old(self).flags_clean(),
    {
        proof {
            reveal(shifted);
            reveal(shifted_out);
            lemma_shifts(value);
        }
        let result = (value >> 4) | (value << 4);
        self.set_flags(result == 0, false, false, false);
        result
    }

    pub fn daa(&mut self)
        ensures
            *final(self) == old(self).after_daa(),
            final(self).flags_clean() == old(self).flags_clean(),
    {
        let subtract = self.flag_n();
        let (a, carry) = adjust_decimal(self.a, subtract, self.flag_h(), self.flag_c());
        self.a = a;
        self.set_flags(a == 0, subtract, false, carry);
    }

    pub fn cpl(&mut self)
        ensures
            *final(self) == old(self).after_cpl(),
            final(self).flags_clean() == old(self).flags_clean(),
    {
        proof {
            lemma_shifts(self.a);
        }
        let zero = self.flag_z();
        let carry = self.flag_c();
        self.a = !self.a;
        self.set_flags(zero, true, true, carry);
    }

    pub fn scf(&mut self)
        ensures
            *final(self) == old(self).after_scf(),
            final(self).flags_clean() == old(self).flags_clean(),
    {
        let zero = self.flag_z();
        self.set_flags(zero, false, false, true);
    }

    pub fn ccf(&mut self)
        ensures
            *final(self) == old(self).after_ccf(),
            final(self).flags_clean() == old(self).flags_clean(),
    {
        let zero = self.flag_z();
        let carry = self.flag_c();
        self.set_flags(zero, false, false, !carry);
    }
}

/// Addition, with or without carry: the sum modulo 256 in the accumulator,
/// Zero on a zero sum, Subtract clear, Half-carry on a carry out of bit 3,
/// Carry on a carry out of bit 7; nothing else changes.
pub proof fn lemma_add_flags(r: Registers, value: u8, carry: int)
    requires
        0 <= carry <= 1,
    ensures
        r.after_add(value, carry).a == (r.a + value + carry) % 256,
        r.after_add(value, carry).spec_flag_z() == ((r.a + value + carry) % 256 == 0),
        !r.after_add(value, carry).spec_flag_n(),
        r.after_add(value, carry).spec_flag_h() == (r.a % 16 + value % 16 + carry > 15),
        r.after_add(value, carry).spec_flag_c() == (r.a + value + carry > 255),
        r.after_add(value, carry).f % 16 == r.f % 16,
        r.after_add(value, carry) == (Registers {
            a: r.after_add(value, carry).a,
            f: r.after_add(value, carry).f,
            ..r
        }),
{
    reveal(Registers::after_add);
    reveal(wrap8);
    let sum = r.a + value + carry;
    lemma_flags_independent(
        r.with_a(wrap8(sum)),
        wrap8(sum) == 0,
        false,
        r.a % 16 + value % 16 + carry > 15,
        sum > 255,
    );
}

/// Subtraction and comparison, with or without borrow: Zero on a zero
/// difference, Subtract set, Half-carry on a borrow into bit 3, Carry on a
/// borrow into bit 7. Subtraction leaves the difference modulo 256 in the
/// accumulator; comparison leaves the accumulator alone.
pub proof fn lemma_sub_flags(r: Registers, value: u8, borrow: int)
    requires
        0 <= borrow <= 1,
    ensures
        r.after_sub(value, borrow).a == (r.a - value - borrow) % 256,
        r.after_compare(value, borrow).a == r.a,
        r.after_sub(value, borrow).f == r.after_compare(value, borrow).f,
        r.after_compare(value, borrow).spec_flag_z() == ((r.a - value - borrow) % 256 == 0),
        r.after_compare(value, borrow).spec_flag_n(),
        r.after_compare(value, borrow).spec_flag_h() == (r.a % 16 < value % 16 + borrow),
        r.after_compare(value, borrow).spec_flag_c() == (r.a < value + borrow),
        r.after_compare(value, borrow).f % 16 == r.f % 16,
        r.after_compare(value, borrow) == (Registers {
            f: r.after_compare(value, borrow).f,
            ..r
        }),
        r.after_sub(value, borrow) == (Registers {
            a: r.after_sub(value, borrow).a,
            ..r.after_compare(value, borrow)
        }),
{
    reveal(Registers::after_sub);
    reveal(Registers::after_compare);
    reveal(wrap8);
    let diff = wrap8(r.a - value - borrow);
    lemma_flags_independent(
        r,
        diff == 0,
        true,
        r.a % 16 < value % 16 + borrow,
        r.a < value + borrow,
    );
    lemma_flags_independent(
        r.with_a(diff),
        diff == 0,
        true,
        r.a % 16 < value % 16 + borrow,
        r.a < value + borrow,
    );
}

/// Increment and decrement of a byte: Zero when the result wraps to or
/// reaches zero, Subtract by the direction, Half-carry on a carry out of or
/// a borrow into bit 3, and Carry as it was; no register but the flags byte
/// changes.
pub proof fn lemma_inc_dec_flags(r: Registers, value: u8)
    ensures
        r.after_inc(value).spec_flag_z() == ((value + 1) % 256 == 0),
        !r.after_inc(value).spec_flag_n(),
        r.after_inc(value).spec_flag_h() == (value % 16 == 15),
        r.after_inc(value).spec_flag_c() == r.spec_flag_c(),
        r.after_inc(value) == (Registers { f: r.after_inc(value).f, ..r }),
        r.after_inc(value).f % 16 == r.f % 16,
        r.after_dec(value).spec_flag_z() == ((value - 1) % 256 == 0),
        r.after_dec(value).spec_flag_n(),
        r.after_dec(value).spec_flag_h() == (value % 16 == 0),
        r.after_dec(value).spec_flag_c() == r.spec_flag_c(),
        r.after_dec(value) == (Registers { f: r.after_dec(value).f, ..r }),
        r.after_dec(value).f % 16 == r.f % 16,
{
    reveal(Registers::after_inc);
    reveal(Registers::after_dec);
    lemma_flags_independent(r, value == 255, false, value % 16 == 15, r.spec_flag_c());
    lemma_flags_independent(r, value == 1, true, value % 16 == 0, r.spec_flag_c());
}

} // verus!
