//! Operand access and the three regular parts of the opcode table: the
//! register-to-register loads, the arithmetic block and the extended page.

use super::GameBoy;
use crate::bits::{lemma_opcode_fields, lemma_single_bit, lemma_word_join, lemma_word_split};
use crate::bits::{bit_is_set, with_bit};
use crate::alu::shifted;
use crate::machine::Machine;
use crate::registers::{high_byte, lemma_pair_bytes, low_byte};
use vstd::prelude::*;

verus! {

impl GameBoy {
    /// Reads the byte at the program counter and steps past it.
    pub(super) fn fetch_byte(&mut self) -> (byte: u8)
        requires
            old(self)@.wf(),
        ensures
            byte == old(self)@.operand8(),
            final(self)@ == old(self)@.skip(1),
            final(self)@.wf(),
    {
        let byte = self.mmu.read_byte(self.registers.pc);
        self.registers.pc = self.registers.pc.wrapping_add(1);
        byte
    }

    /// Reads the two bytes at the program counter, low byte first, and
    /// steps past them.
    pub(super) fn fetch_word(&mut self) -> (word: u16)
        requires
            old(self)@.wf(),
        ensures
            word == old(self)@.operand16(),
            final(self)@ == old(self)@.skip(2),
            final(self)@.wf(),
    {
        let lo = self.fetch_byte();
        let hi = self.fetch_byte();
        proof {
            lemma_pair_bytes(0, hi, lo);
            lemma_word_join(hi, lo);
        }
        ((hi as u16) << 8) | (lo as u16)
    }

    pub(super) fn push_word(&mut self, val: u16)
        requires
            old(self)@.wf(),
        ensures
            final(self)@ == old(self)@.push(val),
            final(self)@.wf(),
    {
        proof {
            reveal(high_byte);
            reveal(low_byte);
            lemma_word_split(val);
        }
        self.registers.sp = self.registers.sp.wrapping_sub(1);
        self.mmu.write_byte(self.registers.sp, (val >> 8) as u8);
        self.registers.sp = self.registers.sp.wrapping_sub(1);
        self.mmu.write_byte(self.registers.sp, val as u8);
    }

    pub(super) fn pop_word(&mut self) -> (word: u16)
        requires
            old(self)@.wf(),
        ensures
            word == old(self)@.stack_top(),
            final(self)@ == old(self)@.pop(),
            final(self)@.wf(),
    {
        let lo = self.mmu.read_byte(self.registers.sp);
        self.registers.sp = self.registers.sp.wrapping_add(1);
        let hi = self.mmu.read_byte(self.registers.sp);
        self.registers.sp = self.registers.sp.wrapping_add(1);
        proof {
            lemma_pair_bytes(0, hi, lo);
            lemma_word_join(hi, lo);
        }
        ((hi as u16) << 8) | (lo as u16)
    }

    /// Reads the operand that selector `index` names.
    pub(super) fn get_reg8(&self, index: u8) -> (r: u8)
        requires
            self@.wf(),
            index < 8,
        ensures
            r == self@.reg8(index as int),
    {
        match index {
            0 => self.registers.b,
            1 => self.registers.c,
            2 => self.registers.d,
            3 => self.registers.e,
            4 => self.registers.h,
            5 => self.registers.l,
            6 => self.mmu.read_byte(self.registers.hl()),
            _ => self.registers.a,
        }
    }

    /// Writes the operand that selector `index` names.
    pub(super) fn set_reg8(&mut self, index: u8, value: u8)
        requires
            old(self)@.wf(),
            index < 8,
        ensures
            final(self)@ == old(self)@.with_reg8(index as int, value),
            final(self)@.wf(),
    {
        match index {
            0 => self.registers.b = value,
            1 => self.registers.c = value,
            2 => self.registers.d = value,
            3 => self.registers.e = value,
            4 => self.registers.h = value,
            5 => self.registers.l = value,
            6 => self.mmu.write_byte(self.registers.hl(), value),
            _ => self.registers.a = value,
        }
    }

    /// The loads between 8-bit operands, opcodes 0x40 to 0x7F without 0x76.
    pub(super) fn ld_rr(&mut self, opcode: u8)
        requires
            old(self)@.wf(),
            0x40 <= opcode < 0x80,
            opcode != 0x76,
        ensures
            final(self)@ == old(self)@.execute(opcode),
            final(self)@.wf(),
    {
        proof {
            lemma_opcode_fields(opcode);
        }
        let dst = (opcode >> 3) & 0x07;
        let src = opcode & 0x07;
        let value = self.get_reg8(src);
        self.set_reg8(dst, value);
        self.cycles = self.cycles.wrapping_add(
            if src == 6 || dst == 6 {
                8
            } else {
                4
            },
        );
    }

    /// The arithmetic block, opcodes 0x80 to 0xBF.
    pub(super) fn alu_op(&mut self, opcode: u8)
        requires
            old(self)@.wf(),
            0x80 <= opcode < 0xc0,
        ensures
            final(self)@ == old(self)@.execute(opcode),
            final(self)@.wf(),
    {
        proof {
            lemma_opcode_fields(opcode);
        }
        let op = (opcode >> 3) & 0x07;
        let reg = opcode & 0x07;
        let value = self.get_reg8(reg);
        self.alu(op, value);
        self.cycles = self.cycles.wrapping_add(
            if reg == 6 {
                8
            } else {
                4
            },
        );
    }

    /// Applies operation `op` of the arithmetic unit to the accumulator and
    /// `value`.
    pub(super) fn alu(&mut self, op: u8, value: u8)
        requires
            old(self)@.wf(),
            op < 8,
        ensures
            final(self)@ == old(self)@.with_regs(
                crate::machine::alu_applied(old(self)@.regs, op as int, value),
            ),
            final(self)@.wf(),
    {
        match op {
            0 => self.registers.add8(value),
            1 => self.registers.adc8(value),
            2 => self.registers.sub8(value),
            3 => self.registers.sbc8(value),
            4 => self.registers.and8(value),
            5 => self.registers.xor8(value),
            6 => self.registers.or8(value),
            _ => self.registers.cp8(value),
        }
    }

    /// Applies rotation or shift `kind` of the extended page to `value`.
    fn rotate(&mut self, kind: u8, value: u8) -> (result: u8)
        requires
            old(self)@.wf(),
            kind < 8,
        ensures
            result == shifted(kind as int, value, old(self)@.regs.carry_in()),
            final(self)@ == old(self)@.with_regs(old(self)@.regs.after_shift(kind as int, value)),
            final(self)@.wf(),
    {
        match kind {
            0 => self.registers.rlc(value),
            1 => self.registers.rrc(value),
            2 => self.registers.rl(value),
            3 => self.registers.rr(value),
            4 => self.registers.sla(value),
            5 => self.registers.sra(value),
            6 => self.registers.swap(value),
            _ => self.registers.srl(value),
        }
    }

    /// Sets the flags of a test of bit `bit` of `value`.
    fn test_bit(&mut self, bit: u8, value: u8)
        requires
            old(self)@.wf(),
            bit < 8,
        ensures
            final(self)@ == old(self)@.with_regs(
                old(self)@.regs.with_flags(
                    !bit_is_set(value, bit),
                    false,
                    true,
                    old(self)@.regs.spec_flag_c(),
                ),
            ),
            final(self)@.wf(),
    {
        proof {
            lemma_single_bit(value, bit);
        }
        let carry = self.registers.flag_c();
        self.registers.set_flags((value >> bit) & 1 == 0, false, true, carry);
    }

    /// `value` with bit `bit` cleared or set.
    fn change_bit(value: u8, bit: u8, on: bool) -> (r: u8)
        requires
            bit < 8,
        ensures
            r == with_bit(value, bit, on),
    {
        proof {
            lemma_single_bit(value, bit);
        }
        if on {
            value | (1u8 << bit)
        } else {
            value & !(1u8 << bit)
        }
    }

    /// The cycles of an instruction of the extended page.
    fn cb_cycles(opcode: u8) -> (r: u32)
        ensures
            r == Machine::timing_cb(opcode),
    {
        proof {
            lemma_opcode_fields(opcode);
        }
        if opcode & 0x07 != 6 {
            8
        } else if (opcode >> 6) & 0x03 == 1 {
            12
        } else {
            16
        }
    }

    /// The extended page: rotations and shifts, bit tests, bit resets and
    /// bit sets, each on any of the eight operands.
    pub(super) fn execute_cb_opcode(&mut self, opcode: u8)
        requires
            old(self)@.wf(),
        ensures
            final(self)@ == old(self)@.effect_cb(opcode).charge(Machine::timing_cb(opcode)),
            final(self)@.wf(),
    {
        proof {
            lemma_opcode_fields(opcode);
        }
        let reg = opcode & 0x07;
        let bit = (opcode >> 3) & 0x07;
        let op = (opcode >> 6) & 0x03;
        let value = self.get_reg8(reg);
        if op == 0 {
            let result = self.rotate(bit, value);
            self.set_reg8(reg, result);
        } else if op == 1 {
            self.test_bit(bit, value);
        } else if op == 2 {
            self.set_reg8(reg, Self::change_bit(value, bit, false));
        } else {
            self.set_reg8(reg, Self::change_bit(value, bit, true));
        }
        self.cycles = self.cycles.wrapping_add(Self::cb_cycles(opcode));
    }
}

} // verus!
