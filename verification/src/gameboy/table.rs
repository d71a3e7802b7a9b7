//! The opcode table: the first quarter by instruction family, the rest
//! handed on to the regular blocks and to the last quarter.

use super::GameBoy;
use crate::alu::add_signed_offset;
use crate::bits::lemma_word_split;
use crate::registers::{high_byte, low_byte};
use vstd::prelude::*;

verus! {

impl GameBoy {
    /// Whether branch condition `cc` holds: not zero, zero, no carry, carry.
    pub(super) fn condition(&self, cc: u8) -> (r: bool)
        requires
            cc < 4,
        ensures
            r == self@.condition(cc as int),
    {
        match cc {
            0 => !self.registers.flag_z(),
            1 => self.registers.flag_z(),
            2 => !self.registers.flag_c(),
            _ => self.registers.flag_c(),
        }
    }

    /// Reads the pair that selector `p` names: BC, DE, HL, SP.
    pub(super) fn get_reg16(&self, p: u8) -> (r: u16)
        requires
            p < 4,
        ensures
            r == self@.reg16(p as int),
    {
        match p {
            0 => self.registers.bc(),
            1 => self.registers.de(),
            2 => self.registers.hl(),
            _ => self.registers.sp,
        }
    }

    /// Writes the pair that selector `p` names: BC, DE, HL, SP.
    pub(super) fn set_reg16(&mut self, p: u8, value: u16)
        requires
            old(self)@.wf(),
            p < 4,
        ensures
            final(self)@ == old(self)@.with_reg16(p as int, value),
            final(self)@.wf(),
    {
        match p {
            0 => self.registers.set_bc(value),
            1 => self.registers.set_de(value),
            2 => self.registers.set_hl(value),
            _ => self.registers.sp = value,
        }
    }

    /// LD (nn), SP
    fn ld_nn_sp(&mut self)
        requires
            old(self)@.wf(),
        ensures
            final(self)@ == old(self)@.execute(0x08),
            final(self)@.wf(),
    {
        let addr = self.fetch_word();
        let sp = self.registers.sp;
        proof {
            reveal(high_byte);
            reveal(low_byte);
            lemma_word_split(sp);
        }
        self.mmu.write_byte(addr, (sp & 0xff) as u8);
        self.mmu.write_byte(addr.wrapping_add(1), ((sp >> 8) & 0xff) as u8);
        self.cycles = self.cycles.wrapping_add(20);
    }

    /// JR e and JR cc, e
    fn jr(&mut self, opcode: u8)
        requires
            old(self)@.wf(),
            opcode == 0x18 || opcode == 0x20 || opcode == 0x28 || opcode == 0x30 || opcode == 0x38,
        ensures
            final(self)@ == old(self)@.execute(opcode),
            final(self)@.wf(),
    {
        let taken = opcode == 0x18 || self.condition((opcode / 8) % 8 - 4);
        let offset = self.fetch_byte();
        if taken {
            self.registers.pc = add_signed_offset(self.registers.pc, offset);
            self.cycles = self.cycles.wrapping_add(12);
        } else {
            self.cycles = self.cycles.wrapping_add(8);
        }
    }

    /// LD rp, nn
    fn ld_rp_nn(&mut self, opcode: u8)
        requires
            old(self)@.wf(),
            opcode == 0x01 || opcode == 0x11 || opcode == 0x21 || opcode == 0x31,
        ensures
            final(self)@ == old(self)@.execute(opcode),
            final(self)@.wf(),
    {
        let val = self.fetch_word();
        self.set_reg16(opcode / 16, val);
        self.cycles = self.cycles.wrapping_add(12);
    }

    /// ADD HL, rp
    fn add_hl_rp(&mut self, opcode: u8)
        requires
            old(self)@.wf(),
            opcode == 0x09 || opcode == 0x19 || opcode == 0x29 || opcode == 0x39,
        ensures
            final(self)@ == old(self)@.execute(opcode),
            final(self)@.wf(),
    {
        let val = self.get_reg16(opcode / 16);
        self.registers.add_hl(val);
        self.cycles = self.cycles.wrapping_add(8);
    }

    /// LD (BC), A; LD (DE), A; LD (HL+), A; LD (HL-), A and the four loads
    /// the other way.
    fn ld_indirect(&mut self, opcode: u8)
        requires
            old(self)@.wf(),
            opcode == 0x02 || opcode == 0x12 || opcode == 0x22 || opcode == 0x32 || opcode == 0x0a || opcode == 0x1a || opcode == 0x2a || opcode == 0x3a,
        ensures
            final(self)@ == old(self)@.execute(opcode),
            final(self)@.wf(),
    {
        let p = opcode / 16;
        let addr = match p {
            0 => self.registers.bc(),
            1 => self.registers.de(),
            _ => self.registers.hl(),
        };
        if opcode % 16 == 0x02 {
            self.mmu.write_byte(addr, self.registers.a);
        } else {
            self.registers.a = self.mmu.read_byte(addr);
        }
        if p == 2 {
            let val = self.registers.hl().wrapping_add(1);
            self.registers.set_hl(val);
        } else if p == 3 {
            let val = self.registers.hl().wrapping_sub(1);
            self.registers.set_hl(val);
        }
        self.cycles = self.cycles.wrapping_add(8);
    }

    /// INC rp and DEC rp
    fn inc_dec_rp(&mut self, opcode: u8)
        requires
            old(self)@.wf(),
            opcode == 0x03 || opcode == 0x13 || opcode == 0x23 || opcode == 0x33 || opcode == 0x0b || opcode == 0x1b || opcode == 0x2b || opcode == 0x3b,
        ensures
            final(self)@ == old(self)@.execute(opcode),
            final(self)@.wf(),
    {
        let p = opcode / 16;
        let val = if opcode % 16 == 0x03 {
            self.get_reg16(p).wrapping_add(1)
        } else {
            self.get_reg16(p).wrapping_sub(1)
        };
        self.set_reg16(p, val);
        self.cycles = self.cycles.wrapping_add(8);
    }

    /// Counts the operand that selector `reg` names up or down by one.
    fn count_r(&mut self, reg: u8, up: bool)
        requires
            old(self)@.wf(),
            reg < 8,
        ensures
            up ==> final(self)@ == old(self)@.with_regs(
                old(self)@.regs.after_inc(old(self)@.reg8(reg as int)),
            ).with_reg8(reg as int, old(self)@.reg8(reg as int).wrapping_add(1)),
            !up ==> final(self)@ == old(self)@.with_regs(
                old(self)@.regs.after_dec(old(self)@.reg8(reg as int)),
            ).with_reg8(reg as int, old(self)@.reg8(reg as int).wrapping_sub(1)),
            final(self)@.wf(),
    {
        let val = self.get_reg8(reg);
        let result = if up {
            self.registers.inc8(val)
        } else {
            self.registers.dec8(val)
        };
        self.set_reg8(reg, result);
    }

    /// INC r, on any of the eight operands.
    fn inc_r(&mut self, opcode: u8)
        requires
            old(self)@.wf(),
            opcode == 0x04 || opcode == 0x0c || opcode == 0x14 || opcode == 0x1c || opcode == 0x24
                || opcode == 0x2c || opcode == 0x34 || opcode == 0x3c,
        ensures
            final(self)@ == old(self)@.execute(opcode),
            final(self)@.wf(),
    {
        let reg = opcode / 8;
        self.count_r(reg, true);
        self.cycles = self.cycles.wrapping_add(
            if reg == 6 {
                12
            } else {
                4
            },
        );
    }

    /// DEC r, on any of the eight operands.
    fn dec_r(&mut self, opcode: u8)
        requires
            old(self)@.wf(),
            opcode == 0x05 || opcode == 0x0d || opcode == 0x15 || opcode == 0x1d || opcode == 0x25
                || opcode == 0x2d || opcode == 0x35 || opcode == 0x3d,
        ensures
            final(self)@ == old(self)@.execute(opcode),
            final(self)@.wf(),
    {
        let reg = opcode / 8;
        self.count_r(reg, false);
        self.cycles = self.cycles.wrapping_add(
            if reg == 6 {
                12
            } else {
                4
            },
        );
    }

    /// LD r, n, on any of the eight operands.
    fn ld_r_n(&mut self, opcode: u8)
        requires
            old(self)@.wf(),
            opcode == 0x06 || opcode == 0x0e || opcode == 0x16 || opcode == 0x1e || opcode == 0x26 || opcode == 0x2e || opcode == 0x36 || opcode == 0x3e,
        ensures
            final(self)@ == old(self)@.execute(opcode),
            final(self)@.wf(),
    {
        let reg = opcode / 8;
        let val = self.fetch_byte();
        self.set_reg8(reg, val);
        self.cycles = self.cycles.wrapping_add(
            if reg == 6 {
                12
            } else {
                8
            },
        );
    }

    /// RLCA, RRCA, RLA, RRA, DAA, CPL, SCF and CCF.
    fn accumulator_op(&mut self, opcode: u8)
        requires
            old(self)@.wf(),
            opcode == 0x07 || opcode == 0x0f || opcode == 0x17 || opcode == 0x1f || opcode == 0x27 || opcode == 0x2f || opcode == 0x37 || opcode == 0x3f,
        ensures
            final(self)@ == old(self)@.execute(opcode),
            final(self)@.wf(),
    {
        match opcode {
            0x07 => self.registers.rlca(),
            0x0f => self.registers.rrca(),
            0x17 => self.registers.rla(),
            0x1f => self.registers.rra(),
            0x27 => self.registers.daa(),
            0x2f => self.registers.cpl(),
            0x37 => self.registers.scf(),
            _ => self.registers.ccf(),
        }
        self.cycles = self.cycles.wrapping_add(4);
    }

    /// Runs the instruction `opcode`, whose opcode byte has been fetched.
    pub(super) fn execute_opcode(&mut self, opcode: u8)
        requires
            old(self)@.wf(),
        ensures
            final(self)@ == old(self)@.execute(opcode),
            final(self)@.wf(),
    {
        match opcode {
            // NOP
            0x00 => {
                self.cycles = self.cycles.wrapping_add(4);
            },
            // LD (nn), SP
            0x08 => self.ld_nn_sp(),
            // STOP
            0x10 => {
                self.fetch_byte();
                self.cycles = self.cycles.wrapping_add(4);
            },
            // JR e; JR NZ, e; JR Z, e; JR NC, e; JR C, e
            0x18 | 0x20 | 0x28 | 0x30 | 0x38 => self.jr(opcode),
            // LD BC, nn; LD DE, nn; LD HL, nn; LD SP, nn
            0x01 | 0x11 | 0x21 | 0x31 => self.ld_rp_nn(opcode),
            // ADD HL, BC; ADD HL, DE; ADD HL, HL; ADD HL, SP
            0x09 | 0x19 | 0x29 | 0x39 => self.add_hl_rp(opcode),
            // LD (BC), A; LD (DE), A; LD (HL+), A; LD (HL-), A
            0x02 | 0x12 | 0x22 | 0x32 => self.ld_indirect(opcode),
            // LD A, (BC); LD A, (DE); LD A, (HL+); LD A, (HL-)
            0x0a | 0x1a | 0x2a | 0x3a => self.ld_indirect(opcode),
            // INC BC; INC DE; INC HL; INC SP
            0x03 | 0x13 | 0x23 | 0x33 => self.inc_dec_rp(opcode),
            // DEC BC; DEC DE; DEC HL; DEC SP
            0x0b | 0x1b | 0x2b | 0x3b => self.inc_dec_rp(opcode),
            // INC B; INC C; INC D; INC E; INC H; INC L; INC (HL); INC A
            0x04 | 0x0c | 0x14 | 0x1c | 0x24 | 0x2c | 0x34 | 0x3c => self.inc_r(opcode),
            // DEC B; DEC C; DEC D; DEC E; DEC H; DEC L; DEC (HL); DEC A
            0x05 | 0x0d | 0x15 | 0x1d | 0x25 | 0x2d | 0x35 | 0x3d => self.dec_r(opcode),
            // LD B, n; LD C, n; LD D, n; LD E, n; LD H, n; LD L, n; LD (HL), n; LD A, n
            0x06 | 0x0e | 0x16 | 0x1e | 0x26 | 0x2e | 0x36 | 0x3e => self.ld_r_n(opcode),
            // RLCA; RRCA; RLA; RRA; DAA; CPL; SCF; CCF
            0x07 | 0x0f | 0x17 | 0x1f | 0x27 | 0x2f | 0x37 | 0x3f => self.accumulator_op(opcode),
            // HALT
            0x76 => {
                self.halted = true;
                self.cycles = self.cycles.wrapping_add(4);
            },
            // LD r, r'
            0x40..=0x7f => self.ld_rr(opcode),
            // ADD, ADC, SUB, SBC, AND, XOR, OR, CP with an operand
            0x80..=0xbf => self.alu_op(opcode),
            // The extended page
            0xcb => {
                let cb_opcode = self.fetch_byte();
                self.execute_cb_opcode(cb_opcode);
            },
            // RET, POP, JP, CALL, PUSH, RST and the rest of the last quarter
            _ => self.execute_extended_opcode(opcode),
        }
    }
}

} // verus!
