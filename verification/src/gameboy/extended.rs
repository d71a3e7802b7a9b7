//! The last quarter of the opcode table: returns, jumps and calls, the
//! stack, the high-page loads and the arithmetic on an immediate operand.

use super::GameBoy;
use crate::bits::lemma_word_join;
use vstd::pervasive::unreached;
use vstd::prelude::*;

verus! {

impl GameBoy {
    /// Calls `addr`: pushes the program counter and jumps.
    fn call_to(&mut self, addr: u16)
        requires
            old(self)@.wf(),
        ensures
            final(self)@ == old(self)@.call(addr),
            final(self)@.wf(),
    {
        self.push_word(self.registers.pc);
        self.registers.pc = addr;
    }

    /// Returns: pops the program counter.
    fn return_from(&mut self)
        requires
            old(self)@.wf(),
        ensures
            final(self)@ == old(self)@.ret(),
            final(self)@.wf(),
    {
        self.registers.pc = self.pop_word();
    }

    /// The address 0xFF00 + `offset` of the high page.
    fn high_page(offset: u8) -> (r: u16)
        ensures
            r == 0xff00 + offset,
    {
        proof {
            lemma_word_join(0, offset);
        }
        0xff00 | offset as u16
    }

    /// RET cc
    fn ret_cc(&mut self, opcode: u8)
        requires
            old(self)@.wf(),
            opcode == 0xc0 || opcode == 0xc8 || opcode == 0xd0 || opcode == 0xd8,
        ensures
            final(self)@ == old(self)@.execute(opcode),
            final(self)@.wf(),
    {
        if self.condition((opcode / 8) % 8) {
            self.return_from();
            self.cycles = self.cycles.wrapping_add(20);
        } else {
            self.cycles = self.cycles.wrapping_add(8);
        }
    }

    /// JP cc, nn
    fn jp_cc(&mut self, opcode: u8)
        requires
            old(self)@.wf(),
            opcode == 0xc2 || opcode == 0xca || opcode == 0xd2 || opcode == 0xda,
        ensures
            final(self)@ == old(self)@.execute(opcode),
            final(self)@.wf(),
    {
        let addr = self.fetch_word();
        if self.condition((opcode / 8) % 8) {
            self.registers.pc = addr;
            self.cycles = self.cycles.wrapping_add(16);
        } else {
            self.cycles = self.cycles.wrapping_add(12);
        }
    }

    /// CALL cc, nn
    fn call_cc(&mut self, opcode: u8)
        requires
            old(self)@.wf(),
            opcode == 0xc4 || opcode == 0xcc || opcode == 0xd4 || opcode == 0xdc,
        ensures
            final(self)@ == old(self)@.execute(opcode),
            final(self)@.wf(),
    {
        let addr = self.fetch_word();
        if self.condition((opcode / 8) % 8) {
            self.call_to(addr);
            self.cycles = self.cycles.wrapping_add(24);
        } else {
            self.cycles = self.cycles.wrapping_add(12);
        }
    }

    /// POP BC; POP DE; POP HL; POP AF
    fn pop_rp(&mut self, opcode: u8)
        requires
            old(self)@.wf(),
            opcode == 0xc1 || opcode == 0xd1 || opcode == 0xe1 || opcode == 0xf1,
        ensures
            final(self)@ == old(self)@.execute(opcode),
            final(self)@.wf(),
    {
        let val = self.pop_word();
        match opcode {
            0xc1 => self.registers.set_bc(val),
            0xd1 => self.registers.set_de(val),
            0xe1 => self.registers.set_hl(val),
            _ => self.registers.set_af(val),
        }
        self.cycles = self.cycles.wrapping_add(12);
    }

    /// PUSH BC; PUSH DE; PUSH HL; PUSH AF
    fn push_rp(&mut self, opcode: u8)
        requires
            old(self)@.wf(),
            opcode == 0xc5 || opcode == 0xd5 || opcode == 0xe5 || opcode == 0xf5,
        ensures
            final(self)@ == old(self)@.execute(opcode),
            final(self)@.wf(),
    {
        let val = match opcode {
            0xc5 => self.registers.bc(),
            0xd5 => self.registers.de(),
            0xe5 => self.registers.hl(),
            _ => self.registers.af(),
        };
        self.push_word(val);
        self.cycles = self.cycles.wrapping_add(16);
    }

    /// ADD, ADC, SUB, SBC, AND, XOR, OR, CP with the operand byte.
    fn alu_n(&mut self, opcode: u8)
        requires
            old(self)@.wf(),
            opcode == 0xc6 || opcode == 0xce || opcode == 0xd6 || opcode == 0xde || opcode == 0xe6 || opcode == 0xee || opcode == 0xf6 || opcode == 0xfe,
        ensures
            final(self)@ == old(self)@.execute(opcode),
            final(self)@.wf(),
    {
        let val = self.fetch_byte();
        self.alu((opcode / 8) % 8, val);
        self.cycles = self.cycles.wrapping_add(8);
    }

    /// RST: a call to one of the eight fixed addresses below 0x40.
    fn rst(&mut self, addr: u16)
        requires
            old(self)@.wf(),
            addr == 0x00 || addr == 0x08 || addr == 0x10 || addr == 0x18 || addr == 0x20 || addr == 0x28 || addr == 0x30 || addr == 0x38,
        ensures
            final(self)@ == old(self)@.execute((0xc7 + addr) as u8),
            final(self)@.wf(),
    {
        self.call_to(addr);
        self.cycles = self.cycles.wrapping_add(16);
    }

    /// LDH (n), A and LDH A, (n)
    fn ldh(&mut self, opcode: u8)
        requires
            old(self)@.wf(),
            opcode == 0xe0 || opcode == 0xf0,
        ensures
            final(self)@ == old(self)@.execute(opcode),
            final(self)@.wf(),
    {
        let offset = self.fetch_byte();
        if opcode == 0xe0 {
            self.mmu.write_byte(Self::high_page(offset), self.registers.a);
        } else {
            self.registers.a = self.mmu.read_byte(Self::high_page(offset));
        }
        self.cycles = self.cycles.wrapping_add(12);
    }

    /// LD (C), A and LD A, (C)
    fn ld_c(&mut self, opcode: u8)
        requires
            old(self)@.wf(),
            opcode == 0xe2 || opcode == 0xf2,
        ensures
            final(self)@ == old(self)@.execute(opcode),
            final(self)@.wf(),
    {
        let addr = Self::high_page(self.registers.c);
        if opcode == 0xe2 {
            self.mmu.write_byte(addr, self.registers.a);
        } else {
            self.registers.a = self.mmu.read_byte(addr);
        }
        self.cycles = self.cycles.wrapping_add(8);
    }

    /// LD (nn), A and LD A, (nn)
    fn ld_nn(&mut self, opcode: u8)
        requires
            old(self)@.wf(),
            opcode == 0xea || opcode == 0xfa,
        ensures
            final(self)@ == old(self)@.execute(opcode),
            final(self)@.wf(),
    {
        let addr = self.fetch_word();
        if opcode == 0xea {
            self.mmu.write_byte(addr, self.registers.a);
        } else {
            self.registers.a = self.mmu.read_byte(addr);
        }
        self.cycles = self.cycles.wrapping_add(16);
    }

    /// ADD SP, e and LD HL, SP+e
    fn sp_offset(&mut self, opcode: u8)
        requires
            old(self)@.wf(),
            opcode == 0xe8 || opcode == 0xf8,
        ensures
            final(self)@ == old(self)@.execute(opcode),
            final(self)@.wf(),
    {
        let offset = self.fetch_byte();
        let result = self.registers.offset_sp(offset);
        if opcode == 0xe8 {
            self.registers.sp = result;
            self.cycles = self.cycles.wrapping_add(16);
        } else {
            self.registers.set_hl(result);
            self.cycles = self.cycles.wrapping_add(12);
        }
    }

    /// JP nn and JP (HL)
    fn jp(&mut self, opcode: u8)
        requires
            old(self)@.wf(),
            opcode == 0xc3 || opcode == 0xe9,
        ensures
            final(self)@ == old(self)@.execute(opcode),
            final(self)@.wf(),
    {
        if opcode == 0xc3 {
            self.registers.pc = self.fetch_word();
            self.cycles = self.cycles.wrapping_add(16);
        } else {
            self.registers.pc = self.registers.hl();
            self.cycles = self.cycles.wrapping_add(4);
        }
    }

    /// RET and RETI
    fn ret(&mut self, opcode: u8)
        requires
            old(self)@.wf(),
            opcode == 0xc9 || opcode == 0xd9,
        ensures
            final(self)@ == old(self)@.execute(opcode),
            final(self)@.wf(),
    {
        self.return_from();
        if opcode == 0xd9 {
            self.ime = true;
        }
        self.cycles = self.cycles.wrapping_add(16);
    }

    /// CALL nn
    fn call_nn(&mut self)
        requires
            old(self)@.wf(),
        ensures
            final(self)@ == old(self)@.execute(0xcd),
            final(self)@.wf(),
    {
        let addr = self.fetch_word();
        self.call_to(addr);
        self.cycles = self.cycles.wrapping_add(24);
    }

    /// DI and EI: interrupts go off at once, and on after the next
    /// instruction.
    fn set_ime(&mut self, opcode: u8)
        requires
            old(self)@.wf(),
            opcode == 0xf3 || opcode == 0xfb,
        ensures
            final(self)@ == old(self)@.execute(opcode),
            final(self)@.wf(),
    {
        if opcode == 0xf3 {
            self.ime = false;
        } else {
            self.ime_scheduled = true;
        }
        self.cycles = self.cycles.wrapping_add(4);
    }

    /// LD SP, HL
    fn ld_sp_hl(&mut self)
        requires
            old(self)@.wf(),
        ensures
            final(self)@ == old(self)@.execute(0xf9),
            final(self)@.wf(),
    {
        self.registers.sp = self.registers.hl();
        self.cycles = self.cycles.wrapping_add(8);
    }

    /// An opcode of the last quarter that names no instruction: nothing
    /// happens, in four cycles.
    fn undefined(&mut self, opcode: u8)
        requires
            old(self)@.wf(),
            opcode == 0xd3 || opcode == 0xdb || opcode == 0xdd || opcode == 0xe3 || opcode == 0xe4
                || opcode == 0xeb || opcode == 0xec || opcode == 0xed || opcode == 0xf4 || opcode
                == 0xfc || opcode == 0xfd,
        ensures
            final(self)@ == old(self)@.execute(opcode),
            final(self)@.wf(),
    {
        self.cycles = self.cycles.wrapping_add(4);
    }

    /// Runs an instruction of the last quarter of the table.
    pub(super) fn execute_extended_opcode(&mut self, opcode: u8)
        requires
            old(self)@.wf(),
            opcode >= 0xc0,
            opcode != 0xcb,
        ensures
            final(self)@ == old(self)@.execute(opcode),
            final(self)@.wf(),
    {
        match opcode {
            // RET NZ; RET Z; RET NC; RET C
            0xc0 | 0xc8 | 0xd0 | 0xd8 => self.ret_cc(opcode),
            // POP BC; POP DE; POP HL; POP AF
            0xc1 | 0xd1 | 0xe1 | 0xf1 => self.pop_rp(opcode),
            // JP NZ, nn; JP Z, nn; JP NC, nn; JP C, nn
            0xc2 | 0xca | 0xd2 | 0xda => self.jp_cc(opcode),
            // JP nn; JP (HL)
            0xc3 | 0xe9 => self.jp(opcode),
            // CALL NZ, nn; CALL Z, nn; CALL NC, nn; CALL C, nn
            0xc4 | 0xcc | 0xd4 | 0xdc => self.call_cc(opcode),
            // PUSH BC; PUSH DE; PUSH HL; PUSH AF
            0xc5 | 0xd5 | 0xe5 | 0xf5 => self.push_rp(opcode),
            // ADD A, n; ADC A, n; SUB n; SBC A, n; AND n; XOR n; OR n; CP n
            0xc6 | 0xce | 0xd6 | 0xde | 0xe6 | 0xee | 0xf6 | 0xfe => self.alu_n(opcode),
            // RST 00H to RST 38H
            0xc7 => self.rst(0x00),
            0xcf => self.rst(0x08),
            0xd7 => self.rst(0x10),
            0xdf => self.rst(0x18),
            0xe7 => self.rst(0x20),
            0xef => self.rst(0x28),
            0xf7 => self.rst(0x30),
            0xff => self.rst(0x38),
            // RET; RETI
            0xc9 | 0xd9 => self.ret(opcode),
            // CALL nn
            0xcd => self.call_nn(),
            // LDH (n), A; LDH A, (n)
            0xe0 | 0xf0 => self.ldh(opcode),
            // LD (C), A; LD A, (C)
            0xe2 | 0xf2 => self.ld_c(opcode),
            // ADD SP, e; LD HL, SP+e
            0xe8 | 0xf8 => self.sp_offset(opcode),
            // LD (nn), A; LD A, (nn)
            0xea | 0xfa => self.ld_nn(opcode),
            // DI; EI
            0xf3 | 0xfb => self.set_ime(opcode),
            // LD SP, HL
            0xf9 => self.ld_sp_hl(),
            // No instruction
            0xd3 | 0xdb | 0xdd | 0xe3 | 0xe4 | 0xeb | 0xec | 0xed | 0xf4 | 0xfc | 0xfd => {
                self.undefined(opcode)
            },
            _ => unreached(),
        }
    }
}

} // verus!
