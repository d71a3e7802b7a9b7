//! The console as a mathematical state, and the meaning of every
//! instruction as a function on it.
//!
//! An opcode is read by its octal fields: `x = op / 64`, `y = (op / 8) % 8`
//! and `z = op % 8`, with `p = y / 2` and `q = y % 2`. What an instruction
//! does and what it costs are stated apart: [`Machine::effect`] leaves the
//! cycle count alone, [`Machine::timing`] says how many cycles are charged.

use crate::alu::{offset_address, shifted};
use crate::apu::audio_cycles_after;
use crate::bits::{bit_is_set, lemma_other_bits_kept, with_bit};
use crate::mmu::{lemma_bus_registers, lemma_write_keeps, MmuView};
use crate::ppu::{
    cycles_since_vblank, lemma_frame_ready_is_vblank, lemma_pipeline_advances,
    lemma_pipeline_keeps_wf, lemma_round_parts, PpuView,
};
use crate::registers::{high_byte, low_byte, packed_flags, pair, Registers};
use crate::timer::{lemma_timer_touches, wrap_add32, TimerView};
use vstd::prelude::*;

verus! {

/// The cycles of one frame.
pub const FRAME_CYCLES: u32 = 70224;

/// Below this stack pointer an interrupt is discarded rather than served.
pub const STACK_GUARD: u16 = 0x8100;

/// One entry of the instruction log: program counter, opcode, stack pointer.
pub type TraceEntry = (u16, u8, u16);

/// The last interrupt served: its number, the program counter it
/// interrupted, and the enable and request registers as they stood.
pub type InterruptRecord = (u8, u16, u8, u8);

/// The mathematical state of the console.
pub struct Machine {
    pub running: bool,
    pub mmu: MmuView,
    pub regs: Registers,
    pub timer: TimerView,
    pub input: u8,
    pub ppu: PpuView,
    pub apu: u32,
    pub cycles: u32,
    pub halted: bool,
    pub ime: bool,
    pub ime_scheduled: bool,
    pub trace_enabled: bool,
    pub trace: Seq<TraceEntry>,
    pub trace_idx: u32,
    pub last_interrupt: Option<InterruptRecord>,
}

/// The lowest of the five interrupts whose bit is set in `pending`.
pub open spec fn lowest_interrupt(pending: u8) -> Option<u8> {
    if bit_is_set(pending, 0) {
        Some(0u8)
    } else if bit_is_set(pending, 1) {
        Some(1u8)
    } else if bit_is_set(pending, 2) {
        Some(2u8)
    } else if bit_is_set(pending, 3) {
        Some(3u8)
    } else if bit_is_set(pending, 4) {
        Some(4u8)
    } else {
        None
    }
}

/// The address at which interrupt `n` is served.
pub open spec fn interrupt_vector(n: u8) -> u16 {
    (0x40 + 8 * n) as u16
}

/// The registers after operation `op` of the eight of the arithmetic unit
/// has been applied to the accumulator and `value`.
pub open spec fn alu_applied(regs: Registers, op: int, value: u8) -> Registers {
    if op == 0 {
        regs.after_add(value, 0)
    } else if op == 1 {
        regs.after_add(value, regs.carry_in())
    } else if op == 2 {
        regs.after_sub(value, 0)
    } else if op == 3 {
        regs.after_sub(value, regs.carry_in())
    } else if op == 4 {
        regs.after_and(value)
    } else if op == 5 {
        regs.after_xor(value)
    } else if op == 6 {
        regs.after_or(value)
    } else {
        regs.after_compare(value, 0)
    }
}

impl Machine {
    /// The memory unit and the pixel pipeline are well formed, the log has
    /// its 256 places, and the low nibble of the flags byte is clear.
    pub open spec fn wf(self) -> bool {
        &&& self.mmu.wf()
        &&& self.ppu.wf()
        &&& self.trace.len() == 256
        &&& self.regs.flags_clean()
    }

    /// Whether `after` is well formed and has the pixel pipeline and the
    /// scanline register of `self`: the processor alone moves neither.
    pub open spec fn leaves_pipeline(self, after: Machine) -> bool {
        &&& after.wf()
        &&& after.ppu == self.ppu
        &&& after.mmu.io[0x44] == self.mmu.io[0x44]
    }

    /// How many cycles ago the pixel pipeline entered line 144.
    pub open spec fn since_vblank(self) -> int {
        cycles_since_vblank(self.mmu.io[0x44], self.ppu.scanline_counter)
    }

    // Operands, stack and registers.
    /// The byte that follows the opcode.
    pub open spec fn operand8(self) -> u8 {
        self.mmu.read(self.regs.pc)
    }

    /// The two bytes that follow the opcode, low byte first.
    pub open spec fn operand16(self) -> u16 {
        pair(self.mmu.read(self.regs.pc.wrapping_add(1)), self.mmu.read(self.regs.pc))
    }

    /// With the program counter moved past `n` operand bytes.
    pub open spec fn skip(self, n: u16) -> Machine {
        Machine { regs: Registers { pc: self.regs.pc.wrapping_add(n), ..self.regs }, ..self }
    }

    pub open spec fn jump(self, addr: u16) -> Machine {
        Machine { regs: Registers { pc: addr, ..self.regs }, ..self }
    }

    pub open spec fn with_regs(self, regs: Registers) -> Machine {
        Machine { regs, ..self }
    }

    pub open spec fn with_a(self, v: u8) -> Machine {
        Machine { regs: Registers { a: v, ..self.regs }, ..self }
    }

    pub open spec fn with_sp(self, v: u16) -> Machine {
        Machine { regs: Registers { sp: v, ..self.regs }, ..self }
    }

    /// With `n` more cycles counted.
    pub open spec fn charge(self, n: u32) -> Machine {
        Machine { cycles: wrap_add32(self.cycles, n), ..self }
    }

    pub open spec fn store(self, addr: u16, val: u8) -> Machine {
        Machine { mmu: self.mmu.write(addr, val), ..self }
    }

    /// With `val` pushed: high byte first, the stack growing down.
    pub open spec fn push(self, val: u16) -> Machine {
        let upper = self.regs.sp.wrapping_sub(1);
        let lower = self.regs.sp.wrapping_sub(2);
        Machine {
            regs: Registers { sp: lower, ..self.regs },
            mmu: self.mmu.write(upper, high_byte(val)).write(lower, low_byte(val)),
            ..self
        }
    }

    /// The sixteen-bit value on top of the stack.
    pub open spec fn stack_top(self) -> u16 {
        pair(self.mmu.read(self.regs.sp.wrapping_add(1)), self.mmu.read(self.regs.sp))
    }

    /// With the top of the stack dropped.
    pub open spec fn pop(self) -> Machine {
        self.with_sp(self.regs.sp.wrapping_add(2))
    }

    /// The operand that selector `r` names: B, C, D, E, H, L, the byte at
    /// HL, A.
    pub open spec fn reg8(self, r: int) -> u8 {
        if r == 0 {
            self.regs.b
        } else if r == 1 {
            self.regs.c
        } else if r == 2 {
            self.regs.d
        } else if r == 3 {
            self.regs.e
        } else if r == 4 {
            self.regs.h
        } else if r == 5 {
            self.regs.l
        } else if r == 6 {
            self.mmu.read(self.regs.spec_hl())
        } else {
            self.regs.a
        }
    }

    pub open spec fn with_reg8(self, r: int, v: u8) -> Machine {
        if r == 0 {
            Machine { regs: Registers { b: v, ..self.regs }, ..self }
        } else if r == 1 {
            Machine { regs: Registers { c: v, ..self.regs }, ..self }
        } else if r == 2 {
            Machine { regs: Registers { d: v, ..self.regs }, ..self }
        } else if r == 3 {
            Machine { regs: Registers { e: v, ..self.regs }, ..self }
        } else if r == 4 {
            Machine { regs: Registers { h: v, ..self.regs }, ..self }
        } else if r == 5 {
            Machine { regs: Registers { l: v, ..self.regs }, ..self }
        } else if r == 6 {
            self.store(self.regs.spec_hl(), v)
        } else {
            Machine { regs: Registers { a: v, ..self.regs }, ..self }
        }
    }

    /// The pair that selector `p` names: BC, DE, HL, SP.
    pub open spec fn reg16(self, p: int) -> u16 {
        if p == 0 {
            self.regs.spec_bc()
        } else if p == 1 {
            self.regs.spec_de()
        } else if p == 2 {
            self.regs.spec_hl()
        } else {
            self.regs.sp
        }
    }

    pub open spec fn with_reg16(self, p: int, v: u16) -> Machine {
        if p == 0 {
            self.with_regs(self.regs.with_bc(v))
        } else if p == 1 {
            self.with_regs(self.regs.with_de(v))
        } else if p == 2 {
            self.with_regs(self.regs.with_hl(v))
        } else {
            self.with_sp(v)
        }
    }

    /// The pair that selector `p` names on the stack instructions: BC, DE,
    /// HL, AF.
    pub open spec fn stack_reg16(self, p: int) -> u16 {
        if p == 3 {
            self.regs.spec_af()
        } else {
            self.reg16(p)
        }
    }

    pub open spec fn with_stack_reg16(self, p: int, v: u16) -> Machine {
        if p == 3 {
            self.with_regs(self.regs.with_af(v))
        } else {
            self.with_reg16(p, v)
        }
    }

    /// The address that the indirect accumulator loads use: BC, DE, or HL
    /// for the two that step HL afterwards.
    pub open spec fn indirect_address(self, p: int) -> u16 {
        if p == 0 {
            self.regs.spec_bc()
        } else if p == 1 {
            self.regs.spec_de()
        } else {
            self.regs.spec_hl()
        }
    }

    /// With HL stepped as the indirect accumulator load with selector `p`
    /// steps it: up for 2, down for 3.
    pub open spec fn indirect_stepped(self, p: int) -> Machine {
        if p == 2 {
            self.with_regs(self.regs.with_hl(self.regs.spec_hl().wrapping_add(1)))
        } else if p == 3 {
            self.with_regs(self.regs.with_hl(self.regs.spec_hl().wrapping_sub(1)))
        } else {
            self
        }
    }

    /// Whether branch condition `cc` holds: not zero, zero, no carry, carry.
    pub open spec fn condition(self, cc: int) -> bool {
        if cc == 0 {
            !self.regs.spec_flag_z()
        } else if cc == 1 {
            self.regs.spec_flag_z()
        } else if cc == 2 {
            !self.regs.spec_flag_c()
        } else {
            self.regs.spec_flag_c()
        }
    }

    /// With a relative jump by the operand byte taken.
    pub open spec fn jump_relative(self) -> Machine {
        self.jump(offset_address(self.skip(1).regs.pc, self.operand8()))
    }

    /// With a call to `addr` made: the return address pushed.
    pub open spec fn call(self, addr: u16) -> Machine {
        self.push(self.regs.pc).jump(addr)
    }

    /// With a return made: the program counter popped.
    pub open spec fn ret(self) -> Machine {
        self.pop().jump(self.stack_top())
    }

    // The first quarter of the opcode table, x = 0.
    pub open spec fn effect_block0(self, y: int, z: int) -> Machine {
        let p = y / 2;
        let q = y % 2;
        if z == 0 {
            if y == 0 {
                self
            } else if y == 1 {
                let addr = self.operand16();
                self.skip(2).store(addr, low_byte(self.regs.sp)).store(
                    addr.wrapping_add(1),
                    high_byte(self.regs.sp),
                )
            } else if y == 2 {
                self.skip(1)
            } else if y == 3 || self.condition(y - 4) {
                self.jump_relative()
            } else {
                self.skip(1)
            }
        } else if z == 1 {
            if q == 0 {
                self.skip(2).with_reg16(p, self.operand16())
            } else {
                self.with_regs(self.regs.after_add_hl(self.reg16(p)))
            }
        } else if z == 2 {
            if q == 0 {
                self.store(self.indirect_address(p), self.regs.a).indirect_stepped(p)
            } else {
                self.with_a(self.mmu.read(self.indirect_address(p))).indirect_stepped(p)
            }
        } else if z == 3 {
            if q == 0 {
                self.with_reg16(p, self.reg16(p).wrapping_add(1))
            } else {
                self.with_reg16(p, self.reg16(p).wrapping_sub(1))
            }
        } else if z == 4 {
            self.with_regs(self.regs.after_inc(self.reg8(y))).with_reg8(
                y,
                self.reg8(y).wrapping_add(1),
            )
        } else if z == 5 {
            self.with_regs(self.regs.after_dec(self.reg8(y))).with_reg8(
                y,
                self.reg8(y).wrapping_sub(1),
            )
        } else if z == 6 {
            self.skip(1).with_reg8(y, self.operand8())
        } else {
            if y < 4 {
                self.with_regs(self.regs.after_rotate_a(y))
            } else if y == 4 {
                self.with_regs(self.regs.after_daa())
            } else if y == 5 {
                self.with_regs(self.regs.after_cpl())
            } else if y == 6 {
                self.with_regs(self.regs.after_scf())
            } else {
                self.with_regs(self.regs.after_ccf())
            }
        }
    }

    pub open spec fn timing_block0(self, y: int, z: int) -> u32 {
        if z == 0 {
            if y == 0 || y == 2 {
                4
            } else if y == 1 {
                20
            } else if y == 3 || self.condition(y - 4) {
                12
            } else {
                8
            }
        } else if z == 1 {
            if y % 2 == 0 {
                12
            } else {
                8
            }
        } else if z == 2 || z == 3 {
            8
        } else if z == 4 || z == 5 {
            if y == 6 {
                12
            } else {
                4
            }
        } else if z == 6 {
            if y == 6 {
                12
            } else {
                8
            }
        } else {
            4
        }
    }

    // The last quarter of the opcode table, x = 3.
    /// Whether the last quarter of the table has no instruction at `y`, `z`;
    /// such an opcode does nothing.
    pub open spec fn undefined_opcode(y: int, z: int) -> bool {
        ||| z == 3 && 2 <= y <= 5
        ||| z == 4 && y >= 4
        ||| z == 5 && y % 2 == 1 && y != 1
    }

    pub open spec fn effect_block3(self, y: int, z: int) -> Machine {
        let p = y / 2;
        let q = y % 2;
        if Self::undefined_opcode(y, z) {
            self
        } else if z == 0 {
            if y < 4 {
                if self.condition(y) {
                    self.ret()
                } else {
                    self
                }
            } else if y == 4 {
                self.skip(1).store((0xff00 + self.operand8()) as u16, self.regs.a)
            } else if y == 6 {
                self.skip(1).with_a(self.mmu.read((0xff00 + self.operand8()) as u16))
            } else {
                let e = self.operand8();
                let sum = offset_address(self.regs.sp, e);
                let flagged = self.skip(1).with_regs(self.skip(1).regs.after_offset_sp(e));
                if y == 5 {
                    flagged.with_sp(sum)
                } else {
                    flagged.with_regs(flagged.regs.with_hl(sum))
                }
            }
        } else if z == 1 {
            if q == 0 {
                self.pop().with_stack_reg16(p, self.stack_top())
            } else if p == 0 {
                self.ret()
            } else if p == 1 {
                Machine { ime: true, ..self.ret() }
            } else if p == 2 {
                self.jump(self.regs.spec_hl())
            } else {
                self.with_sp(self.regs.spec_hl())
            }
        } else if z == 2 {
            if y < 4 {
                if self.condition(y) {
                    self.jump(self.operand16())
                } else {
                    self.skip(2)
                }
            } else if y == 4 {
                self.store((0xff00 + self.regs.c) as u16, self.regs.a)
            } else if y == 5 {
                self.skip(2).store(self.operand16(), self.regs.a)
            } else if y == 6 {
                self.with_a(self.mmu.read((0xff00 + self.regs.c) as u16))
            } else {
                self.skip(2).with_a(self.mmu.read(self.operand16()))
            }
        } else if z == 3 {
            if y == 0 {
                self.jump(self.operand16())
            } else if y == 1 {
                self.skip(1).effect_cb(self.operand8())
            } else if y == 6 {
                Machine { ime: false, ..self }
            } else {
                Machine { ime_scheduled: true, ..self }
            }
        } else if z == 4 {
            if self.condition(y) {
                self.skip(2).call(self.operand16())
            } else {
                self.skip(2)
            }
        } else if z == 5 {
            if q == 0 {
                self.push(self.stack_reg16(p))
            } else {
                self.skip(2).call(self.operand16())
            }
        } else if z == 6 {
            self.skip(1).with_regs(alu_applied(self.skip(1).regs, y, self.operand8()))
        } else {
            self.call((y * 8) as u16)
        }
    }

    pub open spec fn timing_block3(self, y: int, z: int) -> u32 {
        if Self::undefined_opcode(y, z) {
            4
        } else if z == 0 {
            if y < 4 {
                if self.condition(y) {
                    20
                } else {
                    8
                }
            } else if y == 5 {
                16
            } else {
                12
            }
        } else if z == 1 {
            if y % 2 == 0 {
                12
            } else if y == 1 || y == 3 {
                16
            } else if y == 5 {
                4
            } else {
                8
            }
        } else if z == 2 {
            if y < 4 {
                if self.condition(y) {
                    16
                } else {
                    12
                }
            } else if y == 4 || y == 6 {
                8
            } else {
                16
            }
        } else if z == 3 {
            if y == 0 {
                16
            } else if y == 1 {
                Self::timing_cb(self.operand8())
            } else {
                4
            }
        } else if z == 4 {
            if self.condition(y) {
                24
            } else {
                12
            }
        } else if z == 5 {
            if y % 2 == 0 {
                16
            } else {
                24
            }
        } else if z == 6 {
            8
        } else {
            16
        }
    }

    // The extended page behind the prefix byte.
    pub open spec fn effect_cb(self, op: u8) -> Machine {
        let x = op / 64;
        let y = (op / 8) % 8;
        let z = op % 8;
        let value = self.reg8(z as int);
        if x == 0 {
            self.with_regs(self.regs.after_shift(y as int, value)).with_reg8(
                z as int,
                shifted(y as int, value, self.regs.carry_in()),
            )
        } else if x == 1 {
            self.with_regs(
                self.regs.with_flags(!bit_is_set(value, y), false, true, self.regs.spec_flag_c()),
            )
        } else if x == 2 {
            self.with_reg8(z as int, with_bit(value, y, false))
        } else {
            self.with_reg8(z as int, with_bit(value, y, true))
        }
    }

    pub open spec fn timing_cb(op: u8) -> u32 {
        if op % 8 != 6 {
            8
        } else if op / 64 == 1 {
            12
        } else {
            16
        }
    }

    // The whole table.
    /// What instruction `op` does to a machine whose program counter is
    /// already past the opcode; the cycle count is not touched.
    pub open spec fn effect(self, op: u8) -> Machine {
        let x = op / 64;
        let y = ((op / 8) % 8) as int;
        let z = (op % 8) as int;
        if x == 0 {
            self.effect_block0(y, z)
        } else if x == 1 {
            if op == 0x76 {
                Machine { halted: true, ..self }
            } else {
                self.with_reg8(y, self.reg8(z))
            }
        } else if x == 2 {
            self.with_regs(alu_applied(self.regs, y, self.reg8(z)))
        } else {
            self.effect_block3(y, z)
        }
    }

    /// How many cycles instruction `op` takes; a conditional branch takes
    /// longer when it is taken, an operand in memory longer than one in a
    /// register.
    pub open spec fn timing(self, op: u8) -> u32 {
        let x = op / 64;
        let y = ((op / 8) % 8) as int;
        let z = (op % 8) as int;
        if x == 0 {
            self.timing_block0(y, z)
        } else if x == 1 {
            if op != 0x76 && (y == 6 || z == 6) {
                8
            } else {
                4
            }
        } else if x == 2 {
            if z == 6 {
                8
            } else {
                4
            }
        } else {
            self.timing_block3(y, z)
        }
    }

    /// The machine after instruction `op`, whose opcode has been fetched.
    pub open spec fn execute(self, op: u8) -> Machine {
        self.effect(op).charge(self.timing(op))
    }

    // Interrupts.
    /// The interrupt that is both requested and enabled and comes first.
    pub open spec fn pending_interrupt(self) -> Option<u8> {
        lowest_interrupt(self.mmu.read(0xffff) & self.mmu.read(0xff0f))
    }

    /// Whether serving an interrupt now would be refused because the stack
    /// has grown too far.
    pub open spec fn stack_exhausted(self) -> bool {
        self.regs.sp < 0x8100
    }

    /// With interrupt `n` served: interrupts are disabled and the halt
    /// ends, the request bit `n` is cleared, and the processor calls the
    /// vector for twenty cycles. With the stack exhausted every request is
    /// dropped instead and nothing is called.
    pub open spec fn serve(self, n: u8) -> Machine {
        let requested = self.mmu.read(0xff0f);
        let acknowledged = Machine {
            ime: false,
            halted: false,
            mmu: self.mmu.write(0xff0f, with_bit(requested, n, false)),
            last_interrupt: Some((n, self.regs.pc, self.mmu.read(0xffff), requested)),
            ..self
        };
        if self.stack_exhausted() {
            acknowledged.store(0xff0f, 0)
        } else {
            acknowledged.call(interrupt_vector(n)).charge(20)
        }
    }

    /// With the instruction at the program counter noted in the log, if the
    /// log is switched on.
    pub open spec fn traced(self) -> Machine {
        if self.trace_enabled {
            Machine {
                trace: self.trace.update(
                    self.trace_idx as int % 256,
                    (self.regs.pc, self.operand8(), self.regs.sp),
                ),
                trace_idx: self.trace_idx.wrapping_add(1),
                ..self
            }
        } else {
            self
        }
    }

    /// With an enabling of interrupts that was scheduled by the previous
    /// instruction put into effect.
    pub open spec fn ime_committed(self) -> Machine {
        if self.ime_scheduled {
            Machine { ime: true, ime_scheduled: false, ..self }
        } else {
            self
        }
    }

    /// Whether the next step serves an interrupt.
    pub open spec fn serves_interrupt(self) -> bool {
        !self.halted && (self.ime || self.ime_scheduled) && self.pending_interrupt() is Some
    }

    /// One step of the processor: a halted processor only looks for a
    /// pending interrupt to wake up, which takes four cycles; otherwise it
    /// serves the first pending interrupt if interrupts are enabled, and
    /// else runs one instruction.
    #[verifier::opaque]
    pub open spec fn cpu_step(self) -> Machine {
        if self.halted {
            Machine { halted: self.pending_interrupt() is None, ..self }.charge(4)
        } else if self.serves_interrupt() {
            self.ime_committed().serve(self.pending_interrupt()->0)
        } else {
            self.ime_committed().traced().skip(1).execute(self.operand8())
        }
    }

    /// The cycles that the next step of the processor reports.
    #[verifier::opaque]
    pub open spec fn step_cost(self) -> u32 {
        if self.halted {
            4
        } else if self.serves_interrupt() {
            if self.stack_exhausted() {
                0
            } else {
                20
            }
        } else {
            self.skip(1).timing(self.operand8())
        }
    }

    // Frames.
    /// With timer, audio and pixel pipeline advanced by `cost` cycles, and
    /// whether the pipeline completed a frame.
    #[verifier::opaque]
    pub open spec fn peripherals_stepped(self, cost: u32) -> (Machine, bool) {
        let timed = self.timer.step(self.mmu.io, cost);
        let drawn = self.ppu.step(MmuView { io: timed.1, ..self.mmu }, cost);
        (
            Machine {
                timer: timed.0,
                apu: audio_cycles_after(self.apu, cost),
                ppu: drawn.ppu,
                mmu: drawn.mmu,
                ..self
            },
            drawn.frame_ready,
        )
    }

    /// One step of the whole console, and whether it completed a frame.
    pub open spec fn stepped(self) -> (Machine, bool) {
        self.cpu_step().peripherals_stepped(self.step_cost())
    }

    /// Whether the next step is an interrupt that is refused for want of
    /// stack: the only step that takes no cycles.
    pub open spec fn stalls(self) -> bool {
        self.serves_interrupt() && self.stack_exhausted()
    }

    /// Where a frame ends that has already used `used` cycles and seen a
    /// completed frame if `ready`: steps are taken until the cycles used
    /// reach the budget of one frame.
    pub open spec fn frame_from(self, used: int, ready: bool) -> FrameEnd
        decreases 70248 - used, (if self.stalls() {
            1int
        } else {
            0int
        }),
    {
        if used >= 70224 {
            FrameEnd { machine: self, ready, used }
        } else {
            proof {
                lemma_step_progress(self);
            }
            self.stepped().0.frame_from(used + self.step_cost(), ready || self.stepped().1)
        }
    }

    /// The registers as the pixel pipeline finds them on the next step:
    /// after the processor and the timer have had theirs.
    pub open spec fn pipeline_registers(self) -> MmuView {
        MmuView {
            io: self.cpu_step().timer.step(self.cpu_step().mmu.io, self.step_cost()).1,
            ..self.cpu_step().mmu
        }
    }

    /// Whether the next step takes the pixel pipeline from line 143 into
    /// line 144, where the vertical blank begins.
    pub open spec fn enters_line_144(self) -> bool {
        self.cpu_step().ppu.enters_vblank(self.pipeline_registers(), self.step_cost())
    }

    /// How many steps of a frame that has already used `used` cycles take
    /// the pixel pipeline into line 144.
    pub open spec fn frame_vblanks(self, used: int) -> nat
        decreases 70248 - used, (if self.stalls() {
            1int
        } else {
            0int
        }),
    {
        if used >= 70224 {
            0
        } else {
            proof {
                lemma_step_progress(self);
            }
            (if self.enters_line_144() {
                1nat
            } else {
                0nat
            }) + self.stepped().0.frame_vblanks(used + self.step_cost())
        }
    }

    /// Whether the display is switched off on every step of a frame that has
    /// already used `used` cycles.
    pub open spec fn display_off_throughout(self, used: int) -> bool
        decreases 70248 - used, (if self.stalls() {
            1int
        } else {
            0int
        }),
    {
        if used >= 70224 {
            true
        } else {
            proof {
                lemma_step_progress(self);
            }
            !PpuView::lcd_on(self.pipeline_registers()) && self.stepped().0.display_off_throughout(
                used + self.step_cost(),
            )
        }
    }

    /// Whether the display is switched on on every step of a frame that has
    /// already used `used` cycles.
    pub open spec fn display_on_throughout(self, used: int) -> bool
        decreases 70248 - used, (if self.stalls() {
            1int
        } else {
            0int
        }),
    {
        if used >= 70224 {
            true
        } else {
            proof {
                lemma_step_progress(self);
            }
            PpuView::lcd_on(self.pipeline_registers()) && self.stepped().0.display_on_throughout(
                used + self.step_cost(),
            )
        }
    }

    /// Where one frame that starts now ends.
    pub open spec fn frame(self) -> FrameEnd {
        self.frame_from(0, false)
    }

    // Lifecycle.
    /// The instruction log with nothing in it.
    pub open spec fn blank_trace() -> Seq<TraceEntry> {
        Seq::new(256, |i: int| (0u16, 0u8, 0u16))
    }

    /// A console that has never seen a cartridge.
    pub open spec fn power_on() -> Machine {
        Machine {
            running: false,
            mmu: MmuView::power_on(),
            regs: Registers::power_on(),
            timer: TimerView { div_counter: 0, tima_counter: 0 },
            input: 0xff,
            ppu: PpuView {
                frame_buffer: Seq::new(92160, |i: int| 0xffu8),
                scanline_counter: 0,
                overlays_suppressed: true,
            },
            apu: 0,
            cycles: 0,
            halted: false,
            ime: false,
            ime_scheduled: false,
            trace_enabled: false,
            trace: Self::blank_trace(),
            trace_idx: 0,
            last_interrupt: None,
        }
    }

    /// The console after a reset: stopped, every unit at power-on, the
    /// cartridge still in place. The two switches, for the log and for the
    /// suppressed layers, stay as they are.
    pub open spec fn reset(self) -> Machine {
        let video = self.ppu.reset(self.mmu.reset());
        Machine {
            running: false,
            mmu: video.1,
            regs: Registers::power_on(),
            timer: TimerView { div_counter: 0, tima_counter: 0 },
            input: 0xff,
            ppu: video.0,
            apu: 0,
            cycles: 0,
            halted: false,
            ime: false,
            ime_scheduled: false,
            trace_enabled: self.trace_enabled,
            trace: Self::blank_trace(),
            trace_idx: 0,
            last_interrupt: None,
        }
    }

    /// The console after the cartridge image `data` has been put in.
    pub open spec fn load_rom(self, data: Seq<u8>) -> Machine {
        Machine { mmu: self.mmu.load_rom(data), ..self }.reset()
    }

    pub open spec fn press_button(self, bit: u8) -> Machine {
        Machine {
            input: with_bit(self.input, bit, false),
            mmu: self.mmu.joypad_press(bit),
            ..self
        }
    }

    pub open spec fn release_button(self, bit: u8) -> Machine {
        Machine {
            input: with_bit(self.input, bit, true),
            mmu: self.mmu.joypad_release(bit),
            ..self
        }
    }

    /// The registers and the cycle count, which is all that a saved state
    /// holds.
    pub open spec fn snapshot(self) -> SaveState {
        SaveState {
            a: self.regs.a,
            f: self.regs.f,
            b: self.regs.b,
            c: self.regs.c,
            d: self.regs.d,
            e: self.regs.e,
            h: self.regs.h,
            l: self.regs.l,
            sp: self.regs.sp,
            pc: self.regs.pc,
            cycles: self.cycles,
        }
    }

    /// The console with a saved state put back: registers and cycle count
    /// are replaced, with the low nibble of the flags byte cleared; memory
    /// and every other unit stay as they are. Where there is no state to put
    /// back nothing changes.
    pub open spec fn restored(self, state: Option<SaveState>) -> Machine {
        match state {
            Some(st) => Machine {
                regs: Registers {
                    a: st.a,
                    f: (st.f - st.f % 16) as u8,
                    b: st.b,
                    c: st.c,
                    d: st.d,
                    e: st.e,
                    h: st.h,
                    l: st.l,
                    sp: st.sp,
                    pc: st.pc,
                },
                cycles: st.cycles,
                ..self
            },
            None => self,
        }
    }

    /// How many entries the instruction log holds.
    pub open spec fn trace_len(self) -> int {
        if self.trace_idx < 256 {
            self.trace_idx as int
        } else {
            256
        }
    }

    /// The entries of the instruction log, oldest first.
    pub open spec fn trace_entries(self) -> Seq<TraceEntry> {
        Seq::new(
            self.trace_len() as nat,
            |i: int| self.trace[(self.trace_idx - self.trace_len() + i) % 256],
        )
    }
}

/// The registers and the cycle count of a console, as they are saved and put
/// back.
#[derive(Clone, Copy, Debug, PartialEq, Eq, Structural)]
pub struct SaveState {
    pub a: u8,
    pub f: u8,
    pub b: u8,
    pub c: u8,
    pub d: u8,
    pub e: u8,
    pub h: u8,
    pub l: u8,
    pub sp: u16,
    pub pc: u16,
    pub cycles: u32,
}

/// Where a frame ends: the console as it is left, whether the pixel pipeline
/// completed a frame on the way, and the cycles that the steps took.
pub struct FrameEnd {
    pub machine: Machine,
    pub ready: bool,
    pub used: int,
}

/// The interrupt that comes first is the lowest one whose bit is set among
/// the five; `n` is 5 where none is.
pub proof fn lemma_lowest_interrupt(pending: u8, n: u8)
    requires
        n <= 5,
        n < 5 ==> bit_is_set(pending, n),
        forall|k: u8| k < n ==> !bit_is_set(pending, k),
    ensures
        n < 5 ==> lowest_interrupt(pending) == Some(n),
        n == 5 ==> lowest_interrupt(pending) is None,
{
    assert(0 < n ==> !bit_is_set(pending, 0));
    assert(1 < n ==> !bit_is_set(pending, 1));
    assert(2 < n ==> !bit_is_set(pending, 2));
    assert(3 < n ==> !bit_is_set(pending, 3));
    assert(4 < n ==> !bit_is_set(pending, 4));
}

/// Every instruction takes between four and twenty-four cycles, a multiple
/// of four.
pub proof fn lemma_timing_bounds(s: Machine, op: u8)
    ensures
        4 <= s.timing(op) <= 24,
        s.timing(op) % 4 == 0,
{
}

/// Every step reports a multiple of four cycles up to twenty-four, and none
/// at all only when it refuses an interrupt for want of stack.
pub proof fn lemma_step_cost_bounds(s: Machine)
    ensures
        s.step_cost() <= 24,
        s.step_cost() % 4 == 0,
        s.step_cost() == 0 <==> s.stalls(),
{
    reveal(Machine::step_cost);
    lemma_timing_bounds(s.skip(1), s.operand8());
}

/// A step either takes cycles or refuses an interrupt and thereby disables
/// them, so that the step after it takes cycles: a frame always ends.
pub proof fn lemma_step_progress(s: Machine)
    ensures
        s.step_cost() <= 24,
        s.step_cost() > 0 || (s.stalls() && !s.stepped().0.stalls()),
{
    reveal(Machine::cpu_step);
    reveal(Machine::peripherals_stepped);
    lemma_step_cost_bounds(s);
}

/// Of the interrupts that are both requested and enabled the one with the
/// lowest number is served, at its own vector, and serving it clears its
/// request bit and no other. This is stated for a stack that is not
/// exhausted and does not reach the request register itself.
pub proof fn lemma_interrupt_priority(s: Machine, n: u8, k: u8)
    requires
        s.wf(),
        s.pending_interrupt() == Some(n),
        k < 8,
    ensures
        n < 5,
        bit_is_set(s.mmu.read(0xffff) & s.mmu.read(0xff0f), n),
        k < n ==> !bit_is_set(s.mmu.read(0xffff) & s.mmu.read(0xff0f), k),
        !s.stack_exhausted() ==> s.serve(n).regs.pc == interrupt_vector(n),
        !s.stack_exhausted() ==> s.serve(n).cycles == wrap_add32(s.cycles, 20),
        !s.serve(n).ime,
        !s.stack_exhausted() && s.regs.sp != 0xff10 && s.regs.sp != 0xff11 ==> {
            &&& !bit_is_set(s.serve(n).mmu.read(0xff0f), n)
            &&& k != n ==> bit_is_set(s.serve(n).mmu.read(0xff0f), k) == bit_is_set(
                s.mmu.read(0xff0f),
                k,
            )
        },
        s.stack_exhausted() ==> s.serve(n).mmu.read(0xff0f) == 0 && s.serve(n).regs == s.regs,
{
    let requested = s.mmu.read(0xff0f);
    let cleared = with_bit(requested, n, false);
    lemma_bus_registers(s.mmu, cleared);
    let m1 = s.mmu.write(0xff0f, cleared);
    lemma_bus_registers(m1, 0);
    if k != n {
        lemma_other_bits_kept(requested, n, k, false);
    } else {
        lemma_other_bits_kept(requested, n, if n == 0 {
            1
        } else {
            0
        }, false);
    }
    if !s.stack_exhausted() && s.regs.sp != 0xff10 && s.regs.sp != 0xff11 {
        let upper = s.regs.sp.wrapping_sub(1);
        let lower = s.regs.sp.wrapping_sub(2);
        lemma_write_keeps(m1, upper, high_byte(s.regs.pc));
        lemma_write_keeps(m1.write(upper, high_byte(s.regs.pc)), lower, low_byte(s.regs.pc));
    }
}

/// A step adds to the cycle count exactly the cycles it reports; timer,
/// audio and pixel pipeline never touch the count.
pub proof fn lemma_step_counts(s: Machine)
    ensures
        s.stepped().0.cycles == wrap_add32(s.cycles, s.step_cost()),
        s.stepped().0.running == s.running,
{
    reveal(Machine::cpu_step);
    reveal(Machine::step_cost);
    reveal(Machine::peripherals_stepped);
    lemma_effect_keeps_count(s.ime_committed().traced().skip(1), s.operand8());
}

/// What an instruction does leaves the cycle count and the run switch
/// alone: the count moves only by what the instruction is charged.
pub proof fn lemma_effect_keeps_count(s: Machine, op: u8)
    ensures
        s.effect(op).cycles == s.cycles,
        s.effect(op).running == s.running,
        s.execute(op).cycles == wrap_add32(s.cycles, s.timing(op)),
{
}

/// A frame that has used `used` cycles ends at the first step that brings
/// the cycles used to 70224 or beyond, and so within one instruction of the
/// budget: between 70224 and 70244 cycles, a multiple of four. The cycle
/// count advances, modulo two to the thirty-second, by the cycles used.
pub proof fn lemma_frame_budget(s: Machine, used: int, ready: bool)
    requires
        0 <= used < 70224,
        used % 4 == 0,
    ensures
        70224 <= s.frame_from(used, ready).used <= 70244,
        s.frame_from(used, ready).used % 4 == 0,
        s.frame_from(used, ready).machine.cycles as int == (s.cycles + s.frame_from(
            used,
            ready,
        ).used - used) % 0x1_0000_0000,
        s.frame_from(used, ready).machine.running == s.running,
        ready ==> s.frame_from(used, ready).ready,
    decreases 70248 - used, (if s.stalls() {
        1int
    } else {
        0int
    }),
{
    lemma_step_progress(s);
    lemma_step_cost_bounds(s);
    lemma_step_counts(s);
    let next = s.stepped().0;
    let used1 = used + s.step_cost();
    let ready1 = ready || s.stepped().1;
    if used1 < 70224 {
        lemma_frame_budget(next, used1, ready1);
    } else {
        assert(next.frame_from(used1, ready1) == (FrameEnd {
            machine: next,
            ready: ready1,
            used: used1,
        }));
    }
}

/// One frame takes between 70224 and 70244 cycles, a multiple of four: the
/// budget of 70224, and what the instruction that reaches it takes beyond
/// it. The cycle count advances by just these cycles, modulo two to the
/// thirty-second; where every step of the frame takes four cycles, as on a
/// halted processor, that is the budget exactly.
pub proof fn lemma_frame_cycles(s: Machine)
    ensures
        70224 <= s.frame().used <= 70244,
        s.frame().used % 4 == 0,
        s.frame().machine.cycles as int == (s.cycles + s.frame().used) % 0x1_0000_0000,
{
    lemma_frame_budget(s, 0, false);
}

/// Every write keeps the memory unit well formed and the scanline register
/// as it is.
pub proof fn lemma_writes_keep_wf()
    ensures
        forall|m: MmuView, addr: u16, val: u8|
            m.wf() ==> (#[trigger] m.write(addr, val)).wf() && m.write(addr, val).io[0x44]
                == m.io[0x44],
{
    assert forall|m: MmuView, addr: u16, val: u8| m.wf() implies (#[trigger] m.write(
        addr,
        val,
    )).wf() && m.write(addr, val).io[0x44] == m.io[0x44] by {
        lemma_write_keeps(m, addr, val);
    }
}

/// Every operation of the arithmetic unit keeps the low nibble of the flags
/// byte clear.
pub proof fn lemma_alu_keeps_flags_clean(r: Registers, op: int, value: u8, e: u8, w: u16)
    requires
        r.flags_clean(),
    ensures
        alu_applied(r, op, value).flags_clean(),
        r.after_inc(value).flags_clean(),
        r.after_dec(value).flags_clean(),
        r.after_add_hl(w).flags_clean(),
        r.after_offset_sp(e).flags_clean(),
        r.after_shift(op, value).flags_clean(),
        r.after_rotate_a(op).flags_clean(),
        r.after_daa().flags_clean(),
        r.after_cpl().flags_clean(),
        r.after_scf().flags_clean(),
        r.after_ccf().flags_clean(),
        r.with_af(w).flags_clean(),
        forall|z: bool, n: bool, h: bool, c: bool| #[trigger] r.with_flags(z, n, h, c).flags_clean(),
{
    reveal(Registers::after_add);
    reveal(Registers::after_sub);
    reveal(Registers::after_compare);
    reveal(Registers::after_and);
    reveal(Registers::after_xor);
    reveal(Registers::after_or);
    reveal(Registers::after_inc);
    reveal(Registers::after_dec);
    reveal(Registers::after_add_hl);
    reveal(Registers::after_offset_sp);
    reveal(packed_flags);
    reveal(high_byte);
    reveal(low_byte);
}

/// Loads, stores, pushes and pops keep the console well formed.
proof fn lemma_moves_keep_wf(s: Machine, addr: u16, val: u8, w: u16, r: int)
    requires
        s.wf(),
    ensures
        s.leaves_pipeline(s.store(addr, val)),
        s.leaves_pipeline(s.push(w)),
        s.leaves_pipeline(s.pop()),
        s.leaves_pipeline(s.call(w)),
        s.leaves_pipeline(s.ret()),
        s.leaves_pipeline(s.jump(w)),
        s.leaves_pipeline(s.skip(w)),
        s.leaves_pipeline(s.with_a(val)),
        s.leaves_pipeline(s.with_sp(w)),
        s.leaves_pipeline(s.with_reg8(r, val)),
        s.leaves_pipeline(s.with_reg16(r, w)),
        s.leaves_pipeline(s.with_stack_reg16(r, w)),
        s.leaves_pipeline(s.indirect_stepped(r)),
        s.leaves_pipeline(s.jump_relative()),
        s.leaves_pipeline(s.charge(w as u32)),
{
    lemma_writes_keep_wf();
    reveal(high_byte);
    reveal(low_byte);
}

/// The extended page keeps the console well formed.
proof fn lemma_cb_keeps_wf(s: Machine, op: u8)
    requires
        s.wf(),
    ensures
        s.leaves_pipeline(s.effect_cb(op)),
{
    let y = (op / 8) % 8;
    let z = (op % 8) as int;
    let value = s.reg8(z);
    lemma_alu_keeps_flags_clean(s.regs, y as int, value, 0, 0);
    let shifted_regs = s.with_regs(s.regs.after_shift(y as int, value));
    lemma_moves_keep_wf(shifted_regs, 0, shifted(y as int, value, s.regs.carry_in()), 0, z);
    lemma_moves_keep_wf(s, 0, with_bit(value, y, false), 0, z);
    lemma_moves_keep_wf(s, 0, with_bit(value, y, true), 0, z);
}

/// The first quarter of the table keeps the console well formed: jumps,
/// sixteen-bit loads and counting, and the indirect accumulator loads.
proof fn lemma_block0_low_keeps_wf(s: Machine, y: int, z: int)
    requires
        s.wf(),
        0 <= y < 8,
        0 <= z < 4,
    ensures
        s.leaves_pipeline(s.effect_block0(y, z)),
{
    let p = y / 2;
    let nn = s.operand16();
    if z == 0 {
        lemma_moves_keep_wf(s, 0, 0, 2, 0);
        lemma_moves_keep_wf(s, 0, 0, 1, 0);
        lemma_moves_keep_wf(s.skip(2), nn, low_byte(s.regs.sp), 0, 0);
        lemma_moves_keep_wf(
            s.skip(2).store(nn, low_byte(s.regs.sp)),
            nn.wrapping_add(1),
            high_byte(s.regs.sp),
            0,
            0,
        );
    } else if z == 1 {
        lemma_alu_keeps_flags_clean(s.regs, 0, 0, 0, s.reg16(p));
        lemma_moves_keep_wf(s, 0, 0, 2, 0);
        lemma_moves_keep_wf(s.skip(2), 0, 0, nn, p);
    } else if z == 2 {
        lemma_moves_keep_wf(s, s.indirect_address(p), s.regs.a, 0, 0);
        lemma_moves_keep_wf(s.store(s.indirect_address(p), s.regs.a), 0, 0, 0, p);
        lemma_moves_keep_wf(s, 0, s.mmu.read(s.indirect_address(p)), 0, 0);
        lemma_moves_keep_wf(s.with_a(s.mmu.read(s.indirect_address(p))), 0, 0, 0, p);
    } else {
        lemma_moves_keep_wf(s, 0, 0, s.reg16(p).wrapping_add(1), p);
        lemma_moves_keep_wf(s, 0, 0, s.reg16(p).wrapping_sub(1), p);
    }
}

/// The first quarter of the table keeps the console well formed: counting
/// and loading bytes, and the accumulator and flag instructions.
proof fn lemma_block0_high_keeps_wf(s: Machine, y: int, z: int)
    requires
        s.wf(),
        0 <= y < 8,
        4 <= z < 8,
    ensures
        s.leaves_pipeline(s.effect_block0(y, z)),
{
    lemma_alu_keeps_flags_clean(s.regs, y, s.reg8(y), 0, 0);
    if z == 4 {
        lemma_moves_keep_wf(
            s.with_regs(s.regs.after_inc(s.reg8(y))),
            0,
            s.reg8(y).wrapping_add(1),
            0,
            y,
        );
    } else if z == 5 {
        lemma_moves_keep_wf(
            s.with_regs(s.regs.after_dec(s.reg8(y))),
            0,
            s.reg8(y).wrapping_sub(1),
            0,
            y,
        );
    } else if z == 6 {
        lemma_moves_keep_wf(s, 0, 0, 1, 0);
        lemma_moves_keep_wf(s.skip(1), 0, s.operand8(), 0, y);
    }
}

/// The last quarter of the table keeps the console well formed: returns,
/// pops, jumps and the loads of the high page.
proof fn lemma_block3_low_keeps_wf(s: Machine, y: int, z: int)
    requires
        s.wf(),
        0 <= y < 8,
        0 <= z < 3,
    ensures
        s.leaves_pipeline(s.effect_block3(y, z)),
{
    let p = y / 2;
    let n = s.operand8();
    let nn = s.operand16();
    let t = s.skip(1);
    lemma_moves_keep_wf(s, 0, 0, 1, 0);
    lemma_moves_keep_wf(s, 0, 0, 2, 0);
    if z == 0 {
        lemma_moves_keep_wf(t, (0xff00 + n) as u16, s.regs.a, 0, 0);
        lemma_moves_keep_wf(t, 0, s.mmu.read((0xff00 + n) as u16), 0, 0);
        lemma_alu_keeps_flags_clean(t.regs, 0, 0, n, 0);
        let flagged = t.with_regs(t.regs.after_offset_sp(n));
        lemma_moves_keep_wf(flagged, 0, 0, offset_address(s.regs.sp, n), 2);
    } else if z == 1 {
        lemma_alu_keeps_flags_clean(s.pop().regs, 0, 0, 0, s.stack_top());
        lemma_moves_keep_wf(s.pop(), 0, 0, s.stack_top(), p);
        lemma_moves_keep_wf(s, 0, 0, s.regs.spec_hl(), 0);
    } else {
        lemma_moves_keep_wf(s, (0xff00 + s.regs.c) as u16, s.regs.a, nn, 0);
        lemma_moves_keep_wf(s, 0, s.mmu.read((0xff00 + s.regs.c) as u16), 0, 0);
        lemma_moves_keep_wf(s.skip(2), nn, s.regs.a, 0, 0);
        lemma_moves_keep_wf(s.skip(2), 0, s.mmu.read(nn), 0, 0);
    }
}

/// The last quarter of the table keeps the console well formed: the
/// extended page, calls, pushes, arithmetic on an operand and restarts.
proof fn lemma_block3_high_keeps_wf(s: Machine, y: int, z: int)
    requires
        s.wf(),
        0 <= y < 8,
        3 <= z < 8,
    ensures
        s.leaves_pipeline(s.effect_block3(y, z)),
{
    let p = y / 2;
    let n = s.operand8();
    let nn = s.operand16();
    let t = s.skip(1);
    lemma_moves_keep_wf(s, 0, 0, 1, 0);
    lemma_moves_keep_wf(s, 0, 0, 2, 0);
    if z == 3 {
        lemma_moves_keep_wf(s, 0, 0, nn, 0);
        lemma_cb_keeps_wf(t, n);
    } else if z == 4 {
        lemma_moves_keep_wf(s.skip(2), 0, 0, nn, 0);
    } else if z == 5 {
        lemma_moves_keep_wf(s, 0, 0, s.stack_reg16(p), 0);
        lemma_moves_keep_wf(s.skip(2), 0, 0, nn, 0);
    } else if z == 6 {
        lemma_alu_keeps_flags_clean(t.regs, y, n, 0, 0);
    } else {
        lemma_moves_keep_wf(s, 0, 0, (y * 8) as u16, 0);
    }
}

/// What an instruction does keeps the console well formed.
pub proof fn lemma_execute_keeps_wf(s: Machine, op: u8)
    requires
        s.wf(),
    ensures
        s.leaves_pipeline(s.execute(op)),
{
    let y = ((op / 8) % 8) as int;
    let z = (op % 8) as int;
    if op < 0x40 {
        if z < 4 {
            lemma_block0_low_keeps_wf(s, y, z);
        } else {
            lemma_block0_high_keeps_wf(s, y, z);
        }
    } else if op < 0x80 {
        lemma_moves_keep_wf(s, 0, s.reg8(z), 0, y);
    } else if op < 0xc0 {
        lemma_alu_keeps_flags_clean(s.regs, y, s.reg8(z), 0, 0);
    } else if z < 3 {
        lemma_block3_low_keeps_wf(s, y, z);
    } else {
        lemma_block3_high_keeps_wf(s, y, z);
    }
}

/// Serving an interrupt keeps the console well formed.
proof fn lemma_serve_keeps_wf(s: Machine, n: u8)
    requires
        s.wf(),
    ensures
        s.leaves_pipeline(s.serve(n)),
{
    let requested = s.mmu.read(0xff0f);
    lemma_write_keeps(s.mmu, 0xff0f, with_bit(requested, n, false));
    let acknowledged = Machine {
        ime: false,
        halted: false,
        mmu: s.mmu.write(0xff0f, with_bit(requested, n, false)),
        last_interrupt: Some((n, s.regs.pc, s.mmu.read(0xffff), requested)),
        ..s
    };
    lemma_moves_keep_wf(acknowledged, 0xff0f, 0, interrupt_vector(n), 0);
    lemma_moves_keep_wf(acknowledged.call(interrupt_vector(n)), 0, 0, 20, 0);
}

/// A step of the processor keeps the console well formed.
pub proof fn lemma_cpu_step_keeps_wf(s: Machine)
    requires
        s.wf(),
    ensures
        s.leaves_pipeline(s.cpu_step()),
{
    reveal(Machine::cpu_step);
    if !s.halted {
        if s.serves_interrupt() {
            lemma_serve_keeps_wf(s.ime_committed(), s.pending_interrupt()->0);
        } else {
            lemma_execute_keeps_wf(s.ime_committed().traced().skip(1), s.operand8());
        }
    }
}

/// A step of the whole console keeps it well formed.
pub proof fn lemma_step_keeps_wf(s: Machine)
    requires
        s.wf(),
    ensures
        s.leaves_pipeline(s.cpu_step()),
        s.stepped().0.wf(),
{
    lemma_cpu_step_keeps_wf(s);
    lemma_step_cost_bounds(s);
    reveal(Machine::peripherals_stepped);
    let c = s.cpu_step();
    let timed = c.timer.step(c.mmu.io, s.step_cost());
    lemma_timer_touches(c.timer, c.mmu.io, s.step_cost(), 0x44);
    lemma_pipeline_keeps_wf(c.ppu, MmuView { io: timed.1, ..c.mmu }, s.step_cost());
}

/// A step of the console reports a completed frame exactly when it takes
/// the pixel pipeline into line 144, and then the vertical blank interrupt
/// is requested.
pub proof fn lemma_step_frame_ready(s: Machine)
    requires
        s.wf(),
    ensures
        s.stepped().1 == s.cpu_step().ppu.enters_vblank(
            MmuView {
                io: s.cpu_step().timer.step(s.cpu_step().mmu.io, s.step_cost()).1,
                ..s.cpu_step().mmu
            },
            s.step_cost(),
        ),
        s.stepped().1 ==> s.stepped().0.mmu.io[0x44] == 144 && bit_is_set(
            s.stepped().0.mmu.io[0x0f],
            0,
        ),
{
    reveal(Machine::peripherals_stepped);
    lemma_step_keeps_wf(s);
    lemma_step_cost_bounds(s);
    let c = s.cpu_step();
    let timed = c.timer.step(c.mmu.io, s.step_cost());
    lemma_timer_touches(c.timer, c.mmu.io, s.step_cost(), 0x44);
    lemma_frame_ready_is_vblank(c.ppu, MmuView { io: timed.1, ..c.mmu }, s.step_cost());
}

/// Over a whole frame: the pixel pipeline is reported to have completed a
/// frame exactly if some step of the frame took it from line 143 into line
/// 144. Where the display is off on every step no step does, and nothing
/// is reported.
pub proof fn lemma_frame_ready(s: Machine, used: int, ready: bool)
    requires
        s.wf(),
        0 <= used,
    ensures
        s.frame_from(used, ready).ready == (ready || s.frame_vblanks(used) > 0),
        s.display_off_throughout(used) ==> s.frame_vblanks(used) == 0,
    decreases 70248 - used, (if s.stalls() {
        1int
    } else {
        0int
    }),
{
    if used < 70224 {
        lemma_step_progress(s);
        lemma_step_keeps_wf(s);
        lemma_step_frame_ready(s);
        lemma_frame_ready(s.stepped().0, used + s.step_cost(), ready || s.stepped().1);
    }
}

/// With the display on, a step of the console moves the pixel pipeline on
/// by the cycles of the step around its frame of 70224 cycles, and takes it
/// into line 144 exactly when that brings it round to the start of the
/// vertical blank.
pub proof fn lemma_step_advances_pipeline(s: Machine)
    requires
        s.wf(),
        PpuView::lcd_on(s.pipeline_registers()),
    ensures
        0 <= s.since_vblank() < 70224,
        s.stepped().0.since_vblank() == (s.since_vblank() + s.step_cost()) % 70224,
        s.enters_line_144() == (s.since_vblank() + s.step_cost() >= 70224),
{
    lemma_step_keeps_wf(s);
    lemma_step_cost_bounds(s);
    reveal(Machine::peripherals_stepped);
    let c = s.cpu_step();
    lemma_timer_touches(c.timer, c.mmu.io, s.step_cost(), 0x44);
    lemma_pipeline_advances(c.ppu, s.pipeline_registers(), s.step_cost());
}

/// Over a frame on which the display stays on, the steps that take the
/// pixel pipeline into line 144 are as many as the times the cycles of the
/// frame bring the pipeline round to the start of the vertical blank.
pub proof fn lemma_vblanks_counted(s: Machine, used: int, ready: bool)
    requires
        s.wf(),
        0 <= used,
        s.display_on_throughout(used),
    ensures
        0 <= s.since_vblank() < 70224,
        s.frame_from(used, ready).used >= used,
        s.frame_vblanks(used) == (s.since_vblank() + s.frame_from(used, ready).used - used)
            / 70224,
    decreases 70248 - used, (if s.stalls() {
        1int
    } else {
        0int
    }),
{
    if used < 70224 {
        lemma_step_progress(s);
        lemma_step_cost_bounds(s);
        lemma_step_keeps_wf(s);
        lemma_step_advances_pipeline(s);
        let next = s.stepped().0;
        let used1 = used + s.step_cost();
        lemma_vblanks_counted(next, used1, ready || s.stepped().1);
        lemma_round_parts(
            s.since_vblank(),
            s.step_cost() as int,
            next.frame_from(used1, ready || s.stepped().1).used - used1,
        );
    } else {
        lemma_since_vblank_bounds(s);
    }
}

/// The pixel pipeline of a well-formed console is somewhere in the 70224
/// cycles of its frame.
pub proof fn lemma_since_vblank_bounds(s: Machine)
    requires
        s.wf(),
    ensures
        0 <= s.since_vblank() < 70224,
{
}

/// The cadence of the vertical blank: in a frame on which the display stays
/// on, the pixel pipeline enters line 144 once, and a frame is reported.
/// It enters twice only where the frame both begins within twenty cycles
/// before the pipeline would enter and runs that far beyond its budget with
/// its last instruction; each time the vertical blank interrupt is
/// requested.
pub proof fn lemma_vblank_cadence(s: Machine)
    requires
        s.wf(),
        s.display_on_throughout(0),
    ensures
        1 <= s.frame_vblanks(0) <= 2,
        s.frame().ready,
        s.since_vblank() + s.frame().used < 140448 ==> s.frame_vblanks(0) == 1,
        s.since_vblank() < 70204 ==> s.frame_vblanks(0) == 1,
{
    lemma_vblanks_counted(s, 0, false);
    lemma_frame_budget(s, 0, false);
    lemma_frame_ready(s, 0, false);
}

/// A frame leaves the console well formed: in particular the scanline
/// register names one of the 154 lines of a frame.
pub proof fn lemma_frame_keeps_wf(s: Machine, used: int, ready: bool)
    requires
        s.wf(),
        0 <= used,
    ensures
        s.frame_from(used, ready).machine.wf(),
        s.frame_from(used, ready).machine.mmu.io[0x44] <= 153,
    decreases 70248 - used, (if s.stalls() {
        1int
    } else {
        0int
    }),
{
    if used < 70224 {
        lemma_step_progress(s);
        lemma_step_keeps_wf(s);
        lemma_frame_keeps_wf(
            s.stepped().0,
            used + s.step_cost(),
            ready || s.stepped().1,
        );
    }
}

} // verus!
