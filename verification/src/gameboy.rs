//! The console: the processor and everything it drives, one frame at a time.

use crate::apu::APU;
use crate::bits::{bit_is_set, lemma_cycle_window, lemma_high_nibble, lemma_single_bit};
use crate::input::Input;
use crate::machine::{
    lemma_frame_cycles, lemma_frame_ready, lemma_lowest_interrupt, lemma_step_progress, lemma_timing_bounds,
    InterruptRecord, Machine, SaveState, TraceEntry, FRAME_CYCLES, STACK_GUARD,
};
use crate::mmu::{lemma_bus_registers, MMU};
use crate::ppu::{PpuView, PPU, SCREEN_HEIGHT, SCREEN_WIDTH};
use crate::registers::Registers;
use crate::timer::{lemma_timer_touches, Timer};
use crate::trace::{format_trace, trace_text};
use vstd::prelude::*;

pub mod cpu;
pub mod extended;
pub mod table;

verus! {

/// The console. It owns the register file, the memory unit, the timer, the
/// button latch, the pixel pipeline and the audio unit; nothing else writes
/// to them.
pub struct GameBoy {
    running: bool,
    mmu: MMU,
    registers: Registers,
    timer: Timer,
    input: Input,
    ppu: PPU,
    apu: APU,
    cycles: u32,
    halted: bool,
    ime: bool,
    ime_scheduled: bool,
    trace_enabled: bool,
    trace_buf: [TraceEntry; 256],
    trace_idx: u32,
    last_interrupt: Option<InterruptRecord>,
}

impl View for GameBoy {
    type V = Machine;

    closed spec fn view(&self) -> Machine {
        Machine {
            running: self.running,
            mmu: self.mmu@,
            regs: self.registers,
            timer: self.timer@,
            input: self.input@,
            ppu: self.ppu@,
            apu: self.apu@,
            cycles: self.cycles,
            halted: self.halted,
            ime: self.ime,
            ime_scheduled: self.ime_scheduled,
            trace_enabled: self.trace_enabled,
            trace: self.trace_buf@,
            trace_idx: self.trace_idx,
            last_interrupt: self.last_interrupt,
        }
    }
}

impl GameBoy {
    /// A stopped console at power-on, with no cartridge.
    pub fn new() -> (r: GameBoy)
        ensures
            r@ == Machine::power_on(),
            r@.wf(),
    {
        let trace_buf: [TraceEntry; 256] = [(0, 0, 0); 256];
        assert(trace_buf@ =~= Machine::blank_trace());
        GameBoy {
            running: false,
            mmu: MMU::new(),
            registers: Registers::new(),
            timer: Timer::new(),
            input: Input::new(),
            ppu: PPU::new(),
            apu: APU::new(),
            cycles: 0,
            halted: false,
            ime: false,
            ime_scheduled: false,
            trace_enabled: false,
            trace_buf,
            trace_idx: 0,
            last_interrupt: None,
        }
    }

    /// Puts in a cartridge image and resets the console.
    pub fn load_rom(&mut self, rom: &[u8])
        requires
            old(self)@.wf(),
        ensures
            final(self)@ == old(self)@.load_rom(rom@),
            final(self)@.wf(),
    {
        self.mmu.load_rom(rom);
        self.reset();
    }

    /// Brings every unit back to power-on and stops the console; the
    /// cartridge stays in place.
    pub fn reset(&mut self)
        requires
            old(self)@.wf(),
        ensures
            final(self)@ == old(self)@.reset(),
            final(self)@.wf(),
    {
        self.running = false;
        self.mmu.reset();
        self.registers = Registers::new();
        self.timer.reset();
        self.input.reset();
        self.ppu.reset(&mut self.mmu);
        self.apu.reset();
        self.cycles = 0;
        self.halted = false;
        self.ime = false;
        self.ime_scheduled = false;
        self.trace_idx = 0;
        self.trace_buf = [(0, 0, 0); 256];
        self.last_interrupt = None;
        assert(self.trace_buf@ =~= Machine::blank_trace());
    }

    pub fn start(&mut self)
        ensures
            final(self)@ == (Machine { running: true, ..old(self)@ }),
    {
        self.running = true;
    }

    pub fn stop(&mut self)
        ensures
            final(self)@ == (Machine { running: false, ..old(self)@ }),
    {
        self.running = false;
    }

    pub fn is_running(&self) -> (r: bool)
        ensures
            r == self@.running,
    {
        self.running
    }

    /// Runs the console for one frame of 70224 cycles, to the end of the
    /// instruction that reaches them; returns whether the pixel pipeline
    /// completed a frame on the way. A stopped console does nothing.
    ///
    /// The cycle count advances by the cycles that the steps of the frame
    /// took, between 70224 and 70244, modulo two to the thirty-second. A
    /// frame is reported exactly if some step took the pixel pipeline from
    /// line 143 into line 144.
    pub fn run_frame(&mut self) -> (frame_ready: bool)
        requires
            old(self)@.wf(),
        ensures
            old(self)@.running ==> final(self)@ == old(self)@.frame().machine,
            old(self)@.running ==> frame_ready == old(self)@.frame().ready,
            old(self)@.running ==> final(self)@.cycles as int == (old(self)@.cycles + old(
                self,
            )@.frame().used) % 0x1_0000_0000,
            old(self)@.running ==> 70224 <= old(self)@.frame().used <= 70244,
            old(self)@.running ==> frame_ready == (old(self)@.frame_vblanks(0) > 0),
            !old(self)@.running ==> final(self)@ == old(self)@ && !frame_ready,
            final(self)@.wf(),
    {
        if !self.running {
            return false;
        }
        proof {
            lemma_frame_cycles(self@);
            lemma_frame_ready(self@, 0, false);
        }
        let mut frame_cycles: u32 = 0;
        let mut frame_ready = false;
        while frame_cycles < FRAME_CYCLES
            invariant
                self@.wf(),
                frame_cycles <= 70224 + 24,
                self@.frame_from(frame_cycles as int, frame_ready) == old(self)@.frame(),
            decreases 70248 - frame_cycles, (if self@.stalls() {
                1int
            } else {
                0int
            }),
        {
            proof {
                lemma_step_progress(self@);
                reveal(Machine::peripherals_stepped);
            }
            let cpu_cycles = self.step_cpu();
            frame_cycles += cpu_cycles;
            proof {
                lemma_timer_touches(self.timer@, self.mmu@.io, cpu_cycles, 0x44);
            }
            self.timer.step(cpu_cycles, self.mmu.get_io_mut());
            self.apu.step(&self.mmu, cpu_cycles);
            if self.ppu.step(&mut self.mmu, cpu_cycles) {
                frame_ready = true;
            }
        }
        frame_ready
    }

    /// One step of the processor alone: it looks for an interrupt to wake
    /// from a halt, serves an interrupt or runs one instruction. Returns the
    /// cycles the step took, which are added to the cycle count; timer,
    /// audio and pixel pipeline are not advanced.
    pub fn step_cpu(&mut self) -> (cost: u32)
        requires
            old(self)@.wf(),
        ensures
            final(self)@ == old(self)@.cpu_step(),
            cost == old(self)@.step_cost(),
            final(self)@.wf(),
    {
        proof {
            reveal(Machine::cpu_step);
            reveal(Machine::step_cost);
        }
        if self.halted {
            if self.check_interrupts().is_some() {
                self.halted = false;
            }
            self.cycles = self.cycles.wrapping_add(4);
            return 4;
        }
        if self.ime_scheduled {
            self.ime = true;
            self.ime_scheduled = false;
        }
        if self.ime {
            if let Some(interrupt) = self.check_interrupts() {
                let starved = self.registers.sp < STACK_GUARD;
                self.handle_interrupt(interrupt);
                return if starved {
                    0
                } else {
                    20
                };
            }
        }
        self.step_instruction()
    }

    /// Notes the instruction `opcode` at `pc` in the log, if the log is
    /// switched on.
    fn note_instruction(&mut self, pc: u16, opcode: u8)
        requires
            old(self)@.wf(),
        ensures
            final(self)@ == (if old(self)@.trace_enabled {
                Machine {
                    trace: old(self)@.trace.update(
                        old(self)@.trace_idx as int % 256,
                        (pc, opcode, old(self)@.regs.sp),
                    ),
                    trace_idx: old(self)@.trace_idx.wrapping_add(1),
                    ..old(self)@
                }
            } else {
                old(self)@
            }),
            final(self)@.wf(),
    {
        if self.trace_enabled {
            proof {
                lemma_cycle_window(self.trace_idx);
            }
            self.trace_buf[(self.trace_idx & 0xff) as usize] = (pc, opcode, self.registers.sp);
            self.trace_idx = self.trace_idx.wrapping_add(1);
        }
    }

    /// Fetches and runs one instruction; returns the cycles it took.
    fn step_instruction(&mut self) -> (cost: u32)
        requires
            old(self)@.wf(),
        ensures
            final(self)@ == old(self)@.traced().skip(1).execute(old(self)@.operand8()),
            cost == old(self)@.skip(1).timing(old(self)@.operand8()),
            final(self)@.wf(),
    {
        proof {
            lemma_timing_bounds(self@.skip(1), self@.operand8());
        }
        let cycles_before = self.cycles;
        let pc_before = self.registers.pc;
        let opcode = self.fetch_byte();
        self.note_instruction(pc_before, opcode);
        self.execute_opcode(opcode);
        self.cycles.wrapping_sub(cycles_before)
    }

    /// The first interrupt that is both requested and enabled.
    fn check_interrupts(&self) -> (r: Option<u8>)
        requires
            self@.wf(),
        ensures
            r == self@.pending_interrupt(),
            r matches Some(n) ==> n < 5,
    {
        let ie = self.mmu.read_byte(0xffff);
        let if_ = self.mmu.read_byte(0xff0f);
        let interrupts = ie & if_;
        let mut i: u8 = 0;
        while i < 5
            invariant
                i <= 5,
                interrupts == self@.mmu.read(0xffff) & self@.mmu.read(0xff0f),
                forall|k: u8| k < i ==> !bit_is_set(interrupts, k),
            decreases 5 - i,
        {
            proof {
                lemma_single_bit(interrupts, i);
            }
            if interrupts & (1u8 << i) != 0 {
                proof {
                    lemma_lowest_interrupt(interrupts, i);
                }
                return Some(i);
            }
            i += 1;
        }
        proof {
            lemma_lowest_interrupt(interrupts, 5);
        }
        None
    }

    /// Serves interrupt `interrupt`.
    fn handle_interrupt(&mut self, interrupt: u8)
        requires
            old(self)@.wf(),
            interrupt < 5,
        ensures
            final(self)@ == old(self)@.serve(interrupt),
            final(self)@.wf(),
    {
        self.ime = false;
        self.halted = false;
        let if_ = self.mmu.read_byte(0xff0f);
        proof {
            lemma_single_bit(if_, interrupt);
            lemma_bus_registers(self.mmu@, if_ & !(1u8 << interrupt));
        }
        self.mmu.write_byte(0xff0f, if_ & !(1u8 << interrupt));
        let pc_before = self.registers.pc;
        let ie = self.mmu.read_byte(0xffff);
        self.last_interrupt = Some((interrupt, pc_before, ie, if_));
        if self.registers.sp < STACK_GUARD {
            self.mmu.write_byte(0xff0f, 0);
            return ;
        }
        self.push_word(self.registers.pc);
        self.registers.pc = 0x40 + 8 * interrupt as u16;
        self.cycles = self.cycles.wrapping_add(20);
    }

    /// The frame buffer: 160 by 144 pixels of four bytes, red, green, blue
    /// and opacity, row by row from the top.
    pub fn frame_buffer(&self) -> (r: &[u8])
        ensures
            r@ == self@.ppu.frame_buffer,
    {
        self.ppu.get_frame_buffer()
    }

    pub fn frame_buffer_len(&self) -> (r: usize)
        requires
            self@.wf(),
        ensures
            r == 92160,
    {
        self.ppu.get_frame_buffer().len()
    }

    /// Records that button `bit` went down: 0 to 3 are right, left, up and
    /// down, 4 to 7 are A, B, Select and Start.
    pub fn press_button(&mut self, bit: u8)
        requires
            old(self)@.wf(),
            bit < 8,
        ensures
            final(self)@ == old(self)@.press_button(bit),
            final(self)@.wf(),
    {
        self.input.press_button(bit);
        self.mmu.joypad_press(bit);
    }

    /// Records that button `bit` came up.
    pub fn release_button(&mut self, bit: u8)
        requires
            old(self)@.wf(),
            bit < 8,
        ensures
            final(self)@ == old(self)@.release_button(bit),
            final(self)@.wf(),
    {
        self.input.release_button(bit);
        self.mmu.joypad_release(bit);
    }

    pub fn get_pc(&self) -> (r: u16)
        ensures
            r == self@.regs.pc,
    {
        self.registers.pc
    }

    /// The display control register.
    pub fn get_lcdc(&self) -> (r: u8)
        requires
            self@.wf(),
        ensures
            r == self@.mmu.io[0x40],
    {
        self.mmu.get_io()[0x40]
    }

    /// The register file.
    pub fn registers(&self) -> (r: Registers)
        ensures
            r == self@.regs,
    {
        self.registers
    }

    /// The cycles counted so far, modulo two to the thirty-second.
    pub fn cycles(&self) -> (r: u32)
        ensures
            r == self@.cycles,
    {
        self.cycles
    }

    pub fn is_halted(&self) -> (r: bool)
        ensures
            r == self@.halted,
    {
        self.halted
    }

    /// Whether interrupts are enabled.
    pub fn ime(&self) -> (r: bool)
        ensures
            r == self@.ime,
    {
        self.ime
    }

    /// Reads the byte the bus shows at `addr`.
    pub fn read_byte(&self, addr: u16) -> (r: u8)
        requires
            self@.wf(),
        ensures
            r == self@.mmu.read(addr),
    {
        self.mmu.read_byte(addr)
    }

    /// Writes `val` where the bus decodes `addr`.
    pub fn write_byte(&mut self, addr: u16, val: u8)
        requires
            old(self)@.wf(),
        ensures
            final(self)@ == old(self)@.store(addr, val),
            final(self)@.wf(),
    {
        self.mmu.write_byte(addr, val);
    }

    /// Chooses whether the window and the sprites are left out of every
    /// line; they are left out unless this is switched off.
    pub fn set_overlays_suppressed(&mut self, suppressed: bool)
        ensures
            final(self)@ == (Machine {
                ppu: PpuView { overlays_suppressed: suppressed, ..old(self)@.ppu },
                ..old(self)@
            }),
    {
        self.ppu.set_overlays_suppressed(suppressed);
    }

    /// Switches the instruction log on or off.
    pub fn enable_trace(&mut self, enabled: bool)
        ensures
            final(self)@ == (Machine { trace_enabled: enabled, ..old(self)@ }),
    {
        self.trace_enabled = enabled;
    }

    /// The last instructions that the log has noted, oldest first, at most
    /// 256 of them.
    pub fn trace_entries(&self) -> (r: Vec<TraceEntry>)
        ensures
            r@ == self@.trace_entries(),
    {
        let start: u32 = if self.trace_idx < 256 {
            self.trace_idx
        } else {
            256
        };
        let mut out: Vec<TraceEntry> = Vec::new();
        let mut i: u32 = 0;
        while i < start
            invariant
                i <= start,
                start == self@.trace_len(),
                out@.len() == i,
                forall|k: int| 0 <= k < i ==> out@[k] == self@.trace_entries()[k],
            decreases start - i,
        {
            let at = self.trace_idx.wrapping_sub(start - i);
            proof {
                lemma_cycle_window(at);
            }
            out.push(self.trace_buf[(at & 0xff) as usize]);
            i += 1;
        }
        assert(out@ =~= self@.trace_entries());
        out
    }

    /// The instruction log as text: a line for each instruction noted, then
    /// two lines on the last interrupt served, if there was one.
    pub fn dump_trace(&self) -> (r: String)
        ensures
            r@ == trace_text(self@),
    {
        let entries = self.trace_entries();
        format_trace(&entries, self.last_interrupt, self.ime)
    }

    /// The last interrupt that was served, if any.
    pub fn last_interrupt(&self) -> (r: Option<InterruptRecord>)
        ensures
            r == self@.last_interrupt,
    {
        self.last_interrupt
    }

    /// The registers and the cycle count, to be saved.
    pub fn save_state(&self) -> (r: SaveState)
        ensures
            r == self@.snapshot(),
    {
        SaveState {
            a: self.registers.a,
            f: self.registers.f,
            b: self.registers.b,
            c: self.registers.c,
            d: self.registers.d,
            e: self.registers.e,
            h: self.registers.h,
            l: self.registers.l,
            sp: self.registers.sp,
            pc: self.registers.pc,
            cycles: self.cycles,
        }
    }

    /// Puts a saved state back. `None` stands for a state that could not be
    /// read, and changes nothing.
    pub fn load_state(&mut self, state: Option<SaveState>)
        requires
            old(self)@.wf(),
        ensures
            final(self)@ == old(self)@.restored(state),
            final(self)@.wf(),
    {
        if let Some(st) = state {
            proof {
                lemma_high_nibble(st.f);
            }
            self.registers.a = st.a;
            self.registers.f = st.f & 0xf0;
            self.registers.b = st.b;
            self.registers.c = st.c;
            self.registers.d = st.d;
            self.registers.e = st.e;
            self.registers.h = st.h;
            self.registers.l = st.l;
            self.registers.sp = st.sp;
            self.registers.pc = st.pc;
            self.cycles = st.cycles;
        }
    }
}

/// Saving a state and putting it straight back changes nothing.
pub proof fn lemma_save_restore(s: Machine)
    requires
        s.wf(),
    ensures
        s.restored(Some(s.snapshot())) == s,
        s.restored(Some(s.snapshot())).snapshot() == s.snapshot(),
{
}

/// A state that is put back is the state that is saved next, but for the
/// low nibble of the flags byte, which is cleared.
pub proof fn lemma_restore_save(s: Machine, st: SaveState)
    ensures
        s.restored(Some(st)).snapshot() == (SaveState { f: (st.f - st.f % 16) as u8, ..st }),
        s.restored(None) == s,
{
}

/// The width of the screen in pixels.
pub fn screen_width() -> (r: usize)
    ensures
        r == 160,
{
    SCREEN_WIDTH
}

/// The height of the screen in pixels.
pub fn screen_height() -> (r: usize)
    ensures
        r == 144,
{
    SCREEN_HEIGHT
}

} // verus!
