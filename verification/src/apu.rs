//! The audio placeholder: it keeps time and reads the master enable, and
//! makes no sound.

use crate::bits::{lemma_cycle_window, lemma_flag_masks};
use crate::mmu::{MmuView, MMU};
use crate::timer::wrap_add32;
use vstd::prelude::*;

verus! {

/// Whether the master enable bit of the sound control register is set.
pub open spec fn audio_enabled(mmu: MmuView) -> bool {
    mmu.read(0xff26) >= 0x80
}

/// The cycle count after `cycles` more cycles, folded back into twenty bits
/// once it has passed two to the twentieth.
pub open spec fn audio_cycles_after(accum: u32, cycles: u32) -> u32 {
    let total = wrap_add32(accum, cycles);
    if total > 0x10_0000 {
        total % 0x10_0000
    } else {
        total
    }
}

/// The audio unit.
pub struct APU {
    accum_cycles: u32,
}

impl View for APU {
    type V = u32;

    closed spec fn view(&self) -> u32 {
        self.accum_cycles
    }
}

impl APU {
    pub fn new() -> (r: Self)
        ensures
            r@ == 0,
    {
        Self { accum_cycles: 0 }
    }

    pub fn reset(&mut self)
        ensures
            final(self)@ == 0,
    {
        self.accum_cycles = 0;
    }

    pub fn step(&mut self, mmu: &MMU, cycles: u32)
        requires
            mmu@.wf(),
        ensures
            final(self)@ == audio_cycles_after(old(self)@, cycles),
    {
        self.accum_cycles = self.accum_cycles.wrapping_add(cycles);
        let _ = self.is_enabled(mmu);
        if self.accum_cycles > 0x10_0000 {
            proof {
                lemma_cycle_window(self.accum_cycles);
            }
            self.accum_cycles &= 0xf_ffff;
        }
    }

    pub fn is_enabled(&self, mmu: &MMU) -> (r: bool)
        requires
            mmu@.wf(),
        ensures
            r == audio_enabled(mmu@),
    {
        let control = mmu.read_byte(0xff26);
        proof {
            lemma_flag_masks(control);
        }
        (control & 0x80) != 0
    }
}

} // verus!
