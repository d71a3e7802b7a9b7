//! The button latch.

use crate::bits::{lemma_single_bit, with_bit};
use crate::mmu::joypad_nibble;
use vstd::prelude::*;

verus! {

/// The joypad register after the latch `buttons` has been composed into it:
/// the high nibble as stored, the low nibble from the selected groups.
pub open spec fn joypad_latched(buttons: u8, joyp: u8) -> u8 {
    (joyp & 0xf0) | joypad_nibble(buttons, joyp)
}

/// The register block after the latch `buttons` has been composed into the
/// joypad register: the joypad interrupt is requested when a button of a
/// selected group is down.
pub open spec fn joypad_updated(buttons: u8, io: Seq<u8>) -> Seq<u8> {
    let latched = joypad_latched(buttons, io[0x00]);
    let io1 = io.update(0x00, latched);
    if latched & 0x0f != 0x0f {
        io1.update(0x0f, io1[0x0f] | 0x10)
    } else {
        io1
    }
}

/// Eight buttons, one bit each, a clear bit for a button that is down: bits
/// 0 to 3 the direction pad, bits 4 to 7 the action buttons.
pub struct Input {
    buttons: u8,
}

impl View for Input {
    type V = u8;

    closed spec fn view(&self) -> u8 {
        self.buttons
    }
}

impl Input {
    pub fn new() -> (r: Self)
        ensures
            r@ == 0xff,
    {
        Input { buttons: 0xff }
    }

    pub fn reset(&mut self)
        ensures
            final(self)@ == 0xff,
    {
        self.buttons = 0xff;
    }

    pub fn press_button(&mut self, button: u8)
        requires
            button < 8,
        ensures
            final(self)@ == with_bit(old(self)@, button, false),
    {
        proof {
            lemma_single_bit(self.buttons, button);
        }
        self.buttons &= !(1u8 << button);
    }

    pub fn release_button(&mut self, button: u8)
        requires
            button < 8,
        ensures
            final(self)@ == with_bit(old(self)@, button, true),
    {
        proof {
            lemma_single_bit(self.buttons, button);
        }
        self.buttons |= 1u8 << button;
    }

    /// Composes the latch into the joypad register of the register block
    /// `io`.
    pub fn update_joypad(&self, io: &mut [u8])
        requires
            old(io)@.len() >= 0x10,
        ensures
            final(io)@ == joypad_updated(self@, old(io)@),
            final(io)@.len() == old(io)@.len(),
    {
        let joyp = io[0x00];
        let pad: u8 = if joyp & 0x10 == 0 {
            self.buttons & 0x0f
        } else {
            0x0f
        };
        let action: u8 = if joyp & 0x20 == 0 {
            self.buttons >> 4
        } else {
            0x0f
        };
        let new_joyp = (joyp & 0xf0) | (pad & action);
        io[0x00] = new_joyp;
        if new_joyp & 0x0f != 0x0f {
            let pending = io[0x0f];
            io[0x0f] = pending | 0x10;
        }
    }
}

} // verus!
