//! The memory map: cartridge banking, video and work RAM banks, the register
//! block and the colour extensions.

use crate::bits::{
    bit_is_set, lemma_bank_fields, lemma_color_fields, lemma_low_bits, lemma_single_bit,
    lemma_word_join, lemma_word_replace, lemma_word_split, with_bit,
};
use crate::registers::{high_byte, low_byte, pair};
use vstd::arithmetic::div_mod::{lemma_mod_bound, lemma_small_mod};
use vstd::prelude::*;
use vstd::slice::{slice_subrange, slice_to_vec};

verus! {

/// `n` zero bytes.
pub open spec fn zeros(n: int) -> Seq<u8> {
    Seq::new(n as nat, |i: int| 0u8)
}

/// The size in bytes of cartridge RAM for each size code of the header; a
/// code outside the table stands for no RAM.
pub open spec fn ram_size_for(code: u8) -> int {
    if code == 1 {
        0x800
    } else if code == 2 {
        0x2000
    } else if code == 3 {
        0x8000
    } else if code == 4 {
        0x20000
    } else {
        0
    }
}

/// The register block as a reset leaves it.
pub open spec fn io_defaults() -> Seq<u8> {
    zeros(0x80).update(0x00, 0xcf).update(0x10, 0x80).update(0x11, 0xbf).update(0x12, 0xf3).update(
        0x14,
        0xbf,
    ).update(0x16, 0x3f).update(0x19, 0xbf).update(0x1a, 0x7f).update(0x1b, 0xff).update(
        0x1c,
        0x9f,
    ).update(0x1e, 0xbf).update(0x20, 0xff).update(0x23, 0xbf).update(0x24, 0x77).update(
        0x25,
        0xf3,
    ).update(0x26, 0xf1).update(0x40, 0x91).update(0x47, 0xfc).update(0x48, 0xff).update(
        0x49,
        0xff,
    )
}

/// The low nibble of the joypad register: the buttons of each selected group,
/// a clear bit for a pressed button; a group that is not selected reads as
/// all ones.
///
/// Bits 0 to 3 of `buttons` are the direction pad, chosen by a clear bit 4 of
/// `select`; bits 4 to 7 are the action buttons, chosen by a clear bit 5.
pub open spec fn joypad_nibble(buttons: u8, select: u8) -> u8 {
    let pad: u8 = if select & 0x10 == 0 {
        buttons & 0x0f
    } else {
        0x0f
    };
    let action: u8 = if select & 0x20 == 0 {
        buttons >> 4
    } else {
        0x0f
    };
    pad & action
}

/// The joypad register as the bus reads it: two high bits set, the two select
/// lines as stored, and the composed button nibble.
pub open spec fn joypad_register(buttons: u8, select: u8) -> u8 {
    0xc0 | (select & 0x30) | joypad_nibble(buttons, select)
}

/// The value the bus reads from the transfer-length register while a
/// scanline-gated transfer of `remaining` bytes is armed.
pub open spec fn hdma_status(remaining: u16) -> u8 {
    let blocks = (remaining + 15) / 16;
    if blocks == 0 {
        0x80
    } else {
        (0x80 + (blocks - 1) % 128) as u8
    }
}

/// A palette index register after one access through its data port: with
/// the top bit set the six-bit index steps by one and wraps, otherwise it
/// stays.
pub open spec fn next_palette_index(index: u8) -> u8 {
    if index >= 0x80 {
        (0x80 + (index % 64 + 1) % 64) as u8
    } else {
        index
    }
}

/// A five-bit colour channel stretched to eight bits.
pub open spec fn expand_channel(v: int) -> u8 {
    ((v * 527 + 23) / 64) as u8
}

/// The red, green and blue channels of entry `index` of palette `palette`
/// in 64 bytes of palette memory: fifteen-bit colours stored low byte first,
/// five bits to a channel, red lowest.
pub open spec fn palette_rgb(data: Seq<u8>, palette: u8, index: u8) -> Seq<u8> {
    let at = (palette % 8) * 8 + (index % 4) * 2;
    let word = pair(data[at + 1], data[at]);
    seq![
        expand_channel(word as int % 32),
        expand_channel((word as int / 32) % 32),
        expand_channel((word as int / 1024) % 32),
    ]
}

/// The mathematical state of the memory unit.
pub struct MmuView {
    pub rom: Seq<u8>,
    pub vram: Seq<u8>,
    pub eram: Seq<u8>,
    pub wram: Seq<u8>,
    pub oam: Seq<u8>,
    pub io: Seq<u8>,
    pub hram: Seq<u8>,
    pub ie: u8,
    pub rom_bank: u8,
    pub ram_bank: u8,
    pub ram_enabled: bool,
    pub mbc_type: u8,
    pub banking_mode: u8,
    pub is_gbc: bool,
    pub vram_bank: u8,
    pub wram_bank: u8,
    pub vram_banks: Seq<u8>,
    pub wram_banks: Seq<u8>,
    pub bg_palette: Seq<u8>,
    pub obj_palette: Seq<u8>,
    pub bgpi: u8,
    pub obpi: u8,
    pub hdma_active: bool,
    pub hdma_hblank_mode: bool,
    pub hdma_src: u16,
    pub hdma_dst: u16,
    pub hdma_remaining: u16,
    pub joypad_buttons: u8,
}

impl MmuView {
    /// Buffer sizes and bank registers are within their tables, the low five
    /// bits of the ROM bank are never all clear, and the scanline register
    /// names one of the 154 lines of a frame.
    pub open spec fn wf(self) -> bool {
        &&& self.rom.len() >= 0x8000
        &&& self.vram.len() == 0x2000
        &&& self.wram.len() == 0x2000
        &&& self.oam.len() == 0xa0
        &&& self.io.len() == 0x80
        &&& self.hram.len() == 0x7f
        &&& self.vram_banks.len() == 0x4000
        &&& self.wram_banks.len() == 0x8000
        &&& self.bg_palette.len() == 64
        &&& self.obj_palette.len() == 64
        &&& self.rom_bank < 128
        &&& self.rom_bank % 32 != 0
        &&& self.ram_bank < 4
        &&& self.banking_mode < 2
        &&& self.vram_bank < 2
        &&& 1 <= self.wram_bank < 8
        &&& self.hdma_remaining <= 0x800
        &&& self.io[0x44] < 154
    }

    /// How many whole 16 KiB banks the cartridge image holds.
    pub open spec fn rom_banks(self) -> int {
        self.rom.len() as int / 0x4000
    }

    /// The bank that the switchable ROM window shows: the bank register
    /// reduced to the banks the image has.
    pub open spec fn effective_rom_bank(self) -> int {
        self.rom_bank as int % self.rom_banks()
    }

    /// How many 8 KiB banks of cartridge RAM there are; a smaller RAM counts
    /// as one partly filled bank.
    pub open spec fn eram_banks(self) -> int {
        if self.eram.len() < 0x2000 {
            1
        } else {
            self.eram.len() as int / 0x2000
        }
    }

    /// Where in cartridge RAM the address `a` of the RAM window falls.
    pub open spec fn eram_offset(self, a: int) -> int {
        (self.ram_bank as int % self.eram_banks()) * 0x2000 + (a - 0xa000)
    }

    /// The video RAM that the bus sees: the selected bank on the colour
    /// variant, the single bank otherwise.
    pub open spec fn visible_vram(self) -> Seq<u8> {
        if self.is_gbc {
            self.vram_banks.subrange(
                self.vram_bank as int * 0x2000,
                self.vram_bank as int * 0x2000 + 0x2000,
            )
        } else {
            self.vram
        }
    }

    /// Video RAM bank `bank` (taken modulo two) on the colour variant, the
    /// single bank otherwise.
    pub open spec fn vram_of_bank(self, bank: int) -> Seq<u8> {
        if self.is_gbc {
            self.vram_banks.subrange((bank % 2) * 0x2000, (bank % 2) * 0x2000 + 0x2000)
        } else {
            self.vram
        }
    }

    /// What the bus reads from register `off` of the register block.
    pub open spec fn read_io(self, off: int) -> u8 {
        if off == 0x00 {
            joypad_register(self.joypad_buttons, self.io[0])
        } else if self.is_gbc && off == 0x4f {
            (0xfe + self.vram_bank) as u8
        } else if self.is_gbc && off == 0x70 {
            (0xf8 + self.wram_bank) as u8
        } else if self.is_gbc && off == 0x68 {
            self.bgpi
        } else if self.is_gbc && off == 0x69 {
            self.bg_palette[self.bgpi as int % 64]
        } else if self.is_gbc && off == 0x6a {
            self.obpi
        } else if self.is_gbc && off == 0x6b {
            self.obj_palette[self.obpi as int % 64]
        } else if self.is_gbc && off == 0x51 {
            high_byte(self.hdma_src)
        } else if self.is_gbc && off == 0x52 {
            (low_byte(self.hdma_src) - low_byte(self.hdma_src) % 16) as u8
        } else if self.is_gbc && off == 0x53 {
            high_byte(self.hdma_dst) % 32
        } else if self.is_gbc && off == 0x54 {
            (low_byte(self.hdma_dst) - low_byte(self.hdma_dst) % 16) as u8
        } else if self.is_gbc && off == 0x55 {
            if self.hdma_active {
                hdma_status(self.hdma_remaining)
            } else {
                0xff
            }
        } else {
            self.io[off]
        }
    }

    /// What the bus reads at `a`, for an address outside the echo region.
    pub open spec fn read_direct(self, a: int) -> u8 {
        if a < 0x4000 {
            self.rom[a]
        } else if a < 0x8000 {
            self.rom[self.effective_rom_bank() * 0x4000 + (a - 0x4000)]
        } else if a < 0xa000 {
            self.visible_vram()[a - 0x8000]
        } else if a < 0xc000 {
            if self.ram_enabled && self.eram_offset(a) < self.eram.len() {
                self.eram[self.eram_offset(a)]
            } else {
                0xff
            }
        } else if a < 0xd000 {
            self.wram[a - 0xc000]
        } else if a < 0xe000 {
            if self.is_gbc {
                self.wram_banks[self.wram_bank as int * 0x1000 + (a - 0xd000)]
            } else {
                self.wram[a - 0xc000]
            }
        } else if a < 0xfe00 {
            0xff
        } else if a < 0xfea0 {
            self.oam[a - 0xfe00]
        } else if a < 0xff00 {
            0xff
        } else if a < 0xff80 {
            self.read_io(a - 0xff00)
        } else if a < 0xffff {
            self.hram[a - 0xff80]
        } else {
            self.ie
        }
    }

    /// The address that `addr` stands for: the echo region mirrors the work
    /// RAM 0x2000 below it.
    pub open spec fn unmirrored(addr: u16) -> int {
        if 0xe000 <= addr <= 0xfdff {
            addr - 0x2000
        } else {
            addr as int
        }
    }

    /// What the bus reads at `addr`.
    #[verifier::opaque]
    pub open spec fn read(self, addr: u16) -> u8 {
        self.read_direct(Self::unmirrored(addr))
    }

    /// What a read of video RAM bank `bank` at `addr` gives: the byte of that
    /// bank inside the video RAM window, the sentinel 0xFF outside it.
    pub open spec fn read_vram_bank(self, addr: u16, bank: int) -> u8 {
        if 0x8000 <= addr < 0xa000 {
            self.vram_of_bank(bank)[addr - 0x8000]
        } else {
            0xff
        }
    }

    /// With button `bit` held down, and the joypad interrupt requested.
    pub open spec fn joypad_press(self, bit: u8) -> MmuView {
        MmuView {
            joypad_buttons: with_bit(self.joypad_buttons, bit, false),
            io: self.io.update(0x0f, self.io[0x0f] | 0x10),
            ..self
        }
    }

    /// With button `bit` let go.
    pub open spec fn joypad_release(self, bit: u8) -> MmuView {
        MmuView { joypad_buttons: with_bit(self.joypad_buttons, bit, true), ..self }
    }

    /// With `val` stored at offset `off` of the video RAM the bus sees.
    pub open spec fn store_vram(self, off: int, val: u8) -> MmuView {
        if self.is_gbc {
            MmuView {
                vram_banks: self.vram_banks.update(self.vram_bank as int * 0x2000 + off, val),
                ..self
            }
        } else {
            MmuView { vram: self.vram.update(off, val), ..self }
        }
    }

    /// After a write of `val` to the low ROM bank select window: the low five
    /// bits of the bank register become those of `val`, with zero replaced
    /// by one; the two high bits stay.
    pub open spec fn select_rom_low(self, val: u8) -> MmuView {
        let low = if val % 32 == 0 {
            1
        } else {
            val as int % 32
        };
        MmuView { rom_bank: ((self.rom_bank / 32) * 32 + low) as u8, ..self }
    }

    /// After a write of `val` to the secondary bank select window: its two
    /// low bits become the high bits of the ROM bank in the simple banking
    /// mode, the RAM bank in the advanced one.
    pub open spec fn select_high(self, val: u8) -> MmuView {
        if self.banking_mode == 0 {
            MmuView { rom_bank: (self.rom_bank % 32 + (val % 4) * 32) as u8, ..self }
        } else {
            MmuView { ram_bank: val % 4, ..self }
        }
    }

    /// Object attribute memory refilled with the 160 bytes of page `page`.
    pub open spec fn dma(self, page: u8) -> MmuView {
        MmuView {
            oam: Seq::new(0xa0, |i: int| self.read((page as int * 256 + i) as u16)),
            ..self
        }
    }

    /// One byte moved by the video RAM transfer unit: read at the source
    /// address, stored in the visible video RAM where the destination address
    /// falls inside it, both addresses stepped, the remaining length lowered
    /// but not below zero. A destination below the window counts as its first
    /// byte.
    pub open spec fn hdma_step(self) -> MmuView {
        let byte = self.read(self.hdma_src);
        let off = if self.hdma_dst >= 0x8000 {
            self.hdma_dst - 0x8000
        } else {
            0
        };
        let stored = if off < 0x2000 {
            self.store_vram(off, byte)
        } else {
            self
        };
        MmuView {
            hdma_src: if self.hdma_src == 0xffff {
                0
            } else {
                (self.hdma_src + 1) as u16
            },
            hdma_dst: if self.hdma_dst == 0xffff {
                0
            } else {
                (self.hdma_dst + 1) as u16
            },
            hdma_remaining: if self.hdma_remaining == 0 {
                0
            } else {
                (self.hdma_remaining - 1) as u16
            },
            ..stored
        }
    }

    /// `len` bytes moved by the video RAM transfer unit, one after another.
    pub open spec fn hdma_copy(self, len: nat) -> MmuView
        decreases len,
    {
        if len == 0 {
            self
        } else {
            self.hdma_step().hdma_copy((len - 1) as nat)
        }
    }

    /// After the scanline-gated transfer has been given one horizontal blank:
    /// sixteen bytes moved if one is armed, and the unit disarmed when nothing
    /// remains.
    pub open spec fn hdma_hblank_step(self) -> MmuView {
        if !self.is_gbc || !self.hdma_active || !self.hdma_hblank_mode || self.hdma_remaining
            == 0 {
            self
        } else {
            let m = self.hdma_copy(16);
            if m.hdma_remaining == 0 {
                MmuView {
                    hdma_active: false,
                    hdma_hblank_mode: false,
                    io: m.io.update(0x55, 0xff),
                    ..m
                }
            } else {
                MmuView { io: m.io.update(0x55, hdma_status(m.hdma_remaining)), ..m }
            }
        }
    }

    /// After a write of `val` to the transfer-length register: a clear top
    /// bit moves the whole length at once, a set one arms the scanline-gated
    /// transfer. The length is the low seven bits plus one, in blocks of
    /// sixteen bytes.
    pub open spec fn start_hdma(self, val: u8) -> MmuView {
        let length = ((val % 128 + 1) * 16) as u16;
        if val < 128 {
            let m = MmuView { hdma_active: false, ..self }.hdma_copy(length as nat);
            MmuView { io: m.io.update(0x55, 0xff), ..m }
        } else {
            MmuView {
                hdma_active: true,
                hdma_hblank_mode: true,
                hdma_remaining: length,
                io: self.io.update(0x55, val),
                ..self
            }
        }
    }

    /// After the bus has written `val` to register `off` of the register
    /// block.
    pub open spec fn write_io(self, off: int, val: u8) -> MmuView {
        if off == 0x00 {
            MmuView { io: self.io.update(0x00, (self.io[0x00] & 0xcf) | (val & 0x30)), ..self }
        } else if off == 0x04 {
            MmuView { io: self.io.update(0x04, 0), ..self }
        } else if off == 0x41 {
            MmuView { io: self.io.update(0x41, (self.io[0x41] & 0x07) | (val & 0xf8)), ..self }
        } else if off == 0x44 {
            self
        } else if off == 0x46 {
            let m = self.dma(val);
            MmuView { io: m.io.update(0x46, val), ..m }
        } else if self.is_gbc && off == 0x4f {
            MmuView { vram_bank: val % 2, ..self }
        } else if self.is_gbc && off == 0x70 {
            MmuView {
                wram_bank: if val % 8 == 0 {
                    1
                } else {
                    val % 8
                },
                ..self
            }
        } else if self.is_gbc && off == 0x51 {
            MmuView { hdma_src: pair(val, low_byte(self.hdma_src)), ..self }
        } else if self.is_gbc && off == 0x52 {
            MmuView { hdma_src: pair(high_byte(self.hdma_src), (val - val % 16) as u8), ..self }
        } else if self.is_gbc && off == 0x53 {
            MmuView { hdma_dst: pair((0x80 + val % 32) as u8, low_byte(self.hdma_dst)), ..self }
        } else if self.is_gbc && off == 0x54 {
            MmuView { hdma_dst: pair(high_byte(self.hdma_dst), (val - val % 16) as u8), ..self }
        } else if self.is_gbc && off == 0x68 {
            MmuView { bgpi: val & 0xbf, ..self }
        } else if self.is_gbc && off == 0x69 {
            MmuView {
                bg_palette: self.bg_palette.update(self.bgpi as int % 64, val),
                bgpi: next_palette_index(self.bgpi),
                ..self
            }
        } else if self.is_gbc && off == 0x6a {
            MmuView { obpi: val & 0xbf, ..self }
        } else if self.is_gbc && off == 0x6b {
            MmuView {
                obj_palette: self.obj_palette.update(self.obpi as int % 64, val),
                obpi: next_palette_index(self.obpi),
                ..self
            }
        } else if self.is_gbc && off == 0x55 {
            self.start_hdma(val)
        } else {
            MmuView { io: self.io.update(off, val), ..self }
        }
    }

    /// After the bus has written `val` at `a`, for an address outside the
    /// echo region.
    pub open spec fn write_direct(self, a: int, val: u8) -> MmuView {
        if a < 0x2000 {
            MmuView { ram_enabled: val % 16 == 0x0a, ..self }
        } else if a < 0x4000 {
            self.select_rom_low(val)
        } else if a < 0x6000 {
            self.select_high(val)
        } else if a < 0x8000 {
            MmuView { banking_mode: val % 2, ..self }
        } else if a < 0xa000 {
            self.store_vram(a - 0x8000, val)
        } else if a < 0xc000 {
            if self.ram_enabled && self.eram_offset(a) < self.eram.len() {
                MmuView { eram: self.eram.update(self.eram_offset(a), val), ..self }
            } else {
                self
            }
        } else if a < 0xd000 {
            MmuView { wram: self.wram.update(a - 0xc000, val), ..self }
        } else if a < 0xe000 {
            if self.is_gbc {
                MmuView {
                    wram_banks: self.wram_banks.update(
                        self.wram_bank as int * 0x1000 + (a - 0xd000),
                        val,
                    ),
                    ..self
                }
            } else {
                MmuView { wram: self.wram.update(a - 0xc000, val), ..self }
            }
        } else if a < 0xfe00 {
            self
        } else if a < 0xfea0 {
            MmuView { oam: self.oam.update(a - 0xfe00, val), ..self }
        } else if a < 0xff00 {
            self
        } else if a < 0xff80 {
            self.write_io(a - 0xff00, val)
        } else if a < 0xffff {
            MmuView { hram: self.hram.update(a - 0xff80, val), ..self }
        } else {
            MmuView { ie: val, ..self }
        }
    }

    /// After the bus has written `val` at `addr`.
    #[verifier::opaque]
    pub open spec fn write(self, addr: u16, val: u8) -> MmuView {
        self.write_direct(Self::unmirrored(addr), val)
    }

    /// The state a reset leaves: every memory is cleared and every register
    /// goes back to power-on. Only the cartridge stays as it is: its image,
    /// the two fields read from its header, and the size of its RAM.
    pub open spec fn reset(self) -> MmuView {
        MmuView {
            rom: self.rom,
            vram: zeros(0x2000),
            eram: zeros(self.eram.len() as int),
            wram: zeros(0x2000),
            oam: zeros(0xa0),
            io: io_defaults(),
            hram: zeros(0x7f),
            ie: 0,
            rom_bank: 1,
            ram_bank: 0,
            ram_enabled: false,
            mbc_type: self.mbc_type,
            banking_mode: 0,
            is_gbc: self.is_gbc,
            vram_bank: 0,
            wram_bank: 1,
            vram_banks: zeros(0x4000),
            wram_banks: zeros(0x8000),
            bg_palette: zeros(64),
            obj_palette: zeros(64),
            bgpi: 0,
            obpi: 0,
            hdma_active: false,
            hdma_hblank_mode: false,
            hdma_src: 0,
            hdma_dst: 0,
            hdma_remaining: 0,
            joypad_buttons: 0xff,
        }
    }

    /// A unit with no cartridge: 32 KiB of zeroed ROM, 8 KiB of cartridge
    /// RAM, every bank cleared.
    pub open spec fn power_on() -> MmuView {
        MmuView {
            rom: zeros(0x8000),
            vram: zeros(0x2000),
            eram: zeros(0x2000),
            wram: zeros(0x2000),
            oam: zeros(0xa0),
            io: io_defaults(),
            hram: zeros(0x7f),
            ie: 0,
            rom_bank: 1,
            ram_bank: 0,
            ram_enabled: false,
            mbc_type: 0,
            banking_mode: 0,
            is_gbc: false,
            vram_bank: 0,
            wram_bank: 1,
            vram_banks: zeros(0x4000),
            wram_banks: zeros(0x8000),
            bg_palette: zeros(64),
            obj_palette: zeros(64),
            bgpi: 0,
            obpi: 0,
            hdma_active: false,
            hdma_hblank_mode: false,
            hdma_src: 0,
            hdma_dst: 0,
            hdma_remaining: 0,
            joypad_buttons: 0xff,
        }
    }

    /// The cartridge image installed from `data`: padded with zeros to
    /// 32 KiB, with the controller type, the colour flag and the RAM size
    /// taken from the header. A field that lies beyond the end of the image
    /// counts as absent: no controller, no colour, RAM of the default size of
    /// 8 KiB. A RAM size code outside the table means that there is no RAM.
    pub open spec fn load_rom(self, data: Seq<u8>) -> MmuView {
        MmuView {
            rom: Seq::new(
                if data.len() < 0x8000 {
                    0x8000nat
                } else {
                    data.len()
                },
                |i: int|
                    if i < data.len() {
                        data[i]
                    } else {
                        0u8
                    },
            ),
            mbc_type: if data.len() > 0x0147 {
                data[0x0147]
            } else {
                0
            },
            is_gbc: data.len() > 0x0143 && (data[0x0143] == 0x80 || data[0x0143] == 0xc0),
            eram: if data.len() > 0x0149 {
                zeros(ram_size_for(data[0x0149]))
            } else {
                zeros(0x2000)
            },
            ..self
        }
    }
}

/// The memory unit: cartridge ROM and RAM, video RAM, work RAM, object
/// attribute memory, the register block, high RAM and the interrupt-enable
/// register, with the bank registers that map them into the address space.
pub struct MMU {
    rom: Vec<u8>,
    vram: Vec<u8>,
    eram: Vec<u8>,
    wram: Vec<u8>,
    oam: [u8; 0xa0],
    io: [u8; 0x80],
    hram: [u8; 0x7f],
    ie: u8,
    rom_bank: u8,
    ram_bank: u8,
    ram_enabled: bool,
    mbc_type: u8,
    banking_mode: u8,
    is_gbc: bool,
    vram_bank: u8,
    wram_bank: u8,
    vram_banks: Vec<u8>,
    wram_banks: Vec<u8>,
    cgb_bg_palette_data: [u8; 64],
    cgb_obj_palette_data: [u8; 64],
    bgpi: u8,
    obpi: u8,
    hdma_active: bool,
    hdma_hblank_mode: bool,
    hdma_src: u16,
    hdma_dst: u16,
    hdma_remaining: u16,
    joypad_buttons: u8,
}

impl View for MMU {
    type V = MmuView;

    closed spec fn view(&self) -> MmuView {
        MmuView {
            rom: self.rom@,
            vram: self.vram@,
            eram: self.eram@,
            wram: self.wram@,
            oam: self.oam@,
            io: self.io@,
            hram: self.hram@,
            ie: self.ie,
            rom_bank: self.rom_bank,
            ram_bank: self.ram_bank,
            ram_enabled: self.ram_enabled,
            mbc_type: self.mbc_type,
            banking_mode: self.banking_mode,
            is_gbc: self.is_gbc,
            vram_bank: self.vram_bank,
            wram_bank: self.wram_bank,
            vram_banks: self.vram_banks@,
            wram_banks: self.wram_banks@,
            bg_palette: self.cgb_bg_palette_data@,
            obj_palette: self.cgb_obj_palette_data@,
            bgpi: self.bgpi,
            obpi: self.obpi,
            hdma_active: self.hdma_active,
            hdma_hblank_mode: self.hdma_hblank_mode,
            hdma_src: self.hdma_src,
            hdma_dst: self.hdma_dst,
            hdma_remaining: self.hdma_remaining,
            joypad_buttons: self.joypad_buttons,
        }
    }
}

/// A buffer of `n` zero bytes.
fn zeroed(n: usize) -> (v: Vec<u8>)
    ensures
        v@ == zeros(n as int),
{
    let v = vec![0u8; n];
    assert(v@ =~= zeros(n as int));
    v
}

impl MMU {
    pub fn new() -> (r: Self)
        ensures
            r@ == MmuView::power_on(),
            r@.wf(),
    {
        let mut mmu = MMU {
            rom: zeroed(0x8000),
            vram: zeroed(0x2000),
            eram: zeroed(0x2000),
            wram: zeroed(0x2000),
            oam: [0; 0xa0],
            io: [0; 0x80],
            hram: [0; 0x7f],
            ie: 0,
            rom_bank: 1,
            ram_bank: 0,
            ram_enabled: false,
            mbc_type: 0,
            banking_mode: 0,
            is_gbc: false,
            vram_bank: 0,
            wram_bank: 1,
            vram_banks: zeroed(0x4000),
            wram_banks: zeroed(0x8000),
            cgb_bg_palette_data: [0; 64],
            cgb_obj_palette_data: [0; 64],
            bgpi: 0,
            obpi: 0,
            hdma_active: false,
            hdma_hblank_mode: false,
            hdma_src: 0,
            hdma_dst: 0,
            hdma_remaining: 0,
            joypad_buttons: 0xff,
        };
        mmu.reset();
        assert(mmu@ =~= MmuView::power_on());
        mmu
    }

    pub fn reset(&mut self)
        requires
            old(self)@.wf(),
        ensures
            final(self)@ == old(self)@.reset(),
            final(self)@.wf(),
    {
        self.vram = zeroed(0x2000);
        self.eram = zeroed(self.eram.len());
        self.wram = zeroed(0x2000);
        self.vram_banks = zeroed(0x4000);
        self.wram_banks = zeroed(0x8000);
        self.oam = [0; 0xa0];
        self.io = [0; 0x80];
        self.hram = [0; 0x7f];
        self.ie = 0;
        self.rom_bank = 1;
        self.ram_bank = 0;
        self.ram_enabled = false;
        self.banking_mode = 0;
        self.vram_bank = 0;
        self.wram_bank = 1;
        self.cgb_bg_palette_data = [0; 64];
        self.cgb_obj_palette_data = [0; 64];
        self.bgpi = 0;
        self.obpi = 0;
        self.hdma_active = false;
        self.hdma_hblank_mode = false;
        self.hdma_src = 0;
        self.hdma_dst = 0;
        self.hdma_remaining = 0;
        self.joypad_buttons = 0xff;
        assert(self.io@ =~= zeros(0x80));
        self.io[0x00] = 0xcf;
        self.io[0x10] = 0x80;
        self.io[0x11] = 0xbf;
        self.io[0x12] = 0xf3;
        self.io[0x14] = 0xbf;
        self.io[0x16] = 0x3f;
        self.io[0x19] = 0xbf;
        self.io[0x1a] = 0x7f;
        self.io[0x1b] = 0xff;
        self.io[0x1c] = 0x9f;
        self.io[0x1e] = 0xbf;
        self.io[0x20] = 0xff;
        self.io[0x23] = 0xbf;
        self.io[0x24] = 0x77;
        self.io[0x25] = 0xf3;
        self.io[0x26] = 0xf1;
        self.io[0x40] = 0x91;
        self.io[0x47] = 0xfc;
        self.io[0x48] = 0xff;
        self.io[0x49] = 0xff;
        assert(self.oam@ =~= zeros(0xa0));
        assert(self.hram@ =~= zeros(0x7f));
        assert(self.cgb_bg_palette_data@ =~= zeros(64));
        assert(self.cgb_obj_palette_data@ =~= zeros(64));
    }

    pub fn is_gbc(&self) -> (r: bool)
        ensures
            r == self@.is_gbc,
    {
        self.is_gbc
    }

    pub fn get_oam(&self) -> (r: &[u8])
        ensures
            r@ == self@.oam,
    {
        &self.oam
    }

    pub fn get_io(&self) -> (r: &[u8])
        ensures
            r@ == self@.io,
    {
        &self.io
    }

    pub fn get_io_mut(&mut self) -> (r: &mut [u8])
        ensures
            r@ == old(self)@.io,
            final(self)@ == (MmuView { io: final(r)@, ..old(self)@ }),
    {
        &mut self.io
    }
    /// Installs a cartridge image.
    pub fn load_rom(&mut self, data: &[u8])
        requires
            old(self)@.wf(),
        ensures
            final(self)@ == old(self)@.load_rom(data@),
            final(self)@.wf(),
    {
        let mut rom = slice_to_vec(data);
        if rom.len() < 0x8000 {
            rom.resize(0x8000, 0);
        }
        assert(rom@ =~= old(self)@.load_rom(data@).rom);
        self.rom = rom;
        self.mbc_type = if data.len() > 0x0147 {
            data[0x0147]
        } else {
            0
        };
        self.is_gbc = data.len() > 0x0143 && (data[0x0143] == 0x80 || data[0x0143] == 0xc0);
        let size: usize = if data.len() <= 0x0149 {
            0x2000
        } else {
            let ram_size = data[0x0149];
            if ram_size == 0 {
                0
            } else if ram_size == 1 {
                0x800
            } else if ram_size == 2 {
                0x2000
            } else if ram_size == 3 {
                0x8000
            } else if ram_size == 4 {
                0x20000
            } else {
                0
            }
        };
        self.eram = zeroed(size);
    }

    /// Reads the byte the bus shows at `addr`.
    pub fn read_byte(&self, addr: u16) -> (r: u8)
        requires
            self@.wf(),
        ensures
            r == self@.read(addr),
    {
        proof {
            reveal(MmuView::read);
        }
        let a: usize = if addr >= 0xe000 && addr <= 0xfdff {
            (addr - 0x2000) as usize
        } else {
            addr as usize
        };
        if a < 0x4000 {
            self.rom[a]
        } else if a < 0x8000 {
            let banks = self.rom.len() / 0x4000;
            proof {
                lemma_mod_bound(self.rom_bank as int, banks as int);
            }
            let bank = self.rom_bank as usize % banks;
            self.rom[bank * 0x4000 + (a - 0x4000)]
        } else if a < 0xa000 {
            let offset = a - 0x8000;
            if self.is_gbc {
                self.vram_banks[self.vram_bank as usize * 0x2000 + offset]
            } else {
                self.vram[offset]
            }
        } else if a < 0xc000 {
            if self.ram_enabled {
                let banks = if self.eram.len() < 0x2000 {
                    1
                } else {
                    self.eram.len() / 0x2000
                };
                proof {
                    lemma_mod_bound(self.ram_bank as int, banks as int);
                }
                let offset = (self.ram_bank as usize % banks) * 0x2000 + (a - 0xa000);
                if offset < self.eram.len() {
                    self.eram[offset]
                } else {
                    0xff
                }
            } else {
                0xff
            }
        } else if a < 0xd000 {
            self.wram[a - 0xc000]
        } else if a < 0xe000 {
            if self.is_gbc {
                self.wram_banks[self.wram_bank as usize * 0x1000 + (a - 0xd000)]
            } else {
                self.wram[a - 0xc000]
            }
        } else if a < 0xfe00 {
            0xff
        } else if a < 0xfea0 {
            self.oam[a - 0xfe00]
        } else if a < 0xff00 {
            0xff
        } else if a < 0xff80 {
            self.read_io(a)
        } else if a < 0xffff {
            self.hram[a - 0xff80]
        } else {
            self.ie
        }
    }

    /// Reads register `addr - 0xff00` of the register block.
    fn read_io(&self, addr: usize) -> (r: u8)
        requires
            self@.wf(),
            0xff00 <= addr < 0xff80,
        ensures
            r == self@.read_io(addr - 0xff00),
    {
        proof {
            reveal(pair);
            reveal(high_byte);
            reveal(low_byte);
        }
        let offset = addr - 0xff00;
        if offset == 0x00 {
            let joyp = self.io[0x00];
            let pad: u8 = if joyp & 0x10 == 0 {
                self.joypad_buttons & 0x0f
            } else {
                0x0f
            };
            let action: u8 = if joyp & 0x20 == 0 {
                self.joypad_buttons >> 4
            } else {
                0x0f
            };
            return 0xc0 | (joyp & 0x30) | (pad & action);
        }
        if self.is_gbc {
            if offset == 0x4f {
                return 0xfe + self.vram_bank;
            }
            if offset == 0x70 {
                return 0xf8 + self.wram_bank;
            }
            if offset == 0x68 {
                return self.bgpi;
            }
            if offset == 0x69 {
                proof {
                    lemma_low_bits(self.bgpi);
                }
                return self.cgb_bg_palette_data[(self.bgpi & 0x3f) as usize];
            }
            if offset == 0x6a {
                return self.obpi;
            }
            if offset == 0x6b {
                proof {
                    lemma_low_bits(self.obpi);
                }
                return self.cgb_obj_palette_data[(self.obpi & 0x3f) as usize];
            }
            if offset == 0x51 || offset == 0x52 {
                proof {
                    lemma_word_split(self.hdma_src);
                }
                return if offset == 0x51 {
                    (self.hdma_src >> 8) as u8
                } else {
                    (self.hdma_src & 0xf0) as u8
                };
            }
            if offset == 0x53 {
                let high = (self.hdma_dst >> 8) as u8;
                proof {
                    lemma_word_split(self.hdma_dst);
                    lemma_low_bits(high);
                }
                return high & 0x1f;
            }
            if offset == 0x54 {
                proof {
                    lemma_word_split(self.hdma_dst);
                }
                return (self.hdma_dst & 0xf0) as u8;
            }
            if offset == 0x55 {
                if self.hdma_active {
                    let blocks = (self.hdma_remaining + 15) / 16;
                    if blocks == 0 {
                        return 0x80;
                    }
                    return 0x80 + ((blocks - 1) % 128) as u8;
                } else {
                    return 0xff;
                }
            }
        }
        self.io[offset]
    }

    /// The video RAM the bus currently sees.
    pub fn get_vram(&self) -> (r: &[u8])
        requires
            self@.wf(),
        ensures
            r@ == self@.visible_vram(),
    {
        if self.is_gbc {
            let start = self.vram_bank as usize * 0x2000;
            slice_subrange(self.vram_banks.as_slice(), start, start + 0x2000)
        } else {
            self.vram.as_slice()
        }
    }

    /// Video RAM bank `bank`, taken modulo two.
    pub fn get_vram_bank_ref(&self, bank: usize) -> (r: &[u8])
        requires
            self@.wf(),
        ensures
            r@ == self@.vram_of_bank(bank as int),
    {
        if self.is_gbc {
            let start = (bank % 2) * 0x2000;
            slice_subrange(self.vram_banks.as_slice(), start, start + 0x2000)
        } else {
            self.vram.as_slice()
        }
    }

    /// The byte of video RAM bank `bank` that the address `addr` names.
    pub fn read_vram_bank_byte(&self, addr: u16, bank: usize) -> (r: u8)
        requires
            self@.wf(),
        ensures
            r == self@.read_vram_bank(addr, bank as int),
    {
        if addr < 0x8000 || addr >= 0xa000 {
            return 0xff;
        }
        let offset = (addr - 0x8000) as usize;
        if self.is_gbc {
            self.vram_banks[(bank % 2) * 0x2000 + offset]
        } else {
            self.vram[offset]
        }
    }

    /// One colour of the background palette memory, as red, green and blue.
    pub fn cgb_get_bg_color_rgb(&self, palette: u8, index: u8) -> (r: [u8; 3])
        requires
            self@.wf(),
        ensures
            r@ == palette_rgb(self@.bg_palette, palette, index),
    {
        let idx = (palette % 8) as usize * 8 + (index % 4) as usize * 2;
        let rgb = color_of(self.cgb_bg_palette_data[idx], self.cgb_bg_palette_data[idx + 1]);
        assert(rgb@ =~= palette_rgb(self@.bg_palette, palette, index));
        rgb
    }

    /// One colour of the object palette memory, as red, green and blue.
    pub fn cgb_get_obj_color_rgb(&self, palette: u8, index: u8) -> (r: [u8; 3])
        requires
            self@.wf(),
        ensures
            r@ == palette_rgb(self@.obj_palette, palette, index),
    {
        let idx = (palette % 8) as usize * 8 + (index % 4) as usize * 2;
        let rgb = color_of(self.cgb_obj_palette_data[idx], self.cgb_obj_palette_data[idx + 1]);
        assert(rgb@ =~= palette_rgb(self@.obj_palette, palette, index));
        rgb
    }

    /// Records that button `bit` went down and requests the joypad interrupt.
    pub fn joypad_press(&mut self, bit: u8)
        requires
            old(self)@.wf(),
            bit < 8,
        ensures
            final(self)@ == old(self)@.joypad_press(bit),
            final(self)@.wf(),
    {
        proof {
            lemma_single_bit(self.joypad_buttons, bit);
        }
        self.joypad_buttons &= !(1u8 << bit);
        let pending = self.io[0x0f];
        self.io[0x0f] = pending | 0x10;
    }

    /// Records that button `bit` came up.
    pub fn joypad_release(&mut self, bit: u8)
        requires
            old(self)@.wf(),
            bit < 8,
        ensures
            final(self)@ == old(self)@.joypad_release(bit),
            final(self)@.wf(),
    {
        proof {
            lemma_single_bit(self.joypad_buttons, bit);
        }
        self.joypad_buttons |= 1u8 << bit;
    }

    /// Writes `val` where the bus decodes `addr`.
    pub fn write_byte(&mut self, addr: u16, val: u8)
        requires
            old(self)@.wf(),
        ensures
            final(self)@ == old(self)@.write(addr, val),
            final(self)@.wf(),
    {
        proof {
            reveal(MmuView::write);
        }
        let a: usize = if addr >= 0xe000 && addr <= 0xfdff {
            (addr - 0x2000) as usize
        } else {
            addr as usize
        };
        if a < 0x8000 {
            self.write_control(a, val);
        } else if a < 0xa000 {
            self.store_vram(a - 0x8000, val);
        } else if a < 0xc000 {
            self.write_eram(a, val);
        } else if a < 0xd000 {
            self.wram[a - 0xc000] = val;
        } else if a < 0xe000 {
            if self.is_gbc {
                self.wram_banks[self.wram_bank as usize * 0x1000 + (a - 0xd000)] = val;
            } else {
                self.wram[a - 0xc000] = val;
            }
        } else if a < 0xfe00 {
        } else if a < 0xfea0 {
            self.oam[a - 0xfe00] = val;
        } else if a < 0xff00 {
        } else if a < 0xff80 {
            self.write_io(a, val);
        } else if a < 0xffff {
            self.hram[a - 0xff80] = val;
        } else {
            self.ie = val;
        }
    }

    /// A write into the ROM area, which the cartridge takes as a command:
    /// the RAM enable latch, the two bank selects and the banking mode.
    fn write_control(&mut self, a: usize, val: u8)
        requires
            old(self)@.wf(),
            a < 0x8000,
        ensures
            final(self)@ == old(self)@.write_direct(a as int, val),
            final(self)@.wf(),
    {
        proof {
            lemma_bank_fields(self.rom_bank, val);
        }
        if a < 0x2000 {
            self.ram_enabled = (val & 0x0f) == 0x0a;
        } else if a < 0x4000 {
            let mut bank = val & 0x1f;
            if bank == 0 {
                bank = 1;
            }
            proof {
                lemma_bank_fields(self.rom_bank, bank);
            }
            self.rom_bank = (self.rom_bank & 0x60) | (bank & 0x1f);
        } else if a < 0x6000 {
            if self.banking_mode == 0 {
                self.rom_bank = (self.rom_bank & 0x1f) | ((val & 0x03) << 5);
            } else {
                self.ram_bank = val & 0x03;
            }
        } else {
            self.banking_mode = val & 0x01;
        }
    }

    /// A write into the cartridge RAM window.
    fn write_eram(&mut self, a: usize, val: u8)
        requires
            old(self)@.wf(),
            0xa000 <= a < 0xc000,
        ensures
            final(self)@ == old(self)@.write_direct(a as int, val),
            final(self)@.wf(),
    {
        if self.ram_enabled {
            let banks = if self.eram.len() < 0x2000 {
                1
            } else {
                self.eram.len() / 0x2000
            };
            proof {
                lemma_mod_bound(self.ram_bank as int, banks as int);
            }
            let offset = (self.ram_bank as usize % banks) * 0x2000 + (a - 0xa000);
            if offset < self.eram.len() {
                self.eram[offset] = val;
            }
        }
    }

    /// Stores `val` at offset `off` of the video RAM the bus sees.
    fn store_vram(&mut self, off: usize, val: u8)
        requires
            old(self)@.wf(),
            off < 0x2000,
        ensures
            final(self)@ == old(self)@.store_vram(off as int, val),
            final(self)@.wf(),
    {
        if self.is_gbc {
            self.vram_banks[self.vram_bank as usize * 0x2000 + off] = val;
        } else {
            self.vram[off] = val;
        }
    }

    /// Writes `val` to register `addr - 0xff00` of the register block.
    fn write_io(&mut self, addr: usize, val: u8)
        requires
            old(self)@.wf(),
            0xff00 <= addr < 0xff80,
        ensures
            final(self)@ == old(self)@.write_io(addr - 0xff00, val),
            final(self)@.wf(),
    {
        proof {
            reveal(pair);
            reveal(high_byte);
            reveal(low_byte);
        }
        let offset = addr - 0xff00;
        if offset == 0x00 {
            let prev = self.io[0x00];
            self.io[0x00] = (prev & 0xcf) | (val & 0x30);
            return ;
        }
        if offset == 0x04 {
            self.io[0x04] = 0;
            return ;
        }
        if offset == 0x41 {
            let prev = self.io[0x41];
            self.io[0x41] = (prev & 0x07) | (val & 0xf8);
            return ;
        }
        if offset == 0x44 {
            return ;
        }
        if offset == 0x46 {
            self.dma_transfer(val);
            self.io[0x46] = val;
            return ;
        }
        if self.is_gbc {
            if offset == 0x4f {
                proof {
                    lemma_low_bits(val);
                }
                self.vram_bank = val & 0x01;
                return ;
            }
            if offset == 0x70 {
                proof {
                    lemma_low_bits(val);
                }
                let bank = val & 0x07;
                self.wram_bank = if bank == 0 {
                    1
                } else {
                    bank
                };
                return ;
            }
            if offset == 0x51 {
                proof {
                    lemma_word_replace(self.hdma_src, val);
                }
                self.hdma_src = (self.hdma_src & 0x00ff) | ((val as u16) << 8);
                return ;
            }
            if offset == 0x52 {
                proof {
                    lemma_word_replace(self.hdma_src, val);
                }
                self.hdma_src = (self.hdma_src & 0xff00) | ((val as u16) & 0xf0);
                return ;
            }
            if offset == 0x53 {
                let high = (val & 0x1f) | 0x80;
                proof {
                    lemma_bank_fields(0, val);
                    lemma_word_replace(self.hdma_dst, high);
                }
                self.hdma_dst = (self.hdma_dst & 0x00ff) | ((high as u16) << 8);
                return ;
            }
            if offset == 0x54 {
                proof {
                    lemma_word_replace(self.hdma_dst, val);
                }
                self.hdma_dst = (self.hdma_dst & 0xff00) | ((val as u16) & 0xf0);
                return ;
            }
            if offset == 0x68 {
                self.bgpi = val & 0xbf;
                return ;
            }
            if offset == 0x69 {
                self.cgb_bg_palette_data[(self.bgpi % 64) as usize] = val;
                if self.bgpi >= 0x80 {
                    self.bgpi = 0x80 + (self.bgpi % 64 + 1) % 64;
                }
                return ;
            }
            if offset == 0x6a {
                self.obpi = val & 0xbf;
                return ;
            }
            if offset == 0x6b {
                self.cgb_obj_palette_data[(self.obpi % 64) as usize] = val;
                if self.obpi >= 0x80 {
                    self.obpi = 0x80 + (self.obpi % 64 + 1) % 64;
                }
                return ;
            }
            if offset == 0x55 {
                let blocks: u16 = (val % 128) as u16 + 1;
                let length: u16 = blocks * 16;
                if val < 0x80 {
                    self.hdma_active = false;
                    self.do_hdma_copy(length);
                    self.io[0x55] = 0xff;
                } else {
                    self.hdma_active = true;
                    self.hdma_hblank_mode = true;
                    self.hdma_remaining = length;
                    self.io[0x55] = val;
                }
                return ;
            }
        }
        self.io[offset] = val;
    }

    /// Fills object attribute memory from the 160 bytes of page `val`.
    fn dma_transfer(&mut self, val: u8)
        requires
            old(self)@.wf(),
        ensures
            final(self)@ == old(self)@.dma(val),
            final(self)@.wf(),
    {
        proof {
            lemma_word_join(val, 0);
        }
        let src: u16 = (val as u16) << 8;
        let ghost pre = self@;
        let mut i: usize = 0;
        while i < 0xa0
            invariant
                i <= 0xa0,
                src == val * 256,
                pre.wf(),
                self@ == (MmuView { oam: self@.oam, ..pre }),
                self@.oam.len() == 0xa0,
                forall|j: int| 0 <= j < i ==> self@.oam[j] == pre.read((src + j) as u16),
                forall|j: int| i <= j < 0xa0 ==> self@.oam[j] == pre.oam[j],
            decreases 0xa0 - i,
        {
            let byte = self.read_byte(src + i as u16);
            assert(byte == pre.read((src + i) as u16)) by {
                reveal(MmuView::read);
            }
            self.oam[i] = byte;
            i += 1;
        }
        assert(self@.oam =~= pre.dma(val).oam);
    }

    /// Gives the scanline-gated transfer one horizontal blank.
    pub fn hdma_hblank_step(&mut self)
        requires
            old(self)@.wf(),
        ensures
            final(self)@ == old(self)@.hdma_hblank_step(),
            final(self)@.wf(),
    {
        if !self.is_gbc || !self.hdma_active || !self.hdma_hblank_mode || self.hdma_remaining
            == 0 {
            return ;
        }
        self.do_hdma_copy(16);
        if self.hdma_remaining == 0 {
            self.hdma_active = false;
            self.hdma_hblank_mode = false;
            self.io[0x55] = 0xff;
        } else {
            let blocks = (self.hdma_remaining + 15) / 16;
            self.io[0x55] = 0x80 + ((blocks - 1) % 128) as u8;
        }
    }

    /// Moves one byte from the transfer source to the transfer destination.
    fn hdma_copy_byte(&mut self)
        requires
            old(self)@.wf(),
        ensures
            final(self)@ == old(self)@.hdma_step(),
            final(self)@.wf(),
    {
        let byte = self.read_byte(self.hdma_src);
        let dst_off = (self.hdma_dst as usize).saturating_sub(0x8000);
        if dst_off < 0x2000 {
            self.store_vram(dst_off, byte);
        }
        self.hdma_src = self.hdma_src.wrapping_add(1);
        self.hdma_dst = self.hdma_dst.wrapping_add(1);
        self.hdma_remaining = self.hdma_remaining.saturating_sub(1);
    }

    /// Moves `len` bytes from the transfer source to the transfer
    /// destination.
    fn do_hdma_copy(&mut self, len: u16)
        requires
            old(self)@.wf(),
        ensures
            final(self)@ == old(self)@.hdma_copy(len as nat),
            final(self)@.wf(),
    {
        let mut left = len;
        while left > 0
            invariant
                self@.wf(),
                self@.hdma_copy(left as nat) == old(self)@.hdma_copy(len as nat),
            decreases left,
        {
            self.hdma_copy_byte();
            left = left - 1;
        }
    }
}

/// Writing a value whose low five bits are clear to the ROM bank select
/// window leaves the low five bits of the bank register at one; with the two
/// high bits clear, the switchable window then shows bank one.
pub proof fn lemma_bank_zero_remap(m: MmuView, addr: u16, val: u8)
    requires
        m.wf(),
        0x2000 <= addr < 0x4000,
        val % 32 == 0,
    ensures
        m.write(addr, val).rom_bank % 32 == 1,
        m.rom_bank < 32 ==> m.write(addr, val).rom_bank == 1,
        m.rom_bank < 32 ==> m.write(addr, val).effective_rom_bank() == 1,
{
    reveal(MmuView::write);
    let after = m.write(addr, val);
    if m.rom_bank < 32 {
        assert(after.rom_bank == 1);
        assert(after.rom_banks() >= 2);
        lemma_small_mod(1, after.rom_banks() as nat);
    }
}

/// The interrupt request register 0xFF0F and the interrupt enable register
/// 0xFFFF are plain bytes on the bus: each reads back what was written to
/// it, and a write to the request register leaves the enable register alone.
pub proof fn lemma_bus_registers(m: MmuView, val: u8)
    requires
        m.wf(),
    ensures
        m.read(0xff0f) == m.io[0x0f],
        m.read(0xffff) == m.ie,
        m.write(0xff0f, val) == (MmuView { io: m.io.update(0x0f, val), ..m }),
        m.write(0xffff, val) == (MmuView { ie: val, ..m }),
        m.write(0xff0f, val).read(0xffff) == m.read(0xffff),
        m.write(0xff0f, val).read(0xff0f) == val,
        m.write(0xff0f, val).wf(),
{
    reveal(MmuView::read);
    reveal(MmuView::write);
}

/// The switchable ROM window and the cartridge RAM window never reach
/// outside their buffers: the bank registers are reduced to the banks there
/// are.
pub proof fn lemma_banks_in_range(m: MmuView, a: int)
    requires
        m.wf(),
    ensures
        0 <= m.effective_rom_bank() < m.rom_banks(),
        0x4000 <= a < 0x8000 ==> 0 <= m.effective_rom_bank() * 0x4000 + (a - 0x4000) < m.rom.len(),
        0xa000 <= a < 0xc000 ==> 0 <= m.eram_offset(a),
        0xa000 <= a < 0xc000 && m.eram.len() >= 0x2000 ==> m.eram_offset(a) < m.eram.len(),
{
    lemma_mod_bound(m.rom_bank as int, m.rom_banks());
    lemma_mod_bound(m.ram_bank as int, m.eram_banks());
}

/// The video RAM transfer unit writes nothing but video RAM and its own
/// three registers, and its remaining length only goes down.
pub proof fn lemma_hdma_touches_only_vram(m: MmuView, len: nat)
    requires
        m.wf(),
    ensures
        m.hdma_copy(len).wf(),
        m.hdma_copy(len).hdma_remaining <= m.hdma_remaining,
        m.hdma_copy(len).hdma_remaining == if m.hdma_remaining <= len {
            0
        } else {
            m.hdma_remaining - len
        },
        m.hdma_copy(len) == (MmuView {
            vram: m.hdma_copy(len).vram,
            vram_banks: m.hdma_copy(len).vram_banks,
            hdma_src: m.hdma_copy(len).hdma_src,
            hdma_dst: m.hdma_copy(len).hdma_dst,
            hdma_remaining: m.hdma_copy(len).hdma_remaining,
            ..m
        }),
    decreases len,
{
    if len > 0 {
        lemma_hdma_touches_only_vram(m.hdma_step(), (len - 1) as nat);
    }
}


/// Stretches a five-bit colour channel to eight bits.
fn expand_5_to_8(v: u16) -> (r: u8)
    requires
        v < 32,
    ensures
        r == expand_channel(v as int),
{
    ((v * 527 + 23) / 64) as u8
}

/// The three channels of the fifteen-bit colour stored as `lo`, `hi`.
fn color_of(lo: u8, hi: u8) -> (r: [u8; 3])
    ensures
        r@.len() == 3,
        r@[0] == expand_channel(pair(hi, lo) as int % 32),
        r@[1] == expand_channel((pair(hi, lo) as int / 32) % 32),
        r@[2] == expand_channel((pair(hi, lo) as int / 1024) % 32),
{
    proof {
        reveal(pair);
    }
    proof {
        lemma_word_join(hi, lo);
    }
    let val = (lo as u16) | ((hi as u16) << 8);
    proof {
        lemma_color_fields(val);
    }
    let r = expand_5_to_8(val & 0x1f);
    let g = expand_5_to_8((val >> 5) & 0x1f);
    let b = expand_5_to_8((val >> 10) & 0x1f);
    [r, g, b]
}

/// A write keeps the unit well formed, and only a write to the interrupt
/// request register at 0xFF0F changes that register.
pub proof fn lemma_write_keeps(m: MmuView, addr: u16, val: u8)
    requires
        m.wf(),
    ensures
        m.write(addr, val).wf(),
        addr != 0xff0f ==> m.write(addr, val).io[0x0f] == m.io[0x0f],
        addr != 0xff0f ==> m.write(addr, val).read(0xff0f) == m.read(0xff0f),
        addr != 0xffff ==> m.write(addr, val).ie == m.ie,
        m.write(addr, val).io[0x44] == m.io[0x44],
{
    reveal(MmuView::read);
    reveal(MmuView::write);
    let length = ((val % 128 + 1) * 16) as nat;
    lemma_hdma_touches_only_vram(MmuView { hdma_active: false, ..m }, length);
    if addr == 0xff46 {
        assert(m.dma(val).wf());
    }
    if 0xa000 <= addr < 0xc000 {
        lemma_banks_in_range(m, addr as int);
    }
    if 0x2000 <= addr < 0x6000 {
        lemma_bank_arithmetic(m.rom_bank, val);
    }
}

/// The bank register stays below 128 with its low five bits not all clear
/// under both bank select writes.
proof fn lemma_bank_arithmetic(bank: u8, val: u8)
    requires
        bank < 128,
        bank % 32 != 0,
    ensures
        (bank / 32) * 32 + (if val % 32 == 0 {
            1
        } else {
            val as int % 32
        }) < 128,
        ((bank / 32) * 32 + (if val % 32 == 0 {
            1
        } else {
            val as int % 32
        })) % 32 != 0,
        bank % 32 + (val % 4) * 32 < 128,
        (bank % 32 + (val % 4) * 32) % 32 != 0,
{
}

/// The echo region shows the work RAM 0x2000 below it, for reads and for
/// writes.
pub proof fn lemma_echo_mirrors(m: MmuView, addr: u16, val: u8)
    requires
        0xe000 <= addr <= 0xfdff,
    ensures
        m.read(addr) == m.read((addr - 0x2000) as u16),
        m.write(addr, val) == m.write((addr - 0x2000) as u16, val),
{
    reveal(MmuView::read);
    reveal(MmuView::write);
}

/// Memory that is plain storage reads back what was written to it: video
/// RAM, work RAM and its echo, object attribute memory, high RAM and the
/// interrupt enable register.
pub proof fn lemma_ram_reads_back(m: MmuView, addr: u16, val: u8)
    requires
        m.wf(),
        0x8000 <= addr < 0xa000 || 0xc000 <= addr < 0xfea0 || 0xff80 <= addr,
    ensures
        m.write(addr, val).read(addr) == val,
{
    reveal(MmuView::read);
    reveal(MmuView::write);
}

/// Cartridge RAM reads back what was written to it where the enable latch
/// is set and the address falls inside the RAM there is; everywhere else in
/// its window a write is dropped and a read gives 0xFF.
pub proof fn lemma_cartridge_ram(m: MmuView, addr: u16, val: u8)
    requires
        m.wf(),
        0xa000 <= addr < 0xc000,
    ensures
        m.ram_enabled && m.eram_offset(addr as int) < m.eram.len() ==> m.write(addr, val).read(
            addr,
        ) == val,
        !(m.ram_enabled && m.eram_offset(addr as int) < m.eram.len()) ==> m.write(addr, val) == m
            && m.read(addr) == 0xff,
{
    reveal(MmuView::read);
    reveal(MmuView::write);
    lemma_banks_in_range(m, addr as int);
}

/// The gap between object attribute memory and the register block holds
/// nothing: it reads 0xFF and a write to it changes nothing.
pub proof fn lemma_gap_is_empty(m: MmuView, addr: u16, val: u8)
    requires
        0xfea0 <= addr < 0xff00,
    ensures
        m.read(addr) == 0xff,
        m.write(addr, val) == m,
{
    reveal(MmuView::read);
    reveal(MmuView::write);
}

/// No write through the bus changes the cartridge image, and a write into
/// the ROM area changes nothing but the cartridge's own registers.
pub proof fn lemma_rom_is_read_only(m: MmuView, addr: u16, val: u8)
    requires
        m.wf(),
    ensures
        m.write(addr, val).rom == m.rom,
        addr < 0x8000 ==> m.write(addr, val) == (MmuView {
            ram_enabled: m.write(addr, val).ram_enabled,
            rom_bank: m.write(addr, val).rom_bank,
            ram_bank: m.write(addr, val).ram_bank,
            banking_mode: m.write(addr, val).banking_mode,
            ..m
        }),
{
    reveal(MmuView::write);
    let length = ((val % 128 + 1) * 16) as nat;
    lemma_hdma_touches_only_vram(MmuView { hdma_active: false, ..m }, length);
}

/// The bits of the joypad register: a button reads as a clear bit exactly
/// when it is down and its group is selected. Bit `k` of the low nibble
/// stands for button `k` of the direction pad and for button `k + 4` of the
/// action buttons.
pub proof fn lemma_joypad_bits(buttons: u8, select: u8, k: u8)
    by (bit_vector)
    requires
        k < 4,
    ensures
        bit_is_set(joypad_register(buttons, select), k) == !((!bit_is_set(buttons, k) && select
            & 0x10 == 0) || (!bit_is_set(buttons, (k + 4) as u8) && select & 0x20 == 0)),
        joypad_register(buttons, select) & 0xc0 == 0xc0,
        joypad_register(buttons, select) & 0x30 == select & 0x30,
{
}

} // verus!
