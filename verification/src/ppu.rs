//! The pixel pipeline: scanline timing, the mode register, and the rendering
//! of one scanline at a time into the frame buffer.

use crate::bits::{
    bit_is_set, lemma_color_number, lemma_other_bits_kept, lemma_palette_shade, lemma_single_bit,
};
use crate::mmu::{MmuView, MMU};
use vstd::prelude::*;

verus! {

pub const SCREEN_WIDTH: usize = 160;

pub const SCREEN_HEIGHT: usize = 144;

/// The size of the frame buffer: four bytes for each pixel.
pub const FRAME_BYTES: usize = 92160;

pub const MODE_HBLANK: u8 = 0;

pub const MODE_VBLANK: u8 = 1;

pub const MODE_OAM_SCAN: u8 = 2;

pub const MODE_DRAWING: u8 = 3;

pub const MODE_OAM_CYCLES: u32 = 80;

pub const MODE_DRAWING_CYCLES: u32 = 172;

pub const SCANLINE_CYCLES: u32 = 456;

/// The three colour channels of one of the four fixed shades, lightest
/// first.
pub open spec fn shade_rgb(color: u8) -> Seq<u8> {
    if color % 4 == 0 {
        seq![224u8, 248u8, 208u8]
    } else if color % 4 == 1 {
        seq![136u8, 192u8, 112u8]
    } else if color % 4 == 2 {
        seq![52u8, 104u8, 86u8]
    } else {
        seq![8u8, 24u8, 32u8]
    }
}

/// Where in the frame buffer the pixel in column `x` of line `ly` starts.
pub open spec fn pixel_offset(ly: int, x: int) -> int {
    (ly * 160 + x) * 4
}

/// The frame buffer with one opaque pixel written.
pub open spec fn put_pixel(fb: Seq<u8>, ly: int, x: int, rgb: Seq<u8>) -> Seq<u8> {
    let at = pixel_offset(ly, x);
    fb.update(at, rgb[0]).update(at + 1, rgb[1]).update(at + 2, rgb[2]).update(at + 3, 255)
}

/// The frame buffer with line `ly` cleared to white.
pub open spec fn clear_line(fb: Seq<u8>, ly: int) -> Seq<u8> {
    Seq::new(
        fb.len(),
        |i: int|
            if ly * 640 <= i < ly * 640 + 640 {
                255u8
            } else {
                fb[i]
            },
    )
}

/// The two-bit colour number of the pixel at bit `bit` of a tile row stored
/// as the two bit planes `low` and `high`.
pub open spec fn color_number(low: u8, high: u8, bit: u8) -> u8 {
    ((if bit_is_set(high, bit) {
        2
    } else {
        0int
    }) + (if bit_is_set(low, bit) {
        1
    } else {
        0int
    })) as u8
}

/// The shade that a palette register assigns to a colour number: two bits
/// for each, colour zero in the lowest.
pub open spec fn palette_shade(palette: u8, color: u8) -> u8 {
    if color % 4 == 0 {
        palette % 4
    } else if color % 4 == 1 {
        (palette / 4) % 4
    } else if color % 4 == 2 {
        (palette / 16) % 4
    } else {
        palette / 64
    }
}

/// The address of the sixteen bytes of tile `tile`: counted up from 0x8000
/// when the control register selects unsigned numbering, and as a signed
/// number around 0x9000 otherwise.
pub open spec fn tile_address(lcdc: u8, tile: u8) -> u16 {
    if lcdc & 0x10 != 0 {
        (0x8000 + tile * 16) as u16
    } else {
        (0x8800 + ((tile + 128) % 256) * 16) as u16
    }
}

/// The colour number of pixel `px` (0 to 7 from the left) of row `row` of
/// the tile that entry `entry` of the tile map at `map` names.
pub open spec fn map_pixel(m: MmuView, map: u16, entry: int, row: int, px: int) -> u8 {
    let tile = m.read((map + entry) as u16);
    let addr = tile_address(m.io[0x40], tile) + row * 2;
    color_number(m.read(addr as u16), m.read((addr + 1) as u16), (7 - px) as u8)
}

/// The shade of the background at column `x` of line `ly`: the scroll
/// registers place the screen on the 256 by 256 background, which wraps.
pub open spec fn background_shade(m: MmuView, ly: u8, x: int) -> u8 {
    let y = ly.wrapping_add(m.io[0x42]);
    let xp = (x as u8).wrapping_add(m.io[0x43]);
    let map: u16 = if m.io[0x40] & 0x08 != 0 {
        0x9c00
    } else {
        0x9800
    };
    palette_shade(
        m.io[0x47],
        map_pixel(m, map, (y / 8) * 32 + xp / 8, y as int % 8, xp as int % 8),
    )
}

/// The frame buffer with the first `n` columns of the background drawn on
/// line `ly`.
pub open spec fn background_row(fb: Seq<u8>, m: MmuView, ly: u8, n: nat) -> Seq<u8>
    decreases n,
{
    if n == 0 {
        fb
    } else {
        put_pixel(
            background_row(fb, m, ly, (n - 1) as nat),
            ly as int,
            n - 1,
            shade_rgb(background_shade(m, ly, n - 1)),
        )
    }
}

/// Whether the window covers column `x` of line `ly`.
pub open spec fn window_covers(m: MmuView, ly: u8, x: int) -> bool {
    ly >= m.io[0x4a] && x + 7 >= m.io[0x4b]
}

/// The shade of the window at column `x` of line `ly`, where it covers it.
pub open spec fn window_shade(m: MmuView, ly: u8, x: int) -> u8 {
    let y = ly - m.io[0x4a];
    let xp = x + 7 - m.io[0x4b];
    let map: u16 = if m.io[0x40] & 0x40 != 0 {
        0x9c00
    } else {
        0x9800
    };
    palette_shade(m.io[0x47], map_pixel(m, map, (y / 8) * 32 + xp / 8, y % 8, xp % 8))
}

/// The frame buffer with the first `n` columns of the window drawn on line
/// `ly`.
pub open spec fn window_row(fb: Seq<u8>, m: MmuView, ly: u8, n: nat) -> Seq<u8>
    decreases n,
{
    if n == 0 {
        fb
    } else {
        let before = window_row(fb, m, ly, (n - 1) as nat);
        if window_covers(m, ly, n - 1) {
            put_pixel(before, ly as int, n - 1, shade_rgb(window_shade(m, ly, n - 1)))
        } else {
            before
        }
    }
}

/// The height of every sprite, by the size bit of the control register.
pub open spec fn sprite_height(m: MmuView) -> u8 {
    if m.io[0x40] & 0x04 != 0 {
        16
    } else {
        8
    }
}

/// How far line `ly` lies below the top row of sprite `id`; the Y
/// coordinate of a sprite is that of its top row plus sixteen, so that a
/// sprite can stand partly above the screen.
pub open spec fn sprite_row(m: MmuView, id: int, ly: u8) -> int {
    ly + 16 - m.oam[id * 4]
}

/// Whether sprite `id` has a row on line `ly`.
pub open spec fn sprite_on_line(m: MmuView, id: int, ly: u8) -> bool {
    0 <= sprite_row(m, id, ly) < sprite_height(m)
}

/// The sprites among the first `n` entries of object attribute memory that
/// are drawn on line `ly`: those with a row on it, in table order, and no
/// more than ten.
pub open spec fn visible_sprites(m: MmuView, ly: u8, n: nat) -> Seq<usize>
    decreases n,
{
    if n == 0 {
        Seq::empty()
    } else {
        let before = visible_sprites(m, ly, (n - 1) as nat);
        if before.len() < 10 && sprite_on_line(m, n - 1, ly) {
            before.push((n - 1) as usize)
        } else {
            before
        }
    }
}

/// Whether sprite `a` is drawn no later than sprite `b`. Sprites are drawn
/// by rising X coordinate, each over the ones before it; of two sprites with
/// the same X coordinate the one that comes first in the table is drawn
/// last, so that it is the one seen.
pub open spec fn sprite_before(m: MmuView, a: usize, b: usize) -> bool {
    m.oam[a * 4 + 1] < m.oam[b * 4 + 1] || (m.oam[a * 4 + 1] == m.oam[b * 4 + 1] && a >= b)
}

/// The ordered sequence `sorted` with sprite `id` put in its place.
pub open spec fn insert_sprite(m: MmuView, sorted: Seq<usize>, id: usize) -> Seq<usize>
    decreases sorted.len(),
{
    if sorted.len() == 0 || sprite_before(m, sorted.last(), id) {
        sorted.push(id)
    } else {
        insert_sprite(m, sorted.drop_last(), id).push(sorted.last())
    }
}

/// The first `n` sprites of `s` in drawing order.
pub open spec fn sort_sprites(m: MmuView, s: Seq<usize>, n: nat) -> Seq<usize>
    decreases n,
{
    if n == 0 {
        Seq::empty()
    } else {
        insert_sprite(m, sort_sprites(m, s, (n - 1) as nat), s[n - 1])
    }
}

/// Whether a pixel whose red channel is `red` lets a sprite behind the
/// background show: it is blank, or of the lightest shade.
pub open spec fn shows_behind(red: u8) -> bool {
    red == 255 || red == 224
}

/// The address of the two bytes of the row of sprite `id` that falls on line
/// `ly`: rows are counted from the bottom when the sprite is flipped
/// vertically, and a tall sprite starts on an even tile.
pub open spec fn sprite_row_address(m: MmuView, ly: u8, id: int) -> u16 {
    let tile = if sprite_height(m) == 16 {
        m.oam[id * 4 + 2] & 0xfe
    } else {
        m.oam[id * 4 + 2]
    };
    let down = sprite_row(m, id, ly);
    let row = if m.oam[id * 4 + 3] & 0x40 != 0 {
        sprite_height(m) - 1 - down
    } else {
        down
    };
    (0x8000 + tile * 16 + row * 2) as u16
}

/// The colour number of column `x` (0 to 7 from the left of the sprite) of
/// the row of sprite `id` on line `ly`, with both flips applied.
pub open spec fn sprite_color(m: MmuView, ly: u8, id: int, x: int) -> u8 {
    let addr = sprite_row_address(m, ly, id);
    let bit = if m.oam[id * 4 + 3] & 0x20 != 0 {
        x
    } else {
        7 - x
    };
    color_number(m.read(addr), m.read((addr + 1) as u16), bit as u8)
}

/// The screen column of column `x` of sprite `id`; 160 and above is off the
/// screen.
pub open spec fn sprite_column(m: MmuView, id: int, x: int) -> u8 {
    m.oam[id * 4 + 1].wrapping_sub(8).wrapping_add(x as u8)
}

/// Whether column `x` of sprite `id` is drawn on line `ly` over the frame
/// buffer `fb`: it is on the screen, not of the transparent colour zero, and
/// not hidden behind the background.
pub open spec fn sprite_pixel_drawn(fb: Seq<u8>, m: MmuView, ly: u8, id: int, x: int) -> bool {
    let column = sprite_column(m, id, x);
    &&& column < 160
    &&& sprite_color(m, ly, id, x) != 0
    &&& m.oam[id * 4 + 3] & 0x80 != 0 ==> shows_behind(fb[pixel_offset(ly as int, column as int)])
}

/// The frame buffer with the first `n` columns of sprite `id` drawn on line
/// `ly`.
pub open spec fn sprite_drawn(fb: Seq<u8>, m: MmuView, ly: u8, id: int, n: nat) -> Seq<u8>
    decreases n,
{
    if n == 0 {
        fb
    } else {
        let before = sprite_drawn(fb, m, ly, id, (n - 1) as nat);
        if sprite_pixel_drawn(before, m, ly, id, n - 1) {
            let palette = if m.oam[id * 4 + 3] & 0x10 != 0 {
                m.io[0x49]
            } else {
                m.io[0x48]
            };
            put_pixel(
                before,
                ly as int,
                sprite_column(m, id, n - 1) as int,
                shade_rgb(palette_shade(palette, sprite_color(m, ly, id, n - 1))),
            )
        } else {
            before
        }
    }
}

/// The frame buffer with the first `n` sprites of `order` drawn on line
/// `ly`, each over the ones before it.
pub open spec fn sprite_rows(fb: Seq<u8>, m: MmuView, ly: u8, order: Seq<usize>, n: nat) -> Seq<
    u8,
>
    decreases n,
{
    if n == 0 {
        fb
    } else {
        sprite_drawn(sprite_rows(fb, m, ly, order, (n - 1) as nat), m, ly, order[n - 1] as int, 8)
    }
}

/// The frame buffer with the sprites of line `ly` drawn.
pub open spec fn sprites_drawn(fb: Seq<u8>, m: MmuView, ly: u8) -> Seq<u8> {
    let found = visible_sprites(m, ly, 40);
    let order = sort_sprites(m, found, found.len());
    sprite_rows(fb, m, ly, order, order.len())
}

/// The frame buffer with the line that the scanline register names drawn
/// afresh: cleared, then the background, the window and the sprites, each
/// where the control register enables it. While `suppressed` holds, window
/// and sprites are left out.
pub open spec fn scanline_drawn(fb: Seq<u8>, m: MmuView, suppressed: bool) -> Seq<u8> {
    let lcdc = m.io[0x40];
    let ly = m.io[0x44];
    if ly >= 144 {
        fb
    } else {
        let cleared = clear_line(fb, ly as int);
        let with_bg = if lcdc & 0x01 != 0 {
            background_row(cleared, m, ly, 160)
        } else {
            cleared
        };
        let with_window = if !suppressed && lcdc & 0x20 != 0 {
            window_row(with_bg, m, ly, 160)
        } else {
            with_bg
        };
        if !suppressed && lcdc & 0x02 != 0 {
            sprites_drawn(with_window, m, ly)
        } else {
            with_window
        }
    }
}

/// With interrupt `n` requested.
pub open spec fn raise_interrupt(m: MmuView, n: u8) -> MmuView {
    MmuView { io: m.io.update(0x0f, m.io[0x0f] | (1u8 << n)), ..m }
}

/// Whether the status register asks for an interrupt on entering `mode`:
/// bit `mode + 3`, and never for the vertical blank.
pub open spec fn mode_interrupt_enabled(stat: u8, mode: u8) -> bool {
    mode != 1 && bit_is_set(stat, (mode + 3) as u8)
}

/// With the mode bits of the status register set to `mode`, and the status
/// interrupt requested where the register asks for it.
pub open spec fn mode_set(m: MmuView, mode: u8) -> MmuView {
    let stat = m.io[0x41];
    let m1 = MmuView { io: m.io.update(0x41, (stat & 0xfc) | (mode & 0x03)), ..m };
    if mode_interrupt_enabled(stat, mode) {
        raise_interrupt(m1, 1)
    } else {
        m1
    }
}

/// With the scanline register set to `value`.
pub open spec fn ly_set(m: MmuView, value: u8) -> MmuView {
    MmuView { io: m.io.update(0x44, value), ..m }
}

/// With the coincidence flag of the status register brought up to date, and
/// the status interrupt requested on a match that the register asks to hear
/// of.
pub open spec fn lyc_checked(m: MmuView) -> MmuView {
    let stat = m.io[0x41];
    if m.io[0x44] == m.io[0x45] {
        let m1 = MmuView { io: m.io.update(0x41, stat | 0x04), ..m };
        if stat & 0x40 != 0 {
            raise_interrupt(m1, 1)
        } else {
            m1
        }
    } else {
        MmuView { io: m.io.update(0x41, stat & 0xfb), ..m }
    }
}

/// The mathematical state of the pipeline.
pub struct PpuView {
    pub frame_buffer: Seq<u8>,
    pub scanline_counter: u32,
    pub overlays_suppressed: bool,
}

/// What one step of the pipeline leaves.
pub struct PpuStep {
    pub ppu: PpuView,
    pub mmu: MmuView,
    pub frame_ready: bool,
}

impl PpuView {
    /// The frame buffer has its size, and the pipeline is less than one
    /// line's cycles into its line.
    pub open spec fn wf(self) -> bool {
        self.frame_buffer.len() == 92160 && self.scanline_counter < 456
    }

    /// Whether the display is switched on.
    pub open spec fn lcd_on(m: MmuView) -> bool {
        m.io[0x40] & 0x80 != 0
    }

    /// Whether `cycles` more cycles bring the pipeline to the end of its
    /// scanline.
    pub open spec fn line_ends(self, m: MmuView, cycles: u32) -> bool {
        Self::lcd_on(m) && self.scanline_counter + cycles >= 456
    }

    /// Whether `cycles` more cycles bring the pipeline into line 144, where
    /// the vertical blank begins.
    pub open spec fn enters_vblank(self, m: MmuView, cycles: u32) -> bool {
        self.line_ends(m, cycles) && m.io[0x44] == 143
    }

    /// The cycle count within the scanline after `cycles` more cycles.
    pub open spec fn counter_after(self, m: MmuView, cycles: u32) -> u32 {
        let total = self.scanline_counter + cycles;
        if !Self::lcd_on(m) {
            self.scanline_counter
        } else if total >= 456 {
            (total - 456) as u32
        } else {
            total as u32
        }
    }

    /// The registers after the scanline register has moved on to the next of
    /// the 154 lines: the coincidence flag follows, line 144 begins the
    /// vertical blank and requests its interrupt, line 0 begins a new scan.
    pub open spec fn line_advanced(m: MmuView) -> MmuView {
        let next = ((m.io[0x44] + 1) % 154) as u8;
        let m1 = lyc_checked(ly_set(m, next));
        if next == 144 {
            raise_interrupt(mode_set(m1, 1), 0)
        } else if next == 0 {
            mode_set(m1, 2)
        } else {
            m1
        }
    }

    /// The registers after the mode has been brought up to date on a visible
    /// line, `counter` cycles into it.
    pub open spec fn mode_updated(m: MmuView, counter: u32) -> MmuView {
        if counter < 80 {
            if m.io[0x41] & 0x03 != 2 {
                mode_set(m, 2)
            } else {
                m
            }
        } else if counter < 252 {
            if m.io[0x41] & 0x03 != 3 {
                mode_set(m, 3)
            } else {
                m
            }
        } else {
            if m.io[0x41] & 0x03 != 0 {
                mode_set(m, 0)
            } else {
                m
            }
        }
    }

    /// Whether the mode update `counter` cycles into a visible line enters
    /// the drawing mode, which renders the line.
    pub open spec fn starts_drawing(m: MmuView, counter: u32) -> bool {
        80 <= counter < 252 && m.io[0x41] & 0x03 != 3
    }

    /// One step of no more than 80 cycles, the length of the shortest mode.
    /// With the display off nothing moves. The mode is brought up to date
    /// only if the line the step began on is a visible one, and not on the
    /// step that enters the vertical blank.
    pub open spec fn step_once(self, m: MmuView, cycles: u32) -> PpuStep {
        if !Self::lcd_on(m) {
            PpuStep { ppu: self, mmu: m, frame_ready: false }
        } else {
            let counter = self.counter_after(m, cycles);
            let m1 = if self.line_ends(m, cycles) {
                Self::line_advanced(m)
            } else {
                m
            };
            if self.enters_vblank(m, cycles) || m.io[0x44] >= 144 {
                PpuStep {
                    ppu: PpuView { scanline_counter: counter, ..self },
                    mmu: m1,
                    frame_ready: self.enters_vblank(m, cycles),
                }
            } else {
                let m2 = Self::mode_updated(m1, counter);
                PpuStep {
                    ppu: PpuView {
                        scanline_counter: counter,
                        frame_buffer: if Self::starts_drawing(m1, counter) {
                            scanline_drawn(self.frame_buffer, m2, self.overlays_suppressed)
                        } else {
                            self.frame_buffer
                        },
                        ..self
                    },
                    mmu: m2,
                    frame_ready: false,
                }
            }
        }
    }

    /// A step of `cycles` cycles. However many cycles there are, every line
    /// of 456 cycles among them moves the scanline register on and passes
    /// through its modes: the cycles are taken eighty at a time, so that no
    /// mode is passed over, and a frame is reported if any of these steps
    /// completed one.
    pub open spec fn step(self, m: MmuView, cycles: u32) -> PpuStep
        decreases cycles,
    {
        if cycles <= 80 {
            self.step_once(m, cycles)
        } else {
            let first = self.step_once(m, 80);
            let rest = first.ppu.step(first.mmu, (cycles - 80) as u32);
            PpuStep {
                ppu: rest.ppu,
                mmu: rest.mmu,
                frame_ready: first.frame_ready || rest.frame_ready,
            }
        }
    }

    /// The pipeline and the registers after a reset: a white frame, the
    /// start of line 0 in the scanning mode.
    pub open spec fn reset(self, m: MmuView) -> (PpuView, MmuView) {
        (
            PpuView {
                frame_buffer: Seq::new(92160, |i: int| 0xffu8),
                scanline_counter: 0,
                ..self
            },
            ly_set(mode_set(m, 2), 0),
        )
    }
}

/// The pixel pipeline.
pub struct PPU {
    frame_buffer: Vec<u8>,
    scanline_counter: u32,
    overlays_suppressed: bool,
}

impl View for PPU {
    type V = PpuView;

    closed spec fn view(&self) -> PpuView {
        PpuView {
            frame_buffer: self.frame_buffer@,
            scanline_counter: self.scanline_counter,
            overlays_suppressed: self.overlays_suppressed,
        }
    }
}

/// The three colour channels of shade `color`.
pub fn get_color(color: u8) -> (r: [u8; 3])
    ensures
        r@ =~= shade_rgb(color),
{
    let shade = color % 4;
    if shade == 0 {
        [224, 248, 208]
    } else if shade == 1 {
        [136, 192, 112]
    } else if shade == 2 {
        [52, 104, 86]
    } else {
        [8, 24, 32]
    }
}

/// Requests interrupt `interrupt`.
fn request_interrupt(mmu: &mut MMU, interrupt: u8)
    requires
        old(mmu)@.wf(),
        interrupt < 8,
    ensures
        final(mmu)@ == raise_interrupt(old(mmu)@, interrupt),
        final(mmu)@.wf(),
{
    proof {
        reveal(MmuView::read);
        reveal(MmuView::write);
    }
    let pending = mmu.read_byte(0xff0f);
    mmu.write_byte(0xff0f, pending | (1u8 << interrupt));
}

fn get_ly(mmu: &MMU) -> (r: u8)
    requires
        mmu@.wf(),
    ensures
        r == mmu@.io[0x44],
        r < 154,
{
    mmu.get_io()[0x44]
}

fn set_ly(mmu: &mut MMU, value: u8)
    requires
        old(mmu)@.wf(),
        value < 154,
    ensures
        final(mmu)@ == ly_set(old(mmu)@, value),
        final(mmu)@.wf(),
{
    let io = mmu.get_io_mut();
    io[0x44] = value;
}

fn get_mode(mmu: &MMU) -> (r: u8)
    requires
        mmu@.wf(),
    ensures
        r == mmu@.io[0x41] & 0x03,
{
    mmu.get_io()[0x41] & 0x03
}

fn set_mode(mmu: &mut MMU, mode: u8)
    requires
        old(mmu)@.wf(),
        mode < 4,
    ensures
        final(mmu)@ == mode_set(old(mmu)@, mode),
        final(mmu)@.wf(),
{
    let stat = mmu.get_io()[0x41];
    proof {
        lemma_single_bit(stat, (mode + 3) as u8);
    }
    let enabled = mode != MODE_VBLANK && (stat >> (mode + 3)) & 1 != 0;
    let io = mmu.get_io_mut();
    io[0x41] = (stat & 0xfc) | (mode & 0x03);
    if enabled {
        request_interrupt(mmu, 1);
    }
}

fn check_lyc(mmu: &mut MMU)
    requires
        old(mmu)@.wf(),
    ensures
        final(mmu)@ == lyc_checked(old(mmu)@),
        final(mmu)@.wf(),
{
    let ly = mmu.get_io()[0x44];
    let lyc = mmu.get_io()[0x45];
    let stat = mmu.get_io()[0x41];
    if ly == lyc {
        let io = mmu.get_io_mut();
        io[0x41] = stat | 0x04;
        if stat & 0x40 != 0 {
            request_interrupt(mmu, 1);
        }
    } else {
        let io = mmu.get_io_mut();
        io[0x41] = stat & 0xfb;
    }
}

impl PPU {
    pub fn new() -> (r: Self)
        ensures
            r@.wf(),
            r@.frame_buffer == Seq::new(92160, |i: int| 0xffu8),
            r@.scanline_counter == 0,
            r@.overlays_suppressed,
    {
        let frame_buffer = vec![0xffu8; FRAME_BYTES];
        assert(frame_buffer@ =~= Seq::new(92160, |i: int| 0xffu8));
        Self { frame_buffer, scanline_counter: 0, overlays_suppressed: true }
    }

    pub fn get_frame_buffer(&self) -> (r: &[u8])
        ensures
            r@ == self@.frame_buffer,
    {
        self.frame_buffer.as_slice()
    }

    /// Whether the window and the sprites are left out of every line.
    pub fn overlays_suppressed(&self) -> (r: bool)
        ensures
            r == self@.overlays_suppressed,
    {
        self.overlays_suppressed
    }

    /// Chooses whether the window and the sprites are left out of every
    /// line.
    pub fn set_overlays_suppressed(&mut self, suppressed: bool)
        ensures
            final(self)@ == (PpuView { overlays_suppressed: suppressed, ..old(self)@ }),
    {
        self.overlays_suppressed = suppressed;
    }

    fn set_pixel_rgb(&mut self, ly: u8, x: usize, rgb: [u8; 3])
        requires
            old(self)@.wf(),
            ly < 144,
            x < 160,
        ensures
            final(self)@ == (PpuView {
                frame_buffer: put_pixel(old(self)@.frame_buffer, ly as int, x as int, rgb@),
                ..old(self)@
            }),
            final(self)@.wf(),
    {
        let idx = (ly as usize * SCREEN_WIDTH + x) * 4;
        self.frame_buffer[idx] = rgb[0];
        self.frame_buffer[idx + 1] = rgb[1];
        self.frame_buffer[idx + 2] = rgb[2];
        self.frame_buffer[idx + 3] = 255;
    }

    /// Clears line `ly` to white.
    fn clear_scanline(&mut self, ly: u8)
        requires
            old(self)@.wf(),
            ly < 144,
        ensures
            final(self)@ == (PpuView {
                frame_buffer: clear_line(old(self)@.frame_buffer, ly as int),
                ..old(self)@
            }),
            final(self)@.wf(),
    {
        let line_start = ly as usize * SCREEN_WIDTH * 4;
        let ghost before = self@;
        let mut i: usize = 0;
        while i < 640
            invariant
                i <= 640,
                line_start == ly * 640,
                ly < 144,
                before.wf(),
                self@.frame_buffer.len() == 92160,
                self@ == (PpuView { frame_buffer: self@.frame_buffer, ..before }),
                forall|k: int|
                    0 <= k < 92160 ==> self@.frame_buffer[k] == if line_start <= k < line_start
                        + i {
                        255u8
                    } else {
                        before.frame_buffer[k]
                    },
            decreases 640 - i,
        {
            self.frame_buffer[line_start + i] = 255;
            i += 1;
        }
        assert(self@.frame_buffer =~= clear_line(before.frame_buffer, ly as int));
    }
}

/// The colour number of pixel `px` of row `row` of the tile that entry
/// `entry` of the tile map at `map` names.
fn tile_map_pixel(mmu: &MMU, map: u16, entry: u16, row: u8, px: u8) -> (r: u8)
    requires
        mmu@.wf(),
        map == 0x9800 || map == 0x9c00,
        entry < 1024,
        row < 8,
        px < 8,
    ensures
        r == map_pixel(mmu@, map, entry as int, row as int, px as int),
        r < 4,
{
    let lcdc = mmu.get_io()[0x40];
    let tile = mmu.read_byte(map + entry);
    let tile_addr: u16 = if lcdc & 0x10 != 0 {
        0x8000 + (tile as u16) * 16
    } else {
        let index: u16 = if tile < 128 {
            tile as u16 + 128
        } else {
            tile as u16 - 128
        };
        0x8800 + index * 16
    };
    let line = (row * 2) as u16;
    let byte1 = mmu.read_byte(tile_addr + line);
    let byte2 = mmu.read_byte(tile_addr + line + 1);
    let bit_pos = 7 - px;
    proof {
        lemma_color_number(byte1, byte2, bit_pos);
    }
    ((byte2 >> bit_pos) & 1) << 1 | ((byte1 >> bit_pos) & 1)
}

/// The shade that `palette` assigns to colour number `color`.
fn shade_of(palette: u8, color: u8) -> (r: u8)
    requires
        color < 4,
    ensures
        r == palette_shade(palette, color),
{
    proof {
        lemma_palette_shade(palette, color);
    }
    (palette >> (color * 2)) & 0x03
}

/// The height of every sprite.
fn sprite_height_of(mmu: &MMU) -> (r: u8)
    requires
        mmu@.wf(),
    ensures
        r == sprite_height(mmu@),
{
    if mmu.get_io()[0x40] & 0x04 != 0 {
        16
    } else {
        8
    }
}

/// The shade of the background at column `x` of line `ly`.
fn background_shade_at(mmu: &MMU, ly: u8, x: usize) -> (r: u8)
    requires
        mmu@.wf(),
        x < 160,
    ensures
        r == background_shade(mmu@, ly, x as int),
{
    let io = mmu.get_io();
    let lcdc = io[0x40];
    let scy = io[0x42];
    let scx = io[0x43];
    let bgp = io[0x47];
    let tile_map_base: u16 = if lcdc & 0x08 != 0 {
        0x9c00
    } else {
        0x9800
    };
    let y = ly.wrapping_add(scy);
    let x_pos = (x as u8).wrapping_add(scx);
    let tile_y = (y / 8) as u16;
    let tile_x = (x_pos / 8) as u16;
    let color_num = tile_map_pixel(mmu, tile_map_base, tile_y * 32 + tile_x, y % 8, x_pos % 8);
    shade_of(bgp, color_num)
}

/// The shade of the window at column `x` of line `ly`.
fn window_shade_at(mmu: &MMU, ly: u8, x: usize) -> (r: u8)
    requires
        mmu@.wf(),
        x < 160,
        window_covers(mmu@, ly, x as int),
    ensures
        r == window_shade(mmu@, ly, x as int),
{
    let io = mmu.get_io();
    let lcdc = io[0x40];
    let wy = io[0x4a];
    let wx = io[0x4b];
    let bgp = io[0x47];
    let tile_map_base: u16 = if lcdc & 0x40 != 0 {
        0x9c00
    } else {
        0x9800
    };
    let window_y = ly - wy;
    let window_x = (x + 7 - wx as usize) as u8;
    let tile_y = (window_y / 8) as u16;
    let tile_x = (window_x / 8) as u16;
    let color_num = tile_map_pixel(
        mmu,
        tile_map_base,
        tile_y * 32 + tile_x,
        window_y % 8,
        window_x % 8,
    );
    shade_of(bgp, color_num)
}

/// The address of the two bytes of the row of sprite `id` on line `ly`.
fn sprite_row_address_of(mmu: &MMU, ly: u8, id: usize) -> (r: u16)
    requires
        mmu@.wf(),
        id < 40,
        sprite_on_line(mmu@, id as int, ly),
    ensures
        r == sprite_row_address(mmu@, ly, id as int),
        r < 0xffff,
{
    let oam = mmu.get_oam();
    let height = sprite_height_of(mmu);
    let mut tile_num = oam[id * 4 + 2];
    if height == 16 {
        tile_num &= 0xfe;
    }
    let mut tile_line = ly as u16 + 16 - oam[id * 4] as u16;
    if (oam[id * 4 + 3] & 0x40) != 0 {
        tile_line = height as u16 - 1 - tile_line;
    }
    0x8000 + (tile_num as u16) * 16 + tile_line * 2
}

/// The colour number of column `x` of the row of sprite `id` on line `ly`.
fn sprite_color_at(mmu: &MMU, ly: u8, id: usize, x: u8) -> (r: u8)
    requires
        mmu@.wf(),
        id < 40,
        x < 8,
        sprite_on_line(mmu@, id as int, ly),
    ensures
        r == sprite_color(mmu@, ly, id as int, x as int),
        r < 4,
{
    let tile_addr = sprite_row_address_of(mmu, ly, id);
    let byte1 = mmu.read_byte(tile_addr);
    let byte2 = mmu.read_byte(tile_addr + 1);
    let bit_pos = if (mmu.get_oam()[id * 4 + 3] & 0x20) != 0 {
        x
    } else {
        7 - x
    };
    proof {
        lemma_color_number(byte1, byte2, bit_pos);
    }
    ((byte2 >> bit_pos) & 1) << 1 | ((byte1 >> bit_pos) & 1)
}

/// The shade that the palette of sprite `id` assigns to `color`.
fn sprite_shade_at(mmu: &MMU, id: usize, color: u8) -> (r: u8)
    requires
        mmu@.wf(),
        id < 40,
        color < 4,
    ensures
        r == palette_shade(
            if mmu@.oam[id * 4 + 3] & 0x10 != 0 {
                mmu@.io[0x49]
            } else {
                mmu@.io[0x48]
            },
            color,
        ),
{
    let io = mmu.get_io();
    let attributes = mmu.get_oam()[id * 4 + 3];
    let palette = if attributes & 0x10 != 0 {
        io[0x49]
    } else {
        io[0x48]
    };
    shade_of(palette, color)
}

/// The sprites drawn on line `ly`, in table order.
fn collect_sprites(mmu: &MMU, ly: u8) -> (found: Vec<usize>)
    requires
        mmu@.wf(),
    ensures
        found@ == visible_sprites(mmu@, ly, 40),
        forall|k: int|
            0 <= k < found@.len() ==> found@[k] < 40 && sprite_on_line(mmu@, found@[k] as int, ly),
{
    let height = sprite_height_of(mmu);
    let oam = mmu.get_oam();
    let mut found: Vec<usize> = Vec::new();
    let mut i: usize = 0;
    while i < 40
        invariant
            i <= 40,
            mmu@.wf(),
            oam@ == mmu@.oam,
            height == sprite_height(mmu@),
            found@ == visible_sprites(mmu@, ly, i as nat),
            forall|k: int|
                0 <= k < found@.len() ==> found@[k] < 40 && sprite_on_line(
                    mmu@,
                    found@[k] as int,
                    ly,
                ),
        decreases 40 - i,
    {
        let y = oam[i * 4] as u16;
        if found.len() < 10 && ly as u16 + 16 >= y && ly as u16 + 16 < y + height as u16 {
            found.push(i);
        }
        i += 1;
    }
    found
}

/// Whether sprite `a` is drawn no later than sprite `b`.
fn draws_before(mmu: &MMU, a: usize, b: usize) -> (r: bool)
    requires
        mmu@.wf(),
        a < 40,
        b < 40,
    ensures
        r == sprite_before(mmu@, a, b),
{
    let oam = mmu.get_oam();
    let xa = oam[a * 4 + 1];
    let xb = oam[b * 4 + 1];
    xa < xb || (xa == xb && a >= b)
}

/// The sprites of `found` in drawing order.
fn order_sprites(mmu: &MMU, found: &Vec<usize>, Ghost(ly): Ghost<u8>) -> (order: Vec<usize>)
    requires
        mmu@.wf(),
        forall|k: int|
            0 <= k < found@.len() ==> found@[k] < 40 && sprite_on_line(mmu@, found@[k] as int, ly),
    ensures
        order@ == sort_sprites(mmu@, found@, found@.len()),
        forall|k: int|
            0 <= k < order@.len() ==> order@[k] < 40 && sprite_on_line(mmu@, order@[k] as int, ly),
{
    let mut order: Vec<usize> = Vec::new();
    let mut n: usize = 0;
    while n < found.len()
        invariant
            n <= found@.len(),
            mmu@.wf(),
            forall|k: int|
            0 <= k < found@.len() ==> found@[k] < 40 && sprite_on_line(mmu@, found@[k] as int, ly),
            order@ == sort_sprites(mmu@, found@, n as nat),
            order@.len() == n,
            forall|k: int|
            0 <= k < order@.len() ==> order@[k] < 40 && sprite_on_line(mmu@, order@[k] as int, ly),
        decreases found@.len() - n,
    {
        let id = found[n];
        let ghost sorted = order@;
        order.push(id);
        let mut j: usize = n;
        assert(sorted.subrange(0, j as int) =~= sorted);
        assert(order@ =~= sorted.subrange(0, j as int).push(id) + sorted.subrange(
            j as int,
            sorted.len() as int,
        ));
        assert(insert_sprite(mmu@, sorted, id) =~= insert_sprite(
            mmu@,
            sorted.subrange(0, j as int),
            id,
        ) + sorted.subrange(j as int, sorted.len() as int));
        while j > 0 && !draws_before(mmu, order[j - 1], id)
            invariant
                j <= n,
                n < found@.len(),
                id < 40,
                sprite_on_line(mmu@, id as int, ly),
                mmu@.wf(),
                sorted.len() == n,
                forall|k: int|
                    0 <= k < sorted.len() ==> sorted[k] < 40 && sprite_on_line(
                        mmu@,
                        sorted[k] as int,
                        ly,
                    ),
                order@ == sorted.subrange(0, j as int).push(id) + sorted.subrange(
                    j as int,
                    sorted.len() as int,
                ),
                insert_sprite(mmu@, sorted, id) == insert_sprite(
                    mmu@,
                    sorted.subrange(0, j as int),
                    id,
                ) + sorted.subrange(j as int, sorted.len() as int),
            decreases j,
        {
            let ghost head = sorted.subrange(0, j as int);
            let moved = order[j - 1];
            assert(moved == sorted[j - 1]);
            assert(head.last() == sorted[j - 1]);
            assert(head.drop_last() =~= sorted.subrange(0, j - 1));
            assert(insert_sprite(mmu@, head, id) == insert_sprite(
                mmu@,
                sorted.subrange(0, j - 1),
                id,
            ).push(sorted[j - 1]));
            assert(sorted.subrange(j - 1, sorted.len() as int) =~= seq![sorted[j - 1]]
                + sorted.subrange(j as int, sorted.len() as int));
            order[j] = moved;
            order[j - 1] = id;
            j -= 1;
            assert(order@ =~= sorted.subrange(0, j as int).push(id) + sorted.subrange(
                j as int,
                sorted.len() as int,
            ));
            assert(insert_sprite(mmu@, sorted, id) =~= insert_sprite(
                mmu@,
                sorted.subrange(0, j as int),
                id,
            ) + sorted.subrange(j as int, sorted.len() as int));
        }
        proof {
            let head = sorted.subrange(0, j as int);
            if j > 0 {
                assert(head.last() == sorted[j - 1]);
                assert(order@[j - 1] == sorted[j - 1]);
            }
            assert(insert_sprite(mmu@, head, id) == head.push(id));
        }
        n += 1;
    }
    order
}

impl PPU {
    fn render_background(&mut self, mmu: &MMU, ly: u8)
        requires
            old(self)@.wf(),
            mmu@.wf(),
            ly < 144,
        ensures
            final(self)@ == (PpuView {
                frame_buffer: background_row(old(self)@.frame_buffer, mmu@, ly, 160),
                ..old(self)@
            }),
            final(self)@.wf(),
    {
        let mut x: usize = 0;
        while x < SCREEN_WIDTH
            invariant
                x <= 160,
                ly < 144,
                mmu@.wf(),
                self@.wf(),
                self@ == (PpuView {
                    frame_buffer: background_row(old(self)@.frame_buffer, mmu@, ly, x as nat),
                    ..old(self)@
                }),
            decreases 160 - x,
        {
            let color = background_shade_at(mmu, ly, x);
            let rgb = get_color(color);
            self.set_pixel_rgb(ly, x, rgb);
            x += 1;
        }
    }

    fn render_window(&mut self, mmu: &MMU, ly: u8)
        requires
            old(self)@.wf(),
            mmu@.wf(),
            ly < 144,
        ensures
            final(self)@ == (PpuView {
                frame_buffer: window_row(old(self)@.frame_buffer, mmu@, ly, 160),
                ..old(self)@
            }),
            final(self)@.wf(),
    {
        let io = mmu.get_io();
        let wy = io[0x4a];
        let wx = io[0x4b];
        let mut x: usize = 0;
        while x < SCREEN_WIDTH
            invariant
                x <= 160,
                ly < 144,
                mmu@.wf(),
                wy == mmu@.io[0x4a],
                wx == mmu@.io[0x4b],
                self@.wf(),
                self@ == (PpuView {
                    frame_buffer: window_row(old(self)@.frame_buffer, mmu@, ly, x as nat),
                    ..old(self)@
                }),
            decreases 160 - x,
        {
            if ly >= wy && x + 7 >= wx as usize {
                let color = window_shade_at(mmu, ly, x);
                let rgb = get_color(color);
                self.set_pixel_rgb(ly, x, rgb);
            }
            x += 1;
        }
    }

    /// Draws the row of sprite `id` that falls on line `ly`.
    fn draw_sprite(&mut self, mmu: &MMU, ly: u8, id: usize)
        requires
            old(self)@.wf(),
            mmu@.wf(),
            ly < 144,
            id < 40,
            sprite_on_line(mmu@, id as int, ly),
        ensures
            final(self)@ == (PpuView {
                frame_buffer: sprite_drawn(old(self)@.frame_buffer, mmu@, ly, id as int, 8),
                ..old(self)@
            }),
            final(self)@.wf(),
    {
        let sprite_x = mmu.get_oam()[id * 4 + 1].wrapping_sub(8);
        let priority = (mmu.get_oam()[id * 4 + 3] & 0x80) != 0;
        let mut x: u8 = 0;
        while x < 8
            invariant
                x <= 8,
                ly < 144,
                id < 40,
                mmu@.wf(),
                sprite_on_line(mmu@, id as int, ly),
                sprite_x == mmu@.oam[id * 4 + 1].wrapping_sub(8),
                priority == (mmu@.oam[id * 4 + 3] & 0x80 != 0),
                self@.wf(),
                self@ == (PpuView {
                    frame_buffer: sprite_drawn(
                        old(self)@.frame_buffer,
                        mmu@,
                        ly,
                        id as int,
                        x as nat,
                    ),
                    ..old(self)@
                }),
            decreases 8 - x,
        {
            let screen_x = sprite_x.wrapping_add(x);
            let color_num = sprite_color_at(mmu, ly, id, x);
            if screen_x < 160 && color_num != 0 {
                let offset = (ly as usize * SCREEN_WIDTH + screen_x as usize) * 4;
                let behind = self.frame_buffer[offset];
                if !priority || behind == 255 || behind == 224 {
                    let color = sprite_shade_at(mmu, id, color_num);
                    let rgb = get_color(color);
                    self.set_pixel_rgb(ly, screen_x as usize, rgb);
                }
            }
            x += 1;
        }
    }

    fn render_sprites(&mut self, mmu: &MMU, ly: u8)
        requires
            old(self)@.wf(),
            mmu@.wf(),
            ly < 144,
        ensures
            final(self)@ == (PpuView {
                frame_buffer: sprites_drawn(old(self)@.frame_buffer, mmu@, ly),
                ..old(self)@
            }),
            final(self)@.wf(),
    {
        let found = collect_sprites(mmu, ly);
        let order = order_sprites(mmu, &found, Ghost(ly));
        let mut n: usize = 0;
        while n < order.len()
            invariant
                n <= order@.len(),
                ly < 144,
                mmu@.wf(),
                forall|k: int|
                    0 <= k < order@.len() ==> order@[k] < 40 && sprite_on_line(
                        mmu@,
                        order@[k] as int,
                        ly,
                    ),
                self@.wf(),
                self@ == (PpuView {
                    frame_buffer: sprite_rows(
                        old(self)@.frame_buffer,
                        mmu@,
                        ly,
                        order@,
                        n as nat,
                    ),
                    ..old(self)@
                }),
            decreases order@.len() - n,
        {
            self.draw_sprite(mmu, ly, order[n]);
            n += 1;
        }
    }

    fn render_scanline(&mut self, mmu: &MMU)
        requires
            old(self)@.wf(),
            mmu@.wf(),
        ensures
            final(self)@ == (PpuView {
                frame_buffer: scanline_drawn(
                    old(self)@.frame_buffer,
                    mmu@,
                    old(self)@.overlays_suppressed,
                ),
                ..old(self)@
            }),
            final(self)@.wf(),
    {
        let lcdc = mmu.get_io()[0x40];
        let ly = get_ly(mmu);
        if ly >= SCREEN_HEIGHT as u8 {
            return ;
        }
        self.clear_scanline(ly);
        if lcdc & 0x01 != 0 {
            self.render_background(mmu, ly);
        }
        if !self.overlays_suppressed && lcdc & 0x20 != 0 {
            self.render_window(mmu, ly);
        }
        if !self.overlays_suppressed && lcdc & 0x02 != 0 {
            self.render_sprites(mmu, ly);
        }
    }

    /// Returns the pipeline to the start of a frame.
    pub fn reset(&mut self, mmu: &mut MMU)
        requires
            old(self)@.wf(),
            old(mmu)@.wf(),
        ensures
            final(self)@ == old(self)@.reset(old(mmu)@).0,
            final(mmu)@ == old(self)@.reset(old(mmu)@).1,
            final(self)@.wf(),
            final(mmu)@.wf(),
    {
        let frame_buffer = vec![0xffu8; FRAME_BYTES];
        assert(frame_buffer@ =~= Seq::new(92160, |i: int| 0xffu8));
        self.frame_buffer = frame_buffer;
        self.scanline_counter = 0;
        set_mode(mmu, MODE_OAM_SCAN);
        set_ly(mmu, 0);
    }

    /// Advances the pipeline by `cycles` cycles; returns whether a frame
    /// has been completed on the way.
    pub fn step(&mut self, mmu: &mut MMU, cycles: u32) -> (frame_ready: bool)
        requires
            old(self)@.wf(),
            old(mmu)@.wf(),
        ensures
            final(self)@ == old(self)@.step(old(mmu)@, cycles).ppu,
            final(mmu)@ == old(self)@.step(old(mmu)@, cycles).mmu,
            frame_ready == old(self)@.step(old(mmu)@, cycles).frame_ready,
            final(self)@.wf(),
            final(mmu)@.wf(),
    {
        let ghost whole = self@.step(mmu@, cycles);
        let mut left = cycles;
        let mut frame_ready = false;
        while left > 80
            invariant
                self@.wf(),
                mmu@.wf(),
                self@.step(mmu@, left).ppu == whole.ppu,
                self@.step(mmu@, left).mmu == whole.mmu,
                (frame_ready || self@.step(mmu@, left).frame_ready) == whole.frame_ready,
            decreases left,
        {
            if self.step_once(mmu, 80) {
                frame_ready = true;
            }
            left -= 80;
        }
        if self.step_once(mmu, left) {
            frame_ready = true;
        }
        frame_ready
    }

    /// Advances the pipeline by no more than 80 cycles; returns whether a
    /// frame has just been completed.
    fn step_once(&mut self, mmu: &mut MMU, cycles: u32) -> (frame_ready: bool)
        requires
            old(self)@.wf(),
            old(mmu)@.wf(),
            cycles <= 80,
        ensures
            final(self)@ == old(self)@.step_once(old(mmu)@, cycles).ppu,
            final(mmu)@ == old(self)@.step_once(old(mmu)@, cycles).mmu,
            frame_ready == old(self)@.step_once(old(mmu)@, cycles).frame_ready,
            final(self)@.wf(),
            final(mmu)@.wf(),
    {
        let lcdc = mmu.get_io()[0x40];
        if (lcdc & 0x80) == 0 {
            return false;
        }
        self.scanline_counter += cycles;
        let ly = get_ly(mmu);
        if self.scanline_counter >= SCANLINE_CYCLES {
            self.scanline_counter -= SCANLINE_CYCLES;
            let new_ly = (ly + 1) % 154;
            set_ly(mmu, new_ly);
            check_lyc(mmu);
            if new_ly == 144 {
                set_mode(mmu, MODE_VBLANK);
                request_interrupt(mmu, 0);
                return true;
            } else if new_ly == 0 {
                set_mode(mmu, MODE_OAM_SCAN);
            }
        }
        if ly < 144 {
            if self.scanline_counter < MODE_OAM_CYCLES {
                if get_mode(mmu) != MODE_OAM_SCAN {
                    set_mode(mmu, MODE_OAM_SCAN);
                }
            } else if self.scanline_counter < MODE_OAM_CYCLES + MODE_DRAWING_CYCLES {
                if get_mode(mmu) != MODE_DRAWING {
                    set_mode(mmu, MODE_DRAWING);
                    self.render_scanline(mmu);
                }
            } else {
                if get_mode(mmu) != MODE_HBLANK {
                    set_mode(mmu, MODE_HBLANK);
                }
            }
        }
        false
    }
}

/// The pipeline reports a completed frame on exactly the steps of no more
/// than 80 cycles that take it into line 144. Such a step leaves the scanline register at 144 and the
/// vertical blank interrupt requested; no other step changes that request.
pub proof fn lemma_frame_ready_is_vblank(p: PpuView, m: MmuView, cycles: u32)
    requires
        m.wf(),
        cycles <= 80,
    ensures
        p.step(m, cycles).frame_ready == p.enters_vblank(m, cycles),
        p.step(m, cycles).frame_ready ==> p.step(m, cycles).mmu.io[0x44] == 144,
        p.step(m, cycles).frame_ready ==> bit_is_set(p.step(m, cycles).mmu.io[0x0f], 0),
        !p.step(m, cycles).frame_ready ==> bit_is_set(p.step(m, cycles).mmu.io[0x0f], 0)
            == bit_is_set(m.io[0x0f], 0),
{
    let requests = m.io[0x0f];
    lemma_single_bit(requests, 1);
    lemma_other_bits_kept(requests, 1, 0, true);
    let twice = requests | (1u8 << 1);
    lemma_single_bit(twice, 1);
    lemma_other_bits_kept(twice, 1, 0, true);
    let thrice = twice | (1u8 << 1);
    lemma_single_bit(thrice, 1);
    lemma_other_bits_kept(thrice, 1, 0, true);
    lemma_single_bit(requests, 0);
    lemma_single_bit(twice, 0);
    lemma_single_bit(thrice, 0);
}

/// Drawing a visible line never changes the size of the frame buffer.
pub proof fn lemma_drawing_keeps_size(fb: Seq<u8>, m: MmuView, suppressed: bool)
    requires
        fb.len() == 92160,
    ensures
        scanline_drawn(fb, m, suppressed).len() == fb.len(),
{
    let ly = m.io[0x44];
    if ly < 144 {
        let cleared = clear_line(fb, ly as int);
        lemma_rows_keep_size(cleared, m, ly, 160);
        let with_bg = if m.io[0x40] & 0x01 != 0 {
            background_row(cleared, m, ly, 160)
        } else {
            cleared
        };
        lemma_rows_keep_size(with_bg, m, ly, 160);
        let with_window = if !suppressed && m.io[0x40] & 0x20 != 0 {
            window_row(with_bg, m, ly, 160)
        } else {
            with_bg
        };
        let found = visible_sprites(m, ly, 40);
        let order = sort_sprites(m, found, found.len());
        lemma_sprites_keep_size(with_window, m, ly, order, order.len());
    }
}

/// Background and window rows keep the size of the frame buffer.
proof fn lemma_rows_keep_size(fb: Seq<u8>, m: MmuView, ly: u8, n: nat)
    requires
        fb.len() == 92160,
        ly < 144,
        n <= 160,
    ensures
        background_row(fb, m, ly, n).len() == fb.len(),
        window_row(fb, m, ly, n).len() == fb.len(),
    decreases n,
{
    if n > 0 {
        lemma_rows_keep_size(fb, m, ly, (n - 1) as nat);
    }
}

/// One sprite keeps the size of the frame buffer.
proof fn lemma_sprite_keeps_size(fb: Seq<u8>, m: MmuView, ly: u8, id: int, x: nat)
    requires
        fb.len() == 92160,
        ly < 144,
    ensures
        sprite_drawn(fb, m, ly, id, x).len() == fb.len(),
    decreases x,
{
    if x > 0 {
        lemma_sprite_keeps_size(fb, m, ly, id, (x - 1) as nat);
    }
}

/// Sprites keep the size of the frame buffer.
proof fn lemma_sprites_keep_size(fb: Seq<u8>, m: MmuView, ly: u8, order: Seq<usize>, n: nat)
    requires
        fb.len() == 92160,
        ly < 144,
    ensures
        sprite_rows(fb, m, ly, order, n).len() == fb.len(),
    decreases n,
{
    if n > 0 {
        lemma_sprites_keep_size(fb, m, ly, order, (n - 1) as nat);
        lemma_sprite_keeps_size(
            sprite_rows(fb, m, ly, order, (n - 1) as nat),
            m,
            ly,
            order[n - 1] as int,
            8,
        );
    }
}

/// A step of the pipeline keeps itself and the registers well formed.
pub proof fn lemma_pipeline_keeps_wf(p: PpuView, m: MmuView, cycles: u32)
    requires
        p.wf(),
        m.wf(),
    ensures
        p.step(m, cycles).ppu.wf(),
        p.step(m, cycles).mmu.wf(),
    decreases cycles,
{
    let chunk: u32 = if cycles <= 80 {
        cycles
    } else {
        80
    };
    let m1 = if p.line_ends(m, chunk) {
        PpuView::line_advanced(m)
    } else {
        m
    };
    let counter = p.counter_after(m, chunk);
    lemma_drawing_keeps_size(
        p.frame_buffer,
        PpuView::mode_updated(m1, counter),
        p.overlays_suppressed,
    );
    if cycles > 80 {
        let first = p.step_once(m, 80);
        lemma_pipeline_keeps_wf(first.ppu, first.mmu, (cycles - 80) as u32);
    }
}

/// The four bytes of an opaque pixel of shade `shade`, by channel: red,
/// green, blue, and full opacity.
pub open spec fn pixel_byte(shade: u8, channel: int) -> u8 {
    if channel == 3 {
        255
    } else {
        shade_rgb(shade)[channel]
    }
}

/// With the first `n` columns of the background drawn on line `ly`, each of
/// them shows the shade of the background at its place, and every other
/// byte of the frame buffer is as it was.
pub proof fn lemma_background_pixels(fb: Seq<u8>, m: MmuView, ly: u8, n: nat, i: int)
    requires
        fb.len() == 92160,
        ly < 144,
        n <= 160,
        0 <= i < 92160,
    ensures
        background_row(fb, m, ly, n).len() == 92160,
        background_row(fb, m, ly, n)[i] == if pixel_offset(ly as int, 0) <= i < pixel_offset(
            ly as int,
            n as int,
        ) {
            pixel_byte(background_shade(m, ly, (i - ly * 640) / 4), i % 4)
        } else {
            fb[i]
        },
    decreases n,
{
    if n > 0 {
        lemma_background_pixels(fb, m, ly, (n - 1) as nat, i);
    }
}

/// With the first `n` columns of the window drawn on line `ly`, each of
/// them that the window covers shows the shade of the window at its place,
/// and every other byte of the frame buffer is as it was.
pub proof fn lemma_window_pixels(fb: Seq<u8>, m: MmuView, ly: u8, n: nat, i: int)
    requires
        fb.len() == 92160,
        ly < 144,
        n <= 160,
        0 <= i < 92160,
    ensures
        window_row(fb, m, ly, n).len() == 92160,
        window_row(fb, m, ly, n)[i] == if pixel_offset(ly as int, 0) <= i < pixel_offset(
            ly as int,
            n as int,
        ) && window_covers(m, ly, (i - ly * 640) / 4) {
            pixel_byte(window_shade(m, ly, (i - ly * 640) / 4), i % 4)
        } else {
            fb[i]
        },
    decreases n,
{
    if n > 0 {
        lemma_window_pixels(fb, m, ly, (n - 1) as nat, i);
    }
}

/// How many cycles ago the pipeline entered line 144, for a pipeline that
/// is `counter` cycles into line `ly`: the place of the pipeline in the
/// 70224 cycles of its frame, counted from the start of the vertical blank.
pub open spec fn cycles_since_vblank(ly: u8, counter: u32) -> int {
    if ly >= 144 {
        (ly - 144) * 456 + counter
    } else {
        4560 + ly * 456 + counter
    }
}

/// With the display on, a step of no more than 80 cycles moves the
/// pipeline on by just those cycles around its frame of 70224, and takes it
/// into line 144 exactly when that brings it round to the start of the
/// vertical blank.
pub proof fn lemma_pipeline_advances(p: PpuView, m: MmuView, cycles: u32)
    requires
        m.wf(),
        PpuView::lcd_on(m),
        p.scanline_counter < 456,
        cycles <= 80,
    ensures
        PpuView::lcd_on(p.step(m, cycles).mmu),
        p.step(m, cycles).ppu.scanline_counter < 456,
        p.step(m, cycles).mmu.io[0x44] < 154,
        0 <= cycles_since_vblank(m.io[0x44], p.scanline_counter) < 70224,
        cycles_since_vblank(
            p.step(m, cycles).mmu.io[0x44],
            p.step(m, cycles).ppu.scanline_counter,
        ) == (cycles_since_vblank(m.io[0x44], p.scanline_counter) + cycles) % 70224,
        p.enters_vblank(m, cycles) == (cycles_since_vblank(m.io[0x44], p.scanline_counter)
            + cycles >= 70224),
{
}

/// How many times a step of `cycles` cycles takes the pipeline into line
/// 144.
pub open spec fn vblanks_entered(p: PpuView, m: MmuView, cycles: u32) -> nat
    decreases cycles,
{
    if cycles <= 80 {
        if p.step_once(m, cycles).frame_ready {
            1
        } else {
            0
        }
    } else {
        (if p.step_once(m, 80).frame_ready {
            1nat
        } else {
            0nat
        }) + vblanks_entered(
            p.step_once(m, 80).ppu,
            p.step_once(m, 80).mmu,
            (cycles - 80) as u32,
        )
    }
}

/// With the display on, a step moves the pipeline on by its cycles around
/// the frame of 70224, however many they are: the scanline register goes up
/// once for every 456 cycles, the pipeline enters line 144 once for every
/// time the cycles bring it round to the start of the vertical blank, and a
/// frame is reported if it entered at all.
pub proof fn lemma_pipeline_goes_round(p: PpuView, m: MmuView, cycles: u32)
    requires
        p.wf(),
        m.wf(),
        PpuView::lcd_on(m),
    ensures
        cycles_since_vblank(
            p.step(m, cycles).mmu.io[0x44],
            p.step(m, cycles).ppu.scanline_counter,
        ) == (cycles_since_vblank(m.io[0x44], p.scanline_counter) + cycles) % 70224,
        vblanks_entered(p, m, cycles) == (cycles_since_vblank(m.io[0x44], p.scanline_counter)
            + cycles) / 70224,
        p.step(m, cycles).frame_ready == (vblanks_entered(p, m, cycles) > 0),
    decreases cycles,
{
    let q = cycles_since_vblank(m.io[0x44], p.scanline_counter);
    if cycles <= 80 {
        lemma_pipeline_advances(p, m, cycles);
        lemma_frame_ready_is_vblank(p, m, cycles);
    } else {
        lemma_pipeline_advances(p, m, 80);
        lemma_frame_ready_is_vblank(p, m, 80);
        lemma_pipeline_keeps_wf(p, m, 80);
        let first = p.step_once(m, 80);
        lemma_pipeline_goes_round(first.ppu, first.mmu, (cycles - 80) as u32);
        lemma_round_parts(q, 80, cycles - 80);
    }
}

/// Going round a cycle of 70224 in two parts comes to the same place, and
/// passes the start as often, as going round in one.
pub proof fn lemma_round_parts(q: int, c: int, t: int)
    requires
        0 <= q < 70224,
        0 <= c < 70224,
        0 <= t,
    ensures
        (if q + c >= 70224 {
            1int
        } else {
            0int
        }) + ((q + c) % 70224 + t) / 70224 == (q + c + t) / 70224,
        ((q + c) % 70224 + t) % 70224 == (q + c + t) % 70224,
{
}

/// Whether every sprite of `s` is drawn no later than those after it.
pub open spec fn sprites_ordered(m: MmuView, s: Seq<usize>) -> bool {
    forall|i: int, j: int| 0 <= i < j < s.len() ==> sprite_before(m, s[i], s[j])
}

/// Putting a sprite in its place keeps an ordered sequence ordered, makes
/// it one longer, and adds no sprite but that one.
proof fn lemma_insert_ordered(m: MmuView, sorted: Seq<usize>, id: usize)
    requires
        sprites_ordered(m, sorted),
    ensures
        sprites_ordered(m, insert_sprite(m, sorted, id)),
        insert_sprite(m, sorted, id).len() == sorted.len() + 1,
        forall|k: int|
            0 <= k < insert_sprite(m, sorted, id).len() ==> insert_sprite(m, sorted, id)[k] == id
                || sorted.contains(#[trigger] insert_sprite(m, sorted, id)[k]),
    decreases sorted.len(),
{
    let out = insert_sprite(m, sorted, id);
    if sorted.len() == 0 || sprite_before(m, sorted.last(), id) {
        assert forall|i: int, j: int| 0 <= i < j < out.len() implies sprite_before(
            m,
            out[i],
            out[j],
        ) by {
            if j == sorted.len() && i < sorted.len() - 1 {
                assert(sprite_before(m, sorted[i], sorted.last()));
            }
        }
        assert forall|k: int| 0 <= k < out.len() implies out[k] == id || sorted.contains(
            #[trigger] out[k],
        ) by {
            if k < sorted.len() {
                assert(sorted[k] == out[k]);
            }
        }
    } else {
        let head = sorted.drop_last();
        let inner = insert_sprite(m, head, id);
        lemma_insert_ordered(m, head, id);
        assert forall|i: int, j: int| 0 <= i < j < out.len() implies sprite_before(
            m,
            out[i],
            out[j],
        ) by {
            if j == inner.len() {
                if inner[i] != id {
                    assert(head.contains(inner[i]));
                    let at = choose|at: int| 0 <= at < head.len() && head[at] == inner[i];
                    assert(sprite_before(m, sorted[at], sorted.last()));
                }
            } else {
                assert(sprite_before(m, inner[i], inner[j]));
            }
        }
        assert forall|k: int| 0 <= k < out.len() implies out[k] == id || sorted.contains(
            #[trigger] out[k],
        ) by {
            if k < inner.len() {
                if inner[k] != id {
                    assert(head.contains(inner[k]));
                    let at = choose|at: int| 0 <= at < head.len() && head[at] == inner[k];
                    assert(sorted[at] == out[k]);
                }
            } else {
                assert(sorted[sorted.len() - 1] == out[k]);
            }
        }
    }
}

/// The sprites of a line come out in drawing order: by rising X coordinate,
/// and where the coordinates are equal by falling place in the table.
pub proof fn lemma_sprites_ordered(m: MmuView, s: Seq<usize>, n: nat)
    requires
        n <= s.len(),
    ensures
        sprites_ordered(m, sort_sprites(m, s, n)),
        sort_sprites(m, s, n).len() == n,
    decreases n,
{
    if n > 0 {
        lemma_sprites_ordered(m, s, (n - 1) as nat);
        lemma_insert_ordered(m, sort_sprites(m, s, (n - 1) as nat), s[n - 1]);
    }
}

/// Putting a sprite in its place adds that sprite to the ones there and
/// changes nothing else.
proof fn lemma_insert_same_sprites(m: MmuView, sorted: Seq<usize>, id: usize)
    ensures
        insert_sprite(m, sorted, id).to_multiset() == sorted.to_multiset().insert(id),
    decreases sorted.len(),
{
    broadcast use vstd::seq_lib::group_to_multiset_ensures;

    if sorted.len() == 0 || sprite_before(m, sorted.last(), id) {
    } else {
        let head = sorted.drop_last();
        lemma_insert_same_sprites(m, head, id);
        assert(sorted =~= head.push(sorted.last()));
        assert(insert_sprite(m, sorted, id).to_multiset() =~= sorted.to_multiset().insert(id));
    }
}

/// Ordering the sprites of a line neither drops nor adds nor repeats one:
/// the first `n` sprites in drawing order are the first `n` sprites as they
/// were found, each as often as it was there.
pub proof fn lemma_sort_same_sprites(m: MmuView, s: Seq<usize>, n: nat)
    requires
        n <= s.len(),
    ensures
        sort_sprites(m, s, n).to_multiset() == s.subrange(0, n as int).to_multiset(),
        n == s.len() ==> sort_sprites(m, s, n).to_multiset() == s.to_multiset(),
    decreases n,
{
    broadcast use vstd::seq_lib::group_to_multiset_ensures;

    if n == 0 {
        assert(s.subrange(0, 0) =~= Seq::<usize>::empty());
        assert(sort_sprites(m, s, 0).to_multiset() =~= s.subrange(0, 0).to_multiset());
    } else {
        lemma_sort_same_sprites(m, s, (n - 1) as nat);
        lemma_insert_same_sprites(m, sort_sprites(m, s, (n - 1) as nat), s[n - 1]);
        assert(s.subrange(0, n as int) =~= s.subrange(0, n - 1).push(s[n - 1]));
        assert(sort_sprites(m, s, n).to_multiset() =~= s.subrange(0, n as int).to_multiset());
    }
    if n == s.len() {
        assert(s.subrange(0, n as int) =~= s);
    }
}

/// The palette register that sprite `id` uses.
pub open spec fn sprite_palette(m: MmuView, id: int) -> u8 {
    if m.oam[id * 4 + 3] & 0x10 != 0 {
        m.io[0x49]
    } else {
        m.io[0x48]
    }
}

/// Whether sprite `id` has an opaque pixel at screen column `col` of line
/// `ly`: one of its eight columns falls there and is not of colour zero.
pub open spec fn sprite_covers(m: MmuView, ly: u8, id: int, col: int) -> bool {
    exists|x: int|
        0 <= x < 8 && #[trigger] sprite_column(m, id, x) == col && sprite_color(m, ly, id, x)
            != 0
}

/// A sprite leaves alone every screen column at which it has no opaque
/// pixel.
pub proof fn lemma_sprite_leaves(fb: Seq<u8>, m: MmuView, ly: u8, id: int, n: nat, col: int, k: int)
    requires
        fb.len() == 92160,
        ly < 144,
        n <= 8,
        0 <= col < 160,
        0 <= k < 4,
        !sprite_covers(m, ly, id, col),
    ensures
        sprite_drawn(fb, m, ly, id, n).len() == 92160,
        sprite_drawn(fb, m, ly, id, n)[pixel_offset(ly as int, col) + k] == fb[pixel_offset(
            ly as int,
            col,
        ) + k],
    decreases n,
{
    if n > 0 {
        lemma_sprite_leaves(fb, m, ly, id, (n - 1) as nat, col, k);
        assert(sprite_column(m, id, n - 1) != col || sprite_color(m, ly, id, n - 1) == 0);
    }
}

/// A sprite that is not behind the background shows, at each of its eight
/// columns that is on the screen and not of colour zero, the shade that its
/// palette gives that colour.
pub proof fn lemma_sprite_shows(fb: Seq<u8>, m: MmuView, ly: u8, id: int, n: nat, x: int, k: int)
    requires
        fb.len() == 92160,
        ly < 144,
        0 <= x < n <= 8,
        0 <= k < 4,
        m.oam[id * 4 + 3] & 0x80 == 0,
        sprite_column(m, id, x) < 160,
        sprite_color(m, ly, id, x) != 0,
    ensures
        sprite_drawn(fb, m, ly, id, n).len() == 92160,
        sprite_drawn(fb, m, ly, id, n)[pixel_offset(ly as int, sprite_column(m, id, x) as int)
            + k] == pixel_byte(
            palette_shade(sprite_palette(m, id), sprite_color(m, ly, id, x)),
            k,
        ),
    decreases n,
{
    lemma_sprite_keeps_size(fb, m, ly, id, (n - 1) as nat);
    if x < n - 1 {
        lemma_sprite_shows(fb, m, ly, id, (n - 1) as nat, x, k);
        assert(sprite_column(m, id, n - 1) != sprite_column(m, id, x));
    }
}

/// Of the sprites of a line the last one in drawing order that has an
/// opaque pixel at a screen column is the one seen there, where it is not
/// behind the background.
pub proof fn lemma_last_sprite_is_seen(
    fb: Seq<u8>,
    m: MmuView,
    ly: u8,
    order: Seq<usize>,
    n: nat,
    p: int,
    x: int,
    k: int,
)
    requires
        fb.len() == 92160,
        ly < 144,
        0 <= p < n <= order.len(),
        0 <= x < 8,
        0 <= k < 4,
        m.oam[order[p] * 4 + 3] & 0x80 == 0,
        sprite_column(m, order[p] as int, x) < 160,
        sprite_color(m, ly, order[p] as int, x) != 0,
        forall|q: int|
            p < q < n ==> !sprite_covers(
                m,
                ly,
                #[trigger] order[q] as int,
                sprite_column(m, order[p] as int, x) as int,
            ),
    ensures
        sprite_rows(fb, m, ly, order, n).len() == 92160,
        sprite_rows(fb, m, ly, order, n)[pixel_offset(
            ly as int,
            sprite_column(m, order[p] as int, x) as int,
        ) + k] == pixel_byte(
            palette_shade(
                sprite_palette(m, order[p] as int),
                sprite_color(m, ly, order[p] as int, x),
            ),
            k,
        ),
    decreases n,
{
    let before = sprite_rows(fb, m, ly, order, (n - 1) as nat);
    lemma_sprites_keep_size(fb, m, ly, order, (n - 1) as nat);
    if p == n - 1 {
        lemma_sprite_shows(before, m, ly, order[p] as int, 8, x, k);
    } else {
        lemma_last_sprite_is_seen(fb, m, ly, order, (n - 1) as nat, p, x, k);
        lemma_sprite_leaves(
            before,
            m,
            ly,
            order[n - 1] as int,
            8,
            sprite_column(m, order[p] as int, x) as int,
            k,
        );
    }
}

/// Of two sprites with the same X coordinate the one that comes first in
/// the table comes last in drawing order, and so is drawn over the other.
pub proof fn lemma_first_in_table_is_drawn_last(m: MmuView, s: Seq<usize>, p: int, q: int)
    requires
        0 <= p < s.len(),
        0 <= q < s.len(),
        m.oam[sort_sprites(m, s, s.len())[p] * 4 + 1] == m.oam[sort_sprites(m, s, s.len())[q] * 4
            + 1],
        sort_sprites(m, s, s.len())[p] < sort_sprites(m, s, s.len())[q],
    ensures
        q < p,
{
    lemma_sprites_ordered(m, s, s.len());
    let order = sort_sprites(m, s, s.len());
    if p < q {
        assert(sprite_before(m, order[p], order[q]));
    }
}

/// Where two sprites with the same X coordinate are the only ones on a
/// line, a pixel that is opaque in the one that comes first in the table
/// shows that sprite, unless it is behind the background.
pub proof fn lemma_tie_goes_to_the_first(
    fb: Seq<u8>,
    m: MmuView,
    ly: u8,
    i: usize,
    j: usize,
    x: int,
    k: int,
)
    requires
        fb.len() == 92160,
        ly < 144,
        i < j,
        visible_sprites(m, ly, 40) == seq![i, j],
        m.oam[i * 4 + 1] == m.oam[j * 4 + 1],
        0 <= x < 8,
        0 <= k < 4,
        m.oam[i * 4 + 3] & 0x80 == 0,
        sprite_column(m, i as int, x) < 160,
        sprite_color(m, ly, i as int, x) != 0,
    ensures
        sprites_drawn(fb, m, ly)[pixel_offset(ly as int, sprite_column(m, i as int, x) as int)
            + k] == pixel_byte(
            palette_shade(sprite_palette(m, i as int), sprite_color(m, ly, i as int, x)),
            k,
        ),
{
    let found = seq![i, j];
    let one = sort_sprites(m, found, 1);
    assert(sort_sprites(m, found, 0) =~= Seq::<usize>::empty());
    assert(one =~= seq![i]);
    let order = sort_sprites(m, found, 2);
    assert(insert_sprite(m, one.drop_last(), j) =~= seq![j]);
    assert(order =~= seq![j, i]);
    lemma_last_sprite_is_seen(fb, m, ly, order, 2, 1, x, k);
}

/// No more than ten sprites are drawn on a line, each of them with a row on
/// it, in table order.
pub proof fn lemma_visible_sprites(m: MmuView, ly: u8, n: nat)
    requires
        n <= 40,
    ensures
        visible_sprites(m, ly, n).len() <= 10,
        visible_sprites(m, ly, n).len() <= n,
        forall|k: int|
            0 <= k < visible_sprites(m, ly, n).len() ==> (#[trigger] visible_sprites(
                m,
                ly,
                n,
            )[k]) < n && sprite_on_line(m, visible_sprites(m, ly, n)[k] as int, ly),
        forall|i: int, j: int|
            0 <= i < j < visible_sprites(m, ly, n).len() ==> visible_sprites(m, ly, n)[i]
                < visible_sprites(m, ly, n)[j],
    decreases n,
{
    if n > 0 {
        lemma_visible_sprites(m, ly, (n - 1) as nat);
    }
}

} // verus!
