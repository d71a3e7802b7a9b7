use gb::ppu::get_color;
use gb::{MMU, PPU, SCREEN_HEIGHT, SCREEN_WIDTH};

fn pixel(ppu: &PPU, ly: usize, x: usize) -> [u8; 4] {
    let fb = ppu.get_frame_buffer();
    let at = (ly * SCREEN_WIDTH + x) * 4;
    [fb[at], fb[at + 1], fb[at + 2], fb[at + 3]]
}

fn fresh() -> (PPU, MMU) {
    let mut mmu = MMU::new();
    let mut ppu = PPU::new();
    ppu.reset(&mut mmu);
    (ppu, mmu)
}

/// Steps in instruction-sized pieces until `cycles` have passed.
fn run(ppu: &mut PPU, mmu: &mut MMU, cycles: u32) -> u32 {
    let mut frames = 0;
    let mut done = 0;
    while done < cycles {
        if ppu.step(mmu, 4) {
            frames += 1;
        }
        done += 4;
    }
    frames
}

#[test]
fn frame_buffer_size_and_colour() {
    let ppu = PPU::new();
    assert_eq!(SCREEN_WIDTH, 160);
    assert_eq!(SCREEN_HEIGHT, 144);
    assert_eq!(ppu.get_frame_buffer().len(), 160 * 144 * 4);
    assert!(ppu.get_frame_buffer().iter().all(|&b| b == 0xff));
    assert!(ppu.overlays_suppressed());
}

#[test]
fn four_shades() {
    assert_eq!(get_color(0), [224, 248, 208]);
    assert_eq!(get_color(1), [136, 192, 112]);
    assert_eq!(get_color(2), [52, 104, 86]);
    assert_eq!(get_color(3), [8, 24, 32]);
    assert_eq!(get_color(7), [8, 24, 32]);
}

#[test]
fn reset_starts_line_zero_in_the_scanning_mode() {
    let mut mmu = MMU::new();
    let mut ppu = PPU::new();
    mmu.get_io_mut()[0x44] = 77;
    mmu.get_io_mut()[0x41] = 0x03;
    ppu.reset(&mut mmu);
    assert_eq!(mmu.read_byte(0xff44), 0);
    assert_eq!(mmu.read_byte(0xff41) & 0x03, 2);
}

#[test]
fn nothing_moves_while_the_display_is_off() {
    let (mut ppu, mut mmu) = fresh();
    mmu.write_byte(0xff40, 0x11);
    assert_eq!(run(&mut ppu, &mut mmu, 70224 * 2), 0);
    assert_eq!(mmu.read_byte(0xff44), 0);
    assert_eq!(mmu.read_byte(0xff0f), 0);
}

#[test]
fn modes_follow_the_cycle_count_of_the_line() {
    let (mut ppu, mut mmu) = fresh();
    let mode = |mmu: &MMU| mmu.read_byte(0xff41) & 0x03;
    for _ in 0..19 {
        ppu.step(&mut mmu, 4);
        assert_eq!(mode(&mmu), 2);
    }
    ppu.step(&mut mmu, 4);
    assert_eq!(mode(&mmu), 3);
    for _ in 0..42 {
        ppu.step(&mut mmu, 4);
        assert_eq!(mode(&mmu), 3);
    }
    ppu.step(&mut mmu, 4);
    assert_eq!(mode(&mmu), 0);
    for _ in 0..50 {
        ppu.step(&mut mmu, 4);
        assert_eq!(mode(&mmu), 0);
        assert_eq!(mmu.read_byte(0xff44), 0);
    }
    ppu.step(&mut mmu, 4);
    assert_eq!(mmu.read_byte(0xff44), 1);
    assert_eq!(mode(&mmu), 2);
}

#[test]
fn vertical_blank_begins_on_line_144() {
    let (mut ppu, mut mmu) = fresh();
    let mut cycles = 0u32;
    loop {
        let ready = ppu.step(&mut mmu, 4);
        cycles += 4;
        if ready {
            break;
        }
        assert_ne!(mmu.read_byte(0xff44), 144);
        assert_eq!(mmu.read_byte(0xff0f) & 0x01, 0);
    }
    assert_eq!(cycles, 144 * 456);
    assert_eq!(mmu.read_byte(0xff44), 144);
    assert_eq!(mmu.read_byte(0xff41) & 0x03, 1);
    assert_eq!(mmu.read_byte(0xff0f) & 0x01, 1);
}

#[test]
fn one_frame_every_154_lines() {
    let (mut ppu, mut mmu) = fresh();
    assert_eq!(run(&mut ppu, &mut mmu, 70224), 1);
    assert_eq!(mmu.read_byte(0xff44), 0);
    assert_eq!(run(&mut ppu, &mut mmu, 70224 * 3), 3);
    assert_eq!(mmu.read_byte(0xff44), 0);
    for _ in 0..153 {
        run(&mut ppu, &mut mmu, 456);
        assert!(mmu.read_byte(0xff44) <= 153);
    }
    assert_eq!(mmu.read_byte(0xff44), 153);
    run(&mut ppu, &mut mmu, 456);
    assert_eq!(mmu.read_byte(0xff44), 0);
}

#[test]
fn coincidence_flag_and_interrupt() {
    let (mut ppu, mut mmu) = fresh();
    mmu.write_byte(0xff45, 3);
    mmu.write_byte(0xff41, 0x40);
    run(&mut ppu, &mut mmu, 456 * 2 - 4);
    mmu.write_byte(0xff0f, 0);
    ppu.step(&mut mmu, 4);
    assert_eq!(mmu.read_byte(0xff44), 2);
    assert_eq!(mmu.read_byte(0xff41) & 0x04, 0);
    assert_eq!(mmu.read_byte(0xff0f) & 0x02, 0);
    run(&mut ppu, &mut mmu, 456 - 4);
    mmu.write_byte(0xff0f, 0);
    ppu.step(&mut mmu, 4);
    assert_eq!(mmu.read_byte(0xff44), 3);
    assert_eq!(mmu.read_byte(0xff41) & 0x04, 0x04);
    assert_eq!(mmu.read_byte(0xff0f) & 0x02, 0x02);
    run(&mut ppu, &mut mmu, 456 - 4);
    mmu.write_byte(0xff0f, 0);
    ppu.step(&mut mmu, 4);
    assert_eq!(mmu.read_byte(0xff44), 4);
    assert_eq!(mmu.read_byte(0xff41) & 0x04, 0);
    assert_eq!(mmu.read_byte(0xff0f) & 0x02, 0);
}

#[test]
fn drawing_mode_shares_the_coincidence_enable_bit() {
    let (mut ppu, mut mmu) = fresh();
    mmu.write_byte(0xff45, 100);
    mmu.write_byte(0xff41, 0x40);
    run(&mut ppu, &mut mmu, 76);
    assert_eq!(mmu.read_byte(0xff0f) & 0x02, 0);
    run(&mut ppu, &mut mmu, 8);
    assert_eq!(mmu.read_byte(0xff41) & 0x03, 3);
    assert_eq!(mmu.read_byte(0xff0f) & 0x02, 0x02);
}

#[test]
fn coincidence_without_its_enable_bit_requests_nothing() {
    let (mut ppu, mut mmu) = fresh();
    mmu.write_byte(0xff45, 1);
    run(&mut ppu, &mut mmu, 456);
    assert_eq!(mmu.read_byte(0xff41) & 0x04, 0x04);
    assert_eq!(mmu.read_byte(0xff0f), 0);
}

#[test]
fn mode_interrupts_follow_the_status_register() {
    let (mut ppu, mut mmu) = fresh();
    mmu.write_byte(0xff41, 0x08);
    run(&mut ppu, &mut mmu, 248);
    assert_eq!(mmu.read_byte(0xff0f) & 0x02, 0);
    run(&mut ppu, &mut mmu, 8);
    assert_eq!(mmu.read_byte(0xff41) & 0x03, 0);
    assert_eq!(mmu.read_byte(0xff0f) & 0x02, 0x02);
}

#[test]
fn scanning_mode_interrupt_comes_once_a_line() {
    let (mut ppu, mut mmu) = fresh();
    mmu.write_byte(0xff41, 0x20);
    run(&mut ppu, &mut mmu, 452);
    assert_eq!(mmu.read_byte(0xff0f) & 0x02, 0);
    ppu.step(&mut mmu, 4);
    assert_eq!(mmu.read_byte(0xff44), 1);
    assert_eq!(mmu.read_byte(0xff41) & 0x03, 2);
    assert_eq!(mmu.read_byte(0xff0f) & 0x02, 0x02);
    for _ in 0..19 {
        mmu.write_byte(0xff0f, 0);
        ppu.step(&mut mmu, 4);
        assert_eq!(mmu.read_byte(0xff41) & 0x03, 2);
        assert_eq!(mmu.read_byte(0xff0f) & 0x02, 0);
    }
}

#[test]
fn blank_background_draws_the_lightest_shade() {
    let (mut ppu, mut mmu) = fresh();
    run(&mut ppu, &mut mmu, 84);
    for x in 0..SCREEN_WIDTH {
        assert_eq!(pixel(&ppu, 0, x), [224, 248, 208, 255]);
    }
    assert_eq!(pixel(&ppu, 1, 0), [255, 255, 255, 255]);
}

#[test]
fn background_off_leaves_the_line_white() {
    let (mut ppu, mut mmu) = fresh();
    mmu.write_byte(0xff40, 0x90);
    run(&mut ppu, &mut mmu, 84);
    for x in 0..SCREEN_WIDTH {
        assert_eq!(pixel(&ppu, 0, x), [255, 255, 255, 255]);
    }
}

#[test]
fn background_tile_pixels() {
    let (mut ppu, mut mmu) = fresh();
    mmu.write_byte(0xff47, 0xe4);
    // Tile 1, row 0: colours 0, 1, 2, 3, 3, 2, 1, 0 from the left.
    mmu.write_byte(0x8010, 0b0101_1010);
    mmu.write_byte(0x8011, 0b0011_1100);
    mmu.write_byte(0x9800, 0x01);
    run(&mut ppu, &mut mmu, 84);
    let shades = [0u8, 1, 2, 3, 3, 2, 1, 0];
    for (x, &shade) in shades.iter().enumerate() {
        let rgb = get_color(shade);
        assert_eq!(pixel(&ppu, 0, x), [rgb[0], rgb[1], rgb[2], 255]);
    }
    assert_eq!(pixel(&ppu, 0, 8), [224, 248, 208, 255]);
}

#[test]
fn background_palette_maps_colours_to_shades() {
    let (mut ppu, mut mmu) = fresh();
    mmu.write_byte(0xff47, 0x1b);
    mmu.write_byte(0x8010, 0b0101_1010);
    mmu.write_byte(0x8011, 0b0011_1100);
    mmu.write_byte(0x9800, 0x01);
    run(&mut ppu, &mut mmu, 84);
    let shades = [3u8, 2, 1, 0, 0, 1, 2, 3];
    for (x, &shade) in shades.iter().enumerate() {
        let rgb = get_color(shade);
        assert_eq!(pixel(&ppu, 0, x), [rgb[0], rgb[1], rgb[2], 255]);
    }
}

#[test]
fn background_scrolls_and_wraps() {
    let (mut ppu, mut mmu) = fresh();
    mmu.write_byte(0xff47, 0xe4);
    mmu.write_byte(0x8010, 0x80);
    mmu.write_byte(0x8011, 0x80);
    mmu.write_byte(0x9800 + 31, 0x01);
    mmu.write_byte(0xff43, 250);
    run(&mut ppu, &mut mmu, 84);
    assert_eq!(pixel(&ppu, 0, 0), [224, 248, 208, 255]);
    assert_eq!(pixel(&ppu, 0, 254 - 250 - 2), [224, 248, 208, 255]);
    let at = 248 - 250 + 256;
    assert_eq!(at, 254);
    let (mut ppu, mut mmu) = fresh();
    mmu.write_byte(0xff47, 0xe4);
    mmu.write_byte(0x8010, 0x80);
    mmu.write_byte(0x8011, 0x80);
    mmu.write_byte(0x9800 + 31, 0x01);
    mmu.write_byte(0xff43, 248);
    run(&mut ppu, &mut mmu, 84);
    assert_eq!(pixel(&ppu, 0, 0), [8, 24, 32, 255]);
    assert_eq!(pixel(&ppu, 0, 1), [224, 248, 208, 255]);
    let (mut ppu, mut mmu) = fresh();
    mmu.write_byte(0xff47, 0xe4);
    mmu.write_byte(0x8010 + 2 * 7, 0x80);
    mmu.write_byte(0x8011 + 2 * 7, 0x80);
    mmu.write_byte(0x9800 + 31 * 32, 0x01);
    mmu.write_byte(0xff42, 255);
    run(&mut ppu, &mut mmu, 84);
    assert_eq!(pixel(&ppu, 0, 0), [8, 24, 32, 255]);
}

#[test]
fn signed_tile_numbering() {
    let (mut ppu, mut mmu) = fresh();
    mmu.write_byte(0xff40, 0x81);
    mmu.write_byte(0xff47, 0xe4);
    // Tile 0 at 0x9000, tile 0x80 at 0x8800, tile 0xff at 0x8ff0.
    mmu.write_byte(0x9000, 0x80);
    mmu.write_byte(0x8800, 0x00);
    mmu.write_byte(0x8801, 0x80);
    mmu.write_byte(0x8ff0, 0x80);
    mmu.write_byte(0x8ff1, 0x80);
    mmu.write_byte(0x9800, 0x00);
    mmu.write_byte(0x9801, 0x80);
    mmu.write_byte(0x9802, 0xff);
    run(&mut ppu, &mut mmu, 84);
    assert_eq!(pixel(&ppu, 0, 0), [136, 192, 112, 255]);
    assert_eq!(pixel(&ppu, 0, 8), [52, 104, 86, 255]);
    assert_eq!(pixel(&ppu, 0, 16), [8, 24, 32, 255]);
}

#[test]
fn second_tile_map() {
    let (mut ppu, mut mmu) = fresh();
    mmu.write_byte(0xff40, 0x99);
    mmu.write_byte(0xff47, 0xe4);
    mmu.write_byte(0x8010, 0xff);
    mmu.write_byte(0x9c00, 0x01);
    run(&mut ppu, &mut mmu, 84);
    assert_eq!(pixel(&ppu, 0, 0), [136, 192, 112, 255]);
    assert_eq!(pixel(&ppu, 0, 8), [224, 248, 208, 255]);
}

#[test]
fn window_and_sprites_are_left_out_while_suppressed() {
    let (mut ppu, mut mmu) = fresh();
    mmu.write_byte(0xff40, 0xb3);
    mmu.write_byte(0xff47, 0xe4);
    mmu.write_byte(0xff48, 0xe4);
    mmu.write_byte(0x8010, 0xff);
    mmu.write_byte(0x8011, 0xff);
    mmu.write_byte(0xfe00, 16);
    mmu.write_byte(0xfe01, 8);
    mmu.write_byte(0xfe02, 1);
    mmu.write_byte(0xff4a, 0);
    mmu.write_byte(0xff4b, 7);
    mmu.write_byte(0x9c00, 0x01);
    run(&mut ppu, &mut mmu, 84);
    for x in 0..SCREEN_WIDTH {
        assert_eq!(pixel(&ppu, 0, x), [224, 248, 208, 255]);
    }
}

#[test]
fn window_covers_the_background_from_its_corner() {
    let (mut ppu, mut mmu) = fresh();
    ppu.set_overlays_suppressed(false);
    assert!(!ppu.overlays_suppressed());
    mmu.write_byte(0xff40, 0xf1);
    mmu.write_byte(0xff47, 0xe4);
    mmu.write_byte(0x8010, 0xff);
    mmu.write_byte(0x8011, 0xff);
    mmu.write_byte(0x9c00, 0x01);
    mmu.write_byte(0xff4a, 0);
    mmu.write_byte(0xff4b, 7 + 20);
    run(&mut ppu, &mut mmu, 84);
    assert_eq!(pixel(&ppu, 0, 19), [224, 248, 208, 255]);
    for x in 20..28 {
        assert_eq!(pixel(&ppu, 0, x), [8, 24, 32, 255]);
    }
    assert_eq!(pixel(&ppu, 0, 28), [224, 248, 208, 255]);
}

#[test]
fn window_starts_at_its_own_line() {
    let (mut ppu, mut mmu) = fresh();
    ppu.set_overlays_suppressed(false);
    mmu.write_byte(0xff40, 0xf1);
    mmu.write_byte(0xff47, 0xe4);
    mmu.write_byte(0x8010, 0xff);
    mmu.write_byte(0x8011, 0xff);
    mmu.write_byte(0x9c00, 0x01);
    mmu.write_byte(0xff4a, 1);
    mmu.write_byte(0xff4b, 7);
    run(&mut ppu, &mut mmu, 84);
    assert_eq!(pixel(&ppu, 0, 0), [224, 248, 208, 255]);
    run(&mut ppu, &mut mmu, 456);
    assert_eq!(pixel(&ppu, 1, 0), [8, 24, 32, 255]);
    assert_eq!(pixel(&ppu, 1, 8), [224, 248, 208, 255]);
}

fn sprite_scene() -> (PPU, MMU) {
    let (mut ppu, mut mmu) = fresh();
    ppu.set_overlays_suppressed(false);
    mmu.write_byte(0xff40, 0x93);
    mmu.write_byte(0xff47, 0xe4);
    mmu.write_byte(0xff48, 0xe4);
    mmu.write_byte(0xff49, 0x1b);
    // Tile 2, row 0: colour 3 at the left edge, colour 1 next to it.
    mmu.write_byte(0x8020, 0b1100_0000);
    mmu.write_byte(0x8021, 0b1000_0000);
    // Tile 2, row 7: colour 2 at the left edge.
    mmu.write_byte(0x802e, 0b0000_0000);
    mmu.write_byte(0x802f, 0b1000_0000);
    (ppu, mmu)
}

fn place(mmu: &mut MMU, slot: u16, y: u8, x: u8, tile: u8, attrs: u8) {
    mmu.write_byte(0xfe00 + slot * 4, y);
    mmu.write_byte(0xfe01 + slot * 4, x);
    mmu.write_byte(0xfe02 + slot * 4, tile);
    mmu.write_byte(0xfe03 + slot * 4, attrs);
}

#[test]
fn sprite_pixels_and_transparency() {
    let (mut ppu, mut mmu) = sprite_scene();
    place(&mut mmu, 0, 16, 8 + 10, 2, 0x00);
    run(&mut ppu, &mut mmu, 84);
    assert_eq!(pixel(&ppu, 0, 10), [8, 24, 32, 255]);
    assert_eq!(pixel(&ppu, 0, 11), [136, 192, 112, 255]);
    assert_eq!(pixel(&ppu, 0, 12), [224, 248, 208, 255]);
    assert_eq!(pixel(&ppu, 0, 9), [224, 248, 208, 255]);
}

#[test]
fn sprite_flips_and_second_palette() {
    let (mut ppu, mut mmu) = sprite_scene();
    place(&mut mmu, 0, 16, 8, 2, 0x20);
    place(&mut mmu, 1, 16, 8 + 30, 2, 0x40);
    place(&mut mmu, 2, 16, 8 + 50, 2, 0x10);
    run(&mut ppu, &mut mmu, 84);
    assert_eq!(pixel(&ppu, 0, 7), [8, 24, 32, 255]);
    assert_eq!(pixel(&ppu, 0, 6), [136, 192, 112, 255]);
    assert_eq!(pixel(&ppu, 0, 0), [224, 248, 208, 255]);
    assert_eq!(pixel(&ppu, 0, 30), [52, 104, 86, 255]);
    assert_eq!(pixel(&ppu, 0, 31), [224, 248, 208, 255]);
    assert_eq!(pixel(&ppu, 0, 50), [224, 248, 208, 255]);
    assert_eq!(pixel(&ppu, 0, 51), [52, 104, 86, 255]);
}

#[test]
fn sprite_partly_off_the_screen() {
    let (mut ppu, mut mmu) = sprite_scene();
    place(&mut mmu, 0, 16, 7, 2, 0x00);
    place(&mut mmu, 1, 16, 8 + 159, 2, 0x00);
    place(&mut mmu, 2, 16, 0, 2, 0x00);
    run(&mut ppu, &mut mmu, 84);
    assert_eq!(pixel(&ppu, 0, 0), [136, 192, 112, 255]);
    assert_eq!(pixel(&ppu, 0, 159), [8, 24, 32, 255]);
}

#[test]
fn sprite_behind_the_background() {
    let (mut ppu, mut mmu) = sprite_scene();
    // Background tile 1 has colour 3 in its first column only.
    mmu.write_byte(0x8010, 0x80);
    mmu.write_byte(0x8011, 0x80);
    mmu.write_byte(0x9800, 0x01);
    place(&mut mmu, 0, 16, 8, 2, 0x80);
    run(&mut ppu, &mut mmu, 84);
    assert_eq!(pixel(&ppu, 0, 0), [8, 24, 32, 255]);
    assert_eq!(pixel(&ppu, 0, 1), [136, 192, 112, 255]);
    let (mut ppu, mut mmu) = sprite_scene();
    mmu.write_byte(0x8010, 0x00);
    mmu.write_byte(0x8011, 0xc0);
    mmu.write_byte(0x9800, 0x01);
    place(&mut mmu, 0, 16, 8, 2, 0x80);
    run(&mut ppu, &mut mmu, 84);
    assert_eq!(pixel(&ppu, 0, 0), [52, 104, 86, 255]);
    assert_eq!(pixel(&ppu, 0, 1), [52, 104, 86, 255]);
}

#[test]
fn sprites_are_drawn_by_x_then_by_table_order() {
    let (mut ppu, mut mmu) = sprite_scene();
    // Both cover column 20: the one further right is drawn later.
    place(&mut mmu, 0, 16, 8 + 20, 2, 0x00);
    place(&mut mmu, 1, 16, 8 + 19, 2, 0x10);
    run(&mut ppu, &mut mmu, 84);
    assert_eq!(pixel(&ppu, 0, 19), [224, 248, 208, 255]);
    assert_eq!(pixel(&ppu, 0, 20), [8, 24, 32, 255]);
    let (mut ppu, mut mmu) = sprite_scene();
    // Same X: the earlier table entry is the one seen.
    place(&mut mmu, 3, 16, 8 + 20, 2, 0x10);
    place(&mut mmu, 5, 16, 8 + 20, 2, 0x00);
    run(&mut ppu, &mut mmu, 84);
    assert_eq!(pixel(&ppu, 0, 20), [224, 248, 208, 255]);
    assert_eq!(pixel(&ppu, 0, 21), [52, 104, 86, 255]);
    let (mut ppu, mut mmu) = sprite_scene();
    place(&mut mmu, 3, 16, 8 + 20, 2, 0x00);
    place(&mut mmu, 5, 16, 8 + 20, 2, 0x10);
    run(&mut ppu, &mut mmu, 84);
    assert_eq!(pixel(&ppu, 0, 20), [8, 24, 32, 255]);
    assert_eq!(pixel(&ppu, 0, 21), [136, 192, 112, 255]);
}

#[test]
fn of_sprites_in_one_place_the_first_in_the_table_is_seen() {
    let (mut ppu, mut mmu) = sprite_scene();
    for slot in 0..10u16 {
        place(&mut mmu, 9 - slot + 20, 16, 8 + 40, 2, 0x10);
    }
    place(&mut mmu, 7, 16, 8 + 40, 2, 0x00);
    run(&mut ppu, &mut mmu, 84);
    assert_eq!(pixel(&ppu, 0, 40), [8, 24, 32, 255]);
}

#[test]
fn no_more_than_ten_sprites_on_a_line() {
    let (mut ppu, mut mmu) = sprite_scene();
    for slot in 0..12u16 {
        place(&mut mmu, slot, 16, 8 + 10 * slot as u8, 2, 0x00);
    }
    run(&mut ppu, &mut mmu, 84);
    for slot in 0..10usize {
        assert_eq!(pixel(&ppu, 0, 10 * slot), [8, 24, 32, 255]);
    }
    assert_eq!(pixel(&ppu, 0, 100), [224, 248, 208, 255]);
    assert_eq!(pixel(&ppu, 0, 110), [224, 248, 208, 255]);
}

#[test]
fn tall_sprites_use_an_even_tile() {
    let (mut ppu, mut mmu) = sprite_scene();
    mmu.write_byte(0xff40, 0x97);
    // Row 8 of a tall sprite on tile 2 is row 0 of tile 3.
    mmu.write_byte(0x8030, 0x80);
    mmu.write_byte(0x8031, 0x00);
    place(&mut mmu, 0, 16 - 8, 8, 3, 0x00);
    run(&mut ppu, &mut mmu, 84);
    assert_eq!(pixel(&ppu, 0, 0), [136, 192, 112, 255]);
    let (mut ppu, mut mmu) = sprite_scene();
    mmu.write_byte(0xff40, 0x97);
    place(&mut mmu, 0, 16 - 15, 8, 3, 0x40);
    run(&mut ppu, &mut mmu, 84);
    assert_eq!(pixel(&ppu, 0, 0), [8, 24, 32, 255]);
}

#[test]
fn sprite_partly_above_the_screen() {
    let (mut ppu, mut mmu) = sprite_scene();
    place(&mut mmu, 0, 16 - 7, 8, 2, 0x00);
    run(&mut ppu, &mut mmu, 84);
    assert_eq!(pixel(&ppu, 0, 0), [52, 104, 86, 255]);
    assert_eq!(pixel(&ppu, 0, 1), [224, 248, 208, 255]);
}

#[test]
fn sprites_off_the_line_are_not_drawn() {
    let (mut ppu, mut mmu) = sprite_scene();
    place(&mut mmu, 0, 17, 8, 2, 0x00);
    place(&mut mmu, 1, 8, 8 + 20, 2, 0x00);
    place(&mut mmu, 2, 0, 8 + 40, 2, 0x00);
    run(&mut ppu, &mut mmu, 84);
    for x in 0..SCREEN_WIDTH {
        assert_eq!(pixel(&ppu, 0, x), [224, 248, 208, 255]);
    }
}

#[test]
fn a_step_of_many_cycles_passes_every_line() {
    let (mut ppu, mut mmu) = fresh();
    assert!(!ppu.step(&mut mmu, 456 * 10));
    assert_eq!(mmu.read_byte(0xff44), 10);
    for ly in 0..10 {
        assert_eq!(pixel(&ppu, ly, 0), [224, 248, 208, 255]);
        assert_eq!(pixel(&ppu, ly, 159), [224, 248, 208, 255]);
    }
    assert_eq!(pixel(&ppu, 10, 0), [255, 255, 255, 255]);
    assert!(ppu.step(&mut mmu, 456 * 134));
    assert_eq!(mmu.read_byte(0xff44), 144);
    assert_eq!(mmu.read_byte(0xff41) & 0x03, 1);
    assert_eq!(mmu.read_byte(0xff0f) & 0x01, 0x01);
    assert_eq!(pixel(&ppu, 143, 159), [224, 248, 208, 255]);
    assert!(!ppu.step(&mut mmu, 456 * 10 - 1));
    assert_eq!(mmu.read_byte(0xff44), 153);
    assert!(!ppu.step(&mut mmu, 1));
    assert_eq!(mmu.read_byte(0xff44), 0);
}

#[test]
fn a_step_of_a_whole_frame_reports_one_frame() {
    let (mut ppu, mut mmu) = fresh();
    run(&mut ppu, &mut mmu, 456 * 37 + 100);
    let mode = mmu.read_byte(0xff41) & 0x03;
    assert!(ppu.step(&mut mmu, 70224));
    assert_eq!(mmu.read_byte(0xff44), 37);
    assert_eq!(mmu.read_byte(0xff41) & 0x03, mode);
    assert!(ppu.step(&mut mmu, 70224 * 3));
    assert_eq!(mmu.read_byte(0xff44), 37);
    assert!(!ppu.step(&mut mmu, 456 * 106));
    assert_eq!(mmu.read_byte(0xff44), 143);
    assert!(ppu.step(&mut mmu, 456));
}

#[test]
fn steps_do_not_depend_on_how_the_cycles_are_cut() {
    let (mut one, mut one_mmu) = fresh();
    let (mut many, mut many_mmu) = fresh();
    one_mmu.write_byte(0xff41, 0x28);
    many_mmu.write_byte(0xff41, 0x28);
    let ready = one.step(&mut one_mmu, 456 * 150 + 200);
    let frames = run(&mut many, &mut many_mmu, 456 * 150 + 200);
    assert_eq!(ready, frames > 0);
    assert_eq!(one_mmu.read_byte(0xff44), many_mmu.read_byte(0xff44));
    assert_eq!(one_mmu.read_byte(0xff41), many_mmu.read_byte(0xff41));
    assert_eq!(one_mmu.read_byte(0xff0f), many_mmu.read_byte(0xff0f));
    assert_eq!(one.get_frame_buffer(), many.get_frame_buffer());
}
