use gb::trace::format_trace;
use gb::{screen_height, screen_width, GameBoy};

fn console(program: &[u8]) -> GameBoy {
    let mut rom = vec![0u8; 0x8000];
    rom[0x0100..0x0100 + program.len()].copy_from_slice(program);
    let mut gb = GameBoy::new();
    gb.load_rom(&rom);
    gb.start();
    gb
}

#[test]
fn an_empty_log_is_empty_text() {
    let gb = GameBoy::new();
    assert_eq!(gb.dump_trace(), "");
    assert_eq!(format_trace(&Vec::new(), None, true), "");
}

#[test]
fn one_line_for_each_instruction() {
    // NOP; LD A, 0xab; LD SP, 0xd00f; PUSH BC
    let mut gb = console(&[0x00, 0x3e, 0xab, 0x31, 0x0f, 0xd0, 0xc5]);
    gb.enable_trace(true);
    for _ in 0..4 {
        gb.step_cpu();
    }
    assert_eq!(
        gb.dump_trace(),
        "0100: 00 SP=FFFE\n0101: 3E SP=FFFE\n0103: 31 SP=FFFE\n0106: C5 SP=D00F\n"
    );
}

#[test]
fn the_last_interrupt_is_described_after_the_lines() {
    // LD SP, 0xd000; LD A, 0x05; LDH (0xff), A; LDH (0x0f), A; EI; NOP
    let mut gb = console(&[0x31, 0x00, 0xd0, 0x3e, 0x05, 0xe0, 0xff, 0xe0, 0x0f, 0xfb, 0x00]);
    for _ in 0..4 {
        gb.step_cpu();
    }
    gb.enable_trace(true);
    for _ in 0..2 {
        gb.step_cpu();
    }
    assert_eq!(
        gb.dump_trace(),
        "0109: FB SP=D000\nLast interrupt: id=0 pc=010A IE=05 IF=05\nIME=false\n"
    );
    // The handler at 0x0040 is a run of NOPs; EI is not among them.
    gb.write_byte(0xff0f, 0x04);
    gb.step_cpu();
    assert_eq!(
        gb.dump_trace(),
        "0109: FB SP=D000\n0040: 00 SP=CFFE\nLast interrupt: id=0 pc=010A IE=05 IF=05\nIME=false\n"
    );
}

#[test]
fn formatting_of_numbers() {
    assert_eq!(
        format_trace(&vec![(0x0000, 0x00, 0x0000), (0xffff, 0xff, 0xffff), (0x1a2b, 0x9c, 0xdef0)], None, false),
        "0000: 00 SP=0000\nFFFF: FF SP=FFFF\n1A2B: 9C SP=DEF0\n"
    );
    assert_eq!(
        format_trace(&Vec::new(), Some((4, 0x00ff, 0x1f, 0x0a)), true),
        "Last interrupt: id=4 pc=00FF IE=1F IF=0A\nIME=true\n"
    );
    assert_eq!(
        format_trace(&Vec::new(), Some((10, 0, 0, 0)), false),
        "Last interrupt: id=10 pc=0000 IE=00 IF=00\nIME=false\n"
    );
    assert_eq!(
        format_trace(&Vec::new(), Some((99, 0, 0, 0)), false),
        "Last interrupt: id=99 pc=0000 IE=00 IF=00\nIME=false\n"
    );
    assert_eq!(
        format_trace(&Vec::new(), Some((100, 0, 0, 0)), false),
        "Last interrupt: id=100 pc=0000 IE=00 IF=00\nIME=false\n"
    );
    assert_eq!(
        format_trace(&Vec::new(), Some((255, 0, 0, 0)), false),
        "Last interrupt: id=255 pc=0000 IE=00 IF=00\nIME=false\n"
    );
    for v in 0..=255u8 {
        assert_eq!(
            format_trace(&vec![(v as u16 * 257, v, 0)], Some((v, 0, v, 0)), false),
            format!(
                "{:04X}: {:02X} SP=0000\nLast interrupt: id={} pc=0000 IE={:02X} IF=00\nIME=false\n",
                v as u16 * 257,
                v,
                v,
                v
            )
        );
    }
}

#[test]
fn screen_size() {
    assert_eq!(screen_width(), 160);
    assert_eq!(screen_height(), 144);
}
