use gb::{GameBoy, SaveState};

/// A 32 KiB image with `program` at the entry point 0x0100.
fn image(program: &[u8]) -> Vec<u8> {
    let mut rom = vec![0u8; 0x8000];
    rom[0x0100..0x0100 + program.len()].copy_from_slice(program);
    rom
}

fn console(program: &[u8]) -> GameBoy {
    let mut gb = GameBoy::new();
    gb.load_rom(&image(program));
    gb.start();
    gb
}

/// Runs `steps` processor steps and returns the cycles each reported.
fn steps(gb: &mut GameBoy, steps: usize) -> Vec<u32> {
    (0..steps).map(|_| gb.step_cpu()).collect()
}

#[test]
fn a_new_console_is_stopped_at_power_on() {
    let gb = GameBoy::new();
    assert!(!gb.is_running());
    assert_eq!(gb.get_pc(), 0x0100);
    assert_eq!(gb.registers().sp, 0xfffe);
    assert_eq!(gb.registers().af(), 0x01b0);
    assert_eq!(gb.cycles(), 0);
    assert_eq!(gb.get_lcdc(), 0x91);
    assert!(!gb.is_halted());
    assert!(!gb.ime());
    assert_eq!(gb.frame_buffer_len(), 160 * 144 * 4);
    assert_eq!(gb.frame_buffer().len(), 160 * 144 * 4);
    assert!(gb.frame_buffer().iter().all(|&b| b == 0xff));
    assert_eq!(gb.last_interrupt(), None);
    assert!(gb.trace_entries().is_empty());
}

#[test]
fn run_gate() {
    let mut gb = GameBoy::new();
    gb.load_rom(&image(&[]));
    assert!(!gb.is_running());
    assert!(!gb.run_frame());
    assert_eq!(gb.cycles(), 0);
    assert_eq!(gb.get_pc(), 0x0100);
    gb.start();
    assert!(gb.is_running());
    assert!(gb.run_frame());
    gb.stop();
    assert!(!gb.is_running());
    let pc = gb.get_pc();
    assert!(!gb.run_frame());
    assert_eq!(gb.get_pc(), pc);
}

#[test]
fn a_frame_of_single_cycle_instructions_takes_the_budget_exactly() {
    let mut gb = console(&[]);
    assert!(gb.run_frame());
    assert_eq!(gb.cycles(), 70224);
    assert_eq!(gb.get_pc(), 0x0100 + 17556);
    assert!(gb.run_frame());
    assert_eq!(gb.cycles(), 2 * 70224);
    assert_eq!(gb.read_byte(0xff0f) & 0x01, 0x01);
}

#[test]
fn a_frame_ends_with_the_instruction_that_reaches_the_budget() {
    // CALL 0x0100 over and over: 24 cycles each, and 70224 = 2926 * 24.
    let mut gb = console(&[0x31, 0x00, 0xe0, 0xcd, 0x03, 0x01]);
    gb.run_frame();
    assert_eq!(gb.cycles(), 12 + 2926 * 24);
    // An endless run of 12-cycle jumps: 70224 = 5852 * 12.
    let mut gb = console(&[0x18, 0xfe]);
    gb.run_frame();
    assert_eq!(gb.cycles(), 70224);
    // Twenty cycles at a time, LD (0xc000), SP: 3511 of them fall short by four cycles.
    let program: Vec<u8> = [0x08, 0x00, 0xc0].iter().cycle().take(3 * 4000).cloned().collect();
    let mut gb = console(&program);
    gb.run_frame();
    assert_eq!(gb.cycles(), 3512 * 20);
    assert_eq!(gb.get_pc(), 0x0100 + 3 * 3512);
}

#[test]
fn one_vertical_blank_a_frame() {
    let mut gb = console(&[0x18, 0xfe]);
    for _ in 0..5 {
        gb.write_byte(0xff0f, 0x00);
        assert!(gb.run_frame());
        assert_eq!(gb.read_byte(0xff0f) & 0x01, 0x01);
        assert!(gb.read_byte(0xff44) <= 153);
    }
}

#[test]
fn no_frame_is_ready_while_the_display_is_off() {
    // LD A, 0x11; LDH (0x40), A; JR -2
    let mut gb = console(&[0x3e, 0x11, 0xe0, 0x40, 0x18, 0xfe]);
    assert!(!gb.run_frame());
    assert!(!gb.run_frame());
    assert_eq!(gb.get_lcdc(), 0x11);
    assert_eq!(gb.read_byte(0xff0f) & 0x01, 0x00);
}

#[test]
fn cartridge_with_banked_ram_runs_a_frame_and_reads_buttons() {
    let mut rom = image(&[0x18, 0xfe]);
    rom[0x0147] = 0x01;
    rom[0x0149] = 0x03;
    let mut gb = GameBoy::new();
    gb.load_rom(&rom);
    gb.start();
    gb.run_frame();
    assert!(gb.read_byte(0xff44) <= 153);
    gb.press_button(4);
    gb.write_byte(0xff00, 0x10);
    let joyp = gb.read_byte(0xff00);
    assert_eq!(joyp & 0x20, 0x00);
    assert_eq!(joyp & 0x01, 0x00);
    assert_eq!(joyp & 0x0e, 0x0e);
    gb.release_button(4);
    assert_eq!(gb.read_byte(0xff00) & 0x0f, 0x0f);
    // The cartridge RAM is 32 KiB in four banks.
    gb.write_byte(0x0000, 0x0a);
    gb.write_byte(0x6000, 0x01);
    gb.write_byte(0x4000, 0x03);
    gb.write_byte(0xa000, 0x77);
    gb.write_byte(0x4000, 0x00);
    assert_eq!(gb.read_byte(0xa000), 0x00);
    gb.write_byte(0x4000, 0x03);
    assert_eq!(gb.read_byte(0xa000), 0x77);
}

#[test]
fn a_pressed_button_is_seen_by_a_program() {
    let mut gb = console(&[]);
    gb.press_button(0);
    assert_eq!(gb.read_byte(0xff0f) & 0x10, 0x10);
    gb.write_byte(0xff00, 0x20);
    assert_eq!(gb.read_byte(0xff00) & 0x0f, 0x0e);
}

#[test]
fn reset_keeps_the_cartridge_and_clears_the_rest() {
    let mut gb = console(&[0x3e, 0x42, 0xea, 0x00, 0xc0, 0x76]);
    gb.enable_trace(true);
    gb.run_frame();
    assert_eq!(gb.read_byte(0xc000), 0x42);
    assert!(gb.is_halted());
    gb.reset();
    assert!(!gb.is_running());
    assert!(!gb.is_halted());
    assert_eq!(gb.get_pc(), 0x0100);
    assert_eq!(gb.cycles(), 0);
    assert_eq!(gb.registers().a, 0x01);
    assert_eq!(gb.read_byte(0xc000), 0x00);
    assert_eq!(gb.read_byte(0x0100), 0x3e);
    assert_eq!(gb.read_byte(0xff44), 0);
    assert!(gb.trace_entries().is_empty());
    assert!(gb.frame_buffer().iter().all(|&b| b == 0xff));
}

#[test]
fn eight_bit_loads_and_their_cycles() {
    // LD B, 0x12; LD C, B; LD HL, 0xc000; LD (HL), C; LD A, (HL); LD (HL), 0x34; LD D, (HL)
    let mut gb = console(&[0x06, 0x12, 0x48, 0x21, 0x00, 0xc0, 0x71, 0x7e, 0x36, 0x34, 0x56]);
    assert_eq!(steps(&mut gb, 7), vec![8, 4, 12, 8, 8, 12, 8]);
    let r = gb.registers();
    assert_eq!((r.b, r.c, r.a, r.d), (0x12, 0x12, 0x12, 0x34));
    assert_eq!(r.hl(), 0xc000);
    assert_eq!(gb.read_byte(0xc000), 0x34);
    assert_eq!(gb.get_pc(), 0x010b);
    assert_eq!(gb.cycles(), 60);
}

#[test]
fn sixteen_bit_loads_and_counting() {
    // LD BC, 0x1234; LD DE, 0xffff; INC DE; DEC BC; LD SP, 0xd000; INC SP; DEC SP; DEC SP
    let mut gb = console(&[
        0x01, 0x34, 0x12, 0x11, 0xff, 0xff, 0x13, 0x0b, 0x31, 0x00, 0xd0, 0x33, 0x3b, 0x3b,
    ]);
    let flags = gb.registers().f;
    assert_eq!(steps(&mut gb, 8), vec![12, 12, 8, 8, 12, 8, 8, 8]);
    let r = gb.registers();
    assert_eq!(r.bc(), 0x1233);
    assert_eq!(r.de(), 0x0000);
    assert_eq!(r.sp, 0xcfff);
    assert_eq!(r.f, flags);
}

#[test]
fn accumulator_loads_through_pairs() {
    // LD HL, 0xc000; LD A, 0x11; LD (HL+), A; LD A, 0x22; LD (HL-), A; LD A, (HL+); LD B, A;
    // LD A, (HL-); LD BC, 0xc000; LD A, 0x33; LD (BC), A; LD DE, 0xc000; LD A, (DE)
    let mut gb = console(&[
        0x21, 0x00, 0xc0, 0x3e, 0x11, 0x22, 0x3e, 0x22, 0x32, 0x2a, 0x47, 0x3a, 0x01, 0x00, 0xc0,
        0x3e, 0x33, 0x02, 0x11, 0x00, 0xc0, 0x1a,
    ]);
    let cost = steps(&mut gb, 8);
    assert_eq!(cost, vec![12, 8, 8, 8, 8, 8, 4, 8]);
    let r = gb.registers();
    assert_eq!(r.b, 0x11);
    assert_eq!(r.a, 0x22);
    assert_eq!(r.hl(), 0xc000);
    assert_eq!(steps(&mut gb, 5), vec![12, 8, 8, 12, 8]);
    assert_eq!(gb.read_byte(0xc000), 0x33);
    assert_eq!(gb.registers().a, 0x33);
}

#[test]
fn arithmetic_on_registers_memory_and_operands() {
    // LD A, 0x3a; LD B, 0xc6; ADD A, B; ADC A, 0x00; LD HL, 0xc000; LD (HL), 0x0f; SUB (HL);
    // CP 0xf2; AND 0x0f; XOR A; OR 0x80; SBC A, B
    let mut gb = console(&[
        0x3e, 0x3a, 0x06, 0xc6, 0x80, 0xce, 0x00, 0x21, 0x00, 0xc0, 0x36, 0x0f, 0x96, 0xfe, 0xf2,
        0xe6, 0x0f, 0xaf, 0xf6, 0x80, 0x98,
    ]);
    assert_eq!(steps(&mut gb, 3), vec![8, 8, 4]);
    assert_eq!((gb.registers().a, gb.registers().f), (0x00, 0xb0));
    assert_eq!(steps(&mut gb, 1), vec![8]);
    assert_eq!((gb.registers().a, gb.registers().f), (0x01, 0x00));
    assert_eq!(steps(&mut gb, 3), vec![12, 12, 8]);
    assert_eq!((gb.registers().a, gb.registers().f), (0xf2, 0x70));
    assert_eq!(steps(&mut gb, 1), vec![8]);
    assert_eq!((gb.registers().a, gb.registers().f), (0xf2, 0xc0));
    assert_eq!(steps(&mut gb, 1), vec![8]);
    assert_eq!((gb.registers().a, gb.registers().f), (0x02, 0x20));
    assert_eq!(steps(&mut gb, 1), vec![4]);
    assert_eq!((gb.registers().a, gb.registers().f), (0x00, 0x80));
    assert_eq!(steps(&mut gb, 1), vec![8]);
    assert_eq!((gb.registers().a, gb.registers().f), (0x80, 0x00));
    assert_eq!(steps(&mut gb, 1), vec![4]);
    assert_eq!((gb.registers().a, gb.registers().f), (0xba, 0x70));
}

#[test]
fn increments_and_decrements() {
    // LD B, 0xff; INC B; DEC B; LD HL, 0xc000; LD (HL), 0x0f; INC (HL); DEC (HL); DEC (HL)
    let mut gb = console(&[0x06, 0xff, 0x04, 0x05, 0x21, 0x00, 0xc0, 0x36, 0x0f, 0x34, 0x35, 0x35]);
    steps(&mut gb, 1);
    assert_eq!(steps(&mut gb, 1), vec![4]);
    assert_eq!((gb.registers().b, gb.registers().f), (0x00, 0xb0));
    assert_eq!(steps(&mut gb, 1), vec![4]);
    assert_eq!((gb.registers().b, gb.registers().f), (0xff, 0x70));
    steps(&mut gb, 2);
    assert_eq!(steps(&mut gb, 1), vec![12]);
    assert_eq!((gb.read_byte(0xc000), gb.registers().f), (0x10, 0x30));
    assert_eq!(steps(&mut gb, 1), vec![12]);
    assert_eq!((gb.read_byte(0xc000), gb.registers().f), (0x0f, 0x70));
    steps(&mut gb, 1);
    assert_eq!((gb.read_byte(0xc000), gb.registers().f), (0x0e, 0x50));
}

#[test]
fn pair_addition() {
    // LD HL, 0x8a23; LD BC, 0x0605; ADD HL, BC; ADD HL, HL; LD SP, 0x0001; ADD HL, SP
    let mut gb = console(&[0x21, 0x23, 0x8a, 0x01, 0x05, 0x06, 0x09, 0x29, 0x31, 0x01, 0x00, 0x39]);
    steps(&mut gb, 2);
    assert_eq!(steps(&mut gb, 1), vec![8]);
    assert_eq!((gb.registers().hl(), gb.registers().f), (0x9028, 0xa0));
    steps(&mut gb, 1);
    assert_eq!((gb.registers().hl(), gb.registers().f), (0x2050, 0x90));
    steps(&mut gb, 2);
    assert_eq!((gb.registers().hl(), gb.registers().f), (0x2051, 0x80));
}

#[test]
fn relative_jumps_cost_more_when_taken() {
    // XOR A; JR NZ, +2; JR Z, +2; (skipped); JR NC, +1; (skipped); SCF; JR C, -2; JR -4
    let mut gb = console(&[
        0xaf, 0x20, 0x02, 0x28, 0x02, 0x00, 0x00, 0x30, 0x01, 0x00, 0x37, 0x38, 0xfe,
    ]);
    assert_eq!(steps(&mut gb, 2), vec![4, 8]);
    assert_eq!(gb.get_pc(), 0x0103);
    assert_eq!(steps(&mut gb, 1), vec![12]);
    assert_eq!(gb.get_pc(), 0x0107);
    assert_eq!(steps(&mut gb, 1), vec![12]);
    assert_eq!(gb.get_pc(), 0x010a);
    assert_eq!(steps(&mut gb, 2), vec![4, 12]);
    assert_eq!(gb.get_pc(), 0x010b);
    let mut gb = console(&[0x18, 0x7f]);
    assert_eq!(steps(&mut gb, 1), vec![12]);
    assert_eq!(gb.get_pc(), 0x0102 + 0x7f);
    let mut gb = console(&[0x18, 0x80]);
    steps(&mut gb, 1);
    assert_eq!(gb.get_pc(), 0x0102 - 0x80);
}

#[test]
fn absolute_jumps() {
    // XOR A; JP NZ, 0x0200; JP Z, 0x0110
    let mut program = vec![0xaf, 0xc2, 0x00, 0x02, 0xca, 0x10, 0x01];
    program.resize(0x10, 0x00);
    // at 0x0110: SCF; JP NC, 0x0200; JP C, 0x0120
    program.extend_from_slice(&[0x37, 0xd2, 0x00, 0x02, 0xda, 0x20, 0x01]);
    program.resize(0x20, 0x00);
    // at 0x0120: LD HL, 0x0130; JP (HL)
    program.extend_from_slice(&[0x21, 0x30, 0x01, 0xe9]);
    program.resize(0x30, 0x00);
    // at 0x0130: JP 0x0100
    program.extend_from_slice(&[0xc3, 0x00, 0x01]);
    let mut gb = console(&program);
    assert_eq!(steps(&mut gb, 3), vec![4, 12, 16]);
    assert_eq!(gb.get_pc(), 0x0110);
    assert_eq!(steps(&mut gb, 3), vec![4, 12, 16]);
    assert_eq!(gb.get_pc(), 0x0120);
    assert_eq!(steps(&mut gb, 2), vec![12, 4]);
    assert_eq!(gb.get_pc(), 0x0130);
    assert_eq!(steps(&mut gb, 1), vec![16]);
    assert_eq!(gb.get_pc(), 0x0100);
}

#[test]
fn calls_and_returns() {
    // LD SP, 0xd000; CALL 0x0110; (return here) XOR A; CALL NZ, 0x0110; CALL Z, 0x0118
    let mut program = vec![0x31, 0x00, 0xd0, 0xcd, 0x10, 0x01, 0xaf, 0xc4, 0x10, 0x01, 0xcc, 0x18, 0x01];
    program.resize(0x10, 0x00);
    // at 0x0110: RET
    program.push(0xc9);
    program.resize(0x18, 0x00);
    // at 0x0118: RET NZ; RET Z
    program.extend_from_slice(&[0xc0, 0xc8]);
    let mut gb = console(&program);
    assert_eq!(steps(&mut gb, 2), vec![12, 24]);
    assert_eq!(gb.get_pc(), 0x0110);
    assert_eq!(gb.registers().sp, 0xcffe);
    assert_eq!(gb.read_byte(0xcfff), 0x01);
    assert_eq!(gb.read_byte(0xcffe), 0x06);
    assert_eq!(steps(&mut gb, 1), vec![16]);
    assert_eq!(gb.get_pc(), 0x0106);
    assert_eq!(gb.registers().sp, 0xd000);
    assert_eq!(steps(&mut gb, 3), vec![4, 12, 24]);
    assert_eq!(gb.get_pc(), 0x0118);
    assert_eq!(steps(&mut gb, 2), vec![8, 20]);
    assert_eq!(gb.get_pc(), 0x010d);
    assert_eq!(gb.registers().sp, 0xd000);
}

#[test]
fn carry_conditions_for_calls_and_returns() {
    // LD SP, 0xd000; SCF; CALL NC, 0x0000; CALL C, 0x0110
    let mut program = vec![0x31, 0x00, 0xd0, 0x37, 0xd4, 0x00, 0x00, 0xdc, 0x10, 0x01];
    program.resize(0x10, 0x00);
    // at 0x0110: RET NC; RET C
    program.extend_from_slice(&[0xd0, 0xd8]);
    let mut gb = console(&program);
    assert_eq!(steps(&mut gb, 6), vec![12, 4, 12, 24, 8, 20]);
    assert_eq!(gb.get_pc(), 0x010a);
}

#[test]
fn restarts() {
    for (opcode, target) in [
        (0xc7u8, 0x00u16),
        (0xcf, 0x08),
        (0xd7, 0x10),
        (0xdf, 0x18),
        (0xe7, 0x20),
        (0xef, 0x28),
        (0xf7, 0x30),
        (0xff, 0x38),
    ] {
        let mut gb = console(&[0x31, 0x00, 0xd0, opcode]);
        assert_eq!(steps(&mut gb, 2), vec![12, 16]);
        assert_eq!(gb.get_pc(), target);
        assert_eq!(gb.registers().sp, 0xcffe);
        assert_eq!(gb.read_byte(0xcffe), 0x04);
        assert_eq!(gb.read_byte(0xcfff), 0x01);
    }
}

#[test]
fn stack_pushes_and_pops() {
    // LD SP, 0xd000; LD BC, 0x12ff; PUSH BC; POP AF; PUSH AF; POP DE; PUSH DE; POP HL
    let mut gb = console(&[
        0x31, 0x00, 0xd0, 0x01, 0xff, 0x12, 0xc5, 0xf1, 0xf5, 0xd1, 0xd5, 0xe1,
    ]);
    assert_eq!(steps(&mut gb, 8), vec![12, 12, 16, 12, 16, 12, 16, 12]);
    let r = gb.registers();
    assert_eq!(r.af(), 0x12f0);
    assert_eq!(r.de(), 0x12f0);
    assert_eq!(r.hl(), 0x12f0);
    assert_eq!(r.bc(), 0x12ff);
    assert_eq!(r.sp, 0xd000);
}

#[test]
fn stack_pointer_wraps() {
    // LD SP, 0x0001; PUSH BC
    let mut gb = console(&[0x31, 0x01, 0x00, 0x01, 0x34, 0x12, 0xc5]);
    steps(&mut gb, 3);
    assert_eq!(gb.registers().sp, 0xffff);
    assert_eq!(gb.read_byte(0xffff), 0x34);
}

#[test]
fn high_page_loads() {
    // LD A, 0x5a; LDH (0x80), A; LD C, 0x81; LD (C), A; XOR A; LDH A, (0x81); LD B, A; XOR A;
    // LD A, (C); LD (0xc123), A; XOR A; LD A, (0xc123)
    let mut gb = console(&[
        0x3e, 0x5a, 0xe0, 0x80, 0x0e, 0x81, 0xe2, 0xaf, 0xf0, 0x81, 0x47, 0xaf, 0xf2, 0xea, 0x23,
        0xc1, 0xaf, 0xfa, 0x23, 0xc1,
    ]);
    assert_eq!(steps(&mut gb, 12), vec![8, 12, 8, 8, 4, 12, 4, 4, 8, 16, 4, 16]);
    assert_eq!(gb.read_byte(0xff80), 0x5a);
    assert_eq!(gb.read_byte(0xff81), 0x5a);
    assert_eq!(gb.read_byte(0xc123), 0x5a);
    assert_eq!(gb.registers().a, 0x5a);
    assert_eq!(gb.registers().b, 0x5a);
}

#[test]
fn stack_pointer_arithmetic() {
    // LD SP, 0xfff8; ADD SP, +8; LD SP, 0x0100; LD HL, SP-2; LD SP, HL; LD (0xc000), SP
    let mut gb = console(&[
        0x31, 0xf8, 0xff, 0xe8, 0x08, 0x31, 0x00, 0x01, 0xf8, 0xfe, 0xf9, 0x08, 0x00, 0xc0,
    ]);
    assert_eq!(steps(&mut gb, 2), vec![12, 16]);
    assert_eq!((gb.registers().sp, gb.registers().f), (0x0000, 0x30));
    assert_eq!(steps(&mut gb, 2), vec![12, 12]);
    assert_eq!((gb.registers().hl(), gb.registers().f), (0x00fe, 0x00));
    assert_eq!(gb.registers().sp, 0x0100);
    assert_eq!(steps(&mut gb, 2), vec![8, 20]);
    assert_eq!(gb.registers().sp, 0x00fe);
    assert_eq!(gb.read_byte(0xc000), 0xfe);
    assert_eq!(gb.read_byte(0xc001), 0x00);
}

#[test]
fn accumulator_and_flag_instructions() {
    // LD A, 0x85; RLCA; RRCA; RLA; RRA; CPL; SCF; CCF; LD A, 0x9a; DAA
    let mut gb = console(&[0x3e, 0x85, 0x07, 0x0f, 0x17, 0x1f, 0x2f, 0x37, 0x3f, 0x3e, 0x9a, 0x27]);
    steps(&mut gb, 1);
    assert_eq!(steps(&mut gb, 1), vec![4]);
    assert_eq!((gb.registers().a, gb.registers().f), (0x0b, 0x10));
    steps(&mut gb, 1);
    assert_eq!((gb.registers().a, gb.registers().f), (0x85, 0x10));
    steps(&mut gb, 1);
    assert_eq!((gb.registers().a, gb.registers().f), (0x0b, 0x10));
    steps(&mut gb, 1);
    assert_eq!((gb.registers().a, gb.registers().f), (0x85, 0x10));
    steps(&mut gb, 1);
    assert_eq!((gb.registers().a, gb.registers().f), (0x7a, 0x70));
    steps(&mut gb, 1);
    assert_eq!(gb.registers().f, 0x10);
    steps(&mut gb, 1);
    assert_eq!(gb.registers().f, 0x00);
    assert_eq!(steps(&mut gb, 2), vec![8, 4]);
    assert_eq!((gb.registers().a, gb.registers().f), (0x00, 0x90));
}

#[test]
fn extended_page() {
    // LD B, 0x81; RLC B; SWAP B; BIT 0, B; BIT 1, B; RES 0, B; SET 7, B; SRL B; SRA B; SLA B;
    // RR B; RL B; RRC B
    let mut gb = console(&[
        0x06, 0x81, 0xcb, 0x00, 0xcb, 0x30, 0xcb, 0x40, 0xcb, 0x48, 0xcb, 0x80, 0xcb, 0xf8, 0xcb,
        0x38, 0xcb, 0x28, 0xcb, 0x20, 0xcb, 0x18, 0xcb, 0x10, 0xcb, 0x08,
    ]);
    steps(&mut gb, 1);
    assert_eq!(steps(&mut gb, 1), vec![8]);
    assert_eq!((gb.registers().b, gb.registers().f), (0x03, 0x10));
    steps(&mut gb, 1);
    assert_eq!((gb.registers().b, gb.registers().f), (0x30, 0x00));
    assert_eq!(steps(&mut gb, 1), vec![8]);
    assert_eq!((gb.registers().b, gb.registers().f), (0x30, 0xa0));
    gb.load_state(Some(SaveState { f: 0x10, ..gb.save_state() }));
    steps(&mut gb, 1);
    assert_eq!(gb.registers().f, 0xb0);
    steps(&mut gb, 1);
    assert_eq!((gb.registers().b, gb.registers().f), (0x30, 0xb0));
    steps(&mut gb, 1);
    assert_eq!(gb.registers().b, 0xb0);
    steps(&mut gb, 1);
    assert_eq!((gb.registers().b, gb.registers().f), (0x58, 0x00));
    steps(&mut gb, 1);
    assert_eq!((gb.registers().b, gb.registers().f), (0x2c, 0x00));
    steps(&mut gb, 1);
    assert_eq!((gb.registers().b, gb.registers().f), (0x58, 0x00));
    steps(&mut gb, 1);
    assert_eq!((gb.registers().b, gb.registers().f), (0x2c, 0x00));
    steps(&mut gb, 1);
    assert_eq!((gb.registers().b, gb.registers().f), (0x58, 0x00));
    steps(&mut gb, 1);
    assert_eq!((gb.registers().b, gb.registers().f), (0x2c, 0x00));
}

#[test]
fn extended_page_on_memory_costs_more() {
    // LD HL, 0xc000; LD (HL), 0x0f; SWAP (HL); BIT 7, (HL); RES 4, (HL); SET 0, (HL); SRL (HL)
    let mut gb = console(&[
        0x21, 0x00, 0xc0, 0x36, 0x0f, 0xcb, 0x36, 0xcb, 0x7e, 0xcb, 0xa6, 0xcb, 0xc6, 0xcb, 0x3e,
    ]);
    assert_eq!(steps(&mut gb, 7), vec![12, 12, 16, 12, 16, 16, 16]);
    assert_eq!(gb.read_byte(0xc000), 0x70);
    assert_eq!(gb.registers().f, 0x10);
    assert_eq!(gb.get_pc(), 0x010f);
}

#[test]
fn every_bit_can_be_tested_set_and_reset() {
    for bit in 0..8u8 {
        // LD A, 0x00; SET bit, A; BIT bit, A; RES bit, A; BIT bit, A
        let mut gb = console(&[
            0x3e,
            0x00,
            0xcb,
            0xc7 | (bit << 3),
            0xcb,
            0x47 | (bit << 3),
            0xcb,
            0x87 | (bit << 3),
            0xcb,
            0x47 | (bit << 3),
        ]);
        steps(&mut gb, 2);
        assert_eq!(gb.registers().a, 1 << bit);
        steps(&mut gb, 1);
        assert_eq!(gb.registers().f & 0x80, 0x00);
        steps(&mut gb, 1);
        assert_eq!(gb.registers().a, 0x00);
        steps(&mut gb, 1);
        assert_eq!(gb.registers().f & 0xe0, 0xa0);
    }
}

#[test]
fn opcodes_without_an_instruction_do_nothing() {
    for opcode in [0xd3u8, 0xdb, 0xdd, 0xe3, 0xe4, 0xeb, 0xec, 0xed, 0xf4, 0xfc, 0xfd] {
        let mut gb = console(&[opcode]);
        let before = gb.registers();
        assert_eq!(steps(&mut gb, 1), vec![4]);
        let after = gb.registers();
        assert_eq!(after.pc, 0x0101);
        assert_eq!((after.af(), after.bc(), after.de(), after.hl(), after.sp), (
            before.af(),
            before.bc(),
            before.de(),
            before.hl(),
            before.sp
        ));
    }
}

#[test]
fn stop_skips_its_operand() {
    let mut gb = console(&[0x10, 0x00, 0x3e, 0x01]);
    assert_eq!(steps(&mut gb, 1), vec![4]);
    assert_eq!(gb.get_pc(), 0x0102);
}

#[test]
fn halt_waits_for_a_pending_interrupt() {
    // LD A, 0x04; LDH (0xff), A; HALT; INC B
    let mut gb = console(&[0x3e, 0x04, 0xe0, 0xff, 0x76, 0x04]);
    assert_eq!(steps(&mut gb, 3), vec![8, 12, 4]);
    assert!(gb.is_halted());
    let cycles = gb.cycles();
    assert_eq!(steps(&mut gb, 3), vec![4, 4, 4]);
    assert!(gb.is_halted());
    assert_eq!(gb.get_pc(), 0x0105);
    assert_eq!(gb.cycles(), cycles + 12);
    gb.write_byte(0xff0f, 0x01);
    assert_eq!(steps(&mut gb, 1), vec![4]);
    assert!(gb.is_halted());
    gb.write_byte(0xff0f, 0x04);
    assert_eq!(steps(&mut gb, 1), vec![4]);
    assert!(!gb.is_halted());
    assert_eq!(gb.get_pc(), 0x0105);
    assert_eq!(steps(&mut gb, 1), vec![4]);
    assert_eq!(gb.registers().b, 0x01);
    assert_eq!(gb.read_byte(0xff0f), 0x04);
}

#[test]
fn a_halted_frame_takes_the_budget_exactly() {
    let mut gb = console(&[0x76]);
    assert_eq!(steps(&mut gb, 1), vec![4]);
    assert!(gb.is_halted());
    assert_eq!(gb.cycles(), 4);
    gb.run_frame();
    assert!(gb.is_halted());
    assert_eq!(gb.cycles(), 4 + 70224);
    gb.run_frame();
    assert_eq!(gb.cycles(), 4 + 2 * 70224);
    assert_eq!(gb.get_pc(), 0x0101);
}

#[test]
fn enabling_interrupts_takes_effect_one_instruction_later() {
    // LD SP, 0xd000; LD A, 0x01; LDH (0xff), A; LDH (0x0f), A; EI; INC B; INC B
    let mut gb = console(&[0x31, 0x00, 0xd0, 0x3e, 0x01, 0xe0, 0xff, 0xe0, 0x0f, 0xfb, 0x04, 0x04]);
    assert_eq!(steps(&mut gb, 5), vec![12, 8, 12, 12, 4]);
    assert!(!gb.ime());
    assert_eq!(gb.get_pc(), 0x010a);
    assert_eq!(steps(&mut gb, 1), vec![20]);
    assert_eq!(gb.get_pc(), 0x0040);
    assert!(!gb.ime());
    assert_eq!(gb.registers().b, 0x00);
    assert_eq!(gb.registers().sp, 0xcffe);
    assert_eq!(gb.read_byte(0xcffe), 0x0a);
    assert_eq!(gb.read_byte(0xcfff), 0x01);
    assert_eq!(gb.read_byte(0xff0f), 0x00);
    assert_eq!(gb.last_interrupt(), Some((0, 0x010a, 0x01, 0x01)));
}

#[test]
fn disabled_interrupts_are_not_served() {
    // LD A, 0x1f; LDH (0xff), A; LDH (0x0f), A; DI; INC B
    let mut gb = console(&[0x3e, 0x1f, 0xe0, 0xff, 0xe0, 0x0f, 0xf3, 0x04]);
    assert_eq!(steps(&mut gb, 5), vec![8, 12, 12, 4, 4]);
    assert_eq!(gb.registers().b, 0x01);
    assert_eq!(gb.read_byte(0xff0f), 0x1f);
    assert_eq!(gb.last_interrupt(), None);
}

#[test]
fn the_lowest_pending_interrupt_is_served_first() {
    for (enabled, requested, first) in [
        (0x1fu8, 0x1fu8, 0u8),
        (0x1f, 0x1e, 1),
        (0x1f, 0x1c, 2),
        (0x1f, 0x18, 3),
        (0x1f, 0x10, 4),
        (0x1e, 0x1f, 1),
        (0x14, 0x0f, 2),
        (0x18, 0x1b, 3),
        (0x10, 0xff, 4),
    ] {
        // LD SP, 0xd000; EI; NOP; NOP
        let mut gb = console(&[0x31, 0x00, 0xd0, 0xfb, 0x00, 0x00]);
        steps(&mut gb, 2);
        gb.write_byte(0xffff, enabled);
        gb.write_byte(0xff0f, requested);
        assert_eq!(steps(&mut gb, 1), vec![20]);
        assert_eq!(gb.get_pc(), 0x0040 + 8 * first as u16);
        assert_eq!(gb.read_byte(0xff0f), requested & !(1 << first));
        assert_eq!(gb.last_interrupt(), Some((first, 0x0104, enabled, requested)));
        assert!(!gb.ime());
    }
}

#[test]
fn requests_that_are_not_enabled_are_left_alone() {
    let mut gb = console(&[0x31, 0x00, 0xd0, 0xfb, 0x00, 0x04]);
    steps(&mut gb, 2);
    gb.write_byte(0xffff, 0x01);
    gb.write_byte(0xff0f, 0x1e);
    assert_eq!(steps(&mut gb, 2), vec![4, 4]);
    assert_eq!(gb.registers().b, 0x01);
    assert!(gb.ime());
    assert_eq!(gb.read_byte(0xff0f), 0x1e);
    gb.write_byte(0xffff, 0xe0);
    gb.write_byte(0xff0f, 0xe0);
    assert_eq!(steps(&mut gb, 1), vec![4]);
    assert_eq!(gb.read_byte(0xff0f), 0xe0);
}

#[test]
fn return_from_interrupt_enables_interrupts_at_once() {
    // LD SP, 0xd000; CALL 0x0110
    let mut program = vec![0x31, 0x00, 0xd0, 0xcd, 0x10, 0x01];
    program.resize(0x10, 0x00);
    // at 0x0110: RETI
    program.push(0xd9);
    let mut gb = console(&program);
    assert_eq!(steps(&mut gb, 3), vec![12, 24, 16]);
    assert!(gb.ime());
    assert_eq!(gb.get_pc(), 0x0106);
}

#[test]
fn an_interrupt_with_the_stack_exhausted_is_dropped() {
    // LD SP, 0x80ff; EI; NOP; INC B
    let mut gb = console(&[0x31, 0xff, 0x80, 0xfb, 0x00, 0x04]);
    steps(&mut gb, 3);
    gb.write_byte(0xffff, 0x1f);
    gb.write_byte(0xff0f, 0x1f);
    let cycles = gb.cycles();
    assert_eq!(steps(&mut gb, 1), vec![0]);
    assert_eq!(gb.cycles(), cycles);
    assert_eq!(gb.get_pc(), 0x0105);
    assert_eq!(gb.registers().sp, 0x80ff);
    assert_eq!(gb.read_byte(0xff0f), 0x00);
    assert!(!gb.ime());
    assert_eq!(gb.last_interrupt(), Some((0, 0x0105, 0x1f, 0x1f)));
    assert_eq!(steps(&mut gb, 1), vec![4]);
    assert_eq!(gb.registers().b, 0x01);
    // One above the threshold the interrupt is served.
    let mut gb = console(&[0x31, 0x00, 0x81, 0xfb, 0x00, 0x04]);
    steps(&mut gb, 3);
    gb.write_byte(0xffff, 0x1f);
    gb.write_byte(0xff0f, 0x1f);
    assert_eq!(steps(&mut gb, 1), vec![20]);
    assert_eq!(gb.get_pc(), 0x0040);
}

#[test]
fn a_frame_with_a_storm_of_refused_interrupts_ends() {
    // LD SP, 0x8000; LD A, 0x01; LDH (0xff), A; loop: LDH (0x0f), A; EI; JR loop
    let mut gb = console(&[0x31, 0x00, 0x80, 0x3e, 0x01, 0xe0, 0xff, 0xe0, 0x0f, 0xfb, 0x18, 0xfb]);
    assert!(gb.run_frame());
    assert!(gb.cycles() >= 70224);
    assert!(gb.cycles() <= 70244);
    assert_eq!(gb.registers().sp, 0x8000);
}

#[test]
fn saved_state_holds_registers_and_cycles() {
    let mut gb = console(&[0x01, 0x34, 0x12, 0x11, 0x78, 0x56, 0x21, 0xbc, 0x9a, 0x31, 0x00, 0xd0]);
    steps(&mut gb, 4);
    let state = gb.save_state();
    assert_eq!(
        state,
        SaveState {
            a: 0x01,
            f: 0xb0,
            b: 0x12,
            c: 0x34,
            d: 0x56,
            e: 0x78,
            h: 0x9a,
            l: 0xbc,
            sp: 0xd000,
            pc: 0x010c,
            cycles: 48,
        }
    );
}

#[test]
fn a_saved_state_put_back_changes_nothing() {
    let mut gb = console(&[0x3e, 0x42, 0xea, 0x00, 0xc0, 0x18, 0xfe]);
    gb.run_frame();
    let state = gb.save_state();
    let registers = gb.registers();
    let memory = gb.read_byte(0xc000);
    gb.load_state(Some(state));
    assert_eq!(gb.save_state(), state);
    assert_eq!(gb.registers(), registers);
    assert_eq!(gb.cycles(), state.cycles);
    assert_eq!(gb.read_byte(0xc000), memory);
    assert!(gb.is_running());
}

#[test]
fn putting_a_state_back_replaces_registers_and_cycles_only() {
    let mut gb = console(&[0x3e, 0x42, 0xea, 0x00, 0xc0, 0x76]);
    gb.run_frame();
    let ly = gb.read_byte(0xff44);
    let state = SaveState {
        a: 1,
        f: 0xff,
        b: 2,
        c: 3,
        d: 4,
        e: 5,
        h: 6,
        l: 7,
        sp: 0x1234,
        pc: 0x5678,
        cycles: 0xdead_beef,
    };
    gb.load_state(Some(state));
    let r = gb.registers();
    assert_eq!((r.a, r.b, r.c, r.d, r.e, r.h, r.l), (1, 2, 3, 4, 5, 6, 7));
    assert_eq!(r.f, 0xf0);
    assert_eq!((r.sp, r.pc), (0x1234, 0x5678));
    assert_eq!(gb.cycles(), 0xdead_beef);
    assert_eq!(gb.read_byte(0xc000), 0x42);
    assert_eq!(gb.read_byte(0xff44), ly);
    assert!(gb.is_halted());
    assert!(gb.is_running());
}

#[test]
fn a_state_that_could_not_be_read_changes_nothing() {
    let mut gb = console(&[0x3e, 0x42, 0x18, 0xfe]);
    gb.run_frame();
    let state = gb.save_state();
    gb.load_state(None);
    assert_eq!(gb.save_state(), state);
}

#[test]
fn cycle_count_wraps() {
    let mut gb = console(&[0x00, 0x00]);
    gb.load_state(Some(SaveState { cycles: 0xffff_fffe, ..gb.save_state() }));
    assert_eq!(steps(&mut gb, 2), vec![4, 4]);
    assert_eq!(gb.cycles(), 6);
}

#[test]
fn instruction_log() {
    // LD SP, 0xd000; NOP; PUSH BC; JR -2
    let mut gb = console(&[0x31, 0x00, 0xd0, 0x00, 0xc5, 0x18, 0xfe]);
    steps(&mut gb, 1);
    assert!(gb.trace_entries().is_empty());
    gb.enable_trace(true);
    steps(&mut gb, 3);
    assert_eq!(
        gb.trace_entries(),
        vec![(0x0103, 0x00, 0xd000), (0x0104, 0xc5, 0xd000), (0x0105, 0x18, 0xcffe)]
    );
    gb.enable_trace(false);
    steps(&mut gb, 5);
    assert_eq!(gb.trace_entries().len(), 3);
    gb.enable_trace(true);
    steps(&mut gb, 300);
    let entries = gb.trace_entries();
    assert_eq!(entries.len(), 256);
    assert!(entries.iter().all(|&e| e == (0x0105, 0x18, 0xcffe)));
}

#[test]
fn instruction_log_keeps_the_last_256_in_order() {
    let mut gb = console(&[]);
    gb.enable_trace(true);
    steps(&mut gb, 300);
    let entries = gb.trace_entries();
    assert_eq!(entries.len(), 256);
    for (i, entry) in entries.iter().enumerate() {
        assert_eq!(*entry, (0x0100 + 44 + i as u16, 0x00, 0xfffe));
    }
}

#[test]
fn object_memory_transfer_from_a_program() {
    // LD A, 0xc1; LDH (0x46), A
    let mut gb = console(&[0x3e, 0xc1, 0xe0, 0x46]);
    for i in 0..0xa0u16 {
        gb.write_byte(0xc100 + i, i as u8);
    }
    steps(&mut gb, 2);
    for i in 0..0xa0u16 {
        assert_eq!(gb.read_byte(0xfe00 + i), i as u8);
    }
}

#[test]
fn timer_interrupt_from_a_running_program() {
    // LD A, 0x05; LDH (0x07), A; LD A, 0xfe; LDH (0x05), A; JR -2
    let mut gb = console(&[0x3e, 0x05, 0xe0, 0x07, 0x3e, 0xfe, 0xe0, 0x05, 0x18, 0xfe]);
    gb.run_frame();
    assert_eq!(gb.read_byte(0xff0f) & 0x04, 0x04);
    assert_ne!(gb.read_byte(0xff04), 0x00);
}

#[test]
fn the_layers_switch_reaches_the_pipeline() {
    let mut gb = console(&[0x18, 0xfe]);
    // A sprite in the top left corner, drawn in the darkest shade.
    gb.write_byte(0xff40, 0x93);
    gb.write_byte(0xff48, 0xe4);
    gb.write_byte(0x8020, 0xff);
    gb.write_byte(0x8021, 0xff);
    gb.write_byte(0xfe00, 16);
    gb.write_byte(0xfe01, 8);
    gb.write_byte(0xfe02, 2);
    gb.run_frame();
    assert_eq!(&gb.frame_buffer()[0..4], &[224, 248, 208, 255]);
    gb.set_overlays_suppressed(false);
    gb.run_frame();
    assert_eq!(&gb.frame_buffer()[0..4], &[8, 24, 32, 255]);
    gb.reset();
    gb.start();
    gb.write_byte(0xff40, 0x93);
    gb.write_byte(0xff48, 0xe4);
    gb.write_byte(0x8020, 0xff);
    gb.write_byte(0x8021, 0xff);
    gb.write_byte(0xfe00, 16);
    gb.write_byte(0xfe01, 8);
    gb.write_byte(0xfe02, 2);
    gb.run_frame();
    assert_eq!(&gb.frame_buffer()[0..4], &[8, 24, 32, 255]);
}
