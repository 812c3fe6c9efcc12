use chip_8::{
    default_font, Chip8Instr, Chip8VM, Chip8VMOptions, Fault, LoadError, Request, Timers, FONT_SIZE, FONT_START,
    RAM_ROM_START, RAM_SIZE,
};

fn vm_with(rom: &[u8], options: Option<Chip8VMOptions>) -> Chip8VM {
    let mut vm = Chip8VM::new(None, None, options);
    vm.load_rom(rom).unwrap();
    vm
}

fn run(vm: &mut Chip8VM, timers: &mut Timers, cycles: usize) {
    for _ in 0..cycles {
        assert!(vm.step(timers, 0).is_ok());
    }
}

#[test]
fn default_new() {
    let vm = Chip8VM::new(None, None, None);
    assert_eq!(vm.memory()[FONT_START..FONT_START + FONT_SIZE], default_font());
    assert_eq!(vm.freq(), 700);
}

#[test]
fn load_empty() {
    let mut vm = Chip8VM::new(None, None, None);
    let before = vm.memory().clone();
    assert_eq!(vm.load_rom(&[]), Ok(()));
    assert_eq!(before, *vm.memory());
}

#[test]
fn load_fit() {
    let mut vm = Chip8VM::new(None, None, None);
    assert_eq!(vm.load_rom(&[1; 4096 - 512]), Ok(()));
    assert_eq!(vm.memory()[RAM_SIZE - 1], 1);
    assert_eq!(vm.memory()[RAM_ROM_START], 1);
}

#[test]
fn load_one_byte_too_big_is_rejected() {
    let mut vm = Chip8VM::new(None, None, None);
    let before = vm.memory().clone();
    assert_eq!(vm.load_rom(&[1; 4096 - 511]), Err(LoadError::TooBig { len: 3585, available: 3584 }));
    assert_eq!(before, *vm.memory());
}

#[test]
fn parse_instructions() {
    let tests: Vec<(u16, Chip8Instr)> = vec![
        (0x00E0, Chip8Instr::Clear),
        (0x00EE, Chip8Instr::Return),
        (0x1245, Chip8Instr::Jump(0x245)),
        (0x1EF3, Chip8Instr::Jump(0xEF3)),
        (0x6336, Chip8Instr::SetImm(0x3, 0x36)),
        (0x6F4A, Chip8Instr::SetImm(0xF, 0x4A)),
        (0x7336, Chip8Instr::Add(0x3, 0x36)),
        (0x7F4A, Chip8Instr::Add(0xF, 0x4A)),
        (0xA6BA, Chip8Instr::SetI(0x6BA)),
        (0xD6FA, Chip8Instr::Display(0x6, 0xF, 0xA)),
        (0xD3BA, Chip8Instr::Display(0x3, 0xB, 0xA)),
        (0xDC2A, Chip8Instr::Display(0xC, 0x2, 0xA)),
        (0xd01f, Chip8Instr::Display(0, 1, 15)),
    ];

    tests.iter().for_each(|(i, r)| assert_eq!(Chip8Instr::from(*i), *r));
}

#[test]
fn decode_whole_table() {
    let tests: Vec<(u16, Chip8Instr)> = vec![
        (0x2ABC, Chip8Instr::Call(0xABC)),
        (0x3A12, Chip8Instr::IfNE(0xA, 0x12)),
        (0x4B34, Chip8Instr::IfE(0xB, 0x34)),
        (0x5120, Chip8Instr::IfRNE(1, 2)),
        (0x8120, Chip8Instr::SetR(1, 2)),
        (0x8121, Chip8Instr::BitOp(1, 2, 1)),
        (0x8122, Chip8Instr::BitOp(1, 2, 2)),
        (0x8123, Chip8Instr::BitOp(1, 2, 3)),
        (0x8124, Chip8Instr::ArithmOp(1, 2, 4)),
        (0x8125, Chip8Instr::ArithmOp(1, 2, 5)),
        (0x8126, Chip8Instr::ShiftOp(1, 2, 6)),
        (0x8127, Chip8Instr::ArithmOp(1, 2, 7)),
        (0x812E, Chip8Instr::ShiftOp(1, 2, 0xE)),
        (0x9340, Chip8Instr::IfRE(3, 4)),
        (0xB123, Chip8Instr::JumpOff(0x123)),
        (0xC5FF, Chip8Instr::Rand(5, 0xFF)),
        (0xE19E, Chip8Instr::KeyUp(1)),
        (0xE1A1, Chip8Instr::KeyDown(1)),
        (0xF207, Chip8Instr::GetDelay(2)),
        (0xF20A, Chip8Instr::GetKey(2)),
        (0xF215, Chip8Instr::SetDelay(2)),
        (0xF218, Chip8Instr::SetBuzzer(2)),
        (0xF21E, Chip8Instr::IncrI(2)),
        (0xF229, Chip8Instr::Char(2)),
        (0xF233, Chip8Instr::Decimal(2)),
        (0xF055, Chip8Instr::Save(0)),
        (0xF265, Chip8Instr::Load(2)),
        (0xF2FF, Chip8Instr::Unknown),
        (0x0000, Chip8Instr::Unknown),
        (0x0123, Chip8Instr::Unknown),
        (0x00EF, Chip8Instr::Unknown),
        (0x01E0, Chip8Instr::Unknown),
        (0x8008, Chip8Instr::Unknown),
        (0x8129, Chip8Instr::Unknown),
        (0x812F, Chip8Instr::Unknown),
        (0xE19F, Chip8Instr::Unknown),
        (0xE1A2, Chip8Instr::Unknown),
    ];
    for (w, ins) in tests {
        assert_eq!(chip_8::decode(w), ins);
    }
}

#[test]
fn add_sets_carry_flag() {
    let mut vm = vm_with(&[0x60, 0xFF, 0x61, 0x01, 0x80, 0x14], None);
    let mut t = Timers::new();
    run(&mut vm, &mut t, 3);
    assert_eq!(vm.register(0), 0x00);
    assert_eq!(vm.register(0xF), 1);
}

#[test]
fn subtract_with_borrow_clears_flag() {
    let mut vm = vm_with(&[0x60, 0x01, 0x61, 0x02, 0x80, 0x15], None);
    let mut t = Timers::new();
    run(&mut vm, &mut t, 3);
    assert_eq!(vm.register(0), 0xFF);
    assert_eq!(vm.register(0xF), 0);
}

#[test]
fn reverse_subtract_without_borrow_sets_flag() {
    let mut vm = vm_with(&[0x60, 0x01, 0x61, 0x05, 0x80, 0x17], None);
    let mut t = Timers::new();
    run(&mut vm, &mut t, 3);
    assert_eq!(vm.register(0), 4);
    assert_eq!(vm.register(0xF), 1);
}

#[test]
fn shift_right_of_one() {
    let mut vm = vm_with(&[0x60, 0x01, 0x80, 0x06], None);
    let mut t = Timers::new();
    run(&mut vm, &mut t, 2);
    assert_eq!(vm.register(0), 0x00);
    assert_eq!(vm.register(0xF), 1);
}

#[test]
fn shift_left_of_high_bit() {
    let mut vm = vm_with(&[0x60, 0x80, 0x80, 0x0E], None);
    let mut t = Timers::new();
    run(&mut vm, &mut t, 2);
    assert_eq!(vm.register(0), 0x00);
    assert_eq!(vm.register(0xF), 1);
}

#[test]
fn old_shift_copies_source_first() {
    let options = Chip8VMOptions { old_shift: true, ..Default::default() };
    let mut vm = vm_with(&[0x60, 0x01, 0x61, 0x06, 0x80, 0x16], Some(options));
    let mut t = Timers::new();
    run(&mut vm, &mut t, 3);
    assert_eq!(vm.register(0), 3);
    assert_eq!(vm.register(0xF), 0);
}

#[test]
fn bit_ops_and_add_wrap() {
    let mut vm = vm_with(&[0x60, 0x0C, 0x61, 0x0A, 0x80, 0x11, 0x70, 0xF5], None);
    let mut t = Timers::new();
    run(&mut vm, &mut t, 4);
    assert_eq!(vm.register(0), 0x03);
    assert_eq!(vm.register(0xF), 0);
}

#[test]
fn sprite_drawn_twice_collides() {
    // V0 = V1 = 0, I = 0x20A, draw one row twice; the sprite byte is 0xFF.
    let rom = [0x60, 0x00, 0x61, 0x00, 0xA2, 0x0A, 0xD0, 0x11, 0xD0, 0x11, 0xFF];
    let mut vm = vm_with(&rom, Some(Chip8VMOptions { hide_display: true, ..Default::default() }));
    let mut t = Timers::new();
    run(&mut vm, &mut t, 4);
    for x in 0..8 {
        assert!(vm.pixel(x, 0));
    }
    assert!(!vm.pixel(8, 0));
    assert_eq!(vm.register(0xF), 0);
    assert_eq!(vm.step(&mut t, 0), Ok(Request::Continue));
    for x in 0..8 {
        assert!(!vm.pixel(x, 0));
    }
    assert_eq!(vm.register(0xF), 1);
}

#[test]
fn draw_asks_for_render() {
    let mut vm = vm_with(&[0xD0, 0x01, 0x00, 0xE0], None);
    let mut t = Timers::new();
    assert_eq!(vm.step(&mut t, 0), Ok(Request::Render));
    assert_eq!(vm.step(&mut t, 0), Ok(Request::Render));
}

#[test]
fn sprite_bits_are_msb_first() {
    // I = 0x206 holds 0x80: only the leftmost pixel of the row lights.
    let rom = [0xA2, 0x06, 0xD0, 0x01, 0x12, 0x04, 0x80];
    let mut vm = vm_with(&rom, None);
    let mut t = Timers::new();
    run(&mut vm, &mut t, 2);
    assert!(vm.pixel(0, 0));
    for x in 1..64 {
        assert!(!vm.pixel(x, 0));
    }
}

#[test]
fn sprite_clipped_at_right_edge() {
    // Light pixel 0 with a 0x80 sprite, then draw 0xFF at x = 60.
    let rom = [0xA2, 0x0C, 0xD0, 0x01, 0x60, 0x3C, 0xA2, 0x0D, 0xD0, 0x11, 0x12, 0x0A, 0x80, 0xFF];
    let mut vm = vm_with(&rom, None);
    let mut t = Timers::new();
    run(&mut vm, &mut t, 5);
    for x in 60..64 {
        assert!(vm.pixel(x, 0));
    }
    assert!(vm.pixel(0, 0));
    for x in 1..4 {
        assert!(!vm.pixel(x, 0));
    }
    assert_eq!(vm.register(0xF), 0);
}

#[test]
fn sprite_origin_wraps() {
    // x = 64 + 2 wraps to column 2, y = 32 + 1 wraps to row 1.
    let rom = [0x60, 0x42, 0x61, 0x21, 0xA2, 0x0A, 0xD0, 0x11, 0x12, 0x08, 0x80];
    let mut vm = vm_with(&rom, None);
    let mut t = Timers::new();
    run(&mut vm, &mut t, 4);
    assert!(vm.pixel(2, 1));
    assert_eq!(vm.display().iter().flatten().filter(|p| **p).count(), 1);
}

#[test]
fn timer_saturates_at_zero() {
    let mut t = Timers { delay: 0, buzzer: 0, started: true };
    t.update();
    assert_eq!(t.delay, 0);
    assert_eq!(t.buzzer, 0);
    let mut t = Timers::new();
    t.update();
    assert_eq!(t.delay, 119);
    assert_eq!(t.buzzer, 0);
}

#[test]
fn call_then_return_restores_pc() {
    let mut vm = vm_with(&[0x22, 0x06, 0x00, 0x00, 0x00, 0x00, 0x00, 0xEE], None);
    let mut t = Timers::new();
    assert_eq!(vm.step(&mut t, 0), Ok(Request::Continue));
    assert_eq!(vm.pc(), 0x206);
    assert_eq!(*vm.stack(), vec![0x202]);
    assert_eq!(vm.step(&mut t, 0), Ok(Request::Continue));
    assert_eq!(vm.pc(), 0x202);
    assert!(vm.stack().is_empty());
}

#[test]
fn return_with_empty_stack_is_fatal() {
    let mut vm = vm_with(&[0x00, 0xEE], None);
    let mut t = Timers::new();
    assert_eq!(vm.step(&mut t, 0), Err(Fault::EmptyStack { pc: 0x200 }));
}

#[test]
fn unknown_opcode_is_fatal() {
    let mut vm = vm_with(&[0xF0, 0xFF], None);
    let mut t = Timers::new();
    assert_eq!(vm.step(&mut t, 0), Err(Fault::Unsupported { instr: Chip8Instr::Unknown, pc: 0x200 }));
}

#[test]
fn unassigned_family_8_opcode_is_fatal() {
    let mut vm = vm_with(&[0x80, 0x18], None);
    let mut t = Timers::new();
    assert_eq!(
        vm.step(&mut t, 0),
        Err(Fault::Unsupported { instr: Chip8Instr::Unknown, pc: 0x200 })
    );
}

#[test]
fn unmatched_family_0_opcode_is_fatal() {
    let mut vm = vm_with(&[0x00, 0x00], None);
    let mut t = Timers::new();
    assert_eq!(vm.step(&mut t, 0), Err(Fault::Unsupported { instr: Chip8Instr::Unknown, pc: 0x200 }));
    assert_eq!(vm.pc(), 0x202);
}

#[test]
fn fault_reports_address_of_failing_word() {
    // Jump to 0x300, where an undecodable word stands.
    let mut rom = vec![0x13, 0x00];
    rom.resize(0x100, 0);
    rom.extend_from_slice(&[0xFF, 0xFF]);
    let mut vm = vm_with(&rom, None);
    let mut t = Timers::new();
    run(&mut vm, &mut t, 1);
    assert!(matches!(vm.run_once(&mut t), Err(Fault::Unsupported { instr: Chip8Instr::Unknown, pc: 0x300 })));
}

#[test]
fn key_state_query_is_fatal() {
    let mut vm = vm_with(&[0xE0, 0x9E], None);
    let mut t = Timers::new();
    assert_eq!(vm.step(&mut t, 0), Err(Fault::Unsupported { instr: Chip8Instr::KeyUp(0), pc: 0x200 }));
}

#[test]
fn decimal_past_end_of_memory_is_fatal() {
    let mut vm = vm_with(&[0xAF, 0xFE, 0xF0, 0x33], None);
    let mut t = Timers::new();
    run(&mut vm, &mut t, 1);
    assert_eq!(vm.step(&mut t, 0), Err(Fault::OutOfBounds { pc: 0x202, addr: 0x1000 }));
}

#[test]
fn sprite_past_end_of_memory_is_fatal() {
    let mut vm = vm_with(&[0xAF, 0xFE, 0xD0, 0x03], None);
    let mut t = Timers::new();
    run(&mut vm, &mut t, 1);
    assert_eq!(vm.step(&mut t, 0), Err(Fault::OutOfBounds { pc: 0x202, addr: 0x1000 }));
}

#[test]
fn fetch_at_last_byte_is_fatal() {
    let mut vm = vm_with(&[0x1F, 0xFF], None);
    let mut t = Timers::new();
    run(&mut vm, &mut t, 1);
    assert_eq!(vm.pc(), 0xFFF);
    assert_eq!(vm.step(&mut t, 0), Err(Fault::OutOfBounds { pc: 0xFFF, addr: 0x1000 }));
}

#[test]
fn decimal_digits() {
    let mut vm = vm_with(&[0x60, 0xFE, 0xA3, 0x00, 0xF0, 0x33], None);
    let mut t = Timers::new();
    run(&mut vm, &mut t, 3);
    assert_eq!(vm.memory()[0x300..0x303], [2, 5, 4]);
}

#[test]
fn save_and_load_block() {
    let rom = [0x60, 0x11, 0x61, 0x22, 0x62, 0x33, 0xA3, 0x00, 0xF1, 0x55, 0x60, 0x00, 0x61, 0x00, 0xF1, 0x65];
    let mut vm = vm_with(&rom, None);
    let mut t = Timers::new();
    run(&mut vm, &mut t, 5);
    assert_eq!(vm.memory()[0x300..0x303], [0x11, 0x22, 0]);
    assert_eq!(vm.index(), 0x300);
    run(&mut vm, &mut t, 3);
    assert_eq!(vm.register(0), 0x11);
    assert_eq!(vm.register(1), 0x22);
    assert_eq!(vm.register(2), 0x33);
}

#[test]
fn save_advances_index_when_asked() {
    let options = Chip8VMOptions { incr_i_when_mem: true, ..Default::default() };
    let mut vm = vm_with(&[0xA3, 0x00, 0xF2, 0x55], Some(options));
    let mut t = Timers::new();
    run(&mut vm, &mut t, 2);
    assert_eq!(vm.index(), 0x303);
}

#[test]
fn default_options_are_all_off() {
    let o = Chip8VMOptions::default();
    assert!(!o.hide_display && !o.debug && !o.debug_ram && !o.keep_display);
    assert!(!o.incr_i_when_mem && !o.new_jump_off && !o.old_shift);
    assert_eq!(Chip8VM::new(None, None, None).options(), o);
}

#[test]
fn jump_with_offset_uses_v0_or_high_nibble() {
    let mut vm = vm_with(&[0x60, 0x04, 0x63, 0x10, 0xB3, 0x00], None);
    let mut t = Timers::new();
    run(&mut vm, &mut t, 3);
    assert_eq!(vm.pc(), 0x304);
    let options = Chip8VMOptions { new_jump_off: true, ..Default::default() };
    let mut vm = vm_with(&[0x60, 0x04, 0x63, 0x10, 0xB3, 0x00], Some(options));
    run(&mut vm, &mut t, 3);
    assert_eq!(vm.pc(), 0x310);
}

#[test]
fn skips_follow_opcode_table() {
    // 3xnn skips on equality, 4xnn on inequality, 5xy0 on equality, 9xy0 on inequality.
    let mut vm = vm_with(&[0x60, 0x07, 0x30, 0x07], None);
    let mut t = Timers::new();
    run(&mut vm, &mut t, 2);
    assert_eq!(vm.pc(), 0x206);
    let mut vm = vm_with(&[0x60, 0x07, 0x40, 0x07], None);
    run(&mut vm, &mut t, 2);
    assert_eq!(vm.pc(), 0x204);
    let mut vm = vm_with(&[0x50, 0x10], None);
    run(&mut vm, &mut t, 1);
    assert_eq!(vm.pc(), 0x204);
    let mut vm = vm_with(&[0x90, 0x10], None);
    run(&mut vm, &mut t, 1);
    assert_eq!(vm.pc(), 0x202);
}

#[test]
fn timer_instructions() {
    let mut vm = vm_with(&[0x60, 0x2A, 0xF0, 0x15, 0xF0, 0x18, 0xF1, 0x07], None);
    let mut t = Timers::new();
    run(&mut vm, &mut t, 3);
    assert_eq!(t.delay, 0x2A);
    assert_eq!(t.buzzer, 0x2A);
    t.update();
    run(&mut vm, &mut t, 1);
    assert_eq!(vm.register(1), 0x29);
}

#[test]
fn pre_run_opens_gate() {
    let mut vm = Chip8VM::new(None, None, None);
    let mut t = Timers::new();
    assert!(!t.is_started());
    vm.pre_run(&mut t);
    assert!(t.is_started());
    assert_eq!(t.delay, 120);
}

#[test]
fn key_wait_binds_hex_digits_only() {
    let mut vm = vm_with(&[0xF3, 0x0A], None);
    let mut t = Timers::new();
    assert_eq!(vm.step(&mut t, 0), Ok(Request::ReadKey(3)));
    vm.provide_key(3, 'z');
    assert_eq!(vm.register(3), 0);
    vm.provide_key(3, 'B');
    assert_eq!(vm.register(3), 11);
    assert_eq!(chip_8::key_code('7'), Some(7));
    assert_eq!(chip_8::key_code('a'), Some(10));
    assert_eq!(chip_8::key_code('f'), Some(15));
    assert_eq!(chip_8::key_code('g'), None);
    assert_eq!(chip_8::key_code(' '), None);
}

#[test]
fn random_is_masked() {
    let mut vm = vm_with(&[0xC0, 0x0F, 0xC1, 0x00], None);
    let mut t = Timers::new();
    assert_eq!(vm.step(&mut t, 0xAB), Ok(Request::Continue));
    assert_eq!(vm.register(0), 0x0B);
    assert!(vm.run_once(&mut t).is_ok());
    assert_eq!(vm.register(1), 0);
}

#[test]
fn char_and_index_increment() {
    let mut vm = vm_with(&[0x60, 0x1A, 0xF0, 0x29, 0xAF, 0xFF, 0x61, 0x02, 0xF1, 0x1E], None);
    let mut t = Timers::new();
    run(&mut vm, &mut t, 2);
    assert_eq!(vm.index(), 0x50 + 5 * 0xA);
    run(&mut vm, &mut t, 3);
    assert_eq!(vm.index(), 0x001);
}

#[test]
fn clear_blanks_display() {
    let mut vm = vm_with(&[0xA0, 0x50, 0xD0, 0x05, 0x00, 0xE0], None);
    let mut t = Timers::new();
    run(&mut vm, &mut t, 2);
    assert!(vm.display().iter().flatten().any(|p| *p));
    run(&mut vm, &mut t, 1);
    assert!(!vm.display().iter().flatten().any(|p| *p));
}

#[test]
fn custom_font_and_freq() {
    let vm = Chip8VM::new(Some(12), Some([7; 80]), None);
    assert_eq!(vm.freq(), 12);
    assert_eq!(vm.memory()[FONT_START..FONT_START + FONT_SIZE], [7; 80]);
    assert_eq!(vm.memory()[FONT_START - 1], 0);
    assert_eq!(vm.pc(), 0x200);
}

#[test]
fn pacing_arithmetic() {
    assert_eq!(chip_8::period_nanos(60), 16_666_666);
    assert_eq!(chip_8::period_nanos(700), 1_428_571);
    assert_eq!(chip_8::remaining_nanos(1_000, 300), 700);
    assert_eq!(chip_8::remaining_nanos(1_000, 3_000), 0);
}
