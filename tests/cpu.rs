use chip8::keymap::keypad_index;
use chip8::{decode, ArithOp, Cpu, CpuError, Instruction, Step};

fn words(program: &[u16]) -> Vec<u8> {
    let mut bytes = Vec::new();
    for w in program {
        bytes.push((w >> 8) as u8);
        bytes.push((w & 0xFF) as u8);
    }
    bytes
}

fn machine(program: &[u16]) -> Cpu {
    let mut cpu = Cpu::new();
    cpu.load_rom(&words(program)).unwrap();
    cpu
}

fn run(cpu: &mut Cpu, cycles: usize) {
    for _ in 0..cycles {
        assert_eq!(cpu.cycle(), Ok(Step::Executed));
    }
}

#[test]
fn new_machine_holds_font_and_starts_at_program() {
    let cpu = Cpu::new();
    assert_eq!(cpu.pc(), 0x200);
    assert_eq!(cpu.read(0x050), Ok(0xF0));
    assert_eq!(cpu.read(0x055), Ok(0x20));
    assert_eq!(cpu.read(0x09F), Ok(0x80));
    assert_eq!(cpu.read(0x04F), Ok(0));
    assert_eq!(cpu.read(0x0A0), Ok(0));
    assert_eq!(cpu.index(), 0);
    assert_eq!(cpu.stack_depth(), 0);
    assert_eq!(cpu.sound_timer(), 0);
    assert_eq!(cpu.delay_timer(), 0);
    assert!(!cpu.needs_redraw());
    assert!(cpu.display().iter().all(|&c| c == 0));
    for r in 0..16 {
        assert_eq!(cpu.register(r), 0);
    }
}

#[test]
fn load_rom_copies_from_0x200() {
    let mut cpu = Cpu::new();
    assert_eq!(cpu.load_rom(&[1, 2, 3]), Ok(()));
    assert_eq!(cpu.read(0x1FF), Ok(0));
    assert_eq!(cpu.read(0x200), Ok(1));
    assert_eq!(cpu.read(0x202), Ok(3));
    assert_eq!(cpu.read(0x203), Ok(0));
}

#[test]
fn load_rom_accepts_largest_image() {
    let mut cpu = Cpu::new();
    let image = vec![7u8; 3584];
    assert_eq!(cpu.load_rom(&image), Ok(()));
    assert_eq!(cpu.read(0xFFF), Ok(7));
}

#[test]
fn load_rom_refuses_oversized_image() {
    let mut cpu = Cpu::new();
    let image = vec![7u8; 3585];
    assert_eq!(cpu.load_rom(&image), Err(CpuError::CapacityExceeded));
    assert_eq!(cpu.read(0x200), Ok(0));
    assert_eq!(cpu.read(0xFFF), Ok(0));
}

#[test]
fn read_and_write_are_bounds_checked() {
    let mut cpu = Cpu::new();
    assert_eq!(cpu.write(0xFFF, 9), Ok(()));
    assert_eq!(cpu.read(0xFFF), Ok(9));
    assert_eq!(cpu.write(0x1000, 9), Err(CpuError::OutOfBounds));
    assert_eq!(cpu.read(0x1000), Err(CpuError::OutOfBounds));
}

#[test]
fn add_immediate_wraps_without_flag() {
    let mut cpu = machine(&[0x6F05, 0x60FF, 0x7002]);
    run(&mut cpu, 3);
    assert_eq!(cpu.register(0), 0x01);
    assert_eq!(cpu.register(0xF), 5);
}

#[test]
fn add_registers_sets_carry() {
    let mut cpu = machine(&[0x60C8, 0x6164, 0x8014]);
    run(&mut cpu, 3);
    assert_eq!(cpu.register(0), 44);
    assert_eq!(cpu.register(0xF), 1);
}

#[test]
fn add_registers_clears_carry() {
    let mut cpu = machine(&[0x6F01, 0x600A, 0x6114, 0x8014]);
    run(&mut cpu, 4);
    assert_eq!(cpu.register(0), 30);
    assert_eq!(cpu.register(0xF), 0);
}

#[test]
fn sub_without_borrow_sets_flag() {
    let mut cpu = machine(&[0x6005, 0x6103, 0x8015]);
    run(&mut cpu, 3);
    assert_eq!(cpu.register(0), 2);
    assert_eq!(cpu.register(0xF), 1);
}

#[test]
fn sub_with_borrow_wraps_and_clears_flag() {
    let mut cpu = machine(&[0x6F01, 0x6003, 0x6105, 0x8015]);
    run(&mut cpu, 4);
    assert_eq!(cpu.register(0), 254);
    assert_eq!(cpu.register(0xF), 0);
}

#[test]
fn reversed_sub_sets_not_borrow() {
    let mut cpu = machine(&[0x6003, 0x6105, 0x8017, 0x6205, 0x6303, 0x8237]);
    run(&mut cpu, 3);
    assert_eq!(cpu.register(0), 2);
    assert_eq!(cpu.register(0xF), 1);
    run(&mut cpu, 3);
    assert_eq!(cpu.register(2), 254);
    assert_eq!(cpu.register(0xF), 0);
}

#[test]
fn flag_wins_when_it_is_the_target() {
    let mut cpu = machine(&[0x6FC8, 0x6164, 0x8F14]);
    run(&mut cpu, 3);
    assert_eq!(cpu.register(0xF), 1);
}

#[test]
fn bitwise_and_copy_operations() {
    let mut cpu = machine(&[
        0x600C, 0x610A, 0x8011, 0x620C, 0x8212, 0x630C, 0x8313, 0x6400, 0x8410,
    ]);
    run(&mut cpu, 9);
    assert_eq!(cpu.register(0), 0x0E);
    assert_eq!(cpu.register(2), 0x08);
    assert_eq!(cpu.register(3), 0x06);
    assert_eq!(cpu.register(4), 0x0A);
}

#[test]
fn shifts_report_the_bit_shifted_out() {
    let mut cpu = machine(&[0x6005, 0x8006]);
    run(&mut cpu, 2);
    assert_eq!(cpu.register(0), 2);
    assert_eq!(cpu.register(0xF), 1);
    let mut cpu = machine(&[0x6081, 0x800E]);
    run(&mut cpu, 2);
    assert_eq!(cpu.register(0), 2);
    assert_eq!(cpu.register(0xF), 1);
    let mut cpu = machine(&[0x6040, 0x800E]);
    run(&mut cpu, 2);
    assert_eq!(cpu.register(0), 0x80);
    assert_eq!(cpu.register(0xF), 0);
}

#[test]
fn skips_compare_registers_and_immediates() {
    // 3xkk taken, 4xkk not taken, 5xy0 taken, 9xy0 not taken
    let mut cpu = machine(&[0x6007, 0x6107, 0x3007, 0x0000, 0x4007, 0x5010, 0x0000, 0x9010]);
    run(&mut cpu, 3);
    assert_eq!(cpu.pc(), 0x208);
    run(&mut cpu, 1);
    assert_eq!(cpu.pc(), 0x20A);
    run(&mut cpu, 1);
    assert_eq!(cpu.pc(), 0x20E);
    run(&mut cpu, 1);
    assert_eq!(cpu.pc(), 0x210);
}

#[test]
fn draw_twice_restores_display() {
    let mut cpu = machine(&[0xA050, 0x6003, 0x6104, 0xD015, 0xD015]);
    run(&mut cpu, 4);
    assert_eq!(cpu.register(0xF), 0);
    assert!(cpu.needs_redraw());
    let lit: usize = cpu.display().iter().map(|&c| c as usize).sum();
    assert_eq!(lit, 14);
    assert_eq!(cpu.display()[4 * 64 + 3], 1);
    assert_eq!(cpu.display()[4 * 64 + 7], 0);
    cpu.clear_redraw();
    run(&mut cpu, 1);
    assert_eq!(cpu.register(0xF), 1);
    assert!(cpu.needs_redraw());
    assert!(cpu.display().iter().all(|&c| c == 0));
}

#[test]
fn draw_wraps_at_right_edge() {
    let mut cpu = machine(&[0xA300, 0x603F, 0x6100, 0xD011]);
    cpu.write(0x300, 0xFF).unwrap();
    run(&mut cpu, 4);
    let d = cpu.display();
    assert_eq!(d[63], 1);
    for col in 0..7 {
        assert_eq!(d[col], 1);
    }
    assert_eq!(d[7], 0);
    assert_eq!(d[62], 0);
    assert_eq!(cpu.register(0xF), 0);
}

#[test]
fn draw_wraps_at_bottom_edge() {
    let mut cpu = machine(&[0xA050, 0x6000, 0x611F, 0xD012]);
    run(&mut cpu, 4);
    let d = cpu.display();
    assert_eq!(d[31 * 64], 1);
    assert_eq!(d[0], 1);
    assert_eq!(d[3], 1);
    assert_eq!(d[64], 0);
}

#[test]
fn draw_past_memory_end_fails() {
    let mut cpu = machine(&[0xAFFF, 0xD012]);
    run(&mut cpu, 1);
    assert_eq!(cpu.cycle(), Err(CpuError::OutOfBounds));
    assert_eq!(cpu.pc(), 0x202);
    assert!(!cpu.needs_redraw());
}

#[test]
fn clear_screen_then_halt_loop() {
    let mut cpu = machine(&[0xA050, 0xD005, 0x00E0, 0x1206]);
    run(&mut cpu, 2);
    cpu.clear_redraw();
    assert!(cpu.display().iter().any(|&c| c == 1));
    run(&mut cpu, 1);
    assert!(cpu.display().iter().all(|&c| c == 0));
    assert!(cpu.needs_redraw());
    assert_eq!(cpu.pc(), 0x206);
    run(&mut cpu, 5);
    assert_eq!(cpu.pc(), 0x206);
}

#[test]
fn single_clear_and_self_jump_program() {
    let mut cpu = machine(&[0x00E0, 0x1202]);
    run(&mut cpu, 1);
    assert!(cpu.display().iter().all(|&c| c == 0));
    assert!(cpu.needs_redraw());
    for _ in 0..10 {
        run(&mut cpu, 1);
        assert_eq!(cpu.pc(), 0x202);
    }
}

#[test]
fn bcd_then_register_transfer() {
    let mut cpu = machine(&[0x6A02, 0xFA33, 0xF065, 0xF155]);
    run(&mut cpu, 4);
    let i = cpu.index() as usize;
    assert_eq!(cpu.read(i), Ok(0));
    assert_eq!(cpu.read(i + 1), Ok(0));
    assert_eq!(cpu.read(i + 2), Ok(2));
}

#[test]
fn bcd_of_three_digit_value() {
    let mut cpu = machine(&[0xA300, 0x65EA, 0xF533]);
    run(&mut cpu, 3);
    assert_eq!(cpu.read(0x300), Ok(2));
    assert_eq!(cpu.read(0x301), Ok(3));
    assert_eq!(cpu.read(0x302), Ok(4));
}

#[test]
fn bcd_past_memory_end_fails() {
    let mut cpu = machine(&[0xAFFE, 0xF033]);
    run(&mut cpu, 1);
    assert_eq!(cpu.cycle(), Err(CpuError::OutOfBounds));
    assert_eq!(cpu.pc(), 0x202);
}

#[test]
fn store_and_load_registers() {
    let mut cpu = machine(&[0x6011, 0x6122, 0x6233, 0xA400, 0xF255, 0x6000, 0x6100, 0x6200, 0xF165]);
    run(&mut cpu, 9);
    assert_eq!(cpu.read(0x400), Ok(0x11));
    assert_eq!(cpu.read(0x401), Ok(0x22));
    assert_eq!(cpu.read(0x402), Ok(0x33));
    assert_eq!(cpu.read(0x403), Ok(0));
    assert_eq!(cpu.register(0), 0x11);
    assert_eq!(cpu.register(1), 0x22);
    assert_eq!(cpu.register(2), 0);
}

#[test]
fn register_transfer_past_memory_end_fails() {
    let mut cpu = machine(&[0xAFFE, 0xF255]);
    run(&mut cpu, 1);
    assert_eq!(cpu.cycle(), Err(CpuError::OutOfBounds));
    assert_eq!(cpu.read(0xFFE), Ok(0));
    let mut cpu = machine(&[0xAFFE, 0xF165]);
    run(&mut cpu, 1);
    assert_eq!(cpu.cycle(), Ok(Step::Executed));
}

#[test]
fn call_then_return_resumes_after_call() {
    let mut cpu = machine(&[0x2206, 0x1202, 0x0000, 0x00EE]);
    run(&mut cpu, 1);
    assert_eq!(cpu.pc(), 0x206);
    assert_eq!(cpu.stack_depth(), 1);
    run(&mut cpu, 1);
    assert_eq!(cpu.pc(), 0x202);
    assert_eq!(cpu.stack_depth(), 0);
}

fn nested_program(depth: usize) -> Cpu {
    // main calls level 0 at 0x300; level k at 0x300 + 4k calls level k+1,
    // then returns; the deepest level returns at once.
    let mut cpu = machine(&[0x2300, 0x1202]);
    for k in 0..depth {
        let at = 0x300 + 4 * k;
        let call = 0x2000 | (0x300 + 4 * (k + 1)) as u16;
        if k + 1 < depth {
            cpu.write(at, (call >> 8) as u8).unwrap();
            cpu.write(at + 1, (call & 0xFF) as u8).unwrap();
        } else {
            cpu.write(at, 0x00).unwrap();
            cpu.write(at + 1, 0xEE).unwrap();
        }
        cpu.write(at + 2, 0x00).unwrap();
        cpu.write(at + 3, 0xEE).unwrap();
    }
    cpu
}

#[test]
fn sixteen_nested_calls_return_in_order() {
    let mut cpu = nested_program(16);
    run(&mut cpu, 16);
    assert_eq!(cpu.stack_depth(), 16);
    assert_eq!(cpu.pc(), 0x300 + 4 * 15);
    run(&mut cpu, 1);
    assert_eq!(cpu.stack_depth(), 15);
    assert_eq!(cpu.pc(), 0x300 + 4 * 14 + 2);
    run(&mut cpu, 15);
    assert_eq!(cpu.stack_depth(), 0);
    assert_eq!(cpu.pc(), 0x202);
}

#[test]
fn seventeenth_nested_call_fails() {
    let mut cpu = nested_program(17);
    run(&mut cpu, 16);
    assert_eq!(cpu.stack_depth(), 16);
    let pc = cpu.pc();
    assert_eq!(cpu.cycle(), Err(CpuError::OutOfBounds));
    assert_eq!(cpu.pc(), pc);
    assert_eq!(cpu.stack_depth(), 16);
}

#[test]
fn return_on_empty_stack_fails() {
    let mut cpu = machine(&[0x00EE]);
    assert_eq!(cpu.cycle(), Err(CpuError::OutOfBounds));
    assert_eq!(cpu.pc(), 0x200);
}

#[test]
fn jumps_set_pc() {
    let mut cpu = machine(&[0x1300]);
    run(&mut cpu, 1);
    assert_eq!(cpu.pc(), 0x300);
    let mut cpu = machine(&[0x6004, 0xB300]);
    run(&mut cpu, 2);
    assert_eq!(cpu.pc(), 0x304);
}

#[test]
fn fetch_past_memory_end_fails() {
    let mut cpu = machine(&[0x1FFF]);
    run(&mut cpu, 1);
    assert_eq!(cpu.pc(), 0xFFF);
    assert_eq!(cpu.cycle(), Err(CpuError::OutOfBounds));
    assert_eq!(cpu.pc(), 0xFFF);
    let mut cpu = machine(&[0x1FFE]);
    run(&mut cpu, 2);
    assert_eq!(cpu.pc(), 0x1000);
    assert_eq!(cpu.cycle(), Err(CpuError::OutOfBounds));
}

#[test]
fn undefined_word_is_reported_and_skipped() {
    let mut cpu = machine(&[0x8008, 0xE0FF, 0xF0FF, 0x6001]);
    assert_eq!(cpu.cycle(), Err(CpuError::UnimplementedOpcode(0x8008)));
    assert_eq!(cpu.pc(), 0x202);
    assert_eq!(cpu.cycle(), Err(CpuError::UnimplementedOpcode(0xE0FF)));
    assert_eq!(cpu.cycle(), Err(CpuError::UnimplementedOpcode(0xF0FF)));
    run(&mut cpu, 1);
    assert_eq!(cpu.register(0), 1);
}

#[test]
fn index_operations() {
    let mut cpu = machine(&[0xA123, 0x6010, 0xF01E, 0x601A, 0xF029]);
    run(&mut cpu, 3);
    assert_eq!(cpu.index(), 0x133);
    run(&mut cpu, 2);
    assert_eq!(cpu.index(), 0x050 + 0xA * 5);
    let mut cpu = machine(&[0x601F, 0xF029]);
    run(&mut cpu, 2);
    assert_eq!(cpu.index(), 0x050 + 0xF * 5);
}

#[test]
fn random_byte_is_masked() {
    let mut cpu = machine(&[0xC0F0, 0xC100]);
    assert_eq!(cpu.cycle_with_random(0xAB), Ok(Step::Executed));
    assert_eq!(cpu.register(0), 0xA0);
    run(&mut cpu, 1);
    assert_eq!(cpu.register(1), 0);
}

#[test]
fn wait_key_blocks_until_a_key_is_held() {
    let mut cpu = machine(&[0xF30A]);
    assert_eq!(cpu.cycle(), Ok(Step::WaitingForKey));
    assert_eq!(cpu.pc(), 0x200);
    assert_eq!(cpu.cycle(), Ok(Step::WaitingForKey));
    cpu.set_key(9, true);
    cpu.set_key(5, true);
    run(&mut cpu, 1);
    assert_eq!(cpu.register(3), 5);
    assert_eq!(cpu.pc(), 0x202);
}

#[test]
fn key_skips_follow_keypad() {
    let mut cpu = machine(&[0x6007, 0xE09E, 0xE0A1, 0x0000, 0xE09E, 0x0000, 0xE0A1]);
    run(&mut cpu, 2);
    assert_eq!(cpu.pc(), 0x204);
    run(&mut cpu, 1);
    assert_eq!(cpu.pc(), 0x208);
    cpu.set_key(7, true);
    run(&mut cpu, 1);
    assert_eq!(cpu.pc(), 0x20C);
    run(&mut cpu, 1);
    assert_eq!(cpu.pc(), 0x20E);
    cpu.set_key(7, false);
}

#[test]
fn key_skip_on_key_above_fifteen_fails() {
    let mut cpu = machine(&[0x6010, 0xE09E]);
    run(&mut cpu, 1);
    assert_eq!(cpu.cycle(), Err(CpuError::OutOfBounds));
    assert_eq!(cpu.pc(), 0x202);
}

#[test]
fn timers_share_one_step_per_cycle() {
    let mut cpu = machine(&[0x6103, 0xF118, 0x6003, 0xF015, 0xF207, 0x120A]);
    run(&mut cpu, 2);
    assert_eq!(cpu.sound_timer(), 2);
    assert_eq!(cpu.delay_timer(), 0);
    run(&mut cpu, 2);
    assert_eq!(cpu.sound_timer(), 0);
    assert_eq!(cpu.delay_timer(), 3);
    run(&mut cpu, 1);
    assert_eq!(cpu.register(2), 3);
    assert_eq!(cpu.delay_timer(), 2);
    run(&mut cpu, 1);
    assert_eq!(cpu.delay_timer(), 1);
}

#[test]
fn frame_tick_steps_both_timers() {
    let mut cpu = machine(&[0x6003, 0xF015, 0xF018]);
    run(&mut cpu, 3);
    assert_eq!(cpu.sound_timer(), 2);
    assert_eq!(cpu.delay_timer(), 2);
    cpu.tick_timers();
    assert_eq!(cpu.sound_timer(), 1);
    assert_eq!(cpu.delay_timer(), 1);
    cpu.tick_timers();
    cpu.tick_timers();
    assert_eq!(cpu.sound_timer(), 0);
    assert_eq!(cpu.delay_timer(), 0);
}

#[test]
fn decode_selects_by_nibbles() {
    assert_eq!(decode(0x00E0), Some(Instruction::ClearScreen));
    assert_eq!(decode(0x00EE), Some(Instruction::Return));
    assert_eq!(decode(0x00E1), None);
    assert_eq!(decode(0x8AB4), Some(Instruction::Arith { op: ArithOp::Add, x: 0xA, y: 0xB }));
    assert_eq!(decode(0xD12F), Some(Instruction::Draw { x: 1, y: 2, n: 0xF }));
    assert_eq!(decode(0xF765), Some(Instruction::LoadRegs { x: 7 }));
    assert_eq!(decode(0xF745), None);
    assert_eq!(decode(0x5121), Some(Instruction::SkipIfEqualReg { x: 1, y: 2 }));
    assert_eq!(decode(0xBABC), Some(Instruction::JumpOffset { addr: 0xABC }));
}

#[test]
fn keyboard_layout_maps_to_keypad() {
    assert_eq!(keypad_index('1'), Some(0x1));
    assert_eq!(keypad_index('4'), Some(0xC));
    assert_eq!(keypad_index('q'), Some(0x4));
    assert_eq!(keypad_index('r'), Some(0xD));
    assert_eq!(keypad_index('x'), Some(0x0));
    assert_eq!(keypad_index('v'), Some(0xF));
    assert_eq!(keypad_index('5'), None);
    assert_eq!(keypad_index('Q'), None);
    let mut seen = [false; 16];
    for c in "1234qwerasdfzxcv".chars() {
        let k = keypad_index(c).unwrap();
        assert!(!seen[k]);
        seen[k] = true;
    }
}

#[test]
fn fault_stops_the_machine() {
    let mut cpu = machine(&[0x6003, 0x2300]);
    for k in 0..16 {
        cpu.write(0x300 + 2 * k, 0x23).unwrap();
        cpu.write(0x301 + 2 * k, (2 * k + 2) as u8).unwrap();
    }
    run(&mut cpu, 17);
    assert_eq!(cpu.stack_depth(), 16);
    let pc = cpu.pc();
    for _ in 0..3 {
        assert_eq!(cpu.cycle(), Err(CpuError::OutOfBounds));
        assert_eq!(cpu.pc(), pc);
        assert_eq!(cpu.stack_depth(), 16);
        assert_eq!(cpu.register(0), 3);
    }
}
