use chip8::cpu::CPU;
use chip8::display::DisplayMode;
use chip8::instructions::execute;
use chip8::machine::TIMER_PERIOD_NANOS;

#[test]
fn timer_period_is_a_sixtieth_of_a_second() {
    assert_eq!(TIMER_PERIOD_NANOS, 16_666_000);
}

#[test]
fn timer_goes_down_only_after_more_than_a_period() {
    let mut cpu = CPU::new(DisplayMode::H64V32MONOCHROME);
    cpu.delay_reg = 3;
    cpu.delay_reg_timestamp = 1_000;
    cpu.update_time_registers_at(1_000 + 16_666_000);
    assert_eq!((cpu.delay_reg, cpu.delay_reg_timestamp), (3, 1_000));
    cpu.update_time_registers_at(1_000 + 16_666_001);
    assert_eq!((cpu.delay_reg, cpu.delay_reg_timestamp), (2, 16_667_001));
    // the period is counted from the last decrement
    cpu.update_time_registers_at(16_667_001 + 16_666_000);
    assert_eq!(cpu.delay_reg, 2);
    cpu.update_time_registers_at(16_667_001 + 16_666_001);
    assert_eq!((cpu.delay_reg, cpu.delay_reg_timestamp), (1, 33_333_002));
}

#[test]
fn timer_goes_down_by_one_however_late_the_check() {
    let mut cpu = CPU::new(DisplayMode::H64V32MONOCHROME);
    cpu.delay_reg = 200;
    cpu.sound_reg = 100;
    cpu.update_time_registers_at(10_000_000_000);
    assert_eq!((cpu.delay_reg, cpu.sound_reg), (199, 99));
    assert_eq!(cpu.delay_reg_timestamp, 10_000_000_000);
    assert_eq!(cpu.sound_register_timestamp, 10_000_000_000);
}

#[test]
fn timer_at_zero_stays_and_keeps_its_timestamp() {
    let mut cpu = CPU::new(DisplayMode::H64V32MONOCHROME);
    cpu.sound_reg = 1;
    cpu.update_time_registers_at(20_000_000);
    assert_eq!((cpu.delay_reg, cpu.sound_reg), (0, 0));
    assert_eq!(cpu.delay_reg_timestamp, 0);
    assert_eq!(cpu.sound_register_timestamp, 20_000_000);
    cpu.update_time_registers_at(60_000_000);
    assert_eq!((cpu.delay_reg, cpu.sound_reg), (0, 0));
    assert_eq!(cpu.sound_register_timestamp, 20_000_000);
}

#[test]
fn the_two_timers_are_clocked_apart() {
    let mut cpu = CPU::new(DisplayMode::H64V32MONOCHROME);
    cpu.delay_reg = 5;
    cpu.sound_reg = 5;
    cpu.delay_reg_timestamp = 0;
    cpu.sound_register_timestamp = 10_000_000;
    cpu.update_time_registers_at(20_000_000);
    assert_eq!((cpu.delay_reg, cpu.sound_reg), (4, 5));
    cpu.update_time_registers_at(30_000_000);
    assert_eq!((cpu.delay_reg, cpu.sound_reg), (4, 4));
    assert_eq!(cpu.delay_reg_timestamp, 20_000_000);
    assert_eq!(cpu.sound_register_timestamp, 30_000_000);
}

#[test]
fn clock_reading_before_the_last_decrement_changes_nothing() {
    let mut cpu = CPU::new(DisplayMode::H64V32MONOCHROME);
    cpu.delay_reg = 9;
    cpu.delay_reg_timestamp = 1_000_000_000;
    cpu.update_time_registers_at(5);
    assert_eq!((cpu.delay_reg, cpu.delay_reg_timestamp), (9, 1_000_000_000));
    cpu.update_time_registers_at(u128::MAX);
    assert_eq!((cpu.delay_reg, cpu.delay_reg_timestamp), (8, u128::MAX));
}

#[test]
fn timer_check_changes_nothing_but_the_timers() {
    let mut cpu = CPU::new(DisplayMode::H64V32MONOCHROME);
    cpu.mem.load_ascii_fonts();
    cpu.gp_regs[3] = 7;
    cpu.i_reg = 0x234;
    cpu.pc_reg = 0x200;
    cpu.delay_reg = 2;
    cpu.update_time_registers_at(17_000_000);
    assert_eq!(cpu.delay_reg, 1);
    assert_eq!(cpu.gp_regs[3], 7);
    assert_eq!(cpu.i_reg, 0x234);
    assert_eq!(cpu.pc_reg, 0x200);
    assert_eq!(cpu.mem.mem[0], 0xF0);
}

#[test]
fn ten_thousand_cycles_within_a_millisecond_cost_one_decrement_at_most() {
    // 0x200: 7001 (V0 += 1), 0x202: 1200 (jump to 0x200)
    let mut cpu = CPU::new(DisplayMode::H64V32MONOCHROME);
    cpu.mem.load_program(&[0x70, 0x01, 0x12, 0x00]);
    cpu.pc_reg = 0x200;
    cpu.delay_reg = 50;
    cpu.sound_reg = 1;
    let start: u128 = 123_456_789_000;
    for cycle in 0..10_000u128 {
        assert_eq!(execute(&mut cpu), Ok(false));
        // 10,000 readings of the clock, 100 ns apart
        cpu.update_time_registers_at(start + cycle * 100);
    }
    assert_eq!(cpu.delay_reg, 49);
    assert_eq!(cpu.sound_reg, 0);
    assert_eq!(cpu.gp_regs[0], (5_000 % 256) as u8);

    // with timers that went down just before, nothing goes down at all
    cpu.delay_reg = 50;
    for cycle in 0..10_000u128 {
        assert_eq!(execute(&mut cpu), Ok(false));
        cpu.update_time_registers_at(start + 1_000_000 + cycle * 100);
    }
    assert_eq!(cpu.delay_reg, 50);
}

#[test]
fn cycles_alone_never_move_a_timer() {
    let mut cpu = CPU::new(DisplayMode::H64V32MONOCHROME);
    cpu.mem.load_program(&[0x70, 0x01, 0x12, 0x00]);
    cpu.pc_reg = 0x200;
    cpu.delay_reg = 50;
    cpu.sound_reg = 20;
    for _ in 0..10_000 {
        assert_eq!(execute(&mut cpu), Ok(false));
    }
    assert_eq!((cpu.delay_reg, cpu.sound_reg), (50, 20));
    assert_eq!((cpu.delay_reg_timestamp, cpu.sound_register_timestamp), (0, 0));
}

#[test]
fn timers_on_the_host_clock_go_down_by_one_at_most() {
    let mut cpu = CPU::new(DisplayMode::H64V32MONOCHROME);
    cpu.delay_reg = 200;
    cpu.sound_reg = 0;
    let mut last = cpu.delay_reg;
    for _ in 0..1_000 {
        cpu.update_time_registers();
        assert!(cpu.delay_reg == last || cpu.delay_reg + 1 == last);
        last = cpu.delay_reg;
        assert_eq!(cpu.sound_reg, 0);
    }
}

#[test]
fn timers_on_the_host_clock_go_down_in_time() {
    let mut cpu = CPU::new(DisplayMode::H64V32MONOCHROME);
    cpu.delay_reg = 3;
    cpu.sound_reg = 1;
    let started = std::time::Instant::now();
    while started.elapsed() < std::time::Duration::from_millis(120) {
        cpu.update_time_registers();
    }
    // six periods have passed: both timers have run out
    assert_eq!((cpu.delay_reg, cpu.sound_reg), (0, 0));
}
