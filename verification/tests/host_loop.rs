use chip8::cpu::CPU;
use chip8::display::DisplayMode;
use chip8::error::Chip8Error;
use chip8::input::{ChipKeys, Input, KeyPress, Keyboard};
use chip8::instructions::execute;

/// An input source that plays back what a keyboard would have shown.
struct Script {
    observations: Vec<Option<KeyPress>>,
    next: usize,
}

impl Script {
    fn of(observations: Vec<Option<KeyPress>>) -> Script {
        Script { observations, next: 0 }
    }
}

impl Input for Script {
    fn update(&mut self, keyboard: &mut Keyboard) {
        let observed = if self.next < self.observations.len() {
            self.observations[self.next]
        } else {
            None
        };
        self.next += 1;
        keyboard.update(observed);
    }
}

/// Runs cycles as a host does, reading the keypad before each, until the
/// exit key is down, the machine stops or `limit` cycles are done. The host's
/// `clock`, in nanoseconds, moves on by a millisecond with every cycle.
/// Returns the number of cycles done, the number of redraws asked for, and
/// the error if the machine stopped.
fn run_on(
    cpu: &mut CPU,
    input: &mut dyn Input,
    limit: usize,
    clock: &mut u128,
) -> (usize, usize, Option<Chip8Error>) {
    let mut cycles = 0;
    let mut redraws = 0;
    while cycles < limit {
        input.update(&mut cpu.keyboard);
        if cpu.keyboard.is_key_pressed(ChipKeys::ESC) {
            break;
        }
        match execute(cpu) {
            Ok(true) => redraws += 1,
            Ok(false) => {}
            Err(error) => return (cycles, redraws, Some(error)),
        }
        cycles += 1;
        *clock += 1_000_000;
        cpu.update_time_registers_at(*clock);
    }
    (cycles, redraws, None)
}

/// Runs cycles as `run_on` does, with a clock that starts at 0.
fn run(cpu: &mut CPU, input: &mut dyn Input, limit: usize) -> (usize, usize, Option<Chip8Error>) {
    let mut clock = 0;
    run_on(cpu, input, limit, &mut clock)
}

fn machine_with(program: &[u8]) -> CPU {
    let mut cpu = CPU::new(DisplayMode::H64V32MONOCHROME);
    cpu.mem.load_ascii_fonts();
    cpu.mem.load_program(program);
    cpu.pc_reg = 0x200;
    cpu
}

#[test]
fn wait_for_key_goes_on_when_the_host_sees_a_key() {
    // F10A: wait for a key into V1; F129: point I at its glyph; D005: draw it;
    // 1206: stay
    let mut cpu = machine_with(&[0xF1, 0x0A, 0xF1, 0x29, 0xD0, 0x05, 0x12, 0x06]);
    let mut input = Script::of(vec![
        None,
        None,
        Some(KeyPress::Char('p')),
        None,
        Some(KeyPress::Char('r')),
        None,
        None,
        None,
        Some(KeyPress::Esc),
    ]);
    let (cycles, redraws, error) = run(&mut cpu, &mut input, 100);
    assert_eq!(error, None);
    // four cycles wait, the fifth takes the key, three more run on
    assert_eq!(cycles, 8);
    assert_eq!(redraws, 1);
    assert_eq!(cpu.gp_regs[1], 0xD);
    assert_eq!(cpu.i_reg, 5 * 0xD);
    assert_eq!(cpu.pc_reg, 0x206);
    // the glyph of D at the top left: E0 90 90 90 E0
    for (row, byte) in [0xE0u8, 0x90, 0x90, 0x90, 0xE0].iter().enumerate() {
        for bit in 0..8 {
            assert_eq!(
                cpu.display_buffer.get_pixel(bit, row as i32),
                byte & (0x80 >> bit) != 0
            );
        }
    }
}

#[test]
fn wait_for_key_waits_as_long_as_no_key_comes() {
    let mut cpu = machine_with(&[0xF1, 0x0A]);
    let mut input = Script::of(vec![]);
    let (cycles, redraws, error) = run(&mut cpu, &mut input, 1_000);
    assert_eq!((cycles, redraws, error), (1_000, 0, None));
    assert_eq!(cpu.pc_reg, 0x200);
    assert_eq!(cpu.gp_regs, [0; 16]);
}

#[test]
fn exit_key_ends_the_run_before_the_cycle() {
    let mut cpu = machine_with(&[0x60, 0x01, 0x61, 0x02, 0x62, 0x03]);
    let mut input = Script::of(vec![None, Some(KeyPress::Esc), None]);
    let (cycles, _, error) = run(&mut cpu, &mut input, 100);
    assert_eq!((cycles, error), (1, None));
    assert_eq!(&cpu.gp_regs[0..3], &[1, 0, 0]);
    assert_eq!(cpu.pc_reg, 0x202);
}

#[test]
fn unsupported_instruction_ends_the_run() {
    let mut cpu = machine_with(&[0x60, 0x01, 0x80, 0x0F, 0x61, 0x02]);
    let mut input = Script::of(vec![]);
    let (cycles, _, error) = run(&mut cpu, &mut input, 100);
    assert_eq!(cycles, 1);
    assert_eq!(
        error,
        Some(Chip8Error::UnsupportedInstruction { instruction: 0x800F, pc: 0x202 })
    );
    assert_eq!(cpu.pc_reg, 0x202);
    assert_eq!(cpu.gp_regs[1], 0);
}

#[test]
fn delay_loop_takes_as_long_as_the_clock_says() {
    // 6003: V0 = 3; F015: delay = V0; F007: V0 = delay; 3000: skip if V0 == 0;
    // 1204: back to F007; 1200 + 10: stay at the end
    let mut cpu = machine_with(&[
        0x60, 0x03, 0xF0, 0x15, 0xF0, 0x07, 0x30, 0x00, 0x12, 0x04, 0x12, 0x0A,
    ]);
    let mut input = Script::of(vec![]);
    // the host's clock moves a millisecond per cycle: a timer step takes 17 cycles
    let mut clock = 0;
    let (cycles, _, error) = run_on(&mut cpu, &mut input, 40, &mut clock);
    assert_eq!((cycles, error), (40, None));
    assert_eq!((cpu.delay_reg, cpu.delay_reg_timestamp), (1, 34_000_000));
    let (_, _, error) = run_on(&mut cpu, &mut input, 10, &mut clock);
    assert_eq!(error, None);
    assert_eq!(cpu.delay_reg, 1);
    let (_, _, error) = run_on(&mut cpu, &mut input, 10, &mut clock);
    assert_eq!(error, None);
    assert_eq!((cpu.delay_reg, cpu.delay_reg_timestamp), (0, 51_000_000));
    assert_eq!(cpu.gp_regs[0], 0);
    assert_eq!(cpu.pc_reg, 0x20A);
}
