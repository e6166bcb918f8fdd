//! The processor: registers, call stack, timers, and the memory, screen and
//! keypad it works on.

use crate::display::{DisplayBuffer, DisplayMode};
use crate::input::{no_keys, Keyboard};
use crate::machine::{Machine, TIMER_PERIOD_NANOS};
use crate::memory::Memory;
use crate::screen::{blank, has_shape};
use std::time::{Duration, Instant};
use vstd::prelude::*;

verus! {

/// A reading of the host's monotonic clock, `std::time::Instant`. Nothing is
/// known of what a reading holds.
#[verifier::external_type_specification]
#[verifier::external_body]
pub struct ExInstant(Instant);

/// Reads the host's monotonic clock: `Instant::now`. Nothing is claimed of
/// the reading.
#[verifier::external_body]
fn clock_now() -> Instant {
    Instant::now()
}

/// The time that has passed since `start` was read: `Instant::elapsed`.
/// Nothing is claimed of it.
#[verifier::external_body]
fn clock_elapsed(start: &Instant) -> Duration {
    start.elapsed()
}

/// The whole nanoseconds that `span` holds: `Duration::as_nanos`. Nothing is
/// claimed of the number.
#[verifier::external_body]
fn span_nanos(span: &Duration) -> u128 {
    span.as_nanos()
}

/// Chip-8 CPU. Contains all Registers and Memory included in the CHIP-8 System.
pub struct CPU {
    /// Memory the CPU is operating on
    pub mem: Memory,
    /// Function Stack - Array of 16x16-bit values (16 words)
    pub stack: [u16; 16],
    /// General purpose registers - 16x8-bit registers stored as u8 array.
    /// The last, VF, doubles as the flag register: the interpreter sets it to
    /// 1 on a carry, on a subtraction without borrow and on a pixel
    /// collision, to 0 otherwise, and to the bit that a shift pushes out.
    pub gp_regs: [u8; 16],
    /// Index Register - Single 16-bit register commonly used to store addresses
    pub i_reg: u16,
    /// Delay Register - When non-zero, counts down at 60hz
    pub delay_reg: u8,
    /// Sound Register - When non-zero, counts down at 60hz. Tone is played while value is non-zero.
    pub sound_reg: u8,
    /// Program Counter - Single 16-bit register that points to the current memory instruction
    pub pc_reg: u16,
    /// Stack Register - Single 8-bit register that points to the address of the top of the stack.
    pub stack_pointer_reg: u8,
    /// Timestamp used to track delay register update: nanoseconds on the
    /// CPU's clock at the last decrement
    pub delay_reg_timestamp: u128,
    /// Timestamp used to track sound register update: nanoseconds on the
    /// CPU's clock at the last decrement
    pub sound_register_timestamp: u128,
    /// The moment at which the CPU's clock started
    pub clock_start: Instant,
    /// Display Buffer of this CPU
    pub display_buffer: DisplayBuffer,
    /// Keyboard linked to CPU
    pub keyboard: Keyboard,
}

impl View for CPU {
    type V = Machine;

    /// The state of the machine. The clock is no part of it: its readings
    /// come from outside.
    open spec fn view(&self) -> Machine {
        Machine {
            mem: self.mem@,
            stack: self.stack@,
            regs: self.gp_regs@,
            index: self.i_reg,
            delay: self.delay_reg,
            sound: self.sound_reg,
            pc: self.pc_reg,
            sp: self.stack_pointer_reg,
            delay_stamp: self.delay_reg_timestamp,
            sound_stamp: self.sound_register_timestamp,
            screen: self.display_buffer@,
            keys: self.keyboard@,
        }
    }
}

/// The state of a machine that was just made for `mode`: everything at 0,
/// every pixel off and no key down.
pub open spec fn initial(mode: DisplayMode) -> Machine {
    Machine {
        mem: Seq::new(4096, |i: int| 0u8),
        stack: Seq::new(16, |i: int| 0u16),
        regs: Seq::new(16, |i: int| 0u8),
        index: 0,
        delay: 0,
        sound: 0,
        pc: 0,
        sp: 0,
        delay_stamp: 0,
        sound_stamp: 0,
        screen: blank(mode),
        keys: no_keys(),
    }
}

impl CPU {
    /// The state of a CPU always has the sizes of the machine.
    pub proof fn lemma_view_wf(&self)
        ensures
            self@.wf(),
    {
        assert(has_shape(self@.screen, self.display_buffer.mode()));
    }

    /// Makes a CPU for `display_mode` with everything at 0, and starts its clock.
    pub fn new(display_mode: DisplayMode) -> (cpu: CPU)
        ensures
            cpu@ == initial(display_mode),
            cpu.display_buffer.mode() == display_mode,
    {
        let cpu = CPU {
            mem: Memory::new(),
            stack: [0; 16],
            gp_regs: [0; 16],
            i_reg: 0,
            delay_reg: 0,
            sound_reg: 0,
            pc_reg: 0,
            stack_pointer_reg: 0,
            delay_reg_timestamp: 0,
            sound_register_timestamp: 0,
            clock_start: clock_now(),
            display_buffer: DisplayBuffer::new(display_mode),
            keyboard: Keyboard::new(),
        };
        assert(cpu@.stack =~= initial(display_mode).stack);
        assert(cpu@.regs =~= initial(display_mode).regs);
        cpu
    }

    /// Checks the two timers against the clock reading `now`, in nanoseconds:
    /// a timer above 0 whose last decrement lies more than a sixtieth of a
    /// second before `now` goes down by one and takes `now` as its last
    /// decrement.
    pub fn update_time_registers_at(&mut self, now: u128)
        ensures
            final(self)@ == old(self)@.tick(now),
    {
        if self.delay_reg > 0 {
            if now > self.delay_reg_timestamp && now - self.delay_reg_timestamp
                > TIMER_PERIOD_NANOS {
                self.delay_reg -= 1;
                self.delay_reg_timestamp = now;
            }
        }
        if self.sound_reg > 0 {
            if now > self.sound_register_timestamp && now - self.sound_register_timestamp
                > TIMER_PERIOD_NANOS {
                self.sound_reg -= 1;
                self.sound_register_timestamp = now;
            }
        }
    }

    /// Checks if it is time to decrement the delay and sound register (60hz):
    /// reads the CPU's clock and checks the two timers against the reading.
    pub fn update_time_registers(&mut self)
        ensures
            exists|now: u128| final(self)@ == #[trigger] old(self)@.tick(now),
    {
        let elapsed = clock_elapsed(&self.clock_start);
        let now = span_nanos(&elapsed);
        self.update_time_registers_at(now);
    }
}

} // verus!
