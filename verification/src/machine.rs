//! The mathematical model of the virtual machine: its state as plain values,
//! what each instruction makes of a state, and what one cycle does.
//!
//! Registers are named V0 to VF. VF is the last of the sixteen general
//! registers and doubles as the flag register: an instruction that sets a flag
//! writes VF first and its result second, so where the result goes to VF
//! itself the result stays. Operands are read before anything is written.
//! Every memory address is taken modulo 4096, and the program counter and the
//! index register wrap at 16 bits.

use crate::error::Chip8Error;
use crate::input::active_keys;
use crate::memory::{glyph, has_font, lemma_glyph_address};
use crate::screen::{
    blank, blit, cleared, collides, has_set_bit, has_shape, lemma_blit_shape, lemma_draw_then_erase,
};
use crate::display::DisplayMode;
use vstd::prelude::*;

verus! {

/// Time between two decrements of a timer, in nanoseconds: a sixtieth of a
/// second.
pub const TIMER_PERIOD_NANOS: u128 = 16_666_000;

/// The state of the virtual machine.
pub struct Machine {
    /// The 4096 bytes of memory, by address.
    pub mem: Seq<u8>,
    /// The 16 entries of the call stack.
    pub stack: Seq<u16>,
    /// The 16 general registers V0 to VF.
    pub regs: Seq<u8>,
    /// The index register I.
    pub index: u16,
    /// The delay timer.
    pub delay: u8,
    /// The sound timer.
    pub sound: u8,
    /// The program counter.
    pub pc: u16,
    /// The stack pointer: the stack entry of the innermost call, 0 when no
    /// call is outstanding.
    pub sp: u8,
    /// The clock reading at which the delay timer was last decremented.
    pub delay_stamp: u128,
    /// The clock reading at which the sound timer was last decremented.
    pub sound_stamp: u128,
    /// The screen, row by row.
    pub screen: Seq<Seq<bool>>,
    /// The 17 flags of the keypad, in keypad order.
    pub keys: Seq<bool>,
}

/// `v` as a 16-bit register holds it.
pub open spec fn wrap16(v: int) -> u16 {
    (v % 0x1_0000) as u16
}

/// `v` as an 8-bit register holds it.
pub open spec fn wrap8(v: int) -> u8 {
    (v % 0x100) as u8
}

/// The address in memory that `addr` stands for.
pub open spec fn resolve(addr: int) -> int {
    addr % 4096
}

/// The `n` bytes that memory holds from address `start` on.
pub open spec fn bytes_at(mem: Seq<u8>, start: int, n: int) -> Seq<u8> {
    Seq::new(n as nat, |k: int| mem[resolve(start + k)])
}

/// How many bytes after address `start` the address `addr` lies, going on
/// from the last address at address 0.
pub open spec fn distance(start: int, addr: int) -> int {
    (addr - start) % 4096
}

/// Whether the key of the hexadecimal keypad with value `value` is down.
pub open spec fn key_down(keys: Seq<bool>, value: u8) -> bool {
    value <= 0xF && keys[value as int]
}

impl Machine {
    /// Whether the parts of the state have the sizes of the machine.
    pub open spec fn wf(self) -> bool {
        &&& self.mem.len() == 4096
        &&& self.stack.len() == 16
        &&& self.regs.len() == 16
        &&& self.keys.len() == 17
        &&& exists|mode: DisplayMode| has_shape(self.screen, mode)
    }

    /// The two bytes at the program counter, the first in the high half.
    pub open spec fn instruction(self) -> u16 {
        (self.mem[resolve(self.pc as int)] * 256 + self.mem[resolve(self.pc + 1)]) as u16
    }

    /// The state with the program counter at `pc`.
    pub open spec fn with_pc(self, pc: u16) -> Machine {
        Machine { pc, ..self }
    }

    /// The state with `value` in register `x`.
    pub open spec fn with_reg(self, x: int, value: u8) -> Machine {
        Machine { regs: self.regs.update(x, value), ..self }
    }

    /// The state with VF at 1 if `flag` holds, and at 0 if not.
    pub open spec fn with_flag(self, flag: bool) -> Machine {
        self.with_reg(
            0xF,
            if flag {
                1u8
            } else {
                0u8
            },
        )
    }

    /// The state with the program counter moved past one instruction.
    pub open spec fn advance(self) -> Machine {
        self.with_pc(wrap16(self.pc + 2))
    }

    /// The state with the next instruction skipped if `cond` holds.
    pub open spec fn skip_if(self, cond: bool) -> Machine {
        if cond {
            self.advance()
        } else {
            self
        }
    }

    /// 00E0: every pixel goes off.
    pub open spec fn cls(self) -> Machine {
        Machine { screen: cleared(self.screen), ..self }
    }

    /// Why 00EE cannot be done in this state, if it cannot.
    pub open spec fn ret_fault(self) -> Option<Chip8Error> {
        if self.sp == 0 {
            Some(Chip8Error::StackUnderflow)
        } else if self.sp > 15 {
            Some(Chip8Error::StackOverflow)
        } else {
            None
        }
    }

    /// 00EE: the program goes on at the address on top of the stack, and the
    /// stack is one entry shorter.
    pub open spec fn ret(self) -> Machine {
        Machine { pc: self.stack[self.sp as int], sp: (self.sp - 1) as u8, ..self }
    }

    /// 1nnn: the program goes on at `nnn`.
    pub open spec fn jump(self, nnn: u16) -> Machine {
        self.with_pc(nnn)
    }

    /// Why 2nnn cannot be done in this state, if it cannot.
    pub open spec fn call_fault(self) -> Option<Chip8Error> {
        if self.sp >= 15 {
            Some(Chip8Error::StackOverflow)
        } else {
            None
        }
    }

    /// 2nnn: the program counter goes on top of the stack, and the program
    /// goes on at `nnn`.
    pub open spec fn call(self, nnn: u16) -> Machine {
        Machine {
            sp: (self.sp + 1) as u8,
            stack: self.stack.update(self.sp + 1, self.pc),
            pc: nnn,
            ..self
        }
    }

    /// 3xkk: skip if Vx is `kk`.
    pub open spec fn skip_equal(self, x: int, kk: u8) -> Machine {
        self.skip_if(self.regs[x] == kk)
    }

    /// 4xkk: skip if Vx is not `kk`.
    pub open spec fn skip_not_equal(self, x: int, kk: u8) -> Machine {
        self.skip_if(self.regs[x] != kk)
    }

    /// 5xy0: skip if Vx is Vy.
    pub open spec fn skip_equal_xy(self, x: int, y: int) -> Machine {
        self.skip_if(self.regs[x] == self.regs[y])
    }

    /// 9xy0: skip if Vx is not Vy.
    pub open spec fn skip_not_equal_xy(self, x: int, y: int) -> Machine {
        self.skip_if(self.regs[x] != self.regs[y])
    }

    /// 6xkk: Vx becomes `kk`.
    pub open spec fn load(self, x: int, kk: u8) -> Machine {
        self.with_reg(x, kk)
    }

    /// 7xkk: `kk` is added to Vx, which wraps at 8 bits. VF is left alone.
    pub open spec fn add_byte(self, x: int, kk: u8) -> Machine {
        self.with_reg(x, wrap8(self.regs[x] + kk))
    }

    /// 8xy0: Vx becomes Vy.
    pub open spec fn load_xy(self, x: int, y: int) -> Machine {
        self.with_reg(x, self.regs[y])
    }

    /// 8xy1: Vx becomes Vx OR Vy.
    pub open spec fn bitwise_or(self, x: int, y: int) -> Machine {
        self.with_reg(x, self.regs[y] | self.regs[x])
    }

    /// 8xy2: Vx becomes Vx AND Vy.
    pub open spec fn bitwise_and(self, x: int, y: int) -> Machine {
        self.with_reg(x, self.regs[y] & self.regs[x])
    }

    /// 8xy3: Vx becomes Vx XOR Vy.
    pub open spec fn bitwise_xor(self, x: int, y: int) -> Machine {
        self.with_reg(x, self.regs[y] ^ self.regs[x])
    }

    /// 8xy4: VF tells whether Vx + Vy is above 255, and Vx becomes the sum
    /// modulo 256.
    pub open spec fn add_xy(self, x: int, y: int) -> Machine {
        let sum = self.regs[x] + self.regs[y];
        self.with_flag(sum > 255).with_reg(x, wrap8(sum))
    }

    /// 8xy5: VF tells whether Vx is above Vy, and Vx becomes Vx - Vy modulo 256.
    pub open spec fn sub_xy(self, x: int, y: int) -> Machine {
        self.with_flag(self.regs[x] > self.regs[y]).with_reg(
            x,
            wrap8(self.regs[x] - self.regs[y]),
        )
    }

    /// 8xy6: VF becomes the lowest bit of Vx, and Vx is halved.
    pub open spec fn shift_right(self, x: int) -> Machine {
        self.with_flag(self.regs[x] % 2 == 1).with_reg(x, self.regs[x] / 2)
    }

    /// 8xy7: VF tells whether Vy is above Vx, and Vx becomes Vy - Vx modulo 256.
    pub open spec fn sub_yx(self, x: int, y: int) -> Machine {
        self.with_flag(self.regs[y] > self.regs[x]).with_reg(
            x,
            wrap8(self.regs[y] - self.regs[x]),
        )
    }

    /// 8xyE: VF becomes the highest bit of Vx, and Vx is doubled modulo 256.
    pub open spec fn shift_left(self, x: int) -> Machine {
        self.with_flag(self.regs[x] >= 128).with_reg(x, wrap8(self.regs[x] * 2))
    }

    /// Annn: I becomes `nnn`.
    pub open spec fn load_i(self, nnn: u16) -> Machine {
        Machine { index: nnn, ..self }
    }

    /// Bnnn: the program goes on at `nnn` + V0.
    pub open spec fn jump_v0(self, nnn: u16) -> Machine {
        self.with_pc(wrap16(nnn + self.regs[0]))
    }

    /// Cxkk: Vx becomes `random` AND `kk`.
    pub open spec fn rand(self, x: int, kk: u8, random: u8) -> Machine {
        self.with_reg(x, random & kk)
    }

    /// The sprite of `n` rows that I points at.
    pub open spec fn sprite(self, n: int) -> Seq<u8> {
        bytes_at(self.mem, self.index as int, n)
    }

    /// Dxyn: the sprite of `n` rows that I points at is drawn at (Vx, Vy), and
    /// VF tells whether a pixel went off.
    pub open spec fn draw(self, x: int, y: int, n: int) -> Machine {
        let sprite = self.sprite(n);
        let left = self.regs[x] as int;
        let top = self.regs[y] as int;
        Machine {
            screen: blit(self.screen, left, top, sprite),
            ..self.with_flag(collides(self.screen, left, top, sprite))
        }
    }

    /// Ex9E: skip if the key with the value of Vx is down.
    pub open spec fn skip_if_key(self, x: int) -> Machine {
        self.skip_if(key_down(self.keys, self.regs[x]))
    }

    /// ExA1: skip if the key with the value of Vx is not down.
    pub open spec fn skip_not_key(self, x: int) -> Machine {
        self.skip_if(!key_down(self.keys, self.regs[x]))
    }

    /// Fx07: Vx becomes the delay timer.
    pub open spec fn load_delay_to_vx(self, x: int) -> Machine {
        self.with_reg(x, self.delay)
    }

    /// Whether a key is down, the exit key counted.
    pub open spec fn key_waiting(self) -> bool {
        active_keys(self.keys).len() > 0
    }

    /// Fx0A where a key is down: Vx becomes the value of the first key in
    /// keypad order that is down.
    pub open spec fn wait_for_key(self, x: int) -> Machine {
        self.with_reg(x, active_keys(self.keys)[0].hex())
    }

    /// Fx15: the delay timer becomes Vx.
    pub open spec fn load_delay_timer(self, x: int) -> Machine {
        Machine { delay: self.regs[x], ..self }
    }

    /// Fx18: the sound timer becomes Vx.
    pub open spec fn load_sound_timer(self, x: int) -> Machine {
        Machine { sound: self.regs[x], ..self }
    }

    /// Fx1E: Vx is added to I, which wraps at 16 bits.
    pub open spec fn add_i_vx(self, x: int) -> Machine {
        Machine { index: wrap16(self.index + self.regs[x]), ..self }
    }

    /// Fx29: I becomes the address of the glyph for the value of Vx.
    pub open spec fn load_ascii_address(self, x: int) -> Machine {
        Machine { index: (self.regs[x] * 5) as u16, ..self }
    }

    /// Fx33: the hundreds, tens and ones of Vx go to the three bytes that I
    /// points at.
    pub open spec fn load_bcd(self, x: int) -> Machine {
        let value = self.regs[x];
        Machine {
            mem: self.mem.update(resolve(self.index as int), value / 100).update(
                resolve(self.index + 1),
                (value % 100) / 10,
            ).update(resolve(self.index + 2), value % 10),
            ..self
        }
    }

    /// Fx55: V0 to Vx go to the bytes that I points at.
    pub open spec fn store_regs(self, x: int) -> Machine {
        Machine {
            mem: Seq::new(
                4096,
                |addr: int|
                    if distance(self.index as int, addr) <= x {
                        self.regs[distance(self.index as int, addr)]
                    } else {
                        self.mem[addr]
                    },
            ),
            ..self
        }
    }

    /// Fx65: V0 to Vx become the bytes that I points at.
    pub open spec fn load_regs(self, x: int) -> Machine {
        Machine {
            regs: Seq::new(
                16,
                |k: int|
                    if k <= x {
                        self.mem[resolve(self.index + k)]
                    } else {
                        self.regs[k]
                    },
            ),
            ..self
        }
    }

    /// The outcome of a cycle that ends in this state and asks for no redraw.
    pub open spec fn carries_on(self) -> (Machine, Result<bool, Chip8Error>) {
        (self, Ok(false))
    }

    /// The outcome of a cycle that could not be done: the state stays as it
    /// was, and `fault` says why.
    pub open spec fn stops(self, fault: Chip8Error) -> (Machine, Result<bool, Chip8Error>) {
        (self, Err(fault))
    }

    /// The outcome of a cycle that meets two bytes that are no instruction.
    pub open spec fn unsupported(self) -> (Machine, Result<bool, Chip8Error>) {
        self.stops(Chip8Error::UnsupportedInstruction { instruction: self.instruction(), pc: self.pc })
    }

    /// What one cycle makes of the state, and what it reports: the state
    /// after the instruction at the program counter, with `Ok(true)` if the
    /// instruction drew on the screen and `Ok(false)` if it did something
    /// else; or the state as it was, with the error, if the cycle could not be
    /// done. `random` is the byte that Cxkk draws.
    ///
    /// The program counter is moved past the instruction before the
    /// instruction is executed, so jumps, calls and returns overwrite the
    /// moved counter and skips move it once more. Fx0A with no key down
    /// leaves the state as it was: the cycle is not done, and the next finds
    /// the same instruction.
    pub open spec fn step(self, random: u8) -> (Machine, Result<bool, Chip8Error>) {
        let high = self.mem[resolve(self.pc as int)];
        let low = self.mem[resolve(self.pc + 1)];
        let family = high / 16;
        let x = (high % 16) as int;
        let y = (low / 16) as int;
        let n = (low % 16) as int;
        let kk = low;
        let nnn = ((high % 16) * 256 + low) as u16;
        let next = self.advance();
        if family == 0x0 {
            if high == 0x00 && low == 0xE0 {
                next.cls().carries_on()
            } else if high == 0x00 && low == 0xEE {
                match next.ret_fault() {
                    Some(fault) => self.stops(fault),
                    None => next.ret().carries_on(),
                }
            } else {
                next.carries_on()
            }
        } else if family == 0x1 {
            next.jump(nnn).carries_on()
        } else if family == 0x2 {
            match next.call_fault() {
                Some(fault) => self.stops(fault),
                None => next.call(nnn).carries_on(),
            }
        } else if family == 0x3 {
            next.skip_equal(x, kk).carries_on()
        } else if family == 0x4 {
            next.skip_not_equal(x, kk).carries_on()
        } else if family == 0x5 {
            if n == 0x0 {
                next.skip_equal_xy(x, y).carries_on()
            } else {
                self.unsupported()
            }
        } else if family == 0x6 {
            next.load(x, kk).carries_on()
        } else if family == 0x7 {
            next.add_byte(x, kk).carries_on()
        } else if family == 0x8 {
            if n == 0x0 {
                next.load_xy(x, y).carries_on()
            } else if n == 0x1 {
                next.bitwise_or(x, y).carries_on()
            } else if n == 0x2 {
                next.bitwise_and(x, y).carries_on()
            } else if n == 0x3 {
                next.bitwise_xor(x, y).carries_on()
            } else if n == 0x4 {
                next.add_xy(x, y).carries_on()
            } else if n == 0x5 {
                next.sub_xy(x, y).carries_on()
            } else if n == 0x6 {
                next.shift_right(x).carries_on()
            } else if n == 0x7 {
                next.sub_yx(x, y).carries_on()
            } else if n == 0xE {
                next.shift_left(x).carries_on()
            } else {
                self.unsupported()
            }
        } else if family == 0x9 {
            if n == 0x0 {
                next.skip_not_equal_xy(x, y).carries_on()
            } else {
                self.unsupported()
            }
        } else if family == 0xA {
            next.load_i(nnn).carries_on()
        } else if family == 0xB {
            next.jump_v0(nnn).carries_on()
        } else if family == 0xC {
            next.rand(x, kk, random).carries_on()
        } else if family == 0xD {
            (next.draw(x, y, n), Ok(true))
        } else if family == 0xE {
            if kk == 0x9E {
                next.skip_if_key(x).carries_on()
            } else if kk == 0xA1 {
                next.skip_not_key(x).carries_on()
            } else {
                self.unsupported()
            }
        } else {
            if kk == 0x07 {
                next.load_delay_to_vx(x).carries_on()
            } else if kk == 0x0A {
                if next.key_waiting() {
                    next.wait_for_key(x).carries_on()
                } else {
                    self.carries_on()
                }
            } else if kk == 0x15 {
                next.load_delay_timer(x).carries_on()
            } else if kk == 0x18 {
                next.load_sound_timer(x).carries_on()
            } else if kk == 0x1E {
                next.add_i_vx(x).carries_on()
            } else if kk == 0x29 {
                next.load_ascii_address(x).carries_on()
            } else if kk == 0x33 {
                next.load_bcd(x).carries_on()
            } else if kk == 0x55 {
                next.store_regs(x).carries_on()
            } else if kk == 0x65 {
                next.load_regs(x).carries_on()
            } else {
                self.unsupported()
            }
        }
    }

    /// The state after the delay timer has been checked against the clock
    /// reading `now`: a timer above 0 whose last decrement lies more than a
    /// period back goes down by one, and `now` is its last decrement.
    pub open spec fn tick_delay(self, now: u128) -> Machine {
        if self.delay > 0 && now - self.delay_stamp > TIMER_PERIOD_NANOS {
            Machine { delay: (self.delay - 1) as u8, delay_stamp: now, ..self }
        } else {
            self
        }
    }

    /// The state after the sound timer has been checked against the clock
    /// reading `now`, as the delay timer is.
    pub open spec fn tick_sound(self, now: u128) -> Machine {
        if self.sound > 0 && now - self.sound_stamp > TIMER_PERIOD_NANOS {
            Machine { sound: (self.sound - 1) as u8, sound_stamp: now, ..self }
        } else {
            self
        }
    }

    /// The state with the timers, and the moments of their last decrement,
    /// as `other` has them.
    pub open spec fn with_timers_of(self, other: Machine) -> Machine {
        Machine {
            delay: other.delay,
            delay_stamp: other.delay_stamp,
            sound: other.sound,
            sound_stamp: other.sound_stamp,
            ..self
        }
    }

    /// The state after both timers have been checked against the clock
    /// reading `now`.
    pub open spec fn tick(self, now: u128) -> Machine {
        self.tick_delay(now).tick_sound(now)
    }

    /// The state after both timers have been checked against each of
    /// `readings` in turn.
    pub open spec fn tick_all(self, readings: Seq<u128>) -> Machine
        decreases readings.len(),
    {
        if readings.len() == 0 {
            self
        } else {
            self.tick_all(readings.drop_last()).tick(readings.last())
        }
    }
}

/// Whether every two of `readings` lie no more than one timer period apart.
pub open spec fn within_one_period(readings: Seq<u128>) -> bool {
    forall|i: int, j: int|
        0 <= i < readings.len() && 0 <= j < readings.len() ==> #[trigger] readings[j]
            - #[trigger] readings[i] <= TIMER_PERIOD_NANOS
}

/// Whether `after` is `before` with a timer that went down at most once,
/// and, if it did, at one of `readings`.
spec fn ticked_once(before: u8, stamp: u128, after: u8, after_stamp: u128, readings: Seq<u128>) -> bool {
    ||| after == before && after_stamp == stamp
    ||| after == before - 1 && exists|i: int|
        0 <= i < readings.len() && after_stamp == #[trigger] readings[i]
}

/// What a run of timer checks within one period leaves of the machine.
proof fn lemma_ticks_within_period(m: Machine, readings: Seq<u128>)
    requires
        within_one_period(readings),
    ensures
        ({
            let after = m.tick_all(readings);
            &&& ticked_once(m.delay, m.delay_stamp, after.delay, after.delay_stamp, readings)
            &&& ticked_once(m.sound, m.sound_stamp, after.sound, after.sound_stamp, readings)
            &&& after == m.with_timers_of(after)
        }),
    decreases readings.len(),
{
    if readings.len() > 0 {
        let earlier = readings.drop_last();
        let now = readings.last();
        let mid = m.tick_all(earlier);
        let after = mid.tick(now);
        assert(within_one_period(earlier)) by {
            assert forall|i: int, j: int|
                0 <= i < earlier.len() && 0 <= j < earlier.len() implies #[trigger] earlier[j]
                - #[trigger] earlier[i] <= TIMER_PERIOD_NANOS by {
                assert(earlier[i] == readings[i] && earlier[j] == readings[j]);
            }
        }
        lemma_ticks_within_period(m, earlier);
        // a timer that went down at an earlier reading does not go down again
        // now, since now is within a period of that reading
        if mid.delay != m.delay {
            let i = choose|i: int| 0 <= i < earlier.len() && mid.delay_stamp == #[trigger] earlier[i];
            assert(now - readings[i] <= TIMER_PERIOD_NANOS);
            assert(after.delay_stamp == readings[i]);
        } else if after.delay != mid.delay {
            assert(after.delay_stamp == readings[readings.len() - 1]);
        }
        if mid.sound != m.sound {
            let i = choose|i: int| 0 <= i < earlier.len() && mid.sound_stamp == #[trigger] earlier[i];
            assert(now - readings[i] <= TIMER_PERIOD_NANOS);
            assert(after.sound_stamp == readings[i]);
        } else if after.sound != mid.sound {
            assert(after.sound_stamp == readings[readings.len() - 1]);
        }
    }
}

/// However often the timers are checked within one period, each goes down by
/// one at most, and nothing else of the machine changes: how fast the checks
/// come does not speed a timer up.
pub proof fn lemma_one_decrement_per_period(m: Machine, readings: Seq<u128>)
    requires
        within_one_period(readings),
    ensures
        m.delay - 1 <= m.tick_all(readings).delay <= m.delay,
        m.sound - 1 <= m.tick_all(readings).sound <= m.sound,
        m.tick_all(readings) == m.with_timers_of(m.tick_all(readings)),
{
    lemma_ticks_within_period(m, readings);
}

/// No instruction but Fx15 changes the delay timer, none but Fx18 the sound
/// timer, and none moves the moment of a timer's last decrement: however many
/// cycles run between two checks of the clock, the timers wait for the clock.
pub proof fn lemma_cycles_leave_timers(m: Machine, random: u8)
    requires
        m.wf(),
    ensures
        ({
            let high = m.mem[resolve(m.pc as int)];
            let low = m.mem[resolve(m.pc + 1)];
            let after = m.step(random).0;
            &&& after.delay_stamp == m.delay_stamp
            &&& after.sound_stamp == m.sound_stamp
            &&& !(high / 16 == 0xF && low == 0x15) ==> after.delay == m.delay
            &&& !(high / 16 == 0xF && low == 0x18) ==> after.sound == m.sound
        }),
{
}

/// A cycle reads the keypad and never writes it, and it asks for the screen
/// to be shown again after Dxyn and after nothing else.
pub proof fn lemma_cycle_reads_keys_and_reports_draws(m: Machine, random: u8)
    requires
        m.wf(),
    ensures
        m.step(random).0.keys == m.keys,
        m.step(random).1 == Ok::<bool, Chip8Error>(true) <==> m.mem[resolve(m.pc as int)] / 16
            == 0xD,
{
}

/// A machine with its parts at their sizes keeps them through every cycle.
pub proof fn lemma_cycle_keeps_sizes(m: Machine, random: u8)
    requires
        m.wf(),
    ensures
        m.step(random).0.wf(),
{
    let mode = choose|mode: DisplayMode| has_shape(m.screen, mode);
    let after = m.step(random).0;
    let next = m.advance();
    let high = m.mem[resolve(m.pc as int)];
    let low = m.mem[resolve(m.pc + 1)];
    if high / 16 == 0xD {
        lemma_blit_shape(
            m.screen,
            mode,
            next.regs[(high % 16) as int] as int,
            next.regs[(low / 16) as int] as int,
            next.sprite((low % 16) as int),
        );
    }
    assert(has_shape(after.screen, mode));
}

/// Dxyn twice in a row on a blank screen, with the coordinates in registers
/// other than VF: the first drawing leaves VF at 0, the second leaves the
/// screen blank again and VF at 1 if the sprite has a set pixel, at 0 if not.
pub proof fn lemma_draw_twice(m: Machine, mode: DisplayMode, x: int, y: int, n: int)
    requires
        m.wf(),
        m.screen == blank(mode),
        0 <= x < 0xF,
        0 <= y < 0xF,
        0 <= n <= 0xF,
    ensures
        m.draw(x, y, n).regs[0xF] == 0,
        m.draw(x, y, n).draw(x, y, n).screen == blank(mode),
        m.draw(x, y, n).draw(x, y, n).regs[0xF] == 1 <==> has_set_bit(m.sprite(n)),
        m.draw(x, y, n).draw(x, y, n).regs[0xF] <= 1,
{
    let once = m.draw(x, y, n);
    assert(once.sprite(n) == m.sprite(n));
    lemma_draw_then_erase(mode, m.regs[x] as int, m.regs[y] as int, m.sprite(n));
}

/// In a memory that holds the built-in font, Fx29 for a digit in Vx followed
/// by Fx65 for V0 to V`last` loads the first rows of the digit's glyph: V0
/// its first row, and so on up to V`last`.
pub proof fn lemma_glyph_lookup(m: Machine, x: int, last: int)
    requires
        m.wf(),
        has_font(m.mem),
        0 <= x <= 0xF,
        m.regs[x] <= 0xF,
        0 <= last < 5,
    ensures
        forall|row: int|
            0 <= row <= last ==> #[trigger] m.load_ascii_address(x).load_regs(last).regs[row]
                == glyph(m.regs[x] as int)[row],
{
    lemma_glyph_address(m.mem, m.regs[x] as int);
}

} // verus!
