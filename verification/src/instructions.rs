//! The instructions of the machine, one function each, and the cycle that
//! fetches, decodes and executes one of them.
//!
//! In these listings, the following variables are used:
//!
//! nnn or addr - A 12-bit value, the lowest 12 bits of the instruction
//! n or nibble - A 4-bit value, the lowest 4 bits of the instruction
//! x - A 4-bit value, the lower 4 bits of the high byte of the instruction
//! y - A 4-bit value, the upper 4 bits of the low byte of the instruction
//! kk or byte - An 8-bit value, the lowest 8 bits of the instruction

use crate::cpu::CPU;
use crate::error::Chip8Error;
use crate::machine::{bytes_at, distance, resolve, wrap16};
use vstd::prelude::*;

verus! {

/// A byte from the thread's random number generator: `rand::random::<u8>()`.
/// Nothing is claimed of the byte. The generator is seeded from the operating
/// system on the thread's first call, and panics if the system has no
/// randomness to give.
#[verifier::external_body]
fn random_byte() -> u8 {
    rand::random::<u8>()
}

/// Helper function to combine three nibbles into a 12-bit value
pub fn to_nnn(first: &u8, second: &u8, third: &u8) -> (nnn: u16)
    requires
        *first <= 0xF,
        *second <= 0xF,
        *third <= 0xF,
    ensures
        nnn == *first * 256 + *second * 16 + *third,
{
    let high = *first as u16;
    let middle = *second as u16;
    assert(high << 8 == high * 256) by (bit_vector)
        requires
            high <= 0xF,
    ;
    assert(middle << 4 == middle * 16) by (bit_vector)
        requires
            middle <= 0xF,
    ;
    let nnn: u16 = (high << 8) + (middle << 4) + *third as u16;
    nnn
}

/// Helper function to combine two nibbles into an 8-bit value
pub fn to_kk(first: &u8, second: &u8) -> (kk: u8)
    requires
        *first <= 0xF,
        *second <= 0xF,
    ensures
        kk == *first * 16 + *second,
{
    let high = *first;
    assert(high << 4 == high * 16) by (bit_vector)
        requires
            high <= 0xF,
    ;
    let kk: u8 = (high << 4) + *second;
    kk
}

/// Splits a byte into its upper and its lower four bits.
fn nibbles(byte: u8) -> (halves: (u8, u8))
    ensures
        halves.0 == byte / 16,
        halves.1 == byte % 16,
{
    assert((byte & 0xF0) >> 4 == byte / 16) by (bit_vector);
    assert(byte & 0x0F == byte % 16) by (bit_vector);
    ((byte & 0xF0) >> 4, byte & 0x0F)
}

/// The address two bytes after `pc`, in 16 bits.
fn next_instruction(pc: u16) -> (next: u16)
    ensures
        next == wrap16(pc + 2),
{
    pc.wrapping_add(2)
}

/// Performs one cycle: fetches the two bytes at the program counter, moves the
/// program counter past them, and executes the instruction they hold.
///
/// Returns `Ok(true)` when the instruction drew on the screen, so that the
/// screen is to be shown again, and `Ok(false)` after every other
/// instruction. Where the bytes hold no instruction, or a call or return
/// cannot be made, the error says so and the machine is left as it was.
/// While Fx0A finds no key down the machine is left as it was, so that the
/// next cycle meets the same instruction: whoever runs the cycles reads the
/// keypad between them.
pub fn execute(cpu: &mut CPU) -> (res: Result<bool, Chip8Error>)
    ensures
        exists|random: u8|
            final(cpu)@ == (#[trigger] old(cpu)@.step(random)).0 && res == old(cpu)@.step(
                random,
            ).1,
{
    // Fetch instruction
    let pc = cpu.pc_reg;
    let high = cpu.mem.read(pc as usize);
    let low = cpu.mem.read(pc as usize + 1);
    // Split the 2-byte instruction into four nibbles
    let (first, second) = nibbles(high);
    let (third, fourth) = nibbles(low);
    let ghost before = cpu@;
    let unsupported = Chip8Error::UnsupportedInstruction {
        instruction: high as u16 * 256 + low as u16,
        pc,
    };

    // Increment the program counter
    cpu.pc_reg = next_instruction(pc);

    // Decode instruction based on first nibble
    let mut outcome: Result<bool, Chip8Error> = Ok(false);
    let ghost mut random: u8 = 0;
    match first {
        0x0 => {
            if high == 0x00 && low == 0xE0 {
                cls(cpu);
            } else if high == 0x00 && low == 0xEE {
                match ret(cpu) {
                    Ok(()) => {},
                    Err(fault) => {
                        outcome = Err(fault);
                    },
                }
            } else {
                sys(to_nnn(&second, &third, &fourth));
            }
        },
        0x1 => jump(cpu, to_nnn(&second, &third, &fourth)),
        0x2 => {
            match call(cpu, to_nnn(&second, &third, &fourth)) {
                Ok(()) => {},
                Err(fault) => {
                    outcome = Err(fault);
                },
            }
        },
        0x3 => skip_equal(cpu, second, to_kk(&third, &fourth)),
        0x4 => skip_not_equal(cpu, second, to_kk(&third, &fourth)),
        0x5 => {
            if fourth == 0x0 {
                skip_equal_xy(cpu, second, third);
            } else {
                outcome = Err(unsupported);
            }
        },
        0x6 => load(cpu, second, to_kk(&third, &fourth)),
        0x7 => self::add(cpu, second, to_kk(&third, &fourth)),
        0x8 => match fourth {
            0x0 => load_xy(cpu, second, third),
            0x1 => bitwise_or(cpu, second, third),
            0x2 => bitwise_and(cpu, second, third),
            0x3 => bitwise_xor(cpu, second, third),
            0x4 => add_xy(cpu, second, third),
            0x5 => sub_xy(cpu, second, third),
            0x6 => shift_right(cpu, second),
            0x7 => sub_yx(cpu, second, third),
            0xE => shift_left(cpu, second),
            _ => {
                outcome = Err(unsupported);
            },
        },
        0x9 => {
            if fourth == 0x0 {
                skip_not_equal_xy(cpu, second, third);
            } else {
                outcome = Err(unsupported);
            }
        },
        0xA => load_i(cpu, to_nnn(&second, &third, &fourth)),
        0xB => jump_v0(cpu, to_nnn(&second, &third, &fourth)),
        0xC => {
            rand(cpu, second, to_kk(&third, &fourth));
            proof {
                random = choose|byte: u8|
                    cpu@ == #[trigger] before.advance().rand(second as int, low, byte);
            }
        },
        0xD => {
            draw(cpu, second, third, fourth);
            outcome = Ok(true);
        },
        0xE => match to_kk(&third, &fourth) {
            0x9E => skip_if_key(cpu, second),
            0xA1 => skip_not_key(cpu, second),
            _ => {
                outcome = Err(unsupported);
            },
        },
        _ => match to_kk(&third, &fourth) {
            0x07 => load_delay_to_vx(cpu, second),
            0x0A => {
                if !wait_for_key(cpu, second) {
                    // no key yet: the same instruction is met again
                    cpu.pc_reg = pc;
                }
            },
            0x15 => load_delay_timer(cpu, second),
            0x18 => load_sound_timer(cpu, second),
            0x1E => add_i_vx(cpu, second),
            0x29 => load_ascii_address(cpu, second),
            0x33 => load_bcd(cpu, second),
            0x55 => store_regs(cpu, second),
            0x65 => load_regs(cpu, second),
            _ => {
                outcome = Err(unsupported);
            },
        },
    }
    if outcome.is_err() {
        // a machine that stops keeps the state in which it met the instruction
        cpu.pc_reg = pc;
    }
    proof {
        // `random` is the byte that Cxkk drew; no other instruction looks at it
        assert(cpu@ == before.step(random).0);
    }
    outcome
}

/// 0nnn - SYS addr
/// Jump to a machine code routine at nnn.
///
/// This instruction is only used on the old computers on which Chip-8 was first implemented.
/// It is ignored by modern interpreters.
pub fn sys(_nnn: u16) {
    return ;
}

/// 00E0 - CLS
/// Clear the display.
pub fn cls(cpu: &mut CPU)
    ensures
        final(cpu)@ == old(cpu)@.cls(),
{
    cpu.display_buffer.clear();
}

/// 00EE - RET
/// Return from a subroutine.
///
/// The interpreter sets the program counter to the address at the top of the stack, then subtracts
/// 1 from the stack pointer. With no call outstanding this is a stack
/// underflow, and with the stack pointer beyond the stack a stack overflow:
/// the machine is then left as it was.
pub fn ret(cpu: &mut CPU) -> (res: Result<(), Chip8Error>)
    ensures
        match old(cpu)@.ret_fault() {
            Some(fault) => res == Err::<(), Chip8Error>(fault) && final(cpu)@ == old(cpu)@,
            None => res == Ok::<(), Chip8Error>(()) && final(cpu)@ == old(cpu)@.ret(),
        },
{
    if cpu.stack_pointer_reg == 0 {
        return Err(Chip8Error::StackUnderflow);
    }
    if cpu.stack_pointer_reg > 15 {
        return Err(Chip8Error::StackOverflow);
    }
    cpu.pc_reg = cpu.stack[cpu.stack_pointer_reg as usize];
    cpu.stack_pointer_reg -= 1;
    Ok(())
}

/// 1nnn - JP addr
/// Jump to location nnn.
///
/// The interpreter sets the program counter to nnn.
pub fn jump(cpu: &mut CPU, nnn: u16)
    ensures
        final(cpu)@ == old(cpu)@.jump(nnn),
{
    cpu.pc_reg = nnn;
}

/// 2nnn - CALL addr
/// Call subroutine at nnn.
///
/// The interpreter increments the stack pointer, then puts the current PC on the top of the stack.
/// The PC is then set to nnn. With the last stack entry in use this is a
/// stack overflow: the machine is then left as it was.
pub fn call(cpu: &mut CPU, nnn: u16) -> (res: Result<(), Chip8Error>)
    ensures
        match old(cpu)@.call_fault() {
            Some(fault) => res == Err::<(), Chip8Error>(fault) && final(cpu)@ == old(cpu)@,
            None => res == Ok::<(), Chip8Error>(()) && final(cpu)@ == old(cpu)@.call(nnn),
        },
{
    if cpu.stack_pointer_reg >= 15 {
        return Err(Chip8Error::StackOverflow);
    }
    cpu.stack_pointer_reg += 1;
    cpu.stack[cpu.stack_pointer_reg as usize] = cpu.pc_reg;
    cpu.pc_reg = nnn;
    Ok(())
}

/// 3xkk - SE Vx, byte
/// Skip next instruction if Vx = kk.
///
/// The interpreter compares register Vx to kk, and if they are equal, increments the program
/// counter by 2.
pub fn skip_equal(cpu: &mut CPU, vx: u8, kk: u8)
    requires
        vx <= 0xF,
    ensures
        final(cpu)@ == old(cpu)@.skip_equal(vx as int, kk),
{
    if cpu.gp_regs[vx as usize] == kk {
        cpu.pc_reg = next_instruction(cpu.pc_reg);
    }
}

/// 4xkk - SNE Vx, byte
/// Skip next instruction if Vx != kk.
///
/// The interpreter compares register Vx to kk, and if they are not equal, increments the program
/// counter by 2.
pub fn skip_not_equal(cpu: &mut CPU, vx: u8, kk: u8)
    requires
        vx <= 0xF,
    ensures
        final(cpu)@ == old(cpu)@.skip_not_equal(vx as int, kk),
{
    if cpu.gp_regs[vx as usize] != kk {
        cpu.pc_reg = next_instruction(cpu.pc_reg);
    }
}

/// 5xy0 - SE Vx, Vy
/// Skip next instruction if Vx = Vy.
///
/// The interpreter compares register Vx to register Vy, and if they are equal, increments the
/// program counter by 2.
pub fn skip_equal_xy(cpu: &mut CPU, vx: u8, vy: u8)
    requires
        vx <= 0xF,
        vy <= 0xF,
    ensures
        final(cpu)@ == old(cpu)@.skip_equal_xy(vx as int, vy as int),
{
    if cpu.gp_regs[vx as usize] == cpu.gp_regs[vy as usize] {
        cpu.pc_reg = next_instruction(cpu.pc_reg);
    }
}

/// 6xkk - LD Vx, byte
/// Set Vx = kk.
///
/// The interpreter puts the value kk into register Vx.
pub fn load(cpu: &mut CPU, vx: u8, kk: u8)
    requires
        vx <= 0xF,
    ensures
        final(cpu)@ == old(cpu)@.load(vx as int, kk),
{
    cpu.gp_regs[vx as usize] = kk;
}

/// 7xkk - ADD Vx, byte
/// Set Vx = Vx + kk.
///
/// Adds the value kk to the value of register Vx, then stores the result in Vx.
/// The sum wraps at 8 bits, and VF is left alone.
pub fn add(cpu: &mut CPU, vx: u8, kk: u8)
    requires
        vx <= 0xF,
    ensures
        final(cpu)@ == old(cpu)@.add_byte(vx as int, kk),
        final(cpu)@.regs[vx as int] == (old(cpu)@.regs[vx as int] + kk) % 256,
{
    let sum = cpu.gp_regs[vx as usize].wrapping_add(kk);
    cpu.gp_regs[vx as usize] = sum;
}

/// 8xy0 - LD Vx, Vy
/// Set Vx = Vy.
///
/// Stores the value of register Vy in register Vx.
pub fn load_xy(cpu: &mut CPU, vx: u8, vy: u8)
    requires
        vx <= 0xF,
        vy <= 0xF,
    ensures
        final(cpu)@ == old(cpu)@.load_xy(vx as int, vy as int),
{
    cpu.gp_regs[vx as usize] = cpu.gp_regs[vy as usize];
}

/// 8xy1 - OR Vx, Vy
/// Set Vx = Vx OR Vy.
///
/// Performs a bitwise OR on the values of Vx and Vy, then stores the result in Vx. A bitwise OR
/// compares the corresponding bits from two values, and if either bit is 1, then the same bit in the
/// result is also 1. Otherwise, it is 0.
pub fn bitwise_or(cpu: &mut CPU, vx: u8, vy: u8)
    requires
        vx <= 0xF,
        vy <= 0xF,
    ensures
        final(cpu)@ == old(cpu)@.bitwise_or(vx as int, vy as int),
{
    cpu.gp_regs[vx as usize] = cpu.gp_regs[vy as usize] | cpu.gp_regs[vx as usize];
}

/// 8xy2 - AND Vx, Vy
/// Set Vx = Vx AND Vy.
///
/// Performs a bitwise AND on the values of Vx and Vy, then stores the result in Vx. A bitwise AND
/// compares the corresponding bits from two values, and if both bits are 1, then the same bit in the
/// result is also 1. Otherwise, it is 0.
pub fn bitwise_and(cpu: &mut CPU, vx: u8, vy: u8)
    requires
        vx <= 0xF,
        vy <= 0xF,
    ensures
        final(cpu)@ == old(cpu)@.bitwise_and(vx as int, vy as int),
{
    cpu.gp_regs[vx as usize] = cpu.gp_regs[vy as usize] & cpu.gp_regs[vx as usize];
}

/// 8xy3 - XOR Vx, Vy
/// Set Vx = Vx XOR Vy.
///
/// Performs a bitwise exclusive OR on the values of Vx and Vy, then stores the result in Vx.
/// An exclusive OR compares the corresponding bits from two values, and if the bits are not both the
/// same, then the corresponding bit in the result is set to 1. Otherwise, it is 0.
pub fn bitwise_xor(cpu: &mut CPU, vx: u8, vy: u8)
    requires
        vx <= 0xF,
        vy <= 0xF,
    ensures
        final(cpu)@ == old(cpu)@.bitwise_xor(vx as int, vy as int),
{
    cpu.gp_regs[vx as usize] = cpu.gp_regs[vy as usize] ^ cpu.gp_regs[vx as usize];
}

/// 8xy4 - ADD Vx, Vy
/// Set Vx = Vx + Vy, set VF = carry.
///
/// The values of Vx and Vy are added together. If the result is greater than 8 bits (i.e., > 255,)
/// VF is set to 1, otherwise 0. Only the lowest 8 bits of the result are kept, and stored in Vx.
pub fn add_xy(cpu: &mut CPU, vx: u8, vy: u8)
    requires
        vx <= 0xF,
        vy <= 0xF,
    ensures
        final(cpu)@ == old(cpu)@.add_xy(vx as int, vy as int),
        final(cpu)@.regs[vx as int] == (old(cpu)@.regs[vx as int] + old(cpu)@.regs[vy as int])
            % 256,
        vx != 0xF ==> (final(cpu)@.regs[0xF] == 1 <==> old(cpu)@.regs[vx as int] + old(
            cpu,
        )@.regs[vy as int] > 255),
        vx != 0xF ==> final(cpu)@.regs[0xF] <= 1,
{
    let mut sum: u16 = cpu.gp_regs[vy as usize] as u16 + cpu.gp_regs[vx as usize] as u16;
    let carry = sum > 255;
    if carry {
        sum -= 256;
        cpu.gp_regs[0xF] = 1;
    } else {
        cpu.gp_regs[0xF] = 0;
    }
    cpu.gp_regs[vx as usize] = sum as u8;
}

/// 8xy5 - SUB Vx, Vy
/// Set Vx = Vx - Vy, set VF = NOT borrow.
///
/// If Vx > Vy, then VF is set to 1, otherwise 0. Then Vy is subtracted from Vx,
/// and the results stored in Vx.
pub fn sub_xy(cpu: &mut CPU, vx: u8, vy: u8)
    requires
        vx <= 0xF,
        vy <= 0xF,
    ensures
        final(cpu)@ == old(cpu)@.sub_xy(vx as int, vy as int),
        final(cpu)@.regs[vx as int] == (old(cpu)@.regs[vx as int] - old(cpu)@.regs[vy as int])
            % 256,
        vx != 0xF ==> (final(cpu)@.regs[0xF] == 1 <==> old(cpu)@.regs[vx as int] > old(
            cpu,
        )@.regs[vy as int]),
        vx != 0xF ==> final(cpu)@.regs[0xF] <= 1,
{
    let minuend = cpu.gp_regs[vx as usize];
    let subtrahend = cpu.gp_regs[vy as usize];
    if minuend > subtrahend {
        cpu.gp_regs[0xF] = 1;
    } else {
        cpu.gp_regs[0xF] = 0;
    }
    let diff = minuend.wrapping_sub(subtrahend);
    cpu.gp_regs[vx as usize] = diff;
}

/// 8xy6 - SHR Vx {, Vy}
/// Set Vx = Vx SHR 1.
///
/// If the least-significant bit of Vx is 1, then VF is set to 1, otherwise 0.
/// Then Vx is divided by 2.
pub fn shift_right(cpu: &mut CPU, vx: u8)
    requires
        vx <= 0xF,
    ensures
        final(cpu)@ == old(cpu)@.shift_right(vx as int),
        final(cpu)@.regs[vx as int] == old(cpu)@.regs[vx as int] / 2,
        vx != 0xF ==> final(cpu)@.regs[0xF] == old(cpu)@.regs[vx as int] % 2,
{
    let value = cpu.gp_regs[vx as usize];
    assert((value & 0x01 > 0) == (value % 2 == 1)) by (bit_vector);
    assert(value >> 1 == value / 2) by (bit_vector);
    if value & 0x01 > 0 {
        cpu.gp_regs[0xF] = 1;
    } else {
        cpu.gp_regs[0xF] = 0;
    }
    cpu.gp_regs[vx as usize] = value >> 1;
}

/// 8xy7 - SUBN Vx, Vy
/// Set Vx = Vy - Vx, set VF = NOT borrow.
///
/// If Vy > Vx, then VF is set to 1, otherwise 0. Then Vx is subtracted from Vy, and the results
/// stored in Vx.
pub fn sub_yx(cpu: &mut CPU, vx: u8, vy: u8)
    requires
        vx <= 0xF,
        vy <= 0xF,
    ensures
        final(cpu)@ == old(cpu)@.sub_yx(vx as int, vy as int),
        final(cpu)@.regs[vx as int] == (old(cpu)@.regs[vy as int] - old(cpu)@.regs[vx as int])
            % 256,
        vx != 0xF ==> (final(cpu)@.regs[0xF] == 1 <==> old(cpu)@.regs[vy as int] > old(
            cpu,
        )@.regs[vx as int]),
        vx != 0xF ==> final(cpu)@.regs[0xF] <= 1,
{
    let subtrahend = cpu.gp_regs[vx as usize];
    let minuend = cpu.gp_regs[vy as usize];
    if minuend > subtrahend {
        cpu.gp_regs[0xF] = 1;
    } else {
        cpu.gp_regs[0xF] = 0;
    }
    let diff = minuend.wrapping_sub(subtrahend);
    cpu.gp_regs[vx as usize] = diff;
}

/// 8xyE - SHL Vx {, Vy}
/// Set Vx = Vx SHL 1.
///
/// If the most-significant bit of Vx is 1, then VF is set to 1, otherwise to 0.
/// Then Vx is multiplied by 2.
pub fn shift_left(cpu: &mut CPU, vx: u8)
    requires
        vx <= 0xF,
    ensures
        final(cpu)@ == old(cpu)@.shift_left(vx as int),
        final(cpu)@.regs[vx as int] == (old(cpu)@.regs[vx as int] * 2) % 256,
        vx != 0xF ==> final(cpu)@.regs[0xF] == old(cpu)@.regs[vx as int] / 128,
{
    let value = cpu.gp_regs[vx as usize];
    assert((value & 0x80 > 0) == (value >= 128)) by (bit_vector);
    assert(value << 1 == (value * 2) % 256) by (bit_vector);
    if value & 0x80 > 0 {
        cpu.gp_regs[0xF] = 1;
    } else {
        cpu.gp_regs[0xF] = 0;
    }
    cpu.gp_regs[vx as usize] = value << 1;
}

/// 9xy0 - SNE Vx, Vy
/// Skip next instruction if Vx != Vy.
///
/// The values of Vx and Vy are compared, and if they are not equal,
/// the program counter is increased by 2.
pub fn skip_not_equal_xy(cpu: &mut CPU, vx: u8, vy: u8)
    requires
        vx <= 0xF,
        vy <= 0xF,
    ensures
        final(cpu)@ == old(cpu)@.skip_not_equal_xy(vx as int, vy as int),
{
    if cpu.gp_regs[vx as usize] != cpu.gp_regs[vy as usize] {
        cpu.pc_reg = next_instruction(cpu.pc_reg);
    }
}

/// Annn - LD I, addr
/// Set I = nnn.
///
/// The value of register I is set to nnn.
pub fn load_i(cpu: &mut CPU, nnn: u16)
    ensures
        final(cpu)@ == old(cpu)@.load_i(nnn),
{
    cpu.i_reg = nnn;
}

/// Bnnn - JP V0, addr
/// Jump to location nnn + V0.
///
/// The program counter is set to nnn plus the value of V0.
pub fn jump_v0(cpu: &mut CPU, nnn: u16)
    ensures
        final(cpu)@ == old(cpu)@.jump_v0(nnn),
{
    cpu.pc_reg = nnn.wrapping_add(cpu.gp_regs[0] as u16);
}

/// Cxkk - RND Vx, byte
/// Set Vx = random byte AND kk.
///
/// The interpreter generates a random number from 0 to 255, which is then ANDed with the value kk.
/// The results are stored in Vx. See instruction 8xy2 for more information on AND.
pub fn rand(cpu: &mut CPU, vx: u8, kk: u8)
    requires
        vx <= 0xF,
    ensures
        exists|random: u8| final(cpu)@ == #[trigger] old(cpu)@.rand(vx as int, kk, random),
{
    let random = random_byte();
    rand_with(cpu, vx, kk, random);
}

/// Cxkk with the random byte given: sets Vx = `random` AND kk.
pub fn rand_with(cpu: &mut CPU, vx: u8, kk: u8, random: u8)
    requires
        vx <= 0xF,
    ensures
        final(cpu)@ == old(cpu)@.rand(vx as int, kk, random),
{
    cpu.gp_regs[vx as usize] = random & kk;
}

/// Dxyn - DRW Vx, Vy, nibble
/// Display n-byte sprite starting at memory location I at (Vx, Vy), set VF = collision.
///
/// The interpreter reads n bytes from memory, starting at the address stored in I.
/// These bytes are then displayed as sprites on screen at coordinates (Vx, Vy).
/// Sprites are XORed onto the existing screen. If this causes any pixels to be erased,
/// VF is set to 1, otherwise it is set to 0. If the sprite is positioned so part of it is
/// outside the coordinates of the display, it wraps around to the opposite side of the screen.
/// See instruction 8xy3 for more information on XOR, and section 2.4, Display, for more information
/// on the Chip-8 screen and sprites.
pub fn draw(cpu: &mut CPU, vx: u8, vy: u8, n: u8)
    requires
        vx <= 0xF,
        vy <= 0xF,
    ensures
        final(cpu)@ == old(cpu)@.draw(vx as int, vy as int, n as int),
{
    let x_coord = cpu.gp_regs[vx as usize] as i32;
    let y_coord = cpu.gp_regs[vy as usize] as i32;
    let sprite_addr = cpu.i_reg as usize;
    let mut sprite: Vec<u8> = Vec::with_capacity(n as usize);
    let mut row: usize = 0;
    while row < n as usize
        invariant
            row <= n,
            sprite_addr == cpu.i_reg,
            cpu@ == old(cpu)@,
            sprite@ == bytes_at(cpu@.mem, sprite_addr as int, row as int),
        decreases n - row,
    {
        sprite.push(cpu.mem.read(sprite_addr + row));
        row += 1;
    }
    let collision = cpu.display_buffer.write_sprite(x_coord, y_coord, sprite.as_slice());
    if collision {
        cpu.gp_regs[0xF] = 1;
    } else {
        cpu.gp_regs[0xF] = 0;
    }
}

/// Ex9E - SKP Vx
/// Skip next instruction if key with the value of Vx is pressed.
///
/// Checks the keyboard, and if the key corresponding to the value of Vx is currently in the
/// down position, PC is increased by 2.
pub fn skip_if_key(cpu: &mut CPU, vx: u8)
    requires
        vx <= 0xF,
    ensures
        final(cpu)@ == old(cpu)@.skip_if_key(vx as int),
{
    if cpu.keyboard.is_pressed(cpu.gp_regs[vx as usize]) {
        cpu.pc_reg = next_instruction(cpu.pc_reg);
    }
}

/// ExA1 - SKNP Vx
/// Skip next instruction if key with the value of Vx is not pressed.
///
/// Checks the keyboard, and if the key corresponding to the value of Vx is currently in the
/// up position, PC is increased by 2.
pub fn skip_not_key(cpu: &mut CPU, vx: u8)
    requires
        vx <= 0xF,
    ensures
        final(cpu)@ == old(cpu)@.skip_not_key(vx as int),
{
    if cpu.keyboard.is_pressed(cpu.gp_regs[vx as usize]) == false {
        cpu.pc_reg = next_instruction(cpu.pc_reg);
    }
}

/// Fx07 - LD Vx, DT
/// Set Vx = delay timer value.
///
/// The value of DT is placed into Vx.
pub fn load_delay_to_vx(cpu: &mut CPU, vx: u8)
    requires
        vx <= 0xF,
    ensures
        final(cpu)@ == old(cpu)@.load_delay_to_vx(vx as int),
{
    cpu.gp_regs[vx as usize] = cpu.delay_reg;
}

/// Fx0A - LD Vx, K
/// Wait for a key press, store the value of the key in Vx.
///
/// Looks at the keypad once. If a key is down, the value of the first such
/// key in keypad order is stored in Vx and true is returned. If none is, the
/// machine is left as it was and false is returned: the wait goes on, and
/// the keypad is to be read again before the next look.
pub fn wait_for_key(cpu: &mut CPU, vx: u8) -> (found: bool)
    requires
        vx <= 0xF,
    ensures
        found == old(cpu)@.key_waiting(),
        found ==> final(cpu)@ == old(cpu)@.wait_for_key(vx as int),
        !found ==> final(cpu)@ == old(cpu)@,
{
    let keys = cpu.keyboard.get_active_inputs();
    if keys.is_empty() == false {
        let key: u8 = keys[0].to_hex();
        cpu.gp_regs[vx as usize] = key;
        true
    } else {
        false
    }
}

/// Fx15 - LD DT, Vx
/// Set delay timer = Vx.
///
/// DT is set equal to the value of Vx.
pub fn load_delay_timer(cpu: &mut CPU, vx: u8)
    requires
        vx <= 0xF,
    ensures
        final(cpu)@ == old(cpu)@.load_delay_timer(vx as int),
{
    cpu.delay_reg = cpu.gp_regs[vx as usize];
}

/// Fx18 - LD ST, Vx
/// Set sound timer = Vx.
///
/// ST is set equal to the value of Vx.
pub fn load_sound_timer(cpu: &mut CPU, vx: u8)
    requires
        vx <= 0xF,
    ensures
        final(cpu)@ == old(cpu)@.load_sound_timer(vx as int),
{
    cpu.sound_reg = cpu.gp_regs[vx as usize];
}

/// Fx1E - ADD I, Vx
/// Set I = I + Vx.
///
/// The values of I and Vx are added, and the results are stored in I, which
/// wraps at 16 bits.
pub fn add_i_vx(cpu: &mut CPU, vx: u8)
    requires
        vx <= 0xF,
    ensures
        final(cpu)@ == old(cpu)@.add_i_vx(vx as int),
{
    cpu.i_reg = cpu.i_reg.wrapping_add(cpu.gp_regs[vx as usize] as u16);
}

/// Fx29 - LD F, Vx
/// Set I = location of sprite for digit Vx.
///
/// The value of I is set to the location for the hexadecimal sprite corresponding to the value of
/// Vx. See section 2.4, Display, for more information on the Chip-8 hexadecimal font.
pub fn load_ascii_address(cpu: &mut CPU, vx: u8)
    requires
        vx <= 0xF,
    ensures
        final(cpu)@ == old(cpu)@.load_ascii_address(vx as int),
{
    cpu.i_reg = cpu.gp_regs[vx as usize] as u16 * 5;
}

/// Fx33 - LD B, Vx
/// Store BCD representation of Vx in memory locations I, I+1, and I+2.
///
/// The interpreter takes the decimal value of Vx, and places the hundreds digit in memory at
/// location in I, the tens digit at location I+1, and the ones digit at location I+2.
pub fn load_bcd(cpu: &mut CPU, vx: u8)
    requires
        vx <= 0xF,
    ensures
        final(cpu)@ == old(cpu)@.load_bcd(vx as int),
{
    let val = cpu.gp_regs[vx as usize];
    let addr = cpu.i_reg as usize;
    cpu.mem.write(addr, val / 100);
    cpu.mem.write(addr + 1, (val % 100) / 10);
    cpu.mem.write(addr + 2, val % 10);
}

/// Fx55 - LD [I], Vx
/// Store registers V0 through Vx in memory starting at location I.
///
/// The interpreter copies the values of registers V0 through Vx into memory,
/// starting at the address in I.
pub fn store_regs(cpu: &mut CPU, vx: u8)
    requires
        vx <= 0xF,
    ensures
        final(cpu)@ == old(cpu)@.store_regs(vx as int),
{
    let addr = cpu.i_reg as usize;
    let mut index: usize = 0;
    assert(cpu@.mem =~= old(cpu)@.store_regs(-1).mem);
    while index <= vx as usize
        invariant
            index <= vx + 1,
            vx <= 0xF,
            addr == old(cpu)@.index,
            cpu@ == old(cpu)@.store_regs(index - 1),
        decreases vx + 1 - index,
    {
        let val = cpu.gp_regs[index];
        cpu.mem.write(addr + index, val);
        assert(cpu@.mem =~= old(cpu)@.store_regs(index as int).mem);
        index += 1;
    }
}

/// Fx65 - LD Vx, [I]
/// Read registers V0 through Vx from memory starting at location I.
///
/// The interpreter reads values from memory starting at location I into registers V0 through Vx.
pub fn load_regs(cpu: &mut CPU, vx: u8)
    requires
        vx <= 0xF,
    ensures
        final(cpu)@ == old(cpu)@.load_regs(vx as int),
{
    let addr = cpu.i_reg as usize;
    let mut n: usize = 0;
    assert(cpu@.regs =~= old(cpu)@.load_regs(-1).regs);
    while n <= vx as usize
        invariant
            n <= vx + 1,
            vx <= 0xF,
            addr == old(cpu)@.index,
            cpu@ == old(cpu)@.load_regs(n - 1),
        decreases vx + 1 - n,
    {
        cpu.gp_regs[n] = cpu.mem.read(addr + n);
        assert(cpu@.regs =~= old(cpu)@.load_regs(n as int).regs);
        n += 1;
    }
}

} // verus!
