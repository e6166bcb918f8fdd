//! A CHIP-8 virtual machine core: memory, registers, timers, keypad state,
//! the monochrome framebuffer and the fetch-decode-execute engine.
//!
//! The executable parts are [`cpu::CPU`] with its [`memory::Memory`],
//! [`display::DisplayBuffer`] and [`input::Keyboard`], and
//! [`instructions::execute`], which performs one cycle. What they do is
//! stated over plain mathematical values: [`machine::Machine`] is the state
//! of the machine and says what every instruction and a whole cycle make of
//! it, and [`screen`] says what drawing a sprite means.
//!
//! The core neither shows the screen nor reads a keyboard or a file. A host
//! loop does: it hands what it saw of the keyboard to
//! [`input::Keyboard::update`], runs a cycle, shows the screen when the cycle
//! asks for it, and lets the timers follow the clock with
//! [`cpu::CPU::update_time_registers`].

pub mod cpu;
pub mod display;
pub mod error;
pub mod input;
pub mod instructions;
pub mod machine;
pub mod memory;
pub mod screen;
