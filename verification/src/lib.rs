//! A CHIP-8 virtual machine core: instruction decoding, the register engine,
//! memory, the 64x32 monochrome screen, the hexadecimal keypad, interval
//! timers and the per-frame state machine that ties them together.
//!
//! Every function carries a contract over a mathematical model of the
//! component it belongs to.

pub mod engine;
