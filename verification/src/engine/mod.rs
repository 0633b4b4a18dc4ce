pub mod isa;
pub mod keypad;
pub mod machine;
pub mod memory;
pub mod register;
pub mod screen;
pub mod state;
pub mod text;
pub mod timer;
