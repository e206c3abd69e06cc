//! A terminal-emulation engine: an escape-sequence parser, the screen model
//! it drives, the key encoder and the loop that joins them.
pub mod parser;
pub mod screen;
pub mod input;
pub mod emulator;
