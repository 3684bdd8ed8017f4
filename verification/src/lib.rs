//! Terminal Nyancat: the animation renderer, its command line, terminal
//! detection and the telnet option negotiation, as verified components.
//! Process control, signals, clocks and raw terminal I/O stay outside.
pub mod animation;
pub mod classic;
pub mod cli;
pub mod render;
pub mod strings;
pub mod sys;
pub mod telnet;
pub mod terminal;
