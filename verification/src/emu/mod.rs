pub mod bus;
pub mod cpu;
pub mod dump;
pub mod error;
pub mod harness;
pub mod semantics;
pub mod thumb;
