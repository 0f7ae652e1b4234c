pub mod assembler;
pub mod effects;
