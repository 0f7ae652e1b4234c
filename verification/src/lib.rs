pub mod anim;
pub mod emu;
pub mod firmware;
