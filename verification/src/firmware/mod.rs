pub mod definition;
pub mod encryption;
pub mod error;
pub mod flasher;
pub mod loader;
pub mod monitoring;
pub mod patch;
pub mod resources;
pub mod state;
pub mod stock;
pub mod text;
pub mod vandalproof;
pub mod xml;
