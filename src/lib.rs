pub mod ring;
pub mod clip;
pub mod trigger;
pub mod stream;
pub mod cli;
