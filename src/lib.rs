pub mod aircraft;
pub mod encode;
pub mod hex;
pub mod simulator;
