pub mod air;
pub mod curve;
pub mod field;
pub mod laws;
pub mod trace;
