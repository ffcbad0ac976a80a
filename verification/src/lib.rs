pub mod classify;
pub mod keyboard;
pub mod laws;
pub mod round;
