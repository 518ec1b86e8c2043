pub mod error;
pub mod math;
pub mod print;
pub mod random;
