pub mod dense;
pub mod dim;
pub mod item;
pub mod laws;
pub mod model;
pub mod square;
