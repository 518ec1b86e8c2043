//! Dense matrices with row operations, row echelon reduction, determinants
//! and products, over any cell type that supplies the arithmetic; beside
//! them a few small containers and printing settings.

pub mod algorithm;
pub mod matrix;
pub mod util;
