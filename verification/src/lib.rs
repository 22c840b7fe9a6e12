//! Loss functions over candle tensors.

pub mod arithmetic;
pub mod backend;
pub mod dtype;
pub mod element_numbers;
pub mod error;
pub mod label;
pub mod launch;
pub mod laws;
pub mod loss;
pub mod model;
pub mod outcomes;
pub mod renewal;
pub mod row_numbers;
pub mod row_op;
pub mod rows;
pub mod shape;
pub mod sigmoid;
pub mod steps;
pub mod text;
