pub mod engine;
pub mod matrix;
pub mod text;
pub mod vector;
