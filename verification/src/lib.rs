pub mod display;
pub mod engine;
pub mod grid;
pub mod rules;
