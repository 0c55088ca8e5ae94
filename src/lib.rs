pub mod config;
pub mod discover;
pub mod emit;
pub mod error;
pub mod generate;
pub mod model;
pub mod resolve;
pub mod scalar;
