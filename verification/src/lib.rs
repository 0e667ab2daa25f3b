pub mod blocks;
pub mod config;
pub mod laws;
pub mod parse;
pub mod plan;
pub mod render;
pub mod text;

pub use config::ProjectConfig;
