pub mod cli;
pub mod config;
pub mod error;
pub mod platform_binary;
pub mod render;
