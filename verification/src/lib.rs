pub mod json;
pub mod utils;
pub mod text;
pub mod variants;
pub mod logger;
pub mod config;
pub mod cli;
pub mod hardware;
