pub mod bot;
pub mod commands;
pub mod operations;
pub mod text;
pub mod utils;
