pub mod config_utils;
pub mod configs;
