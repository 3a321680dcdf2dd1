pub mod config;
pub mod flow;
pub mod keys;
pub mod structs;
