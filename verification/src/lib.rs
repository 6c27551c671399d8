pub mod commands;
pub mod date;
pub mod email;
pub mod holiday;
pub mod models;
pub mod scheduler;
pub mod text;
