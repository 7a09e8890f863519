pub mod commands;
pub mod events;
pub mod framework;
pub mod integrations;
pub mod models;
pub mod settings;
pub mod tasks;
pub mod text;
pub mod utils;
