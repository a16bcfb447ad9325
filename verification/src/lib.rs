pub mod config;
pub mod gui;
pub mod platform;
pub mod popup;
pub mod text;
