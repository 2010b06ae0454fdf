//! The verified core of a controller for a room full of players that are driven over SSH.

pub mod action;
pub mod arguments;
pub mod client;
pub mod config;
pub mod data;
pub mod icons;
pub mod laws;
pub mod lists;
pub mod message;
pub mod screen;
pub mod session;
pub mod text;
