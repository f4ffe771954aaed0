//! Keeps one light-or-dark appearance value in step between the operating
//! system and any number of long-lived terminal-side consumers.

pub mod broadcast;
pub mod config_tree;
pub mod server;
pub mod session;
pub mod shared_state;
pub mod text;
pub mod theme;
pub mod theme_listener;
pub mod theme_publisher;
pub mod wire;
