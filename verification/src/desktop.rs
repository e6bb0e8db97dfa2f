//! The desktop client: its state, what it asks the server for and when, and what it shows.
pub mod app;
pub mod client;
pub mod config;
pub mod dialog;
pub mod diff;
pub mod difftree;
pub mod laws;
pub mod login;
pub mod panels;
pub mod poll;
pub mod sessions;
pub mod settings;
pub mod state;
pub mod terminal_view;
pub mod theme;
pub mod ui;
