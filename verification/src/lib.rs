//! Core of a terminal inbox for the pull requests where the ball is in your
//! court: configuration, comment filtering, done-state rules, section
//! building and the state of the interactive view.

pub mod app;
pub mod config;
pub mod error;
pub mod filter;
pub mod github;
pub mod inbox;
pub mod item;
pub mod order;
pub mod pattern;
pub mod store;
pub mod text;
pub mod types;
pub mod ui;
