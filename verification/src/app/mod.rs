//! The state of the user interface and what changes it.
pub mod answers;
pub mod board;
pub mod boards;
pub mod cards;
pub mod chat;
pub mod commands;
pub mod context;
pub mod create;
pub mod image;
pub mod laws;
pub mod math;
pub mod page;
pub mod process;
pub mod session;
pub mod settings;
pub mod snippet;
pub mod start;
pub mod view;
