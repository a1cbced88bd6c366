//! The local store: the todo list of one user on one device.

pub mod commands;
pub mod laws;
pub mod models;
