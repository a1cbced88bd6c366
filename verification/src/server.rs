//! The synchronisation service: the todo lists of many users in one table,
//! and the merge of what a client sends with what the table holds.

pub mod db;
pub mod handlers;
pub mod laws;
pub mod models;
pub mod table;
