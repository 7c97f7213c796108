//! The supervisor: restarts the tasks that fault, or holds them where they
//! are, and keeps a few things that concern the whole system.
pub mod conduct;
pub mod dump;
pub mod history;
pub mod laws;
pub mod notification;
pub mod server;
pub mod types;
