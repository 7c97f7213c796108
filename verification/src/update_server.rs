//! The update server: erases and programs the alternate flash bank, decides
//! which bank the system boots from next, and reads the caboose of the image
//! in the alternate bank.
pub mod bank;
pub mod block;
pub mod caboose;
pub mod conduct;
pub mod contents;
pub mod erase;
pub mod laws;
pub mod program;
pub mod registers;
pub mod server;
pub mod status;
pub mod swap;
pub mod types;
pub mod unlock;
