//! The decisions of two tasks of an embedded operating system, verified: the
//! server that writes firmware updates into the alternate flash bank of an
//! STM32H7, and the supervisor that restarts tasks when they fault.
//!
//! Neither half touches the hardware or the kernel. Each says what is to be
//! done next, is told what came of it, and says how to go on.

pub mod api;
pub mod jefe;
pub mod procedure;
pub mod update_server;
