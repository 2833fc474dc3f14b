//! The SMTP side of the server: commands, the session with its envelope,
//! and the answers.

pub mod command;
pub mod ehlo;
pub mod session;
pub mod state;
