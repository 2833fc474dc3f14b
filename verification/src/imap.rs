//! The IMAP side of the server: commands, the session with its states, and
//! the answers.

pub mod command;
pub mod completion;
pub mod create;
pub mod dispatch;
pub mod fetch;
pub mod server;
pub mod spelling;
pub mod state;
pub mod uid;
