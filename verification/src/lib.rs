//! The protocol core of a small mail server: the IMAP and SMTP command
//! logic as pure functions from session state and input to the lines to
//! send, with every function proved against its contract.

pub mod config;
pub mod imap;
pub mod line_codec;
pub mod mail;
pub mod mailbox;
pub mod reply;
pub mod sasl;
pub mod smtp;
pub mod text;
