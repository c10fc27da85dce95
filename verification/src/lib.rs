//! A credential relay that stands in for a PIN-entry program: it answers the
//! signing agent's request for a passphrase from a password manager, reached
//! over an encrypted local channel, and hands the request on to a real
//! interactive prompt whenever the password manager cannot answer.
//!
//! The library holds the decisions and the protocol; sockets, pipes and files
//! belong to the program around it.

pub mod assuan;
pub mod channel;
pub mod codec;
pub mod config;
pub mod crypto;
pub mod document;
pub mod keepassxc;
pub mod text;
