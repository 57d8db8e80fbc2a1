//! A small mail backend core: the IMAP4rev2 command grammar, the session
//! state machine with its command handlers, and the message store they
//! work on, each with a machine-checked contract. Beside them stand the
//! SMTP state machine that receives mail, the delivery of received mail
//! into the store, and what a relay sends to another server.
//!
//! Sockets, TLS, timers and the database file are left to the caller: the
//! sessions here take the text that was read and give the bytes to write.
//!
//! `laws` states what holds of every store and every session; `worked`
//! follows a short session step by step.

pub mod text;
pub mod scan;
pub mod dates;
pub mod smtp_common;
pub mod smtp_incoming;
pub mod smtp_outgoing;
pub mod store;
pub mod database;
pub mod parsing;
pub mod matching;
pub mod imap;
pub mod imap_op;
pub mod utils;
pub mod laws;
pub mod worked;
