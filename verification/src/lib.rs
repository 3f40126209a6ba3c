//! Compose-validate-send pipeline for a command-line mailer.
//!
//! The library holds the verified logic of the mailer: address validation,
//! credential-cache text handling, parsing of the editor scratch buffer,
//! resolution of command-line arguments against cached credentials, message
//! construction, and classification of the relay's response. All file,
//! process and network I/O stays outside the library; callers hand plain
//! values in and take plain values back.

pub mod args;
pub mod credentials;
pub mod editor;
pub mod message;
pub mod pipeline;
pub mod text;
pub mod transport;
pub mod validate;
