//! An SMTP session state machine with the parsing that goes with it.
use vstd::prelude::*;

pub mod text;
pub mod smtp;
pub mod properties;
pub mod message;
pub mod client;
pub mod store;
