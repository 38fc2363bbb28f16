//! An in-process key-value store with a command/response protocol.
use vstd::prelude::*;

pub mod store;
pub mod error;
pub mod cache;
pub mod protocol;
pub mod line;
pub mod json;
pub mod codec;
pub mod render;
pub mod api;
pub mod cli;
