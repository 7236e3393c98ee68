//! Configuration loading with error accumulation, source layering, value
//! tracing and validation.
use vstd::prelude::*;

pub mod assoc;
pub mod attrs;
pub mod config;
pub mod env;
pub mod error;
pub mod text;
pub mod pretty;
pub mod source;
pub mod sources;
pub mod trace;
pub mod validate;
pub mod value;
pub mod watch;

verus! {
} // verus!
