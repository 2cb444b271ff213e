//! Query Kafka topics with SQL: the verified core.

use vstd::prelude::*;

pub mod assign;
pub mod cache;
pub mod cli;
pub mod config;
pub mod consume;
pub mod decode;
pub mod env;
pub mod error;
pub mod names;
pub mod output;
pub mod progress;
pub mod query;
pub mod repl;
pub mod sample;
pub mod source;
pub mod text;
pub mod time;
pub mod topics;
pub mod window;

pub use error::Error;

verus! {

/// Returns the crate version, useful for `--version` reporting.
pub fn version() -> (v: &'static str)
    ensures
        v@ == "0.1.0"@,
{
    proof {
        reveal_strlit("0.1.0");
    }
    "0.1.0"
}

} // verus!
