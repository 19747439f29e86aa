//! Settings that hold for every search of the process.

use std::time::Duration;
use vstd::prelude::*;

verus! {

/// Process-wide settings.
pub struct Config {
    /// How long a connection may take to establish.
    pub timeout: Duration,
}

impl Config {
    pub fn new(timeout: Duration) -> (r: Config)
        ensures
            r.timeout == timeout,
    {
        Config { timeout }
    }
}

} // verus!
