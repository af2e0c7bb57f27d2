use vstd::prelude::*;

verus! {

/// Flush-policy knobs for callers that drive batching on a timer.
#[derive(Debug, PartialEq)]
pub struct Config {
    pub max_flush_interval: usize,
    pub max_flush_size: usize,
    pub gzip: bool,
}

pub const DEFAULT_MAX_FLUSH_INTERVAL_IN_MILLIS: usize = 10000;

pub const DEFAULT_MAX_FLUSH_SIZE: usize = 10;

pub const DEFAULT_ALLOW_GZIP: bool = true;

impl Default for Config {
    fn default() -> (c: Config)
        ensures
            c.max_flush_interval == DEFAULT_MAX_FLUSH_INTERVAL_IN_MILLIS,
            c.max_flush_size == DEFAULT_MAX_FLUSH_SIZE,
            c.gzip == DEFAULT_ALLOW_GZIP,
    {
        Config {
            max_flush_interval: DEFAULT_MAX_FLUSH_INTERVAL_IN_MILLIS,
            max_flush_size: DEFAULT_MAX_FLUSH_SIZE,
            gzip: DEFAULT_ALLOW_GZIP,
        }
    }
}

} // verus!
