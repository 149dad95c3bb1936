//! Analyzer configured for concurrent use: holds a shared configuration and
//! a bound on how many directories are analyzed at once.

use vstd::prelude::*;
use std::sync::Arc;
use crate::config::{cpu_count, Config};
use crate::organizer::analyzer::{get_majority_type, spec_majority_name};
use crate::organizer::types::FileStats;
use crate::text::opt_str_view;

verus! {

/// Folder analyzer for concurrent callers.
pub struct AsyncAnalyzer {
    config: Arc<Config>,
    max_concurrent: usize,
}

impl AsyncAnalyzer {
    /// How many directories may be analyzed at once.
    pub closed spec fn spec_max_concurrent(&self) -> int {
        self.max_concurrent as int
    }

    /// The configuration the analyzer was built around.
    pub closed spec fn spec_config(&self) -> Config {
        *self.config
    }

    /// A new analyzer around a shared configuration.  The concurrency bound
    /// is twice the processor count, capped at four.
    pub fn new(config: Arc<Config>) -> (r: AsyncAnalyzer)
        ensures
            r.spec_config() == *config,
            2 <= r.spec_max_concurrent() <= 4,
    {
        let cpus = cpu_count();
        let max_concurrent = if cpus >= 2 {
            4
        } else {
            2 * cpus
        };
        AsyncAnalyzer { config, max_concurrent }
    }

    /// The shared configuration.
    pub fn config(&self) -> (r: &Arc<Config>)
        ensures
            **r == self.spec_config(),
    {
        &self.config
    }

    /// The tag of the majority category in `stats`, or nothing when every
    /// counter is zero.
    pub fn get_majority_type(&self, stats: &FileStats) -> (r: Option<&'static str>)
        ensures
            opt_str_view(r) == spec_majority_name(*stats),
    {
        get_majority_type(stats)
    }
}

impl Default for AsyncAnalyzer {
    /// An analyzer around the default configuration.
    fn default() -> (r: AsyncAnalyzer)
        ensures
            2 <= r.spec_max_concurrent() <= 4,
    {
        AsyncAnalyzer::new(Arc::new(Config::default()))
    }
}

} // verus!
