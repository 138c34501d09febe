//! Per-query execution state.
//!
//! One state exists per query execution. It holds the window-result cache —
//! partition groupings keyed by the partition-by signature that produced
//! them — and two flags: whether the running projection holds a window
//! function, and whether window results may be cached. A `split` produces an
//! isolated state for one partition-group's evaluation; the parent's cache
//! is cleared once the whole projection completes.
use vstd::prelude::*;

use crate::expr::Expr;

verus! {

/// A cached partition grouping: the row-index groups computed for one
/// partition-by key list.
#[derive(Debug)]
pub struct CachedPartition {
    pub key: Vec<Expr>,
    pub groups: Vec<Vec<usize>>,
}

/// Per-query mutable context: window-result cache plus evaluation flags.
#[derive(Debug)]
pub struct ExecutionState {
    pub window_cache: Vec<CachedPartition>,
    pub has_window_function: bool,
    pub cache_window_results: bool,
}

impl ExecutionState {
    /// A fresh state: empty cache, no flags set.
    pub fn new() -> (s: ExecutionState)
        ensures
            s.window_cache@.len() == 0,
            !s.has_window_function,
            !s.cache_window_results,
    {
        ExecutionState { window_cache: Vec::new(), has_window_function: false, cache_window_results: false }
    }

    /// A derived state for isolated use within one partition-group's
    /// evaluation: same flags, empty cache.
    pub fn split(&self) -> (s: ExecutionState)
        ensures
            s.window_cache@.len() == 0,
            s.has_window_function == self.has_window_function,
            s.cache_window_results == self.cache_window_results,
    {
        ExecutionState {
            window_cache: Vec::new(),
            has_window_function: self.has_window_function,
            cache_window_results: self.cache_window_results,
        }
    }

    /// Marks the projection as holding a window function.
    pub fn mark_has_window_function(&mut self)
        ensures
            final(self).has_window_function,
            final(self).cache_window_results == old(self).cache_window_results,
            final(self).window_cache == old(self).window_cache,
    {
        self.has_window_function = true;
    }

    /// Allows caching of window results.
    pub fn enable_window_cache(&mut self)
        ensures
            final(self).cache_window_results,
            final(self).has_window_function == old(self).has_window_function,
            final(self).window_cache == old(self).window_cache,
    {
        self.cache_window_results = true;
    }

    /// Forbids caching of window results.
    pub fn disable_window_cache(&mut self)
        ensures
            !final(self).cache_window_results,
            final(self).has_window_function == old(self).has_window_function,
            final(self).window_cache == old(self).window_cache,
    {
        self.cache_window_results = false;
    }

    /// Drops every cached partition grouping; invoked unconditionally at
    /// the end of a full projection evaluation.
    pub fn clear_window_cache(&mut self)
        ensures
            final(self).window_cache@.len() == 0,
            final(self).has_window_function == old(self).has_window_function,
            final(self).cache_window_results == old(self).cache_window_results,
    {
        self.window_cache = Vec::new();
    }
}

} // verus!
