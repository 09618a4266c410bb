//! One symbol's cache record: the three stores plus the record's position
//! in the cache.  Once assigned, `cache_index` identifies this record for
//! the life of the process; records are never removed or compacted.

use vstd::prelude::*;

use crate::metrics::{metrics_empty, Metrics};
use crate::other::{other_empty, Other};
use crate::statements::{statements_empty, Statements};

verus! {

/// All cached data for one ticker.
#[derive(Clone, Debug, PartialEq)]
pub struct Stock {
    pub cache_index: Option<usize>,
    pub ticker: String,
    pub statements: Statements,
    pub metrics: Metrics,
    pub other: Other,
}

impl Stock {
    /// A fresh record for `ticker`: no cache slot yet, every slice empty.
    pub fn new(ticker: String) -> (r: Self)
        ensures
            r.cache_index is None,
            r.ticker@ == ticker@,
            statements_empty(r.statements),
            metrics_empty(r.metrics),
            other_empty(r.other),
    {
        Self {
            cache_index: None,
            ticker,
            statements: Statements::new(),
            metrics: Metrics::new(),
            other: Other::new(),
        }
    }

    /// Records the slot this record occupies in the cache.
    pub fn set_cache_index(&mut self, index: Option<usize>)
        ensures
            *final(self) == (Stock { cache_index: index, ..*old(self) }),
    {
        self.cache_index = index;
    }
}

} // verus!
