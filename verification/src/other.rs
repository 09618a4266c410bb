//! The profile store: company profile and discounted-cash-flow slices for
//! one symbol.  These have no staleness rule: an ensure always refetches,
//! so the install functions simply replace the slice and record the
//! attempt.

use vstd::prelude::*;

use crate::helper_structs::{
    AdvancedLeveredDiscountedCashFlow, FetchStats, Profile, StatementSlice, TimePeriod,
};
use crate::utils::{spec_pull_stats, update_pull_stats};

verus! {

/// Per-symbol cache of profile and valuation data.
#[derive(Clone, Debug, PartialEq)]
pub struct Other {
    pub profile: StatementSlice<Profile>,
    pub dcf: StatementSlice<AdvancedLeveredDiscountedCashFlow>,
}

/// A store as `Other::new` builds it: both slices empty, never fetched.
pub open spec fn other_empty(o: Other) -> bool {
    &&& o.profile.items@.len() == 0
    &&& o.dcf.items@.len() == 0
    &&& o.profile.stats == (FetchStats { last_pull_length: 0, last_pull_time: None })
    &&& o.dcf.stats == (FetchStats { last_pull_length: 0, last_pull_time: None })
}

impl Other {
    /// An empty store: both slices empty, never fetched.
    pub fn new() -> (r: Self)
        ensures
            other_empty(r),
    {
        Self {
            profile: StatementSlice { items: Vec::new(), stats: FetchStats::new(0) },
            dcf: StatementSlice { items: Vec::new(), stats: FetchStats::new(0) },
        }
    }

    /// Replaces the profile slice with a fetch's result, recording the
    /// attempt.
    pub fn install_profile(&mut self, today: i64, data: Vec<Profile>)
        ensures
            *final(self) == (Other {
                profile: StatementSlice {
                    items: data,
                    stats: spec_pull_stats(TimePeriod::NA(), today as int),
                },
                ..*old(self)
            }),
    {
        let stats = update_pull_stats(&TimePeriod::NA(), today);
        self.profile = StatementSlice { items: data, stats };
    }

    /// Replaces the discounted-cash-flow slice with a fetch's result,
    /// recording the attempt.
    pub fn install_dcf(&mut self, today: i64, data: Vec<AdvancedLeveredDiscountedCashFlow>)
        ensures
            *final(self) == (Other {
                dcf: StatementSlice {
                    items: data,
                    stats: spec_pull_stats(TimePeriod::NA(), today as int),
                },
                ..*old(self)
            }),
    {
        let stats = update_pull_stats(&TimePeriod::NA(), today);
        self.dcf = StatementSlice { items: data, stats };
    }
}

} // verus!
