//! Staleness-aware cache of per-symbol financial data, and a lazy,
//! short-circuiting stock screener built on top of it.
//!
//! The cache holds one record per ticker, each with typed slices of
//! income / balance / cash-flow statements, ratio and key-metric series,
//! and profile data.  Every slice carries fetch provenance (the horizon
//! last requested and the day it was requested), which drives a dual
//! staleness rule: refresh when the cached slice is shorter than the
//! requested horizon and the horizon grows past the last attempt, or when
//! the most recent period has aged past its calendar window.
//!
//! Calendar dates are day numbers (days since an arbitrary fixed epoch);
//! monetary amounts and ratios are fixed-point integers (see
//! [`helper_structs::RATIO_SCALE`]).  Remote I/O happens outside this
//! crate: callers ask the planning functions whether a fetch is due,
//! perform it, and hand the result to the install functions.

pub mod cache;
pub mod codec;
pub mod helper_structs;
pub mod metrics;
pub mod other;
pub mod screener;
pub mod statements;
pub mod stock;
pub mod utils;
