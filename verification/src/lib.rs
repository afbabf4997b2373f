//! A personal-finance bookkeeping library: ledger rows (transactions,
//! payrolls, accounts), reference tables resolving names to ids, an
//! aggregation engine grouping rows by a key into count/sum/average
//! buckets, tabular report generation, and bulk CSV import.
//!
//! Monetary amounts are fixed-point integers counted in cents.

use vstd::prelude::*;

pub mod aggregate;
pub mod amount;
pub mod commands;
pub mod dates;
pub mod import;
pub mod models;
pub mod names;
pub mod report;
pub mod text;

verus! {

/// A trivial health check: callers may use it to see the library is wired in.
pub fn test() -> (r: Result<(), ()>)
    ensures
        r is Ok,
{
    Ok(())
}

} // verus!
