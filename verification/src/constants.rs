//! The fees and the figures of the interest formula.
use vstd::prelude::*;

verus! {

/// The least value that must be attached to a call that joins the pool.
pub const MIN_BS_JOIN_FEE: u64 = 2;

/// The fee taken from the value attached when a saving is opened.
pub const BS_SAVING_FEE: u64 = 10;

/// The total supply that the vault state is measured against.
pub const TOTAL_SUPPLY: u64 = 15_000_000;

/// The supply ceiling from which the rate is derived.
pub const MAX_SUPPLY: u64 = 100_000_000;

/// The length of a year in seconds.
pub const YEARS_IN_SECS: u64 = 31_536_000;

/// One hundred, for percentages.
pub const HUNDRED: u64 = 100;

/// The scale by which the interest product is divided.
pub const DIVISOR: u64 = 1_000_000_000;

} // verus!
