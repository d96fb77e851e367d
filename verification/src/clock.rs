//! The moment at which an operation runs, as the ledger reports it.

use vstd::prelude::*;

verus! {

/// The ledger's clock at the time of a call.
#[derive(Clone, Copy, Debug, PartialEq, Eq)]
pub struct Clock {
    /// The slot in which the call runs.
    pub slot: u64,
    /// Seconds since the Unix epoch.
    pub unix_timestamp: i64,
}

/// The 64 bits of a timestamp, read as an unsigned number.
pub open spec fn timestamp_bits(unix_timestamp: i64) -> u64 {
    if unix_timestamp >= 0 {
        unix_timestamp as u64
    } else {
        (unix_timestamp + 0x1_0000_0000_0000_0000) as u64
    }
}

impl Clock {
    /// The timestamp as the unsigned 64-bit number with the same bits.
    pub fn timestamp_bits(&self) -> (bits: u64)
        ensures
            bits == timestamp_bits(self.unix_timestamp),
    {
        if self.unix_timestamp >= 0 {
            self.unix_timestamp as u64
        } else {
            ((self.unix_timestamp as i128) + 0x1_0000_0000_0000_0000i128) as u64
        }
    }
}

} // verus!
