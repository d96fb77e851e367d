//! Turn-based creature battles and the bonding-curve market that is settled
//! on their outcome.

pub mod clock;
pub mod errors;
pub mod instructions;
pub mod state;
pub mod utils;
