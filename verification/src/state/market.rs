//! The market attached to one battle: a pool of stakes and a curve reserve
//! for each creature.

use vstd::prelude::*;

verus! {

/// A market as it is stored. `creature_shares[i]` is the reserve of the curve
/// of creature `i`: it falls as stakes arrive and rises as positions are sold
/// back. It is not a count of the shares that users hold.
#[derive(Clone, Copy, Debug, PartialEq, Eq)]
pub struct MarketState {
    pub battle_id: u64,
    pub creature_pools: [u64; 4],
    pub total_pool: u64,
    pub is_settled: bool,
    pub creature_shares: [u64; 4],
    pub k_constant: u128,
    pub bump: u8,
}

/// The mathematical value of a [`MarketState`].
pub struct MarketView {
    pub battle_id: u64,
    pub pools: Seq<u64>,
    pub total_pool: u64,
    pub is_settled: bool,
    pub shares: Seq<u64>,
    pub k: u128,
    pub bump: u8,
}

impl View for MarketState {
    type V = MarketView;

    open spec fn view(&self) -> MarketView {
        MarketView {
            battle_id: self.battle_id,
            pools: self.creature_pools@,
            total_pool: self.total_pool,
            is_settled: self.is_settled,
            shares: self.creature_shares@,
            k: self.k_constant,
            bump: self.bump,
        }
    }
}

/// The sum of the four pools.
pub open spec fn pool_sum(pools: Seq<u64>) -> int {
    pools[0] + pools[1] + pools[2] + pools[3]
}

impl MarketView {
    /// There is one pool and one reserve per creature.
    pub open spec fn shaped(self) -> bool {
        self.pools.len() == 4 && self.shares.len() == 4
    }

    /// The invariant of a market: the total pool is the sum of the four
    /// pools.
    pub open spec fn wf(self) -> bool {
        self.shaped() && self.total_pool == pool_sum(self.pools)
    }
}

impl MarketState {
    /// The invariant of a market, on the stored value.
    pub open spec fn wf(&self) -> bool {
        self@.wf()
    }
}

} // verus!
