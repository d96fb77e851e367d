//! Creation of the market of a battle.

use vstd::prelude::*;
use crate::errors::GameError;
use crate::state::market::{MarketState, MarketView};

verus! {

/// What creating a market needs: the record to fill and the bump of its
/// address.
#[derive(Clone, Copy, Debug, PartialEq, Eq)]
pub struct InitializeMarket {
    pub market_state: MarketState,
    pub bump: u8,
}

/// A market at its start: empty pools, every reserve at the initial
/// liquidity, and the curve constant at its square.
pub open spec fn fresh_market(battle_id: u64, initial_liquidity: u64, bump: u8) -> MarketView {
    MarketView {
        battle_id,
        pools: seq![0u64, 0u64, 0u64, 0u64],
        total_pool: 0,
        is_settled: false,
        shares: seq![initial_liquidity, initial_liquidity, initial_liquidity, initial_liquidity],
        k: (initial_liquidity * initial_liquidity) as u128,
        bump,
    }
}

/// The square of a 64-bit number fits 128 bits.
pub proof fn lemma_square_fits(x: u64)
    ensures
        x * x <= u128::MAX,
{
    assert(x * x <= 0xffff_ffff_ffff_ffff * 0xffff_ffff_ffff_ffff) by (nonlinear_arith)
        requires
            0 <= x <= 0xffff_ffff_ffff_ffff,
    ;
}

/// Fills the record with the market of battle `battle_id` at its start.
pub fn initialize_market(ctx: &mut InitializeMarket, battle_id: u64, initial_liquidity: u64) -> (result:
    Result<(), GameError>)
    ensures
        result is Ok,
        final(ctx).market_state@ == fresh_market(battle_id, initial_liquidity, old(ctx).bump),
        final(ctx).market_state.wf(),
        final(ctx).bump == old(ctx).bump,
{
    proof {
        lemma_square_fits(initial_liquidity);
    }
    ctx.market_state.battle_id = battle_id;
    ctx.market_state.creature_pools = [0, 0, 0, 0];
    ctx.market_state.total_pool = 0;
    ctx.market_state.is_settled = false;

    ctx.market_state.creature_shares = [
        initial_liquidity,
        initial_liquidity,
        initial_liquidity,
        initial_liquidity,
    ];
    ctx.market_state.k_constant = (initial_liquidity as u128) * (initial_liquidity as u128);
    ctx.market_state.bump = ctx.bump;
    proof {
        let after = ctx.market_state@;
        let fresh = fresh_market(battle_id, initial_liquidity, ctx.bump);
        assert(after.pools =~= fresh.pools);
        assert(after.shares =~= fresh.shares);
    }
    Ok(())
}

} // verus!
