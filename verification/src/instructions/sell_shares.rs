//! Selling a position back to the curve of its creature.

use vstd::prelude::*;
use crate::errors::GameError;
use crate::state::battle::{BattleState, BattleView};
use crate::state::market::{MarketState, MarketView};
use crate::state::position::{PositionView, UserPosition};
use crate::instructions::place_bet::{bet_refusal, market_after_bet, position_after_bet};
use crate::utils::{
    buy_shares, calculate_sell_price, lemma_round_trip, round_trip_is_fair, sell_price,
};

verus! {

/// What a sale needs: the battle, its market and the seller's position.
#[derive(Clone, Copy, Debug, PartialEq, Eq)]
pub struct SellShares {
    pub battle_state: BattleState,
    pub market_state: MarketState,
    pub user_position: UserPosition,
}

/// Why a sale of `shares_to_sell` from a position is refused, if it is. The
/// battle must run, the position must hold the shares and name a creature.
/// After that the sale is refused where the curve refuses it, where it
/// returns more than the creature's pool or the total holds, or where the
/// reserve would leave 64 bits.
pub open spec fn sale_refusal(
    m: MarketView,
    b: BattleView,
    p: PositionView,
    shares_to_sell: u64,
) -> Option<GameError> {
    let i = p.creature_index as int;
    if b.over {
        Some(GameError::BattleAlreadyOver)
    } else if shares_to_sell > p.amount {
        Some(GameError::InsufficientShares)
    } else if p.creature_index >= 4 {
        Some(GameError::InvalidCreatureIndex)
    } else {
        match sell_price(m.shares[i], shares_to_sell, m.k) {
            Err(e) => Some(e),
            Ok(returned) => if returned > m.pools[i] || returned > m.total_pool || m.shares[i]
                + shares_to_sell > u64::MAX {
                Some(GameError::CalculationOverflow)
            } else {
                None
            },
        }
    }
}

/// The market after `sold` shares of creature `i` were sold back for
/// `returned`: the creature's pool and the total are lower by what was
/// returned, and the creature's reserve is higher by what was sold.
pub open spec fn market_after_sale(m: MarketView, i: int, sold: u64, returned: u64) -> MarketView {
    MarketView {
        pools: m.pools.update(i, (m.pools[i] - returned) as u64),
        total_pool: (m.total_pool - returned) as u64,
        shares: m.shares.update(i, (m.shares[i] + sold) as u64),
        ..m
    }
}

/// The position after `sold` of its shares were sold. A position that is
/// sold out is closed.
pub open spec fn position_after_sale(p: PositionView, sold: u64) -> PositionView {
    PositionView {
        amount: (p.amount - sold) as u64,
        claimed: if p.amount == sold {
            true
        } else {
            p.claimed
        },
        ..p
    }
}

/// A bet that is sold back at once. Where a bet on creature `creature_index`
/// is taken and the position then sells what the bet bought, with no other
/// trade between the two, every reserve of the market is back where it was
/// and the pools still add up. The sale returns no more than the stake
/// exactly where the round trip is fair on the creature's curve.
pub proof fn lemma_bet_sold_back(
    m: MarketView,
    b: BattleView,
    p: PositionView,
    user: Seq<u8>,
    bump: u8,
    creature_index: u8,
    amount: u64,
)
    requires
        m.shaped(),
        !p.vacant() ==> p.creature_index == creature_index,
        bet_refusal(m, b, p, creature_index, amount) is None,
        sale_refusal(
            market_after_bet(
                m,
                creature_index as int,
                amount,
                buy_shares(m.shares[creature_index as int], amount, m.k)->Ok_0,
            ),
            b,
            position_after_bet(
                p,
                user,
                b.battle_id,
                creature_index,
                bump,
                buy_shares(m.shares[creature_index as int], amount, m.k)->Ok_0,
            ),
            buy_shares(m.shares[creature_index as int], amount, m.k)->Ok_0,
        ) is None,
    ensures
        ({
            let i = creature_index as int;
            let bought = buy_shares(m.shares[i], amount, m.k)->Ok_0;
            let staked = market_after_bet(m, i, amount, bought);
            let returned = sell_price(staked.shares[i], bought, m.k)->Ok_0;
            let sold = market_after_sale(staked, i, bought, returned);
            &&& sold.shares == m.shares
            &&& sold.pools == m.pools.update(i, (m.pools[i] + amount - returned) as u64)
            &&& sold.total_pool == m.total_pool + amount - returned
            &&& m.wf() ==> sold.wf()
            &&& returned <= amount <==> round_trip_is_fair(m.shares[i], amount, m.k)
        }),
{
    let i = creature_index as int;
    let bought = buy_shares(m.shares[i], amount, m.k)->Ok_0;
    let staked = market_after_bet(m, i, amount, bought);
    let held = position_after_bet(p, user, b.battle_id, creature_index, bump, bought);
    assert(held.creature_index == creature_index);
    assert(staked.shares[i] == m.shares[i] - bought);
    lemma_round_trip(m.shares[i], amount, m.k);
    let returned = sell_price(staked.shares[i], bought, m.k)->Ok_0;
    let sold = market_after_sale(staked, i, bought, returned);
    assert(sold.shares =~= m.shares);
    assert(sold.pools =~= m.pools.update(i, (m.pools[i] + amount - returned) as u64));
}

/// Sells `shares_to_sell` of the position back to the curve and returns what
/// the sale returns. The market's custody owes the seller that much.
///
/// A refused sale changes nothing. A sale keeps the total pool equal to the
/// sum of the pools.
pub fn sell_shares(ctx: &mut SellShares, shares_to_sell: u64) -> (result: Result<u64, GameError>)
    ensures
        match sale_refusal(
            old(ctx).market_state@,
            old(ctx).battle_state@,
            old(ctx).user_position@,
            shares_to_sell,
        ) {
            Some(e) => result == Err::<u64, GameError>(e) && *final(ctx) == *old(ctx),
            None => {
                &&& result == sell_price(
                    old(ctx).market_state@.shares[old(ctx).user_position.creature_index as int],
                    shares_to_sell,
                    old(ctx).market_state.k_constant,
                )
                &&& result matches Ok(returned) && final(ctx).market_state@ == market_after_sale(
                    old(ctx).market_state@,
                    old(ctx).user_position.creature_index as int,
                    shares_to_sell,
                    returned,
                )
                &&& final(ctx).user_position@ == position_after_sale(
                    old(ctx).user_position@,
                    shares_to_sell,
                )
                &&& final(ctx).battle_state == old(ctx).battle_state
            },
        },
        old(ctx).market_state.wf() ==> final(ctx).market_state.wf(),
        ({
            let before = old(ctx).market_state@;
            let after = final(ctx).market_state@;
            forall|i: int|
                0 <= i < 4 ==> #[trigger] after.shares[i] >= before.shares[i] && after.pools[i]
                    <= before.pools[i]
        }),
        final(ctx).user_position.amount <= old(ctx).user_position.amount,
{
    if ctx.battle_state.is_battle_over {
        return Err(GameError::BattleAlreadyOver);
    }
    if shares_to_sell > ctx.user_position.amount {
        return Err(GameError::InsufficientShares);
    }
    let creature_index = ctx.user_position.creature_index;
    if creature_index >= 4 {
        return Err(GameError::InvalidCreatureIndex);
    }
    let slot = creature_index as usize;
    let current_shares = ctx.market_state.creature_shares[slot];
    let sol_returned = match calculate_sell_price(
        current_shares,
        shares_to_sell,
        ctx.market_state.k_constant,
    ) {
        Ok(returned) => returned,
        Err(e) => { return Err(e); },
    };
    let pool = match ctx.market_state.creature_pools[slot].checked_sub(sol_returned) {
        Some(difference) => difference,
        None => { return Err(GameError::CalculationOverflow); },
    };
    let shares = match current_shares.checked_add(shares_to_sell) {
        Some(sum) => sum,
        None => { return Err(GameError::CalculationOverflow); },
    };
    let total_pool = match ctx.market_state.total_pool.checked_sub(sol_returned) {
        Some(difference) => difference,
        None => { return Err(GameError::CalculationOverflow); },
    };

    ctx.market_state.creature_pools[slot] = pool;
    ctx.market_state.creature_shares[slot] = shares;
    ctx.market_state.total_pool = total_pool;

    ctx.user_position.amount = ctx.user_position.amount - shares_to_sell;
    if ctx.user_position.amount == 0 {
        ctx.user_position.claimed = true;
    }
    Ok(sol_returned)
}

} // verus!
