//! Buying into the curve of a creature.

use vstd::prelude::*;
use crate::errors::GameError;
use crate::state::battle::{BattleState, BattleView};
use crate::state::market::{MarketState, MarketView};
use crate::state::position::{PositionView, UserPosition};
use crate::utils::{buy_shares, calculate_buy_shares};

verus! {

/// The smallest stake that is accepted: a hundredth of a unit of the
/// currency, counted in its smallest part, of which a unit has a thousand
/// million.
pub const MIN_BET: u64 = 10_000_000;

/// What a bet needs: the market, its battle, the bettor's position on the
/// creature, the bettor's key and the bump of the position's address.
#[derive(Clone, Copy, Debug, PartialEq, Eq)]
pub struct PlaceBet {
    pub market_state: MarketState,
    pub battle_state: BattleState,
    pub user_position: UserPosition,
    pub user: [u8; 32],
    pub position_bump: u8,
}

/// Why a stake of `amount` on creature `creature_index` is refused, if it is.
/// The index is checked first, then that the battle runs, then the size of
/// the stake, then that the creature lives. After that the stake is refused
/// where the curve refuses it or where a pool, the total or the position
/// would leave 64 bits.
pub open spec fn bet_refusal(
    m: MarketView,
    b: BattleView,
    p: PositionView,
    creature_index: u8,
    amount: u64,
) -> Option<GameError> {
    let i = creature_index as int;
    if creature_index >= 4 {
        Some(GameError::InvalidCreatureIndex)
    } else if b.over {
        Some(GameError::BattleAlreadyOver)
    } else if amount < MIN_BET {
        Some(GameError::BetTooSmall)
    } else if !b.alive[i] {
        Some(GameError::CreatureIsDead)
    } else {
        match buy_shares(m.shares[i], amount, m.k) {
            Err(e) => Some(e),
            Ok(bought) => if m.pools[i] + amount > u64::MAX || m.total_pool + amount > u64::MAX
                || (!p.vacant() && p.amount + bought > u64::MAX) {
                Some(GameError::CalculationOverflow)
            } else {
                None
            },
        }
    }
}

/// The market after a stake of `amount` has bought `bought` shares of
/// creature `i`: the stake is in the creature's pool and in the total, and
/// the creature's reserve is lower by what was bought.
pub open spec fn market_after_bet(m: MarketView, i: int, amount: u64, bought: u64) -> MarketView {
    MarketView {
        pools: m.pools.update(i, (m.pools[i] + amount) as u64),
        total_pool: (m.total_pool + amount) as u64,
        shares: m.shares.update(i, (m.shares[i] - bought) as u64),
        ..m
    }
}

/// The position after `bought` shares were bought for it. A vacant position
/// is taken by the bettor and holds what was bought; a position that is
/// taken holds that much more.
pub open spec fn position_after_bet(
    p: PositionView,
    user: Seq<u8>,
    battle_id: u64,
    creature_index: u8,
    bump: u8,
    bought: u64,
) -> PositionView {
    if p.vacant() {
        PositionView { user, battle_id, creature_index, amount: bought, claimed: false, bump }
    } else {
        PositionView { amount: (p.amount + bought) as u64, ..p }
    }
}

/// Stakes `amount` on creature `creature_index` and returns the shares that
/// the stake bought. The caller owes the market's custody `amount`.
///
/// A refused bet changes nothing. A bet keeps the total pool equal to the sum
/// of the pools.
pub fn place_bet(ctx: &mut PlaceBet, creature_index: u8, amount: u64) -> (result: Result<
    u64,
    GameError,
>)
    ensures
        match bet_refusal(
            old(ctx).market_state@,
            old(ctx).battle_state@,
            old(ctx).user_position@,
            creature_index,
            amount,
        ) {
            Some(e) => result == Err::<u64, GameError>(e) && *final(ctx) == *old(ctx),
            None => {
                &&& result == buy_shares(
                    old(ctx).market_state@.shares[creature_index as int],
                    amount,
                    old(ctx).market_state.k_constant,
                )
                &&& result matches Ok(bought) && final(ctx).market_state@ == market_after_bet(
                    old(ctx).market_state@,
                    creature_index as int,
                    amount,
                    bought,
                ) && final(ctx).user_position@ == position_after_bet(
                    old(ctx).user_position@,
                    old(ctx).user@,
                    old(ctx).battle_state.battle_id,
                    creature_index,
                    old(ctx).position_bump,
                    bought,
                )
                &&& final(ctx).battle_state == old(ctx).battle_state
                &&& final(ctx).user == old(ctx).user
                &&& final(ctx).position_bump == old(ctx).position_bump
            },
        },
        old(ctx).market_state.wf() ==> final(ctx).market_state.wf(),
        ({
            let before = old(ctx).market_state@;
            let after = final(ctx).market_state@;
            forall|i: int|
                0 <= i < 4 ==> #[trigger] after.shares[i] <= before.shares[i] && after.pools[i]
                    >= before.pools[i]
        }),
{
    if creature_index >= 4 {
        return Err(GameError::InvalidCreatureIndex);
    }
    if ctx.battle_state.is_battle_over {
        return Err(GameError::BattleAlreadyOver);
    }
    if amount < MIN_BET {
        return Err(GameError::BetTooSmall);
    }
    let slot = creature_index as usize;
    if !ctx.battle_state.is_alive[slot] {
        return Err(GameError::CreatureIsDead);
    }
    let current_shares = ctx.market_state.creature_shares[slot];
    let shares_bought = match calculate_buy_shares(
        current_shares,
        amount,
        ctx.market_state.k_constant,
    ) {
        Ok(shares) => shares,
        Err(e) => { return Err(e); },
    };
    let pool = match ctx.market_state.creature_pools[slot].checked_add(amount) {
        Some(sum) => sum,
        None => { return Err(GameError::CalculationOverflow); },
    };
    let total_pool = match ctx.market_state.total_pool.checked_add(amount) {
        Some(sum) => sum,
        None => { return Err(GameError::CalculationOverflow); },
    };
    let vacant = ctx.user_position.is_vacant();
    let held = if vacant {
        shares_bought
    } else {
        match ctx.user_position.amount.checked_add(shares_bought) {
            Some(sum) => sum,
            None => { return Err(GameError::CalculationOverflow); },
        }
    };

    ctx.market_state.creature_pools[slot] = pool;
    ctx.market_state.creature_shares[slot] = current_shares - shares_bought;
    ctx.market_state.total_pool = total_pool;

    if vacant {
        ctx.user_position.user = ctx.user;
        ctx.user_position.battle_id = ctx.battle_state.battle_id;
        ctx.user_position.creature_index = creature_index;
        ctx.user_position.amount = held;
        ctx.user_position.claimed = false;
        ctx.user_position.bump = ctx.position_bump;
    } else {
        ctx.user_position.amount = held;
    }
    Ok(shares_bought)
}

} // verus!
