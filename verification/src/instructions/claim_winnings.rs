//! Paying a winning position its part of the pool.

use vstd::prelude::*;
use vstd::arithmetic::div_mod::lemma_div_pos_is_pos;
use vstd::arithmetic::div_mod::lemma_fundamental_div_mod;
use crate::errors::GameError;
use crate::state::battle::{BattleState, BattleView};
use crate::state::market::{MarketState, MarketView};
use crate::state::position::{PositionView, UserPosition};

verus! {

/// What a claim needs: the battle, its market and the claimant's position.
#[derive(Clone, Copy, Debug, PartialEq, Eq)]
pub struct ClaimWinnings {
    pub battle_state: BattleState,
    pub market_state: MarketState,
    pub user_position: UserPosition,
}

/// What a position of weight `amount` on the winner is paid: its part of the
/// total pool in proportion to the winner's pool, rounded down.
pub open spec fn payout_of(amount: u64, total_pool: u64, winning_pool: u64) -> int {
    amount * total_pool / (winning_pool as int)
}

/// Why a claim is refused, if it is. The battle must be over and have a
/// winner, the position must be on the winner and not settled yet. After that
/// the claim is refused where the winner is no creature, where the winner's
/// pool is empty, or where the payout does not fit 64 bits.
pub open spec fn claim_refusal(b: BattleView, m: MarketView, p: PositionView) -> Option<GameError> {
    if !b.over {
        Some(GameError::BattleNotOver)
    } else {
        match b.winner {
            None => Some(GameError::NoWinner),
            Some(winner) => if p.creature_index != winner {
                Some(GameError::NotAWinner)
            } else if p.claimed {
                Some(GameError::AlreadyClaimed)
            } else if winner >= 4 {
                Some(GameError::InvalidCreatureIndex)
            } else if m.pools[winner as int] == 0 {
                Some(GameError::DivisionByZero)
            } else if payout_of(p.amount, m.total_pool, m.pools[winner as int]) > u64::MAX {
                Some(GameError::CalculationOverflow)
            } else {
                None
            },
        }
    }
}

/// Settles the position and returns its payout. The market's custody owes
/// the claimant that much.
///
/// A refused claim changes nothing; a claim that is paid marks the position
/// as settled and changes nothing else.
pub fn claim_winnings(ctx: &mut ClaimWinnings) -> (result: Result<u64, GameError>)
    ensures
        match claim_refusal(
            old(ctx).battle_state@,
            old(ctx).market_state@,
            old(ctx).user_position@,
        ) {
            Some(e) => result == Err::<u64, GameError>(e) && *final(ctx) == *old(ctx),
            None => {
                &&& result matches Ok(payout) && payout == payout_of(
                    old(ctx).user_position.amount,
                    old(ctx).market_state.total_pool,
                    old(ctx).market_state@.pools[old(ctx).user_position.creature_index as int],
                )
                &&& final(ctx).user_position@ == (PositionView {
                    claimed: true,
                    ..old(ctx).user_position@
                })
                &&& final(ctx).battle_state == old(ctx).battle_state
                &&& final(ctx).market_state == old(ctx).market_state
            },
        },
        old(ctx).market_state.wf() ==> final(ctx).market_state.wf(),
{
    if !ctx.battle_state.is_battle_over {
        return Err(GameError::BattleNotOver);
    }
    let winner = match ctx.battle_state.winner {
        Some(winner) => winner,
        None => { return Err(GameError::NoWinner); },
    };
    if ctx.user_position.creature_index != winner {
        return Err(GameError::NotAWinner);
    }
    if ctx.user_position.claimed {
        return Err(GameError::AlreadyClaimed);
    }
    if winner >= 4 {
        return Err(GameError::InvalidCreatureIndex);
    }
    let winning_pool = ctx.market_state.creature_pools[winner as usize];

    let weighted = match (ctx.user_position.amount as u128).checked_mul(
        ctx.market_state.total_pool as u128,
    ) {
        Some(product) => product,
        None => {
            proof {
                lemma_product_fits(ctx.user_position.amount, ctx.market_state.total_pool);
            }
            return Err(GameError::CalculationOverflow);
        },
    };
    let payout = match weighted.checked_div(winning_pool as u128) {
        Some(quotient) => quotient,
        None => { return Err(GameError::DivisionByZero); },
    };
    if payout > u64::MAX as u128 {
        return Err(GameError::CalculationOverflow);
    }
    ctx.user_position.claimed = true;
    Ok(payout as u64)
}

/// The sum of the claim weights of some positions.
pub open spec fn amount_sum(amounts: Seq<u64>) -> int
    decreases amounts.len(),
{
    if amounts.len() == 0 {
        0
    } else {
        amount_sum(amounts.drop_last()) + amounts.last()
    }
}

/// The sum of what positions of the given weights on the winner are paid.
pub open spec fn payout_sum(amounts: Seq<u64>, total_pool: u64, winning_pool: u64) -> int
    decreases amounts.len(),
{
    if amounts.len() == 0 {
        0
    } else {
        payout_sum(amounts.drop_last(), total_pool, winning_pool) + payout_of(
            amounts.last(),
            total_pool,
            winning_pool,
        )
    }
}

/// Winners are paid in proportion, rounded down: the payouts stand to the
/// total pool at most as the weights stand to the winner's pool. So
/// positions whose weights sum to no more than the winner's pool are paid no
/// more than the total pool between them; what rounding keeps back stays in
/// custody.
pub proof fn lemma_payouts_within_pool(amounts: Seq<u64>, total_pool: u64, winning_pool: u64)
    requires
        winning_pool > 0,
    ensures
        0 <= payout_sum(amounts, total_pool, winning_pool),
        payout_sum(amounts, total_pool, winning_pool) * winning_pool <= amount_sum(amounts)
            * total_pool,
        amount_sum(amounts) <= winning_pool ==> payout_sum(amounts, total_pool, winning_pool)
            <= total_pool,
    decreases amounts.len(),
{
    let pool = winning_pool as int;
    let total = total_pool as int;
    if amounts.len() > 0 {
        let rest = amounts.drop_last();
        let weight = amounts.last() as int;
        lemma_payouts_within_pool(rest, total_pool, winning_pool);
        let paid_rest = payout_sum(rest, total_pool, winning_pool);
        let paid = payout_of(amounts.last(), total_pool, winning_pool);
        let weights_rest = amount_sum(rest);
        assert(0 <= weight * total) by (nonlinear_arith)
            requires
                0 <= weight,
                0 <= total,
        ;
        lemma_fundamental_div_mod(weight * total, pool);
        lemma_div_pos_is_pos(weight * total, pool);
        assert(paid * pool <= weight * total) by (nonlinear_arith)
            requires
                weight * total == pool * paid + (weight * total) % pool,
                0 <= (weight * total) % pool,
        ;
        assert((paid_rest + paid) * pool <= (weights_rest + weight) * total) by (nonlinear_arith)
            requires
                paid_rest * pool <= weights_rest * total,
                paid * pool <= weight * total,
        ;
    }
    let paid_all = payout_sum(amounts, total_pool, winning_pool);
    let weights = amount_sum(amounts);
    if weights <= pool {
        assert(paid_all <= total) by (nonlinear_arith)
            requires
                paid_all * pool <= weights * total,
                weights <= pool,
                0 < pool,
                0 <= total,
                0 <= paid_all,
        ;
    }
}

/// The product of two 64-bit numbers fits 128 bits.
pub proof fn lemma_product_fits(x: u64, y: u64)
    ensures
        x * y <= u128::MAX,
{
    assert(x * y <= 0xffff_ffff_ffff_ffff * 0xffff_ffff_ffff_ffff) by (nonlinear_arith)
        requires
            0 <= x <= 0xffff_ffff_ffff_ffff,
            0 <= y <= 0xffff_ffff_ffff_ffff,
    ;
}

} // verus!
