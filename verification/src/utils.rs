//! The arithmetic of the game: the seed mixer, the choice of target and
//! ability, damage, and the bonding curve.

use vstd::prelude::*;
use vstd::arithmetic::div_mod::lemma_div_is_ordered_by_denominator;
use vstd::arithmetic::div_mod::lemma_div_pos_is_pos;
use vstd::arithmetic::div_mod::lemma_div_is_ordered;
use vstd::arithmetic::div_mod::lemma_div_multiples_vanish;
use vstd::arithmetic::div_mod::lemma_fundamental_div_mod;
use crate::clock::{timestamp_bits, Clock};
use crate::errors::GameError;
use crate::state::battle::Ability;

verus! {

/// The odd constant by which the mixer multiplies the slot.
pub const SLOT_MULTIPLIER: u64 = 0x9e3779b97f4a7c15;

/// The odd constant by which the mixer multiplies the timestamp.
pub const TIME_MULTIPLIER: u64 = 0x517cc1b727220a95;

/// The odd constant by which the mixer multiplies the salt.
pub const SALT_MULTIPLIER: u64 = 0x85ebca77c2b2ae63;

/// Fixed-point scale of a quoted share price.
pub const PRICE_SCALE: u64 = 1_000_000_000;

/// `x` reduced to 64 bits, as wrapping arithmetic does.
pub open spec fn wrap64(x: int) -> u64 {
    (x % 0x1_0000_0000_0000_0000) as u64
}

/// The seed mixed from a slot, a timestamp and a salt. Each of the three is
/// multiplied by its constant; the products are combined with exclusive or;
/// the combination is multiplied by its own upper half and the salt is added.
/// Every step wraps at 64 bits. The value is fully determined by its inputs:
/// it disperses, it does not hide.
pub open spec fn mix(slot: u64, timestamp: u64, salt: u64) -> u64 {
    let blended = wrap64(slot * SLOT_MULTIPLIER) ^ wrap64(timestamp * TIME_MULTIPLIER) ^ wrap64(
        salt * SALT_MULTIPLIER,
    );
    wrap64(wrap64(blended * (blended >> 32)) + salt)
}

/// Mixes the clock and a salt into a seed.
pub fn get_random_seed(clock: &Clock, salt: u64) -> (seed: u64)
    ensures
        seed == mix(clock.slot, timestamp_bits(clock.unix_timestamp), salt),
{
    let slot = clock.slot;
    let timestamp = clock.timestamp_bits();

    let mixed1 = slot.wrapping_mul(SLOT_MULTIPLIER);
    let mixed2 = timestamp.wrapping_mul(TIME_MULTIPLIER);
    let mixed3 = salt.wrapping_mul(SALT_MULTIPLIER);

    let result = mixed1 ^ mixed2 ^ mixed3;
    result.wrapping_mul(result >> 32).wrapping_add(salt)
}

/// The creatures among the first `n` slots that `attacker_idx` may strike:
/// those alive, other than itself, by rising index.
pub open spec fn targets_among(attacker_idx: int, is_alive: Seq<bool>, n: int) -> Seq<usize>
    decreases n,
{
    if n <= 0 {
        Seq::empty()
    } else {
        let before = targets_among(attacker_idx, is_alive, n - 1);
        if n - 1 != attacker_idx && is_alive[n - 1] {
            before.push((n - 1) as usize)
        } else {
            before
        }
    }
}

/// The creatures that `attacker_idx` may strike, by rising index.
pub open spec fn valid_targets(attacker_idx: int, is_alive: Seq<bool>) -> Seq<usize> {
    targets_among(attacker_idx, is_alive, 4)
}

/// The target that a seed selects: none where nobody can be struck, else the
/// valid target whose place in the list is the seed modulo the list's length.
pub open spec fn target_of(attacker_idx: int, is_alive: Seq<bool>, random_seed: u64) -> Option<
    usize,
> {
    let targets = valid_targets(attacker_idx, is_alive);
    if targets.len() == 0 {
        None
    } else {
        Some(targets[random_seed as int % targets.len() as int])
    }
}

/// What `targets_among` lists: exactly the living creatures below `n` other
/// than the attacker, each once and by rising index.
pub proof fn lemma_targets_among(attacker_idx: int, is_alive: Seq<bool>, n: int)
    requires
        0 <= n <= 4,
    ensures
        targets_among(attacker_idx, is_alive, n).len() <= n,
        forall|p: int|
            0 <= p < targets_among(attacker_idx, is_alive, n).len() ==> {
                let t = #[trigger] targets_among(attacker_idx, is_alive, n)[p];
                t < n && t != attacker_idx && is_alive[t as int]
            },
        forall|p: int, q: int|
            0 <= p < q < targets_among(attacker_idx, is_alive, n).len() ==> targets_among(
                attacker_idx,
                is_alive,
                n,
            )[p] < targets_among(attacker_idx, is_alive, n)[q],
        forall|i: int|
            0 <= i < n && i != attacker_idx && is_alive[i] ==> targets_among(
                attacker_idx,
                is_alive,
                n,
            ).contains(i as usize),
    decreases n,
{
    if n > 0 {
        lemma_targets_among(attacker_idx, is_alive, n - 1);
        let before = targets_among(attacker_idx, is_alive, n - 1);
        let now = targets_among(attacker_idx, is_alive, n);
        if n - 1 != attacker_idx && is_alive[n - 1] {
            assert(now[before.len() as int] == (n - 1) as usize);
            assert forall|i: int| 0 <= i < n && i != attacker_idx && is_alive[i] implies now.contains(
                i as usize,
            ) by {
                if i < n - 1 {
                    let p = choose|p: int| 0 <= p < before.len() && before[p] == i as usize;
                    assert(now[p] == i as usize);
                }
            }
        }
    }
}

/// Picks the creature that `attacker_idx` strikes.
pub fn pick_random_target(attacker_idx: usize, is_alive: &[bool; 4], random_seed: u64) -> (target:
    Option<usize>)
    ensures
        target == target_of(attacker_idx as int, is_alive@, random_seed),
        target matches Some(t) ==> t < 4 && t != attacker_idx && is_alive@[t as int],
{
    let mut candidates: Vec<usize> = Vec::new();
    let mut i: usize = 0;
    while i < 4
        invariant
            0 <= i <= 4,
            candidates@ == targets_among(attacker_idx as int, is_alive@, i as int),
        decreases 4 - i,
    {
        if i != attacker_idx && is_alive[i] {
            candidates.push(i);
        }
        i += 1;
    }
    proof {
        lemma_targets_among(attacker_idx as int, is_alive@, 4);
    }
    if candidates.len() == 0 {
        return None;
    }
    let random_index = (random_seed % (candidates.len() as u64)) as usize;
    Some(candidates[random_index])
}

/// The ability that a seed selects: the seed modulo three, in the order basic
/// hit, heavy strike, quick jab.
pub open spec fn ability_of(random_seed: u64) -> Ability {
    if random_seed % 3 == 0 {
        Ability::BasicHit
    } else if random_seed % 3 == 1 {
        Ability::HeavyStrike
    } else {
        Ability::QuickJab
    }
}

/// Picks the ability of an attack.
pub fn pick_random_ability(random_seed: u64) -> (ability: Ability)
    ensures
        ability == ability_of(random_seed),
{
    let choice: u64 = random_seed % 3;
    if choice == 0 {
        Ability::BasicHit
    } else if choice == 1 {
        Ability::HeavyStrike
    } else {
        Ability::QuickJab
    }
}

/// The damage of one hit. Attack less defence, floored at zero, is taken once
/// for a basic hit, three halves for a heavy strike and three quarters for a
/// quick jab, rounded down; a hit never does less than one point of damage.
pub open spec fn damage_of(atk: u16, def: u16, ability: Ability) -> int {
    let base: int = if atk > def {
        atk - def
    } else {
        0
    };
    let modified: int = match ability {
        Ability::BasicHit => base,
        Ability::HeavyStrike => base * 3 / 2,
        Ability::QuickJab => base * 3 / 4,
    };
    if modified < 1 {
        1
    } else {
        modified
    }
}

/// Every hit hurts, and none does more than three halves of the largest
/// attack value.
pub proof fn lemma_damage_bounds(atk: u16, def: u16, ability: Ability)
    ensures
        1 <= damage_of(atk, def, ability) <= 98302,
        ability == Ability::BasicHit ==> damage_of(atk, def, ability) <= u16::MAX,
        ability == Ability::QuickJab ==> damage_of(atk, def, ability) <= u16::MAX,
{
}

/// The damage of one hit, in a type wide enough for every attack value.
pub fn strike_damage(atk: u16, def: u16, ability: Ability) -> (damage: u32)
    ensures
        damage == damage_of(atk, def, ability),
        damage >= 1,
{
    let base_damage: u32 = atk.saturating_sub(def) as u32;
    let modified_damage: u32 = match ability {
        Ability::BasicHit => base_damage,
        Ability::HeavyStrike => base_damage * 3 / 2,
        Ability::QuickJab => base_damage * 3 / 4,
    };
    if modified_damage < 1 {
        1
    } else {
        modified_damage
    }
}

/// The damage of one hit, where it fits sixteen bits. A heavy strike by an
/// attack more than 43690 above the defence does not.
pub fn calculate_damage(atk: u16, def: u16, ability: Ability) -> (damage: u16)
    requires
        damage_of(atk, def, ability) <= u16::MAX,
    ensures
        damage == damage_of(atk, def, ability),
        damage >= 1,
{
    strike_damage(atk, def, ability) as u16
}

/// What a stake buys on a curve. The reserve falls to `k / (reserve + stake)`
/// and the buyer gets the difference. Refused where the divisor is zero or the
/// quotient lies above the reserve.
pub open spec fn buy_shares(current_shares: u64, sol_amount: u64, k_constant: u128) -> Result<
    u64,
    GameError,
> {
    let grown: int = current_shares + sol_amount;
    if grown == 0 || k_constant as int / grown > current_shares {
        Err(GameError::CalculationOverflow)
    } else {
        Ok((current_shares - k_constant as int / grown) as u64)
    }
}

/// Computes the shares that `sol_amount` buys from a reserve of
/// `current_shares`.
pub fn calculate_buy_shares(current_shares: u64, sol_amount: u64, k_constant: u128) -> (bought:
    Result<u64, GameError>)
    ensures
        bought == buy_shares(current_shares, sol_amount, k_constant),
        bought matches Ok(shares) ==> shares <= current_shares,
{
    let current_shares_u128 = current_shares as u128;
    let sol_amount_u128 = sol_amount as u128;

    let new_shares = match k_constant.checked_div(current_shares_u128 + sol_amount_u128) {
        Some(quotient) => quotient,
        None => { return Err(GameError::CalculationOverflow); },
    };
    let shares_bought = match current_shares_u128.checked_sub(new_shares) {
        Some(difference) => difference,
        None => { return Err(GameError::CalculationOverflow); },
    };
    Ok(shares_bought as u64)
}

/// What selling shares back to a curve returns: `k / reserve` less
/// `k / (reserve + shares)`. Refused where the reserve is zero or the
/// difference does not fit 64 bits.
pub open spec fn sell_price(current_shares: u64, shares_to_sell: u64, k_constant: u128) -> Result<
    u64,
    GameError,
> {
    let before: int = k_constant as int / (current_shares as int);
    let after: int = k_constant as int / (current_shares + shares_to_sell);
    let returned: int = before - after;
    if current_shares == 0 || returned > u64::MAX {
        Err(GameError::CalculationOverflow)
    } else {
        Ok(returned as u64)
    }
}

/// Computes what selling `shares_to_sell` into a reserve of `current_shares`
/// returns.
pub fn calculate_sell_price(current_shares: u64, shares_to_sell: u64, k_constant: u128) -> (returned:
    Result<u64, GameError>)
    ensures
        returned == sell_price(current_shares, shares_to_sell, k_constant),
{
    let current_shares_u128 = current_shares as u128;
    let shares_to_sell_u128 = shares_to_sell as u128;

    let new_pool = match k_constant.checked_div(current_shares_u128 + shares_to_sell_u128) {
        Some(quotient) => quotient,
        None => { return Err(GameError::CalculationOverflow); },
    };
    let current_pool = match k_constant.checked_div(current_shares_u128) {
        Some(quotient) => quotient,
        None => { return Err(GameError::CalculationOverflow); },
    };
    proof {
        lemma_div_is_ordered_by_denominator(
            k_constant as int,
            current_shares as int,
            current_shares + shares_to_sell,
        );
        lemma_div_pos_is_pos(k_constant as int, current_shares + shares_to_sell);
    }
    let sol_returned = match current_pool.checked_sub(new_pool) {
        Some(difference) => difference,
        None => { return Err(GameError::CalculationOverflow); },
    };
    if sol_returned > u64::MAX as u128 {
        return Err(GameError::CalculationOverflow);
    }
    Ok(sol_returned as u64)
}

/// Whether a stake that is sold back at once returns no more than was
/// staked. With `after` the reserve that the stake leaves, that is
/// `k / after <= k / reserve + stake`.
pub open spec fn round_trip_is_fair(current_shares: u64, sol_amount: u64, k_constant: u128) -> bool {
    let after: int = k_constant as int / (current_shares + sol_amount);
    k_constant as int / after <= k_constant as int / (current_shares as int) + sol_amount
}

/// Buying and at once selling back what was bought puts the reserve back
/// where it was. The sale returns no more than the stake exactly where the
/// round trip is fair, which rounding can prevent.
pub proof fn lemma_round_trip(current_shares: u64, sol_amount: u64, k_constant: u128)
    requires
        buy_shares(current_shares, sol_amount, k_constant) is Ok,
        sell_price(
            (current_shares - buy_shares(current_shares, sol_amount, k_constant)->Ok_0) as u64,
            buy_shares(current_shares, sol_amount, k_constant)->Ok_0,
            k_constant,
        ) is Ok,
    ensures
        ({
            let bought = buy_shares(current_shares, sol_amount, k_constant)->Ok_0;
            let after = (current_shares - bought) as u64;
            let returned = sell_price(after, bought, k_constant)->Ok_0;
            &&& after == k_constant as int / (current_shares + sol_amount)
            &&& after + bought == current_shares
            &&& returned == k_constant as int / (after as int) - k_constant as int
                / (current_shares as int)
            &&& returned <= sol_amount <==> round_trip_is_fair(
                current_shares,
                sol_amount,
                k_constant,
            )
        }),
{
    let k = k_constant as int;
    let reserve = current_shares as int;
    let grown: int = current_shares + sol_amount;
    lemma_div_pos_is_pos(k, grown);
    let bought = buy_shares(current_shares, sol_amount, k_constant)->Ok_0;
    let after = (current_shares - bought) as u64;
    assert(after == k / grown);
    assert(after + bought == reserve);
    lemma_div_is_ordered_by_denominator(k, after as int, reserve);
    lemma_div_pos_is_pos(k, reserve);
}

/// A round trip is fair on a curve whose constant is at least the square of
/// the reserve, where the reserve grown by the stake divides the constant.
pub proof fn lemma_even_round_trip_is_fair(current_shares: u64, sol_amount: u64, k_constant: u128)
    requires
        current_shares > 0,
        k_constant > 0,
        current_shares * current_shares <= k_constant,
        k_constant as int % (current_shares + sol_amount) == 0,
    ensures
        round_trip_is_fair(current_shares, sol_amount, k_constant),
{
    let k = k_constant as int;
    let reserve = current_shares as int;
    let grown: int = current_shares + sol_amount;
    let after = k / grown;
    lemma_fundamental_div_mod(k, grown);
    assert(k == grown * after);
    assert(after > 0) by (nonlinear_arith)
        requires
            k == grown * after,
            k > 0,
            grown > 0,
    ;
    assert(k / after == grown) by {
        assert(k == after * grown) by (nonlinear_arith)
            requires
                k == grown * after,
        ;
        lemma_div_multiples_vanish(grown, after);
        assert(after * grown == grown * after) by (nonlinear_arith);
    }
    assert(k / reserve >= reserve) by {
        lemma_div_is_ordered(reserve * reserve, k, reserve);
        lemma_div_multiples_vanish(reserve, reserve);
    }
}

/// The quoted price of a share: the pool, scaled, over the reserve; zero for
/// an empty reserve. Refused where the quotient does not fit 64 bits.
pub open spec fn share_price(pool: u64, shares: u64) -> Result<u64, GameError> {
    if shares == 0 {
        Ok(0)
    } else if pool * PRICE_SCALE / (shares as int) > u64::MAX {
        Err(GameError::CalculationOverflow)
    } else {
        Ok((pool * PRICE_SCALE / (shares as int)) as u64)
    }
}

/// Quotes the price of a share.
pub fn get_share_price(pool: u64, shares: u64) -> (price: Result<u64, GameError>)
    ensures
        price == share_price(pool, shares),
{
    if shares == 0 {
        return Ok(0);
    }
    let scaled = match (pool as u128).checked_mul(PRICE_SCALE as u128) {
        Some(product) => product,
        None => { return Err(GameError::CalculationOverflow); },
    };
    let price = match scaled.checked_div(shares as u128) {
        Some(quotient) => quotient,
        None => { return Err(GameError::DivisionByZero); },
    };
    if price > u64::MAX as u128 {
        return Err(GameError::CalculationOverflow);
    }
    Ok(price as u64)
}

} // verus!
