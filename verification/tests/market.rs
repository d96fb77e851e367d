use beast_index_arena::errors::GameError;
use beast_index_arena::instructions::{
    claim_winnings, initialize_market, place_bet, sell_shares, ClaimWinnings, InitializeMarket,
    PlaceBet, SellShares, MIN_BET,
};
use beast_index_arena::state::{BattleState, MarketState, UserPosition};

const ALICE: [u8; 32] = [1u8; 32];
const BOB: [u8; 32] = [2u8; 32];
const LIQUIDITY: u64 = 1_000_000_000;

fn running_battle() -> BattleState {
    BattleState {
        battle_id: 42,
        authority: [9u8; 32],
        creature_hp: [100; 4],
        creature_max_hp: [100; 4],
        creature_atk: [20; 4],
        creature_def: [5; 4],
        creature_spd: [10; 4],
        is_alive: [true; 4],
        is_battle_over: false,
        winner: None,
        current_turn: 0,
        start_time: 1000,
        last_turn_time: 1000,
        turn_interval: 60,
        max_duration: 3600,
        bump: 254,
    }
}

fn finished_battle(winner: Option<u8>) -> BattleState {
    BattleState { is_battle_over: true, winner, ..running_battle() }
}

fn unset_market() -> MarketState {
    MarketState {
        battle_id: 0,
        creature_pools: [5; 4],
        total_pool: 77,
        is_settled: true,
        creature_shares: [3; 4],
        k_constant: 11,
        bump: 0,
    }
}

fn new_market(initial_liquidity: u64) -> MarketState {
    let mut ctx = InitializeMarket { market_state: unset_market(), bump: 250 };
    assert_eq!(initialize_market(&mut ctx, 42, initial_liquidity), Ok(()));
    assert_eq!(ctx.bump, 250);
    ctx.market_state
}

fn vacant_position() -> UserPosition {
    UserPosition {
        user: [0u8; 32],
        battle_id: 0,
        creature_index: 0,
        amount: 0,
        claimed: false,
        bump: 0,
    }
}

fn position_of(user: [u8; 32], creature_index: u8, amount: u64) -> UserPosition {
    UserPosition { user, battle_id: 42, creature_index, amount, claimed: false, bump: 201 }
}

fn bet_of(market: MarketState, battle: BattleState, position: UserPosition, user: [u8; 32]) -> PlaceBet {
    PlaceBet {
        market_state: market,
        battle_state: battle,
        user_position: position,
        user,
        position_bump: 201,
    }
}

fn pools_add_up(market: &MarketState) -> bool {
    let sum: u128 = market.creature_pools.iter().map(|pool| *pool as u128).sum();
    sum == market.total_pool as u128
}

#[test]
fn a_new_market_has_empty_pools_and_full_reserves() {
    let market = new_market(LIQUIDITY);
    assert_eq!(
        market,
        MarketState {
            battle_id: 42,
            creature_pools: [0; 4],
            total_pool: 0,
            is_settled: false,
            creature_shares: [LIQUIDITY; 4],
            k_constant: 1_000_000_000_000_000_000,
            bump: 250,
        }
    );
    assert!(pools_add_up(&market));
}

#[test]
fn the_curve_constant_of_the_largest_liquidity_fits() {
    let market = new_market(u64::MAX);
    assert_eq!(market.k_constant, (u64::MAX as u128) * (u64::MAX as u128));
    assert_eq!(market.k_constant, 340282366920938463426481119284349108225);
    assert_eq!(new_market(0).k_constant, 0);
    assert_eq!(new_market(3).k_constant, 9);
}

#[test]
fn a_first_bet_opens_the_position() {
    let mut ctx = bet_of(new_market(LIQUIDITY), running_battle(), vacant_position(), ALICE);
    assert_eq!(place_bet(&mut ctx, 0, 10_000_000), Ok(9_900_991));
    assert_eq!(ctx.market_state.k_constant, 1_000_000_000_000_000_000);
    assert_eq!(ctx.market_state.creature_pools, [10_000_000, 0, 0, 0]);
    assert_eq!(ctx.market_state.total_pool, 10_000_000);
    assert_eq!(
        ctx.market_state.creature_shares,
        [990_099_009, LIQUIDITY, LIQUIDITY, LIQUIDITY]
    );
    assert!(!ctx.market_state.is_settled);
    assert_eq!(
        ctx.user_position,
        UserPosition {
            user: ALICE,
            battle_id: 42,
            creature_index: 0,
            amount: 9_900_991,
            claimed: false,
            bump: 201,
        }
    );
    assert_eq!(ctx.battle_state, running_battle());
    assert_eq!(ctx.user, ALICE);
    assert_eq!(ctx.position_bump, 201);
    assert!(pools_add_up(&ctx.market_state));
}

#[test]
fn a_later_bet_adds_to_the_position() {
    let mut ctx = bet_of(new_market(LIQUIDITY), running_battle(), vacant_position(), ALICE);
    assert_eq!(place_bet(&mut ctx, 0, 10_000_000), Ok(9_900_991));
    ctx.position_bump = 7;
    assert_eq!(place_bet(&mut ctx, 0, 20_000_000), Ok(97_048));
    assert_eq!(ctx.market_state.creature_pools, [30_000_000, 0, 0, 0]);
    assert_eq!(ctx.market_state.total_pool, 30_000_000);
    assert_eq!(ctx.market_state.creature_shares[0], 990_001_961);
    assert_eq!(
        ctx.user_position,
        UserPosition {
            user: ALICE,
            battle_id: 42,
            creature_index: 0,
            amount: 9_998_039,
            claimed: false,
            bump: 201,
        }
    );
    assert!(pools_add_up(&ctx.market_state));
}

#[test]
fn a_bet_that_buys_nothing_is_still_taken() {
    let mut ctx = bet_of(new_market(LIQUIDITY), running_battle(), vacant_position(), ALICE);
    assert_eq!(place_bet(&mut ctx, 0, 10_000_000), Ok(9_900_991));
    assert_eq!(place_bet(&mut ctx, 0, 19_900_991), Ok(0));
    assert_eq!(ctx.market_state.creature_shares[0], 990_099_009);
    assert_eq!(ctx.market_state.creature_pools[0], 29_900_991);
    assert_eq!(ctx.market_state.total_pool, 29_900_991);
    assert_eq!(ctx.user_position.amount, 9_900_991);
}

#[test]
fn bets_on_several_creatures_keep_the_total() {
    let mut market = new_market(LIQUIDITY);
    let stakes: [(u8, u64, u64); 3] =
        [(0, 10_000_000, 9_900_991), (2, 15_000_000, 14_778_326), (3, 25_000_000, 24_390_244)];
    for (creature, stake, bought) in stakes {
        let mut ctx = bet_of(market, running_battle(), vacant_position(), BOB);
        assert_eq!(place_bet(&mut ctx, creature, stake), Ok(bought));
        assert_eq!(ctx.user_position.creature_index, creature);
        assert_eq!(ctx.user_position.amount, bought);
        market = ctx.market_state;
        assert!(pools_add_up(&market));
    }
    assert_eq!(market.creature_pools, [10_000_000, 0, 15_000_000, 25_000_000]);
    assert_eq!(market.total_pool, 50_000_000);
    assert_eq!(
        market.creature_shares,
        [990_099_009, LIQUIDITY, 985_221_674, 975_609_756]
    );
}

#[test]
fn a_bet_on_no_creature_is_refused() {
    for creature in [4u8, 5, 200, u8::MAX] {
        let mut ctx = bet_of(new_market(LIQUIDITY), running_battle(), vacant_position(), ALICE);
        let before = ctx;
        assert_eq!(
            place_bet(&mut ctx, creature, 10_000_000),
            Err(GameError::InvalidCreatureIndex)
        );
        assert_eq!(ctx, before);
    }
}

#[test]
fn a_bet_on_a_finished_battle_is_refused() {
    let mut ctx = bet_of(new_market(LIQUIDITY), finished_battle(Some(1)), vacant_position(), ALICE);
    let before = ctx;
    assert_eq!(place_bet(&mut ctx, 1, 10_000_000), Err(GameError::BattleAlreadyOver));
    assert_eq!(ctx, before);
}

#[test]
fn a_bet_below_the_minimum_is_refused() {
    assert_eq!(MIN_BET, 10_000_000);
    let mut ctx = bet_of(new_market(LIQUIDITY), running_battle(), vacant_position(), ALICE);
    let before = ctx;
    assert_eq!(place_bet(&mut ctx, 1, 9_999_999), Err(GameError::BetTooSmall));
    assert_eq!(place_bet(&mut ctx, 1, 0), Err(GameError::BetTooSmall));
    assert_eq!(ctx, before);
    assert_eq!(place_bet(&mut ctx, 1, 10_000_000), Ok(9_900_991));
}

#[test]
fn a_bet_on_a_dead_creature_is_refused() {
    let mut battle = running_battle();
    battle.is_alive = [true, true, false, true];
    let mut ctx = bet_of(new_market(LIQUIDITY), battle, vacant_position(), ALICE);
    let before = ctx;
    assert_eq!(place_bet(&mut ctx, 2, 10_000_000), Err(GameError::CreatureIsDead));
    assert_eq!(ctx, before);
    assert_eq!(place_bet(&mut ctx, 3, 10_000_000), Ok(9_900_991));
}

#[test]
fn the_checks_of_a_bet_come_in_their_order() {
    let mut battle = finished_battle(None);
    battle.is_alive = [false; 4];
    let mut ctx = bet_of(new_market(LIQUIDITY), battle, vacant_position(), ALICE);
    // No creature, battle over, stake too small: the index is named first.
    assert_eq!(place_bet(&mut ctx, 9, 1), Err(GameError::InvalidCreatureIndex));
    // Battle over, stake too small, creature dead: the battle is named first.
    assert_eq!(place_bet(&mut ctx, 0, 1), Err(GameError::BattleAlreadyOver));
    ctx.battle_state.is_battle_over = false;
    // Stake too small, creature dead: the stake is named first.
    assert_eq!(place_bet(&mut ctx, 0, 1), Err(GameError::BetTooSmall));
    assert_eq!(place_bet(&mut ctx, 0, 10_000_000), Err(GameError::CreatureIsDead));
}

#[test]
fn a_bet_that_the_curve_cannot_take_is_refused() {
    let mut ctx = bet_of(new_market(LIQUIDITY), running_battle(), vacant_position(), ALICE);
    assert_eq!(place_bet(&mut ctx, 0, 10_000_000), Ok(9_900_991));
    let before = ctx;
    assert_eq!(place_bet(&mut ctx, 0, 10_000_000), Err(GameError::CalculationOverflow));
    assert_eq!(place_bet(&mut ctx, 0, 19_900_990), Err(GameError::CalculationOverflow));
    assert_eq!(ctx, before);
}

#[test]
fn a_bet_that_would_overflow_a_pool_is_refused() {
    let mut market = new_market(LIQUIDITY);
    market.creature_pools = [u64::MAX - 10_000_000 + 1, 0, 0, 0];
    market.total_pool = u64::MAX - 10_000_000 + 1;
    let mut ctx = bet_of(market, running_battle(), vacant_position(), ALICE);
    let before = ctx;
    assert_eq!(place_bet(&mut ctx, 0, 10_000_000), Err(GameError::CalculationOverflow));
    assert_eq!(place_bet(&mut ctx, 1, 10_000_000), Err(GameError::CalculationOverflow));
    assert_eq!(ctx, before);
    ctx.market_state.creature_pools[0] -= 1;
    ctx.market_state.total_pool -= 1;
    assert_eq!(place_bet(&mut ctx, 0, 10_000_000), Ok(9_900_991));
    assert_eq!(ctx.market_state.total_pool, u64::MAX);
    assert_eq!(ctx.market_state.creature_pools[0], u64::MAX);
}

#[test]
fn a_bet_that_would_overflow_the_position_is_refused() {
    let held = position_of(ALICE, 0, u64::MAX - 9_900_990);
    let mut ctx = bet_of(new_market(LIQUIDITY), running_battle(), held, ALICE);
    let before = ctx;
    assert_eq!(place_bet(&mut ctx, 0, 10_000_000), Err(GameError::CalculationOverflow));
    assert_eq!(ctx, before);
    ctx.user_position.amount -= 1;
    assert_eq!(place_bet(&mut ctx, 0, 10_000_000), Ok(9_900_991));
    assert_eq!(ctx.user_position.amount, u64::MAX);
}

#[test]
fn a_vacant_position_with_a_large_amount_is_simply_taken() {
    let mut vacant = vacant_position();
    vacant.amount = u64::MAX;
    vacant.claimed = true;
    let mut ctx = bet_of(new_market(LIQUIDITY), running_battle(), vacant, BOB);
    assert_eq!(place_bet(&mut ctx, 1, 10_000_000), Ok(9_900_991));
    assert_eq!(
        ctx.user_position,
        UserPosition {
            user: BOB,
            battle_id: 42,
            creature_index: 1,
            amount: 9_900_991,
            claimed: false,
            bump: 201,
        }
    );
}

#[test]
fn a_position_is_vacant_only_with_an_all_zero_key() {
    assert!(vacant_position().is_vacant());
    let mut key = [0u8; 32];
    key[31] = 1;
    assert!(!position_of(key, 0, 0).is_vacant());
    key = [0u8; 32];
    key[0] = 1;
    assert!(!position_of(key, 0, 0).is_vacant());
    assert!(!position_of(ALICE, 0, 0).is_vacant());
}

#[test]
fn a_sale_returns_stake_and_raises_the_reserve() {
    let mut bet = bet_of(new_market(LIQUIDITY), running_battle(), vacant_position(), ALICE);
    assert_eq!(place_bet(&mut bet, 0, 10_000_000), Ok(9_900_991));
    let mut ctx = SellShares {
        battle_state: bet.battle_state,
        market_state: bet.market_state,
        user_position: bet.user_position,
    };
    assert_eq!(sell_shares(&mut ctx, 4_000_000), Ok(4_063_981));
    assert_eq!(ctx.market_state.creature_pools, [5_936_019, 0, 0, 0]);
    assert_eq!(ctx.market_state.total_pool, 5_936_019);
    assert_eq!(ctx.market_state.creature_shares[0], 994_099_009);
    assert_eq!(ctx.user_position.amount, 5_900_991);
    assert!(!ctx.user_position.claimed);
    assert!(pools_add_up(&ctx.market_state));

    assert_eq!(sell_shares(&mut ctx, 5_900_991), Ok(5_936_019));
    assert_eq!(ctx.market_state.creature_pools, [0; 4]);
    assert_eq!(ctx.market_state.total_pool, 0);
    assert_eq!(ctx.market_state.creature_shares, [LIQUIDITY; 4]);
    assert_eq!(ctx.user_position.amount, 0);
    assert!(ctx.user_position.claimed);
    assert_eq!(ctx.user_position.user, ALICE);
    assert_eq!(ctx.battle_state, running_battle());
    assert!(pools_add_up(&ctx.market_state));
}

#[test]
fn a_bet_sold_back_at_once_restores_the_reserve() {
    let market = new_market(LIQUIDITY);
    let mut bet = bet_of(market, running_battle(), vacant_position(), ALICE);
    let bought = place_bet(&mut bet, 0, 10_000_000).unwrap();
    assert_eq!(bought, 9_900_991);
    let mut ctx = SellShares {
        battle_state: bet.battle_state,
        market_state: bet.market_state,
        user_position: bet.user_position,
    };
    let returned = sell_shares(&mut ctx, bought).unwrap();
    assert_eq!(returned, 10_000_000);
    assert!(returned <= 10_000_000);
    assert_eq!(ctx.market_state.creature_shares, market.creature_shares);
    assert_eq!(ctx.market_state, market);
    assert!(ctx.user_position.claimed);
}

#[test]
fn a_sale_of_more_than_is_held_is_refused() {
    let mut market = new_market(LIQUIDITY);
    market.creature_shares[1] = 990_099_009;
    market.creature_pools[1] = 10_000_000;
    market.total_pool = 10_000_000;
    let mut ctx = SellShares {
        battle_state: running_battle(),
        market_state: market,
        user_position: position_of(ALICE, 1, 100),
    };
    let before = ctx;
    assert_eq!(sell_shares(&mut ctx, 101), Err(GameError::InsufficientShares));
    assert_eq!(sell_shares(&mut ctx, u64::MAX), Err(GameError::InsufficientShares));
    assert_eq!(ctx, before);
    assert_eq!(sell_shares(&mut ctx, 100), Ok(102));
    assert_eq!(ctx.user_position.amount, 0);
    assert!(ctx.user_position.claimed);
}

#[test]
fn a_sale_on_a_finished_battle_is_refused() {
    let mut ctx = SellShares {
        battle_state: finished_battle(Some(0)),
        market_state: new_market(LIQUIDITY),
        user_position: position_of(ALICE, 1, 100),
    };
    let before = ctx;
    assert_eq!(sell_shares(&mut ctx, 50), Err(GameError::BattleAlreadyOver));
    // The battle is looked at before the amount.
    assert_eq!(sell_shares(&mut ctx, 500), Err(GameError::BattleAlreadyOver));
    assert_eq!(ctx, before);
}

#[test]
fn a_sale_from_a_position_on_no_creature_is_refused() {
    let mut ctx = SellShares {
        battle_state: running_battle(),
        market_state: new_market(LIQUIDITY),
        user_position: position_of(ALICE, 4, 100),
    };
    let before = ctx;
    assert_eq!(sell_shares(&mut ctx, 50), Err(GameError::InvalidCreatureIndex));
    // The amount is looked at before the creature.
    assert_eq!(sell_shares(&mut ctx, 101), Err(GameError::InsufficientShares));
    assert_eq!(ctx, before);
}

#[test]
fn a_sale_that_returns_more_than_the_pool_holds_is_refused() {
    // On a fresh curve nothing has been staked, yet the curve would return
    // something for shares.
    let mut ctx = SellShares {
        battle_state: running_battle(),
        market_state: new_market(LIQUIDITY),
        user_position: position_of(ALICE, 0, 1_000_000),
    };
    let before = ctx;
    assert_eq!(sell_shares(&mut ctx, 1_000_000), Err(GameError::CalculationOverflow));
    assert_eq!(ctx, before);

    // The creature's pool holds enough, the total does not.
    ctx.market_state.creature_pools[0] = 999_001;
    ctx.market_state.total_pool = 999_000;
    assert_eq!(sell_shares(&mut ctx, 1_000_000), Err(GameError::CalculationOverflow));
    ctx.market_state.total_pool = 999_001;
    assert_eq!(sell_shares(&mut ctx, 1_000_000), Ok(999_001));
    assert_eq!(ctx.market_state.total_pool, 0);
}

#[test]
fn a_sale_into_an_empty_reserve_is_refused() {
    let mut market = new_market(LIQUIDITY);
    market.creature_shares[2] = 0;
    market.creature_pools[2] = 5_000;
    market.total_pool = 5_000;
    let mut ctx = SellShares {
        battle_state: running_battle(),
        market_state: market,
        user_position: position_of(ALICE, 2, 100),
    };
    let before = ctx;
    assert_eq!(sell_shares(&mut ctx, 10), Err(GameError::CalculationOverflow));
    assert_eq!(ctx, before);
}

#[test]
fn a_sale_that_would_overflow_the_reserve_is_refused() {
    let mut market = new_market(LIQUIDITY);
    market.creature_shares[0] = u64::MAX - 5;
    market.creature_pools[0] = 1_000;
    market.total_pool = 1_000;
    let mut ctx = SellShares {
        battle_state: running_battle(),
        market_state: market,
        user_position: position_of(ALICE, 0, 100),
    };
    let before = ctx;
    assert_eq!(sell_shares(&mut ctx, 6), Err(GameError::CalculationOverflow));
    assert_eq!(ctx, before);
    assert_eq!(sell_shares(&mut ctx, 5), Ok(0));
    assert_eq!(ctx.market_state.creature_shares[0], u64::MAX);
    assert_eq!(ctx.user_position.amount, 95);
}

#[test]
fn selling_nothing_from_an_empty_position_closes_it() {
    let mut ctx = SellShares {
        battle_state: running_battle(),
        market_state: new_market(LIQUIDITY),
        user_position: position_of(ALICE, 0, 0),
    };
    assert_eq!(sell_shares(&mut ctx, 0), Ok(0));
    assert!(ctx.user_position.claimed);
    assert_eq!(ctx.market_state, new_market(LIQUIDITY));
}

#[test]
fn a_closed_position_takes_bets_but_stays_closed() {
    let mut closed = position_of(ALICE, 0, 0);
    closed.claimed = true;
    let mut ctx = bet_of(new_market(LIQUIDITY), running_battle(), closed, ALICE);
    assert_eq!(place_bet(&mut ctx, 0, 10_000_000), Ok(9_900_991));
    assert_eq!(ctx.user_position.amount, 9_900_991);
    assert!(ctx.user_position.claimed);
    let mut claim = ClaimWinnings {
        battle_state: finished_battle(Some(0)),
        market_state: ctx.market_state,
        user_position: ctx.user_position,
    };
    assert_eq!(claim_winnings(&mut claim), Err(GameError::AlreadyClaimed));
}

fn settled_market() -> MarketState {
    MarketState {
        battle_id: 42,
        creature_pools: [10_000_000, 0, 15_000_000, 0],
        total_pool: 25_000_000,
        is_settled: false,
        creature_shares: [990_099_009, LIQUIDITY, 985_221_674, LIQUIDITY],
        k_constant: 1_000_000_000_000_000_000,
        bump: 250,
    }
}

#[test]
fn a_winning_position_is_paid_its_part_of_the_pool() {
    let mut ctx = ClaimWinnings {
        battle_state: finished_battle(Some(0)),
        market_state: settled_market(),
        user_position: position_of(ALICE, 0, 9_900_991),
    };
    assert_eq!(claim_winnings(&mut ctx), Ok(24_752_477));
    assert!(ctx.user_position.claimed);
    assert_eq!(
        ctx.user_position,
        UserPosition { claimed: true, ..position_of(ALICE, 0, 9_900_991) }
    );
    assert_eq!(ctx.market_state, settled_market());
    assert_eq!(ctx.battle_state, finished_battle(Some(0)));
    assert!(pools_add_up(&ctx.market_state));
}

#[test]
fn a_payout_is_rounded_down() {
    let mut market = settled_market();
    market.creature_pools = [0, 0, 3, 7];
    market.total_pool = 10;
    let mut ctx = ClaimWinnings {
        battle_state: finished_battle(Some(2)),
        market_state: market,
        user_position: position_of(BOB, 2, 7),
    };
    // 7 * 10 / 3
    assert_eq!(claim_winnings(&mut ctx), Ok(23));
}

#[test]
fn a_position_on_a_loser_is_not_paid() {
    let mut ctx = ClaimWinnings {
        battle_state: finished_battle(Some(0)),
        market_state: settled_market(),
        user_position: position_of(ALICE, 2, 14_778_326),
    };
    let before = ctx;
    assert_eq!(claim_winnings(&mut ctx), Err(GameError::NotAWinner));
    assert_eq!(ctx, before);
    assert!(!ctx.user_position.claimed);
}

#[test]
fn nobody_is_paid_after_a_draw() {
    for creature in 0..4u8 {
        let mut ctx = ClaimWinnings {
            battle_state: finished_battle(None),
            market_state: settled_market(),
            user_position: position_of(ALICE, creature, 1_000),
        };
        let before = ctx;
        assert_eq!(claim_winnings(&mut ctx), Err(GameError::NoWinner));
        assert_eq!(ctx, before);
    }
}

#[test]
fn nobody_is_paid_while_the_battle_runs() {
    let mut ctx = ClaimWinnings {
        battle_state: running_battle(),
        market_state: settled_market(),
        user_position: position_of(ALICE, 0, 1_000),
    };
    let before = ctx;
    assert_eq!(claim_winnings(&mut ctx), Err(GameError::BattleNotOver));
    assert_eq!(ctx, before);
}

#[test]
fn a_position_is_paid_once() {
    let mut ctx = ClaimWinnings {
        battle_state: finished_battle(Some(0)),
        market_state: settled_market(),
        user_position: position_of(ALICE, 0, 9_900_991),
    };
    assert_eq!(claim_winnings(&mut ctx), Ok(24_752_477));
    let before = ctx;
    assert_eq!(claim_winnings(&mut ctx), Err(GameError::AlreadyClaimed));
    assert_eq!(ctx, before);
}

#[test]
fn a_sold_out_position_is_not_paid() {
    let mut sale = SellShares {
        battle_state: running_battle(),
        market_state: settled_market(),
        user_position: position_of(ALICE, 0, 100),
    };
    assert_eq!(sell_shares(&mut sale, 100), Ok(102));
    let mut ctx = ClaimWinnings {
        battle_state: finished_battle(Some(0)),
        market_state: sale.market_state,
        user_position: sale.user_position,
    };
    assert_eq!(claim_winnings(&mut ctx), Err(GameError::AlreadyClaimed));
}

#[test]
fn the_checks_of_a_claim_come_in_their_order() {
    let mut position = position_of(ALICE, 1, 5);
    position.claimed = true;
    let mut ctx = ClaimWinnings {
        battle_state: running_battle(),
        market_state: settled_market(),
        user_position: position,
    };
    assert_eq!(claim_winnings(&mut ctx), Err(GameError::BattleNotOver));
    ctx.battle_state = finished_battle(None);
    assert_eq!(claim_winnings(&mut ctx), Err(GameError::NoWinner));
    ctx.battle_state = finished_battle(Some(0));
    assert_eq!(claim_winnings(&mut ctx), Err(GameError::NotAWinner));
    ctx.battle_state = finished_battle(Some(1));
    assert_eq!(claim_winnings(&mut ctx), Err(GameError::AlreadyClaimed));
    ctx.user_position.claimed = false;
    // Nothing was staked on creature 1.
    assert_eq!(claim_winnings(&mut ctx), Err(GameError::DivisionByZero));
}

#[test]
fn a_winner_that_is_no_creature_is_refused() {
    let mut ctx = ClaimWinnings {
        battle_state: finished_battle(Some(7)),
        market_state: settled_market(),
        user_position: position_of(ALICE, 7, 5),
    };
    let before = ctx;
    assert_eq!(claim_winnings(&mut ctx), Err(GameError::InvalidCreatureIndex));
    assert_eq!(ctx, before);
}

#[test]
fn a_claim_on_an_empty_winning_pool_is_refused() {
    let mut ctx = ClaimWinnings {
        battle_state: finished_battle(Some(3)),
        market_state: settled_market(),
        user_position: position_of(ALICE, 3, 5),
    };
    let before = ctx;
    assert_eq!(claim_winnings(&mut ctx), Err(GameError::DivisionByZero));
    assert_eq!(ctx, before);
}

#[test]
fn a_payout_that_leaves_64_bits_is_refused() {
    let mut market = settled_market();
    market.creature_pools = [1, 0, 0, 0];
    market.total_pool = u64::MAX;
    let mut ctx = ClaimWinnings {
        battle_state: finished_battle(Some(0)),
        market_state: market,
        user_position: position_of(ALICE, 0, 2),
    };
    let before = ctx;
    assert_eq!(claim_winnings(&mut ctx), Err(GameError::CalculationOverflow));
    assert_eq!(ctx, before);
    ctx.user_position.amount = 1;
    assert_eq!(claim_winnings(&mut ctx), Ok(u64::MAX));
}

#[test]
fn payouts_of_weights_within_the_winning_pool_stay_within_the_total() {
    let mut market = settled_market();
    market.creature_pools = [10_000_000, 27_000_001, 0, 0];
    market.total_pool = 37_000_001;
    let weights: [u64; 3] = [3_333_333, 3_333_333, 3_333_334];
    let expected: [u64; 3] = [12_333_332, 12_333_332, 12_333_336];
    let mut paid: u64 = 0;
    for (weight, payout) in weights.iter().zip(expected.iter()) {
        let mut ctx = ClaimWinnings {
            battle_state: finished_battle(Some(0)),
            market_state: market,
            user_position: position_of(BOB, 0, *weight),
        };
        assert_eq!(claim_winnings(&mut ctx), Ok(*payout));
        paid += *payout;
    }
    assert_eq!(paid, 37_000_000);
    assert!(paid <= market.total_pool);
}

#[test]
fn the_pools_add_up_through_a_market_s_life() {
    let battle = running_battle();
    let mut market = new_market(LIQUIDITY);
    assert!(pools_add_up(&market));

    let mut alice = bet_of(market, battle, vacant_position(), ALICE);
    assert_eq!(place_bet(&mut alice, 0, 10_000_000), Ok(9_900_991));
    market = alice.market_state;
    assert!(pools_add_up(&market));

    let mut bob = bet_of(market, battle, vacant_position(), BOB);
    assert_eq!(place_bet(&mut bob, 2, 15_000_000), Ok(14_778_326));
    market = bob.market_state;
    assert!(pools_add_up(&market));

    let mut sale = SellShares {
        battle_state: battle,
        market_state: market,
        user_position: alice.user_position,
    };
    assert_eq!(sell_shares(&mut sale, 4_000_000), Ok(4_063_981));
    market = sale.market_state;
    assert!(pools_add_up(&market));
    assert_eq!(market.creature_pools, [5_936_019, 0, 15_000_000, 0]);
    assert_eq!(market.total_pool, 20_936_019);

    let mut refused = bet_of(market, battle, bob.user_position, BOB);
    assert_eq!(place_bet(&mut refused, 2, 10_000_000), Err(GameError::CalculationOverflow));
    assert_eq!(refused.market_state, market);
    assert!(pools_add_up(&refused.market_state));

    let mut claim = ClaimWinnings {
        battle_state: finished_battle(Some(2)),
        market_state: market,
        user_position: bob.user_position,
    };
    // 14_778_326 * 20_936_019 / 15_000_000
    assert_eq!(claim_winnings(&mut claim), Ok(20_626_620));
    assert_eq!(claim.market_state, market);
    assert!(pools_add_up(&claim.market_state));
}
