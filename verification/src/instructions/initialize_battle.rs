//! Creation of a battle.

use vstd::prelude::*;
use crate::clock::Clock;
use crate::errors::GameError;
use crate::state::battle::{BattleState, BattleView};

verus! {

/// What creating a battle needs: the record to fill, the authority that
/// creates it, the clock of the call and the bump of the record's address.
#[derive(Clone, Copy, Debug, PartialEq, Eq)]
pub struct InitializeBattle {
    pub battle_state: BattleState,
    pub authority: [u8; 32],
    pub clock: Clock,
    pub bump: u8,
}

/// A battle at its start: four living creatures of equal strength at full hit
/// points, no turn played, and the clocks of the battle and of its last turn
/// set to `now`.
pub open spec fn fresh_battle(
    battle_id: u64,
    authority: Seq<u8>,
    hp: u16,
    atk: u16,
    def: u16,
    spd: u16,
    turn_interval: i64,
    max_duration: i64,
    now: i64,
    bump: u8,
) -> BattleView {
    BattleView {
        battle_id,
        authority,
        hp: seq![hp, hp, hp, hp],
        max_hp: seq![hp, hp, hp, hp],
        atk: seq![atk, atk, atk, atk],
        def: seq![def, def, def, def],
        spd: seq![spd, spd, spd, spd],
        alive: seq![true, true, true, true],
        over: false,
        winner: None,
        turn: 0,
        start_time: now,
        last_turn_time: now,
        turn_interval,
        max_duration,
        bump,
    }
}

/// Fills the record with a battle at its start.
pub fn initialize_battle(
    ctx: &mut InitializeBattle,
    battle_id: u64,
    hp: u16,
    atk: u16,
    def: u16,
    spd: u16,
    turn_interval: i64,
    max_duration: i64,
) -> (result: Result<(), GameError>)
    ensures
        result is Ok,
        final(ctx).battle_state@ == fresh_battle(
            battle_id,
            old(ctx).authority@,
            hp,
            atk,
            def,
            spd,
            turn_interval,
            max_duration,
            old(ctx).clock.unix_timestamp,
            old(ctx).bump,
        ),
        final(ctx).battle_state.wf(),
        final(ctx).authority == old(ctx).authority,
        final(ctx).clock == old(ctx).clock,
        final(ctx).bump == old(ctx).bump,
{
    ctx.battle_state.battle_id = battle_id;
    ctx.battle_state.authority = ctx.authority;

    ctx.battle_state.creature_hp = [hp, hp, hp, hp];
    ctx.battle_state.creature_atk = [atk, atk, atk, atk];
    ctx.battle_state.creature_def = [def, def, def, def];
    ctx.battle_state.creature_max_hp = [hp, hp, hp, hp];
    ctx.battle_state.creature_spd = [spd, spd, spd, spd];
    ctx.battle_state.is_alive = [true, true, true, true];

    ctx.battle_state.is_battle_over = false;
    ctx.battle_state.winner = None;
    ctx.battle_state.current_turn = 0;

    ctx.battle_state.start_time = ctx.clock.unix_timestamp;
    ctx.battle_state.last_turn_time = ctx.clock.unix_timestamp;
    ctx.battle_state.turn_interval = turn_interval;
    ctx.battle_state.max_duration = max_duration;

    ctx.battle_state.bump = ctx.bump;
    proof {
        let after = ctx.battle_state@;
        let fresh = fresh_battle(
            battle_id,
            ctx.authority@,
            hp,
            atk,
            def,
            spd,
            turn_interval,
            max_duration,
            ctx.clock.unix_timestamp,
            ctx.bump,
        );
        assert(after.hp =~= fresh.hp);
        assert(after.max_hp =~= fresh.max_hp);
        assert(after.atk =~= fresh.atk);
        assert(after.def =~= fresh.def);
        assert(after.spd =~= fresh.spd);
        assert(after.alive =~= fresh.alive);
    }
    Ok(())
}

} // verus!
