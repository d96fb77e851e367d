//! One turn of a battle: who acts in which order, whom each attacker strikes
//! and how hard, who dies, and whether the battle ends.

use vstd::prelude::*;
use crate::clock::{timestamp_bits, Clock};
use crate::errors::GameError;
use crate::state::battle::{alive_count, Ability, BattleState, BattleView};
use crate::utils::{
    ability_of, damage_of, get_random_seed, lemma_targets_among, mix, pick_random_ability,
    pick_random_target, strike_damage, target_of, valid_targets, wrap64,
};

verus! {

/// The seeds of one turn: for each creature the seed that picks its target
/// and the seed that picks its ability.
#[derive(Clone, Copy, Debug, PartialEq, Eq)]
pub struct TurnSeeds {
    pub target: [u64; 4],
    pub ability: [u64; 4],
}

/// The mathematical value of [`TurnSeeds`].
pub struct SeedsView {
    pub target: Seq<u64>,
    pub ability: Seq<u64>,
}

impl View for TurnSeeds {
    type V = SeedsView;

    open spec fn view(&self) -> SeedsView {
        SeedsView { target: self.target@, ability: self.ability@ }
    }
}

/// The salt of the seed that picks the target of `attacker` in turn `turn`.
pub open spec fn target_salt(turn: u64, attacker: int) -> u64 {
    wrap64(wrap64(turn * 10) + attacker)
}

/// The salt of the seed that picks the ability of `attacker` in turn `turn`.
pub open spec fn ability_salt(turn: u64, attacker: int) -> u64 {
    wrap64(wrap64(turn * 100) + attacker)
}

/// The seeds that the clock gives turn `turn`.
pub open spec fn seeds_of(clock: Clock, turn: u64) -> SeedsView {
    SeedsView {
        target: Seq::new(
            4,
            |i: int| mix(clock.slot, timestamp_bits(clock.unix_timestamp), target_salt(turn, i)),
        ),
        ability: Seq::new(
            4,
            |i: int| mix(clock.slot, timestamp_bits(clock.unix_timestamp), ability_salt(turn, i)),
        ),
    }
}

/// Whether creature `i` acts before creature `j`: the faster one first, and of
/// two equally fast ones the one with the lower index.
pub open spec fn acts_before(spd: Seq<u16>, i: int, j: int) -> bool {
    spd[i] > spd[j] || (spd[i] == spd[j] && i < j)
}

/// Where a newcomer of speed `speed` joins `order`: right behind the last
/// creature in it that is at least as fast.
pub open spec fn slot_for(order: Seq<usize>, spd: Seq<u16>, speed: u16) -> int
    decreases order.len(),
{
    if order.len() == 0 {
        0
    } else if spd[order.last() as int] >= speed {
        order.len() as int
    } else {
        slot_for(order.drop_last(), spd, speed)
    }
}

/// The order in which the living creatures among the first `n` slots act.
pub open spec fn order_among(alive: Seq<bool>, spd: Seq<u16>, n: int) -> Seq<usize>
    decreases n,
{
    if n <= 0 {
        Seq::empty()
    } else {
        let before = order_among(alive, spd, n - 1);
        if alive[n - 1] {
            before.insert(slot_for(before, spd, spd[n - 1]), (n - 1) as usize)
        } else {
            before
        }
    }
}

/// The order in which the living creatures act in a turn.
pub open spec fn turn_order(alive: Seq<bool>, spd: Seq<u16>) -> Seq<usize> {
    order_among(alive, spd, 4)
}

/// `order` lists exactly the living creatures among the first `n` slots, each
/// before every creature that acts after it.
pub open spec fn is_order_of(alive: Seq<bool>, spd: Seq<u16>, n: int, order: Seq<usize>) -> bool {
    &&& forall|p: int| 0 <= p < order.len() ==> (#[trigger] order[p]) < n && alive[order[p] as int]
    &&& forall|i: int| 0 <= i < n && alive[i] ==> #[trigger] order.contains(i as usize)
    &&& forall|p: int, q: int|
        0 <= p < q < order.len() ==> acts_before(
            spd,
            #[trigger] order[p] as int,
            #[trigger] order[q] as int,
        )
}

/// Behind the slot of a newcomer every creature is slower than the newcomer;
/// the creature right before the slot, if there is one, is not.
pub proof fn lemma_slot_for(order: Seq<usize>, spd: Seq<u16>, speed: u16)
    ensures
        0 <= slot_for(order, spd, speed) <= order.len(),
        forall|q: int|
            slot_for(order, spd, speed) <= q < order.len() ==> spd[(#[trigger] order[q]) as int]
                < speed,
        slot_for(order, spd, speed) > 0 ==> spd[order[slot_for(order, spd, speed) - 1] as int]
            >= speed,
    decreases order.len(),
{
    if order.len() > 0 && spd[order.last() as int] < speed {
        let shorter = order.drop_last();
        lemma_slot_for(shorter, spd, speed);
        assert forall|q: int| slot_for(order, spd, speed) <= q < order.len() implies spd[(
        #[trigger] order[q]) as int] < speed by {
            if q < shorter.len() {
                assert(order[q] == shorter[q]);
            }
        }
    }
}

/// The order of a turn is the stable order by falling speed: it lists each
/// living creature once, faster creatures first and equally fast ones by
/// rising index.
pub proof fn lemma_order_among(alive: Seq<bool>, spd: Seq<u16>, n: int)
    requires
        0 <= n <= 4,
    ensures
        is_order_of(alive, spd, n, order_among(alive, spd, n)),
        order_among(alive, spd, n).len() <= n,
    decreases n,
{
    if n > 0 {
        lemma_order_among(alive, spd, n - 1);
        let before = order_among(alive, spd, n - 1);
        let after = order_among(alive, spd, n);
        if alive[n - 1] {
            let speed = spd[n - 1];
            let slot = slot_for(before, spd, speed);
            let me = (n - 1) as usize;
            lemma_slot_for(before, spd, speed);
            assert(after == before.insert(slot, me));
            assert forall|q: int| 0 <= q < slot implies spd[(#[trigger] before[q]) as int]
                >= speed by {
                if q < slot - 1 {
                    assert(acts_before(spd, before[q] as int, before[slot - 1] as int));
                }
            }
            assert forall|p: int| 0 <= p < after.len() implies (#[trigger] after[p]) < n
                && alive[after[p] as int] by {
                if p < slot {
                    assert(after[p] == before[p]);
                } else if p > slot {
                    assert(after[p] == before[p - 1]);
                }
            }
            assert forall|i: int| 0 <= i < n && alive[i] implies #[trigger] after.contains(
                i as usize,
            ) by {
                if i == n - 1 {
                    assert(after[slot] == me);
                } else {
                    assert(before.contains(i as usize));
                    let p = choose|p: int| 0 <= p < before.len() && before[p] == i as usize;
                    if p < slot {
                        assert(after[p] == before[p]);
                    } else {
                        assert(after[p + 1] == before[p]);
                    }
                }
            }
            assert forall|p: int, q: int| 0 <= p < q < after.len() implies acts_before(
                spd,
                #[trigger] after[p] as int,
                #[trigger] after[q] as int,
            ) by {
                let bp = if p < slot { p } else { p - 1 };
                let bq = if q < slot { q } else { q - 1 };
                if p == slot {
                    assert(after[q] == before[bq]);
                    assert(spd[before[bq] as int] < speed);
                } else if q == slot {
                    assert(after[p] == before[bp]);
                    assert(spd[before[bp] as int] >= speed);
                    assert(before[bp] < n - 1);
                } else {
                    assert(after[p] == before[bp]);
                    assert(after[q] == before[bq]);
                    assert(acts_before(spd, before[bp] as int, before[bq] as int));
                }
            }
        } else {
            assert forall|i: int| 0 <= i < n && alive[i] implies #[trigger] after.contains(
                i as usize,
            ) by {
                assert(before.contains(i as usize));
            }
        }
    }
}

/// Lists the living creatures in the order in which they act.
pub fn speed_order(is_alive: &[bool; 4], creature_spd: &[u16; 4]) -> (order: Vec<usize>)
    ensures
        order@ == turn_order(is_alive@, creature_spd@),
        is_order_of(is_alive@, creature_spd@, 4, order@),
        order.len() <= 4,
{
    let mut order: Vec<usize> = Vec::new();
    let mut i: usize = 0;
    while i < 4
        invariant
            0 <= i <= 4,
            order@ == order_among(is_alive@, creature_spd@, i as int),
            order.len() <= i,
            forall|p: int| 0 <= p < order.len() ==> (#[trigger] order@[p]) < 4,
        decreases 4 - i,
    {
        if is_alive[i] {
            let speed = creature_spd[i];
            let mut slot: usize = order.len();
            assert(order@.take(slot as int) =~= order@);
            while slot > 0 && creature_spd[order[slot - 1]] < speed
                invariant
                    0 <= slot <= order.len(),
                    forall|p: int| 0 <= p < order.len() ==> (#[trigger] order@[p]) < 4,
                    slot_for(order@, creature_spd@, speed) == slot_for(
                        order@.take(slot as int),
                        creature_spd@,
                        speed,
                    ),
                decreases slot,
            {
                assert(order@.take(slot as int).drop_last() =~= order@.take(slot - 1));
                slot -= 1;
            }
            order.insert(slot, i);
        }
        i += 1;
    }
    proof {
        lemma_order_among(is_alive@, creature_spd@, 4);
    }
    order
}

/// The battle after `attacker` has hit `target` with `ability`: the target
/// loses the damage, at most all its hit points, and dies at zero.
pub open spec fn strike(b: BattleView, attacker: int, target: int, ability: Ability) -> BattleView {
    let damage = damage_of(b.atk[attacker], b.def[target], ability);
    let left: u16 = if b.hp[target] > damage {
        (b.hp[target] - damage) as u16
    } else {
        0
    };
    BattleView {
        hp: b.hp.update(target, left),
        alive: if left == 0 {
            b.alive.update(target, false)
        } else {
            b.alive
        },
        ..b
    }
}

/// A hit on a living creature always tells: the creature loses hit points or,
/// if it has none left to lose, its life.
pub proof fn lemma_strike_hurts(b: BattleView, attacker: int, target: int, ability: Ability)
    requires
        b.shaped(),
        0 <= target < 4,
        b.alive[target],
    ensures
        strike(b, attacker, target, ability).hp[target] < b.hp[target] || !strike(
            b,
            attacker,
            target,
            ability,
        ).alive[target],
        strike(b, attacker, target, ability).hp[target] == 0 <==> !strike(
            b,
            attacker,
            target,
            ability,
        ).alive[target],
{
}

/// The battle after `attacker` has had its go. A creature that has died, or
/// that finds nobody to strike, does nothing.
pub open spec fn act(b: BattleView, seeds: SeedsView, attacker: int) -> BattleView {
    if !b.alive[attacker] {
        b
    } else {
        match target_of(attacker, b.alive, seeds.target[attacker]) {
            None => b,
            Some(target) => strike(b, attacker, target as int, ability_of(seeds.ability[attacker])),
        }
    }
}

/// The battle after the first `n` creatures of `order` have had their go.
pub open spec fn act_in_order(b: BattleView, seeds: SeedsView, order: Seq<usize>, n: int) -> BattleView
    decreases n,
{
    if n <= 0 {
        b
    } else {
        act(act_in_order(b, seeds, order, n - 1), seeds, order[n - 1] as int)
    }
}

/// The living creature with the lowest index.
pub open spec fn survivor(alive: Seq<bool>) -> u8 {
    if alive[0] {
        0
    } else if alive[1] {
        1
    } else if alive[2] {
        2
    } else {
        3
    }
}

/// The battle at the end of a turn's fighting. With one creature left it is
/// over and that creature has won; with none left it is over without a
/// winner; otherwise it goes on. The turn is counted and its time kept.
pub open spec fn settle(b: BattleView, now: i64) -> BattleView {
    let living = alive_count(b.alive);
    BattleView {
        over: b.over || living <= 1,
        winner: if living == 1 {
            Some(survivor(b.alive))
        } else if living == 0 {
            None
        } else {
            b.winner
        },
        last_turn_time: now,
        turn: (b.turn + 1) as u64,
        ..b
    }
}

/// The battle after a turn of fighting.
pub open spec fn fight(b: BattleView, now: i64, seeds: SeedsView) -> BattleView {
    let order = turn_order(b.alive, b.spd);
    settle(act_in_order(b, seeds, order, order.len() as int), now)
}

/// Less than the turn interval has passed since the last turn.
pub open spec fn too_soon(b: BattleView, now: i64) -> bool {
    now - b.last_turn_time < b.turn_interval
}

/// The battle has run longer than its maximum duration.
pub open spec fn timed_out(b: BattleView, now: i64) -> bool {
    now - b.start_time > b.max_duration
}

/// A turn at `now` is fought: the battle runs, the interval has passed and
/// the battle has not timed out.
pub open spec fn is_fought(b: BattleView, now: i64) -> bool {
    !b.over && !too_soon(b, now) && !timed_out(b, now)
}

/// What a turn at `now` does to a battle. A battle that is over, or whose last
/// turn is too recent, refuses the turn. A battle that has timed out ends
/// without a winner and without fighting. Otherwise the turn is fought.
pub open spec fn turn_outcome(b: BattleView, now: i64, seeds: SeedsView) -> Result<
    BattleView,
    GameError,
> {
    if b.over {
        Err(GameError::BattleAlreadyOver)
    } else if too_soon(b, now) {
        Err(GameError::TurnIntervalNotMet)
    } else if timed_out(b, now) {
        Ok(BattleView { over: true, winner: None, ..b })
    } else {
        Ok(fight(b, now, seeds))
    }
}

/// Fighting touches hit points and lives only: nobody is healed, nobody
/// comes back to life, and everything else in the battle stays as it was.
pub proof fn lemma_act_in_order(b: BattleView, seeds: SeedsView, order: Seq<usize>, n: int)
    requires
        b.shaped(),
        0 <= n <= order.len(),
        forall|p: int| 0 <= p < order.len() ==> (#[trigger] order[p]) < 4,
    ensures
        act_in_order(b, seeds, order, n).shaped(),
        act_in_order(b, seeds, order, n) == (BattleView {
            hp: act_in_order(b, seeds, order, n).hp,
            alive: act_in_order(b, seeds, order, n).alive,
            ..b
        }),
        forall|i: int|
            0 <= i < 4 ==> (#[trigger] act_in_order(b, seeds, order, n).alive[i] ==> b.alive[i]),
        forall|i: int| 0 <= i < 4 ==> #[trigger] act_in_order(b, seeds, order, n).hp[i] <= b.hp[i],
    decreases n,
{
    if n > 0 {
        lemma_act_in_order(b, seeds, order, n - 1);
        let before = act_in_order(b, seeds, order, n - 1);
        let attacker = order[n - 1] as int;
        lemma_targets_among(attacker, before.alive, 4);
    }
}

/// The hit points of the four creatures, added up.
pub open spec fn hp_sum(hp: Seq<u16>) -> int {
    hp[0] + hp[1] + hp[2] + hp[3]
}

/// What is left to lose in a battle: the hit points of its creatures and
/// their lives.
pub open spec fn vitality(b: BattleView) -> int {
    hp_sum(b.hp) + alive_count(b.alive)
}

/// A creature's go never adds to what is left to lose, and takes from it
/// whenever the creature lives and another one does too.
pub proof fn lemma_act_wears_down(b: BattleView, seeds: SeedsView, attacker: int)
    requires
        b.shaped(),
        0 <= attacker < 4,
    ensures
        act(b, seeds, attacker).shaped(),
        vitality(act(b, seeds, attacker)) <= vitality(b),
        b.alive[attacker] && (exists|other: int|
            0 <= other < 4 && other != attacker && b.alive[other]) ==> vitality(
            act(b, seeds, attacker),
        ) < vitality(b),
{
    lemma_targets_among(attacker, b.alive, 4);
    if b.alive[attacker] {
        let targets = valid_targets(attacker, b.alive);
        if exists|other: int| 0 <= other < 4 && other != attacker && b.alive[other] {
            let other = choose|other: int| 0 <= other < 4 && other != attacker && b.alive[other];
            assert(targets.contains(other as usize));
            assert(targets.len() > 0);
        }
        match target_of(attacker, b.alive, seeds.target[attacker]) {
            None => {},
            Some(target) => {
                let ability = ability_of(seeds.ability[attacker]);
                assert(target == targets[seeds.target[attacker] as int % targets.len() as int]);
                assert(target < 4 && b.alive[target as int]);
                lemma_strike_hurts(b, attacker, target as int, ability);
            },
        }
    }
}

/// Going through the order never adds to what is left to lose.
pub proof fn lemma_act_in_order_wears_down(
    b: BattleView,
    seeds: SeedsView,
    order: Seq<usize>,
    m: int,
    n: int,
)
    requires
        b.shaped(),
        0 <= m <= n <= order.len(),
        forall|p: int| 0 <= p < order.len() ==> (#[trigger] order[p]) < 4,
    ensures
        vitality(act_in_order(b, seeds, order, n)) <= vitality(act_in_order(b, seeds, order, m)),
    decreases n,
{
    if m < n {
        lemma_act_in_order_wears_down(b, seeds, order, m, n - 1);
        lemma_act_in_order(b, seeds, order, n - 1);
        lemma_act_wears_down(act_in_order(b, seeds, order, n - 1), seeds, order[n - 1] as int);
    }
}

/// A fought turn among at least two living creatures always tells: when it
/// is over, somebody has lost hit points or life.
pub proof fn lemma_fight_wears_down(b: BattleView, now: i64, seeds: SeedsView)
    requires
        b.shaped(),
        alive_count(b.alive) >= 2,
    ensures
        vitality(fight(b, now, seeds)) < vitality(b),
{
    let order = turn_order(b.alive, b.spd);
    lemma_order_among(b.alive, b.spd, 4);
    let witness = if b.alive[0] {
        0int
    } else if b.alive[1] {
        1int
    } else {
        2int
    };
    assert(order.contains(witness as usize));
    assert(order.len() >= 1);
    let first = order[0] as int;
    assert(b.alive[first]);
    let other = if first != 0 && b.alive[0] {
        0int
    } else if first != 1 && b.alive[1] {
        1int
    } else if first != 2 && b.alive[2] {
        2int
    } else {
        3int
    };
    assert(0 <= other < 4 && other != first && b.alive[other]);
    lemma_act_wears_down(b, seeds, first);
    assert(act_in_order(b, seeds, order, 1) == act(act_in_order(b, seeds, order, 0), seeds, first));
    assert(act_in_order(b, seeds, order, 0) == b);
    lemma_act_in_order_wears_down(b, seeds, order, 1, order.len() as int);
}

/// What a fought turn leaves behind. The turn is counted and its time kept,
/// whether or not anybody could strike. The battle is over exactly if at
/// most one creature is left; it then has a winner exactly if one is left,
/// and the winner is that creature. Nobody is healed or comes back to life.
pub proof fn lemma_fight(b: BattleView, now: i64, seeds: SeedsView)
    requires
        b.shaped(),
        !b.over,
        b.turn < u64::MAX,
    ensures
        fight(b, now, seeds).shaped(),
        fight(b, now, seeds).turn == b.turn + 1,
        fight(b, now, seeds).last_turn_time == now,
        fight(b, now, seeds).over <==> alive_count(fight(b, now, seeds).alive) <= 1,
        fight(b, now, seeds).over ==> (fight(b, now, seeds).winner is Some <==> alive_count(
            fight(b, now, seeds).alive,
        ) == 1),
        fight(b, now, seeds).over ==> (fight(b, now, seeds).winner matches Some(w) ==> w < 4
            && fight(b, now, seeds).alive[w as int]),
        !fight(b, now, seeds).over ==> fight(b, now, seeds).winner == b.winner,
        forall|i: int| 0 <= i < 4 ==> (#[trigger] fight(b, now, seeds).alive[i] ==> b.alive[i]),
        forall|i: int| 0 <= i < 4 ==> #[trigger] fight(b, now, seeds).hp[i] <= b.hp[i],
        fight(b, now, seeds) == (BattleView {
            hp: fight(b, now, seeds).hp,
            alive: fight(b, now, seeds).alive,
            over: fight(b, now, seeds).over,
            winner: fight(b, now, seeds).winner,
            turn: fight(b, now, seeds).turn,
            last_turn_time: now,
            ..b
        }),
{
    let order = turn_order(b.alive, b.spd);
    lemma_order_among(b.alive, b.spd, 4);
    lemma_act_in_order(b, seeds, order, order.len() as int);
}

/// A turn keeps the invariant of a battle, and a battle that is over stays
/// over: it refuses every further turn.
pub proof fn lemma_turn_outcome(b: BattleView, now: i64, seeds: SeedsView)
    requires
        b.shaped(),
        is_fought(b, now) ==> b.turn < u64::MAX,
    ensures
        b.over ==> turn_outcome(b, now, seeds) is Err,
        turn_outcome(b, now, seeds) matches Ok(after) ==> after.shaped() && (b.wf()
            ==> after.wf()),
        turn_outcome(b, now, seeds) is Ok && !is_fought(b, now) ==> turn_outcome(b, now, seeds)
            == Ok::<BattleView, GameError>(BattleView { over: true, winner: None, ..b }),
        is_fought(b, now) ==> turn_outcome(b, now, seeds) == Ok::<BattleView, GameError>(
            fight(b, now, seeds),
        ),
{
    if is_fought(b, now) {
        lemma_fight(b, now, seeds);
    }
}

/// Counts the living creatures and finds the one with the lowest index.
fn tally(is_alive: &[bool; 4]) -> (tally: (u8, u8))
    ensures
        tally.0 == alive_count(is_alive@),
        tally.1 == survivor(is_alive@),
{
    let mut living: u8 = 0;
    let mut lowest: u8 = 3;
    if is_alive[3] {
        living += 1;
    }
    if is_alive[2] {
        living += 1;
        lowest = 2;
    }
    if is_alive[1] {
        living += 1;
        lowest = 1;
    }
    if is_alive[0] {
        living += 1;
        lowest = 0;
    }
    (living, lowest)
}

/// Whether a turn of `battle` at time `now` would be fought.
pub fn turn_is_fought(battle: &BattleState, now: i64) -> (fought: bool)
    ensures
        fought == is_fought(battle@, now),
{
    !battle.is_battle_over && now as i128 - battle.last_turn_time as i128
        >= battle.turn_interval as i128 && now as i128 - battle.start_time as i128
        <= battle.max_duration as i128
}

/// Plays one turn of `battle` at time `now` with the given seeds.
///
/// A refused turn leaves the battle untouched. A battle never comes back
/// from being over. A turn that is fought is counted and its time kept,
/// whether or not anybody could strike; if it ends the battle, at most one
/// creature is left, and the battle has a winner exactly if one is.
pub fn resolve_turn(battle: &mut BattleState, now: i64, seeds: &TurnSeeds) -> (result: Result<
    (),
    GameError,
>)
    requires
        is_fought(old(battle)@, now) ==> old(battle).current_turn < u64::MAX,
    ensures
        match turn_outcome(old(battle)@, now, seeds@) {
            Ok(after) => result is Ok && final(battle)@ == after,
            Err(e) => result == Err::<(), GameError>(e) && *final(battle) == *old(battle),
        },
        old(battle).is_battle_over ==> final(battle).is_battle_over,
        ({
            let before = old(battle)@;
            let after = final(battle)@;
            let living = alive_count(after.alive);
            &&& is_fought(before, now) ==> after.turn == before.turn + 1 && after.last_turn_time
                == now
            &&& is_fought(before, now) && after.over ==> living <= 1 && (after.winner is Some
                <==> living == 1)
            &&& after.over && !before.over ==> (after.winner matches Some(w) ==> w < 4
                && after.alive[w as int])
            &&& before.wf() ==> after.wf()
        }),
{
    if battle.is_battle_over {
        return Err(GameError::BattleAlreadyOver);
    }
    let time_since_last_turn: i128 = now as i128 - battle.last_turn_time as i128;
    if time_since_last_turn < battle.turn_interval as i128 {
        return Err(GameError::TurnIntervalNotMet);
    }
    let battle_duration: i128 = now as i128 - battle.start_time as i128;
    if battle_duration > battle.max_duration as i128 {
        battle.is_battle_over = true;
        battle.winner = None;
        return Ok(());
    }
    let ghost start = battle@;
    let order = speed_order(&battle.is_alive, &battle.creature_spd);
    let mut acted: usize = 0;
    while acted < order.len()
        invariant
            0 <= acted <= order.len(),
            start.shaped(),
            forall|p: int| 0 <= p < order.len() ==> (#[trigger] order@[p]) < 4,
            battle@ == act_in_order(start, seeds@, order@, acted as int),
        decreases order.len() - acted,
    {
        let attacker_idx = order[acted];
        proof {
            lemma_act_in_order(start, seeds@, order@, acted as int);
        }
        if battle.is_alive[attacker_idx] {
            match pick_random_target(attacker_idx, &battle.is_alive, seeds.target[attacker_idx]) {
                Some(target_idx) => {
                    let ability = pick_random_ability(seeds.ability[attacker_idx]);
                    let damage = strike_damage(
                        battle.creature_atk[attacker_idx],
                        battle.creature_def[target_idx],
                        ability,
                    );
                    let hp = battle.creature_hp[target_idx];
                    let left: u16 = if hp as u32 > damage {
                        (hp as u32 - damage) as u16
                    } else {
                        0
                    };
                    battle.creature_hp[target_idx] = left;
                    if left == 0 {
                        battle.is_alive[target_idx] = false;
                    }
                },
                None => {},
            }
        }
        acted += 1;
    }
    proof {
        lemma_act_in_order(start, seeds@, order@, order.len() as int);
        lemma_turn_outcome(start, now, seeds@);
    }
    let (living, lowest) = tally(&battle.is_alive);
    if living == 1 {
        battle.is_battle_over = true;
        battle.winner = Some(lowest);
    } else if living == 0 {
        battle.is_battle_over = true;
        battle.winner = None;
    }
    battle.last_turn_time = now;
    battle.current_turn += 1;
    Ok(())
}

/// Computes the salt of a target seed.
fn salt_for_target(current_turn: u64, attacker_idx: usize) -> (salt: u64)
    requires
        attacker_idx < 4,
    ensures
        salt == target_salt(current_turn, attacker_idx as int),
{
    current_turn.wrapping_mul(10).wrapping_add(attacker_idx as u64)
}

/// Computes the salt of an ability seed.
fn salt_for_ability(current_turn: u64, attacker_idx: usize) -> (salt: u64)
    requires
        attacker_idx < 4,
    ensures
        salt == ability_salt(current_turn, attacker_idx as int),
{
    current_turn.wrapping_mul(100).wrapping_add(attacker_idx as u64)
}

/// Draws the seeds of turn `current_turn` from the clock.
pub fn turn_seeds(clock: &Clock, current_turn: u64) -> (seeds: TurnSeeds)
    ensures
        seeds@ == seeds_of(*clock, current_turn),
{
    let mut target: [u64; 4] = [0, 0, 0, 0];
    let mut ability: [u64; 4] = [0, 0, 0, 0];
    let mut i: usize = 0;
    while i < 4
        invariant
            0 <= i <= 4,
            forall|j: int|
                0 <= j < i ==> #[trigger] target@[j] == mix(
                    clock.slot,
                    timestamp_bits(clock.unix_timestamp),
                    target_salt(current_turn, j),
                ),
            forall|j: int|
                0 <= j < i ==> #[trigger] ability@[j] == mix(
                    clock.slot,
                    timestamp_bits(clock.unix_timestamp),
                    ability_salt(current_turn, j),
                ),
        decreases 4 - i,
    {
        target[i] = get_random_seed(clock, salt_for_target(current_turn, i));
        ability[i] = get_random_seed(clock, salt_for_ability(current_turn, i));
        i += 1;
    }
    let seeds = TurnSeeds { target, ability };
    assert(seeds@.target =~= seeds_of(*clock, current_turn).target);
    assert(seeds@.ability =~= seeds_of(*clock, current_turn).ability);
    seeds
}

/// What a turn needs: the battle and the clock of the call.
#[derive(Clone, Copy, Debug, PartialEq, Eq)]
pub struct ExecuteTurn {
    pub battle_state: BattleState,
    pub clock: Clock,
}

/// Plays one turn of the battle at the time of the clock, with the seeds
/// that the clock gives the battle's current turn.
///
/// A refused turn leaves the battle untouched. A battle never comes back
/// from being over. A turn that is fought is counted and its time kept,
/// whether or not anybody could strike; if it ends the battle, at most one
/// creature is left, and the battle has a winner exactly if one is.
pub fn execute_turn(ctx: &mut ExecuteTurn) -> (result: Result<(), GameError>)
    requires
        ({
            let before = old(ctx).battle_state@;
            is_fought(before, old(ctx).clock.unix_timestamp) ==> before.turn < u64::MAX
        }),
    ensures
        final(ctx).clock == old(ctx).clock,
        match turn_outcome(
            old(ctx).battle_state@,
            old(ctx).clock.unix_timestamp,
            seeds_of(old(ctx).clock, old(ctx).battle_state.current_turn),
        ) {
            Ok(after) => result is Ok && final(ctx).battle_state@ == after,
            Err(e) => result == Err::<(), GameError>(e) && *final(ctx) == *old(ctx),
        },
        old(ctx).battle_state.is_battle_over ==> final(ctx).battle_state.is_battle_over,
        ({
            let before = old(ctx).battle_state@;
            let after = final(ctx).battle_state@;
            let now = old(ctx).clock.unix_timestamp;
            let living = alive_count(after.alive);
            &&& is_fought(before, now) ==> after.turn == before.turn + 1 && after.last_turn_time
                == now
            &&& is_fought(before, now) && after.over ==> living <= 1 && (after.winner is Some
                <==> living == 1)
            &&& after.over && !before.over ==> (after.winner matches Some(w) ==> w < 4
                && after.alive[w as int])
            &&& before.wf() ==> after.wf()
        }),
{
    let seeds = turn_seeds(&ctx.clock, ctx.battle_state.current_turn);
    let now = ctx.clock.unix_timestamp;
    resolve_turn(&mut ctx.battle_state, now, &seeds)
}

} // verus!
