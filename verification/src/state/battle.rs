//! The state of one battle among up to four creatures.

use vstd::prelude::*;

verus! {

/// One of the three moves a creature can make when it attacks.
#[derive(Clone, Copy, Debug, PartialEq, Eq, Structural)]
pub enum Ability {
    BasicHit,
    HeavyStrike,
    QuickJab,
}

/// A battle as it is stored.
#[derive(Clone, Copy, Debug, PartialEq, Eq)]
pub struct BattleState {
    pub battle_id: u64,
    pub authority: [u8; 32],
    pub creature_hp: [u16; 4],
    pub creature_max_hp: [u16; 4],
    pub creature_atk: [u16; 4],
    pub creature_def: [u16; 4],
    pub creature_spd: [u16; 4],
    pub is_alive: [bool; 4],
    pub is_battle_over: bool,
    pub winner: Option<u8>,
    pub current_turn: u64,
    pub start_time: i64,
    pub last_turn_time: i64,
    pub turn_interval: i64,
    pub max_duration: i64,
    pub bump: u8,
}

/// The mathematical value of a [`BattleState`]: every per-creature array as a
/// sequence of length four.
pub struct BattleView {
    pub battle_id: u64,
    pub authority: Seq<u8>,
    pub hp: Seq<u16>,
    pub max_hp: Seq<u16>,
    pub atk: Seq<u16>,
    pub def: Seq<u16>,
    pub spd: Seq<u16>,
    pub alive: Seq<bool>,
    pub over: bool,
    pub winner: Option<u8>,
    pub turn: u64,
    pub start_time: i64,
    pub last_turn_time: i64,
    pub turn_interval: i64,
    pub max_duration: i64,
    pub bump: u8,
}

impl View for BattleState {
    type V = BattleView;

    open spec fn view(&self) -> BattleView {
        BattleView {
            battle_id: self.battle_id,
            authority: self.authority@,
            hp: self.creature_hp@,
            max_hp: self.creature_max_hp@,
            atk: self.creature_atk@,
            def: self.creature_def@,
            spd: self.creature_spd@,
            alive: self.is_alive@,
            over: self.is_battle_over,
            winner: self.winner,
            turn: self.current_turn,
            start_time: self.start_time,
            last_turn_time: self.last_turn_time,
            turn_interval: self.turn_interval,
            max_duration: self.max_duration,
            bump: self.bump,
        }
    }
}

/// How many of the four creatures are alive.
pub open spec fn alive_count(alive: Seq<bool>) -> int {
    (if alive[0] { 1int } else { 0int }) + (if alive[1] { 1int } else { 0int })
        + (if alive[2] { 1int } else { 0int }) + (if alive[3] { 1int } else { 0int })
}

impl BattleView {
    /// Every per-creature sequence has one entry per slot.
    pub open spec fn shaped(self) -> bool {
        &&& self.authority.len() == 32
        &&& self.hp.len() == 4
        &&& self.max_hp.len() == 4
        &&& self.atk.len() == 4
        &&& self.def.len() == 4
        &&& self.spd.len() == 4
        &&& self.alive.len() == 4
    }

    /// The invariant of a battle. While it runs it has no winner and at least
    /// two creatures alive. Once it is over it has a winner exactly if one
    /// creature is left alive, and the winner is that creature.
    pub open spec fn wf(self) -> bool {
        &&& self.shaped()
        &&& !self.over ==> self.winner is None && alive_count(self.alive) >= 2
        &&& self.over ==> (self.winner is Some <==> alive_count(self.alive) == 1)
        &&& self.winner matches Some(w) ==> w < 4 && self.alive[w as int]
    }
}

impl BattleState {
    /// The invariant of a battle, on the stored value.
    pub open spec fn wf(&self) -> bool {
        self@.wf()
    }
}

/// One attack as a turn's record keeps it.
#[derive(Clone, Copy, Debug, PartialEq, Eq)]
pub struct Attack {
    pub attacker: u8,
    pub target: u8,
    pub ability: Ability,
    pub damage: u16,
    pub target_hp: u16,
    pub target_died: bool,
}

impl Attack {
    /// The empty record: creature 0 on creature 0, a basic hit of no damage.
    pub fn default() -> (attack: Attack)
        ensures
            attack == (Attack {
                attacker: 0,
                target: 0,
                ability: Ability::BasicHit,
                damage: 0,
                target_hp: 0,
                target_died: false,
            }),
    {
        Attack {
            attacker: 0,
            target: 0,
            ability: Ability::BasicHit,
            damage: 0,
            target_hp: 0,
            target_died: false,
        }
    }
}

/// The record of one turn: up to four attacks, of which the first
/// `attack_count` were made.
#[derive(Clone, Copy, Debug, PartialEq, Eq)]
pub struct TurnLog {
    pub battle_id: u64,
    pub turn_number: u64,
    pub timestamp: i64,
    pub attacks: [Attack; 4],
    pub attack_count: u8,
    pub bump: u8,
}

} // verus!
