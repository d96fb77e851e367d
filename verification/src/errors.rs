//! The ways in which an operation on a battle or its market is refused.

use vstd::prelude::*;

verus! {

/// Why an operation was refused. A refused operation changes nothing.
#[derive(Clone, Copy, Debug, PartialEq, Eq, Structural)]
pub enum GameError {
    /// The battle has already ended.
    BattleAlreadyOver,
    /// Less than the turn interval has passed since the last turn.
    TurnIntervalNotMet,
    /// The battle has run longer than its maximum duration.
    BattleDurationExceeded,
    /// A creature index outside `0..4`.
    InvalidCreatureIndex,
    /// A stake below the minimum bet.
    BetTooSmall,
    /// A stake on a creature that is no longer alive.
    CreatureIsDead,
    /// Winnings were asked for while the battle is still running.
    BattleNotOver,
    /// The battle ended in a draw or timed out.
    NoWinner,
    /// The position is on a creature that did not win.
    NotAWinner,
    /// The position has already been settled.
    AlreadyClaimed,
    /// A quantity left the range of its type.
    CalculationOverflow,
    /// A division by a pool or reserve that is zero.
    DivisionByZero,
    /// More shares were offered for sale than the position holds.
    InsufficientShares,
}

} // verus!
