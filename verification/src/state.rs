//! What is stored: battles, markets, positions and the pointer to the battle in
//! progress.

pub mod battle;
pub mod global;
pub mod market;
pub mod position;

pub use battle::{Ability, Attack, BattleState, TurnLog};
pub use global::GlobalState;
pub use market::MarketState;
pub use position::UserPosition;
