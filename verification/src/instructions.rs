//! The operations on battles and markets.

pub mod claim_winnings;
pub mod execute_turn;
pub mod initialize_battle;
pub mod initialize_global;
pub mod initialize_market;
pub mod place_bet;
pub mod sell_shares;
pub mod update_current_battle;

pub use claim_winnings::{claim_winnings, ClaimWinnings};
pub use execute_turn::{
    execute_turn, resolve_turn, speed_order, turn_is_fought, turn_seeds, ExecuteTurn, TurnSeeds,
};
pub use initialize_battle::{initialize_battle, InitializeBattle};
pub use initialize_global::{initialize_global, InitializeGlobal};
pub use initialize_market::{initialize_market, InitializeMarket};
pub use place_bet::{place_bet, PlaceBet, MIN_BET};
pub use sell_shares::{sell_shares, SellShares};
pub use update_current_battle::{update_current_battle, UpdateCurrentBattle};
