//! The pointer to the battle in progress.

use vstd::prelude::*;

verus! {

/// The configuration that names the current battle, and the authority that
/// alone may change it.
#[derive(Clone, Copy, Debug, PartialEq, Eq)]
pub struct GlobalState {
    pub current_battle_id: u64,
    pub authority: [u8; 32],
    pub bump: u8,
}

/// The mathematical value of a [`GlobalState`].
pub struct GlobalView {
    pub current_battle_id: u64,
    pub authority: Seq<u8>,
    pub bump: u8,
}

impl View for GlobalState {
    type V = GlobalView;

    open spec fn view(&self) -> GlobalView {
        GlobalView {
            current_battle_id: self.current_battle_id,
            authority: self.authority@,
            bump: self.bump,
        }
    }
}

} // verus!
