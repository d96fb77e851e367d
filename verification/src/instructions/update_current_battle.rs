//! The one change to the pointer to the battle in progress.

use vstd::prelude::*;
use crate::errors::GameError;
use crate::state::global::{GlobalState, GlobalView};

verus! {

/// What moving the pointer needs: the pointer and the authority that asks.
#[derive(Clone, Copy, Debug, PartialEq, Eq)]
pub struct UpdateCurrentBattle {
    pub global_state: GlobalState,
    pub authority: [u8; 32],
}

impl UpdateCurrentBattle {
    /// The authority that asks is the one that owns the pointer.
    pub open spec fn authorized(&self) -> bool {
        self.authority@ == self.global_state.authority@
    }

    /// Whether the authority that asks is the one that owns the pointer.
    pub fn is_authorized(&self) -> (authorized: bool)
        ensures
            authorized == self.authorized(),
    {
        let mut i: usize = 0;
        while i < 32
            invariant
                0 <= i <= 32,
                forall|j: int| 0 <= j < i ==> self.authority@[j] == self.global_state.authority@[j],
            decreases 32 - i,
        {
            if self.authority[i] != self.global_state.authority[i] {
                return false;
            }
            i += 1;
        }
        assert(self.authority@ =~= self.global_state.authority@);
        true
    }
}

/// Points to battle `battle_id`. Only the authority that owns the pointer
/// may do so: the caller shows that it is the one that asks.
pub fn update_current_battle(ctx: &mut UpdateCurrentBattle, battle_id: u64) -> (result: Result<
    (),
    GameError,
>)
    requires
        old(ctx).authorized(),
    ensures
        result is Ok,
        final(ctx).global_state@ == (GlobalView {
            current_battle_id: battle_id,
            ..old(ctx).global_state@
        }),
        final(ctx).authority == old(ctx).authority,
{
    ctx.global_state.current_battle_id = battle_id;
    Ok(())
}

} // verus!
