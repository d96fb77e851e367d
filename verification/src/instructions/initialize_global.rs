//! Creation of the pointer to the battle in progress.

use vstd::prelude::*;
use crate::errors::GameError;
use crate::state::global::{GlobalState, GlobalView};

verus! {

/// What creating the pointer needs: the record to fill, the authority that
/// creates it and the bump of the record's address.
#[derive(Clone, Copy, Debug, PartialEq, Eq)]
pub struct InitializeGlobal {
    pub global_state: GlobalState,
    pub authority: [u8; 32],
    pub bump: u8,
}

/// Fills the pointer: no battle yet, owned by the creating authority.
pub fn initialize_global(ctx: &mut InitializeGlobal) -> (result: Result<(), GameError>)
    ensures
        result is Ok,
        final(ctx).global_state@ == (GlobalView {
            current_battle_id: 0,
            authority: old(ctx).authority@,
            bump: old(ctx).bump,
        }),
        final(ctx).authority == old(ctx).authority,
        final(ctx).bump == old(ctx).bump,
{
    ctx.global_state.current_battle_id = 0;
    ctx.global_state.authority = ctx.authority;
    ctx.global_state.bump = ctx.bump;
    Ok(())
}

} // verus!
