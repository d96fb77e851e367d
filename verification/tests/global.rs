use beast_index_arena::instructions::{
    initialize_global, update_current_battle, InitializeGlobal, UpdateCurrentBattle,
};
use beast_index_arena::state::GlobalState;

const AUTHORITY: [u8; 32] = [3u8; 32];

#[test]
fn a_new_pointer_names_no_battle() {
    let mut ctx = InitializeGlobal {
        global_state: GlobalState { current_battle_id: 99, authority: [0u8; 32], bump: 0 },
        authority: AUTHORITY,
        bump: 253,
    };
    assert_eq!(initialize_global(&mut ctx), Ok(()));
    assert_eq!(
        ctx.global_state,
        GlobalState { current_battle_id: 0, authority: AUTHORITY, bump: 253 }
    );
    assert_eq!(ctx.authority, AUTHORITY);
    assert_eq!(ctx.bump, 253);
}

#[test]
fn the_authority_moves_the_pointer() {
    let mut ctx = UpdateCurrentBattle {
        global_state: GlobalState { current_battle_id: 0, authority: AUTHORITY, bump: 253 },
        authority: AUTHORITY,
    };
    assert_eq!(update_current_battle(&mut ctx, 17), Ok(()));
    assert_eq!(
        ctx.global_state,
        GlobalState { current_battle_id: 17, authority: AUTHORITY, bump: 253 }
    );
    assert_eq!(update_current_battle(&mut ctx, u64::MAX), Ok(()));
    assert_eq!(ctx.global_state.current_battle_id, u64::MAX);
    assert_eq!(ctx.authority, AUTHORITY);
}

#[test]
fn only_the_owner_of_the_pointer_is_authorized() {
    let owned = GlobalState { current_battle_id: 4, authority: AUTHORITY, bump: 253 };
    assert!(UpdateCurrentBattle { global_state: owned, authority: AUTHORITY }.is_authorized());
    assert!(!UpdateCurrentBattle { global_state: owned, authority: [4u8; 32] }.is_authorized());
    let mut nearly = AUTHORITY;
    nearly[31] = 0;
    assert!(!UpdateCurrentBattle { global_state: owned, authority: nearly }.is_authorized());
    nearly = AUTHORITY;
    nearly[0] = 0;
    assert!(!UpdateCurrentBattle { global_state: owned, authority: nearly }.is_authorized());
}
