//! What one user holds on one creature of one battle.

use vstd::prelude::*;

verus! {

/// A position as it is stored. Its `amount` is the weight of the user's claim
/// on the pool should the creature win.
#[derive(Clone, Copy, Debug, PartialEq, Eq)]
pub struct UserPosition {
    pub user: [u8; 32],
    pub battle_id: u64,
    pub creature_index: u8,
    pub amount: u64,
    pub claimed: bool,
    pub bump: u8,
}

/// The mathematical value of a [`UserPosition`].
pub struct PositionView {
    pub user: Seq<u8>,
    pub battle_id: u64,
    pub creature_index: u8,
    pub amount: u64,
    pub claimed: bool,
    pub bump: u8,
}

impl View for UserPosition {
    type V = PositionView;

    open spec fn view(&self) -> PositionView {
        PositionView {
            user: self.user@,
            battle_id: self.battle_id,
            creature_index: self.creature_index,
            amount: self.amount,
            claimed: self.claimed,
            bump: self.bump,
        }
    }
}

/// The key that stands for "nobody": thirty-two zero bytes.
pub open spec fn no_key() -> Seq<u8> {
    Seq::new(32, |i: int| 0u8)
}

impl PositionView {
    /// A position that no user has taken yet.
    pub open spec fn vacant(self) -> bool {
        self.user == no_key()
    }
}

/// Whether `key` is the key that stands for nobody.
pub fn is_no_key(key: &[u8; 32]) -> (none: bool)
    ensures
        none == (key@ == no_key()),
{
    let mut i: usize = 0;
    while i < 32
        invariant
            0 <= i <= 32,
            forall|j: int| 0 <= j < i ==> key@[j] == 0,
        decreases 32 - i,
    {
        if key[i] != 0 {
            assert(no_key()[i as int] == 0);
            return false;
        }
        i += 1;
    }
    assert(key@ =~= no_key());
    true
}

impl UserPosition {
    /// Whether no user has taken this position yet.
    pub fn is_vacant(&self) -> (vacant: bool)
        ensures
            vacant == self@.vacant(),
    {
        is_no_key(&self.user)
    }
}

} // verus!
