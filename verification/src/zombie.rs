use vstd::prelude::*;

verus! {

/// What a zombie is doing.
#[derive(Clone, Copy, PartialEq, Eq, Structural, Debug)]
pub enum ZombieState {
    Wandering,
    Chasing,
    Attacking,
}

/// The state of a zombie: attacking within attack range of the survivor,
/// chasing within sight range, wandering otherwise.
pub open spec fn state_for(in_attack_range: bool, in_sight: bool) -> ZombieState {
    if in_attack_range {
        ZombieState::Attacking
    } else if in_sight {
        ZombieState::Chasing
    } else {
        ZombieState::Wandering
    }
}

impl ZombieState {
    /// The state of a zombie from how close the survivor is.
    pub fn from_range(in_attack_range: bool, in_sight: bool) -> (r: ZombieState)
        ensures
            r == state_for(in_attack_range, in_sight),
            in_attack_range ==> r == ZombieState::Attacking,
            !in_attack_range && in_sight ==> r == ZombieState::Chasing,
            !in_attack_range && !in_sight ==> r == ZombieState::Wandering,
    {
        if in_attack_range {
            ZombieState::Attacking
        } else if in_sight {
            ZombieState::Chasing
        } else {
            ZombieState::Wandering
        }
    }
}

} // verus!
