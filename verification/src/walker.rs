use vstd::prelude::*;

verus! {

/// What a walker is doing.
#[derive(Clone, Copy, PartialEq, Eq, Structural, Debug)]
pub enum WalkerMode {
    Wandering,
    Investigating,
    Chasing,
}

/// What a walker does next, and why.
#[derive(Clone, Copy, PartialEq, Eq, Structural, Debug)]
pub enum WalkerStep {
    /// Keeps chasing the survivor it sees.
    Chase,
    /// Catches sight of the survivor: chases it and is alerted.
    Spot,
    /// Loses sight of the survivor: investigates where it was last seen,
    /// with a patience of six seconds.
    LoseSight,
    /// Goes on investigating, its patience running down.
    KeepInvestigating,
    /// Runs out of patience, or reaches the spot: wanders again.
    GiveUp,
    /// Hears a noise: investigates it, with a patience of eight seconds.
    Hear,
    /// Goes on wandering.
    Wander,
}

/// The step a walker in mode `mode` takes: whether it sees the survivor
/// decides first; an investigating walker then gives up when `gave_up`,
/// a wandering one investigates when it `heard` a noise.
pub open spec fn step_for(mode: WalkerMode, can_see: bool, gave_up: bool, heard: bool) -> WalkerStep {
    match mode {
        WalkerMode::Chasing => if can_see { WalkerStep::Chase } else { WalkerStep::LoseSight },
        WalkerMode::Investigating => if can_see {
            WalkerStep::Spot
        } else if gave_up {
            WalkerStep::GiveUp
        } else {
            WalkerStep::KeepInvestigating
        },
        WalkerMode::Wandering => if can_see {
            WalkerStep::Spot
        } else if heard {
            WalkerStep::Hear
        } else {
            WalkerStep::Wander
        },
    }
}

/// The mode a step leads to.
pub open spec fn mode_after(step: WalkerStep) -> WalkerMode {
    match step {
        WalkerStep::Chase | WalkerStep::Spot => WalkerMode::Chasing,
        WalkerStep::LoseSight | WalkerStep::KeepInvestigating | WalkerStep::Hear => WalkerMode::Investigating,
        WalkerStep::GiveUp | WalkerStep::Wander => WalkerMode::Wandering,
    }
}

impl WalkerStep {
    /// The mode the step leads to.
    pub fn mode(self) -> (r: WalkerMode)
        ensures
            r == mode_after(self),
    {
        match self {
            WalkerStep::Chase | WalkerStep::Spot => WalkerMode::Chasing,
            WalkerStep::LoseSight | WalkerStep::KeepInvestigating | WalkerStep::Hear => WalkerMode::Investigating,
            WalkerStep::GiveUp | WalkerStep::Wander => WalkerMode::Wandering,
        }
    }

    /// Whether the step alerts the walker: only catching sight does.
    pub fn alerts(self) -> (r: bool)
        ensures
            r == (self == WalkerStep::Spot),
    {
        matches!(self, WalkerStep::Spot)
    }
}

/// Decides a walker's next step from what it perceives.
pub fn next_step(mode: WalkerMode, can_see: bool, gave_up: bool, heard: bool) -> (r: WalkerStep)
    ensures
        r == step_for(mode, can_see, gave_up, heard),
        mode == WalkerMode::Chasing && can_see ==> r == WalkerStep::Chase,
        mode != WalkerMode::Chasing && can_see ==> r == WalkerStep::Spot,
        mode == WalkerMode::Chasing && !can_see ==> r == WalkerStep::LoseSight,
        mode == WalkerMode::Investigating && !can_see ==> r == (if gave_up {
            WalkerStep::GiveUp
        } else {
            WalkerStep::KeepInvestigating
        }),
        mode == WalkerMode::Wandering && !can_see ==> r == (if heard {
            WalkerStep::Hear
        } else {
            WalkerStep::Wander
        }),
{
    match mode {
        WalkerMode::Chasing => if can_see { WalkerStep::Chase } else { WalkerStep::LoseSight },
        WalkerMode::Investigating => if can_see {
            WalkerStep::Spot
        } else if gave_up {
            WalkerStep::GiveUp
        } else {
            WalkerStep::KeepInvestigating
        },
        WalkerMode::Wandering => if can_see {
            WalkerStep::Spot
        } else if heard {
            WalkerStep::Hear
        } else {
            WalkerStep::Wander
        },
    }
}

} // verus!
