use vstd::prelude::*;

verus! {

/// The phases of a game.
#[derive(Clone, Copy, PartialEq, Eq, Structural, Debug)]
pub enum GameState {
    Playing,
    Dead,
    Escaped,
}

/// The phase after a frame. While playing, reaching the escape point with
/// the car keys wins, even on the frame the survivor dies; dying loses.
/// After the game, a restart starts a new one.
pub open spec fn state_after(state: GameState, alive: bool, escaped: bool, restart: bool) -> GameState {
    match state {
        GameState::Playing => if escaped {
            GameState::Escaped
        } else if !alive {
            GameState::Dead
        } else {
            GameState::Playing
        },
        _ => if restart { GameState::Playing } else { state },
    }
}

/// The phase after a frame.
pub fn next_state(state: GameState, alive: bool, escaped: bool, restart: bool) -> (r: GameState)
    ensures
        r == state_after(state, alive, escaped, restart),
        state == GameState::Playing && escaped ==> r == GameState::Escaped,
        state == GameState::Playing && !escaped && !alive ==> r == GameState::Dead,
        state == GameState::Playing && !escaped && alive ==> r == GameState::Playing,
        state != GameState::Playing && restart ==> r == GameState::Playing,
        state != GameState::Playing && !restart ==> r == state,
{
    match state {
        GameState::Playing => {
            let mut next = GameState::Playing;
            if !alive {
                next = GameState::Dead;
            }
            if escaped {
                next = GameState::Escaped;
            }
            next
        },
        _ => if restart { GameState::Playing } else { state },
    }
}

/// The tiles the walkers start on.
pub open spec fn walker_tiles() -> Seq<(i32, i32)> {
    seq![
        (19, 8), (27, 6), (31, 9), (23, 13),
        (7, 18), (25, 18), (14, 20), (3, 24),
        (10, 28), (22, 26), (29, 29), (18, 32),
        (12, 34), (5, 35),
    ]
}

/// The tiles the walkers of a new game start on.
pub fn walker_spawn_tiles() -> (r: Vec<(i32, i32)>)
    ensures
        r@ == walker_tiles(),
{
    let r = vec![
        (19, 8), (27, 6), (31, 9), (23, 13),
        (7, 18), (25, 18), (14, 20), (3, 24),
        (10, 28), (22, 26), (29, 29), (18, 32),
        (12, 34), (5, 35),
    ];
    assert(r@ =~= walker_tiles());
    r
}

} // verus!
