use skogen::game::{next_state, walker_spawn_tiles, GameState};
use skogen::motion::{slide, Slide};
use skogen::walker::{next_step, WalkerMode, WalkerStep};
use skogen::zombie::ZombieState;

#[test]
fn walker_decisions() {
    assert_eq!(next_step(WalkerMode::Chasing, true, false, true), WalkerStep::Chase);
    assert_eq!(next_step(WalkerMode::Chasing, false, false, true), WalkerStep::LoseSight);
    assert_eq!(next_step(WalkerMode::Investigating, true, true, false), WalkerStep::Spot);
    assert_eq!(next_step(WalkerMode::Investigating, false, true, false), WalkerStep::GiveUp);
    assert_eq!(next_step(WalkerMode::Investigating, false, false, true), WalkerStep::KeepInvestigating);
    assert_eq!(next_step(WalkerMode::Wandering, true, false, true), WalkerStep::Spot);
    assert_eq!(next_step(WalkerMode::Wandering, false, false, true), WalkerStep::Hear);
    assert_eq!(next_step(WalkerMode::Wandering, false, true, false), WalkerStep::Wander);
    assert!(WalkerStep::Spot.alerts());
    assert!(!WalkerStep::Chase.alerts());
    assert_eq!(WalkerStep::LoseSight.mode(), WalkerMode::Investigating);
    assert_eq!(WalkerStep::GiveUp.mode(), WalkerMode::Wandering);
    assert_eq!(WalkerStep::Spot.mode(), WalkerMode::Chasing);
}

#[test]
fn zombie_states() {
    assert_eq!(ZombieState::from_range(true, true), ZombieState::Attacking);
    assert_eq!(ZombieState::from_range(false, true), ZombieState::Chasing);
    assert_eq!(ZombieState::from_range(false, false), ZombieState::Wandering);
}

#[test]
fn sliding_along_walls() {
    assert_eq!(slide(true, false, false), Slide::Full);
    assert_eq!(slide(false, true, true), Slide::AlongX);
    assert_eq!(slide(false, false, true), Slide::AlongY);
    assert_eq!(slide(false, false, false), Slide::Blocked);
}

#[test]
fn game_phases() {
    assert_eq!(next_state(GameState::Playing, true, false, false), GameState::Playing);
    assert_eq!(next_state(GameState::Playing, false, false, false), GameState::Dead);
    assert_eq!(next_state(GameState::Playing, true, true, false), GameState::Escaped);
    // Escaping on the frame of death still wins.
    assert_eq!(next_state(GameState::Playing, false, true, false), GameState::Escaped);
    assert_eq!(next_state(GameState::Dead, false, false, false), GameState::Dead);
    assert_eq!(next_state(GameState::Dead, false, false, true), GameState::Playing);
    assert_eq!(next_state(GameState::Escaped, true, true, true), GameState::Playing);
}

#[test]
fn walker_spawns() {
    let t = walker_spawn_tiles();
    assert_eq!(t.len(), 14);
    assert_eq!(t[0], (19, 8));
    assert_eq!(t[13], (5, 35));
}
