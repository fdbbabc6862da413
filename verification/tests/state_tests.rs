use tilemove::events::GameEvent;
use tilemove::states::RuntimeSystemState;

#[test]
fn systems_start_paused() {
    assert_eq!(RuntimeSystemState::default(), RuntimeSystemState::Paused);
    assert_ne!(RuntimeSystemState::Running, RuntimeSystemState::Paused);
}

#[test]
fn game_events_compare_by_kind() {
    assert_eq!(GameEvent::Battle, GameEvent::Battle.clone());
}
