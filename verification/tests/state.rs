use tangomike::state::ServiceState;

#[test]
fn flights_become_active_and_inactive() {
    let mut state = ServiceState::default();
    assert!(!state.is_active("A"));
    assert!(state.flight_ids().is_empty());
    state.add_active_flight("A");
    state.add_active_flight("B");
    assert!(state.is_active("A"));
    assert!(state.is_active("B"));
    assert!(!state.is_active("C"));
    state.remove_active_flight("A");
    assert!(!state.is_active("A"));
    assert!(state.is_active("B"));
    assert_eq!(state.flight_ids(), vec!["B".to_string()]);
}

#[test]
fn a_flight_is_listed_once() {
    let mut state = ServiceState::default();
    state.add_active_flight("A");
    state.add_active_flight("A");
    state.add_active_flight("B");
    let mut ids = state.flight_ids();
    ids.sort();
    assert_eq!(ids, vec!["A".to_string(), "B".to_string()]);
    state.remove_active_flight("A");
    assert!(!state.is_active("A"));
}

#[test]
fn removing_an_unknown_flight_changes_nothing() {
    let mut state = ServiceState::default();
    state.add_active_flight("A");
    state.remove_active_flight("Z");
    assert_eq!(state.flight_ids(), vec!["A".to_string()]);
    state.remove_active_flight("A");
    state.remove_active_flight("A");
    assert!(state.flight_ids().is_empty());
}
