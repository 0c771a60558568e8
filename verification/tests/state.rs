use timestep_gate::state::{button_system, AppState, Interaction};

#[test]
fn one_click_stops() {
    let mut state = AppState::Go;
    button_system(&vec![Interaction::Clicked], &mut state);
    assert_eq!(state, AppState::Stop);
}

#[test]
fn no_event_leaves_the_state() {
    let mut state = AppState::Go;
    button_system(&Vec::new(), &mut state);
    assert_eq!(state, AppState::Go);
    let mut state = AppState::Stop;
    button_system(&Vec::new(), &mut state);
    assert_eq!(state, AppState::Stop);
}

#[test]
fn events_without_a_click_leave_the_state() {
    let mut state = AppState::Go;
    button_system(
        &vec![Interaction::Hovered, Interaction::Idle, Interaction::Hovered],
        &mut state,
    );
    assert_eq!(state, AppState::Go);
}

#[test]
fn a_click_among_other_events_stops() {
    let mut state = AppState::Go;
    button_system(
        &vec![Interaction::Hovered, Interaction::Clicked, Interaction::Idle],
        &mut state,
    );
    assert_eq!(state, AppState::Stop);
}

#[test]
fn a_click_in_last_place_stops() {
    let mut state = AppState::Go;
    button_system(&vec![Interaction::Idle, Interaction::Clicked], &mut state);
    assert_eq!(state, AppState::Stop);
}

#[test]
fn several_clicks_converge_on_stop() {
    let mut state = AppState::Go;
    button_system(
        &vec![Interaction::Clicked, Interaction::Clicked, Interaction::Clicked],
        &mut state,
    );
    assert_eq!(state, AppState::Stop);
}

#[test]
fn a_click_while_stopped_stays_stopped() {
    let mut state = AppState::Stop;
    button_system(&vec![Interaction::Clicked], &mut state);
    assert_eq!(state, AppState::Stop);
    button_system(&vec![Interaction::Hovered], &mut state);
    assert_eq!(state, AppState::Stop);
}
