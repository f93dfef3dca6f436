use mqttui::disconnect::{closed, disconnect, DisconnectAction, DisconnectError};
use mqttui::model::Outcome;
use mqttui::state::MqttClientState;

#[test]
fn disconnect_without_connect_succeeds_and_leaves_the_slot_empty() {
    let mut state: MqttClientState<u32> = MqttClientState::new();
    match disconnect(&mut state) {
        DisconnectAction::Finish(result) => assert_eq!(result, Ok(())),
        DisconnectAction::Close(_) => panic!("there is nothing to close"),
    }
    assert!(!state.is_connected());
}

#[test]
fn disconnect_hands_out_the_handle_and_empties_the_slot() {
    let mut state = MqttClientState::new();
    state.replace(41u32);
    match disconnect(&mut state) {
        DisconnectAction::Close(handle) => assert_eq!(handle, 41),
        DisconnectAction::Finish(_) => panic!("the slot held a handle"),
    }
    assert!(!state.is_connected());
}

#[test]
fn a_second_disconnect_finds_nothing() {
    let mut state = MqttClientState::new();
    state.replace('h');
    assert!(matches!(disconnect(&mut state), DisconnectAction::Close('h')));
    assert!(matches!(disconnect(&mut state), DisconnectAction::Finish(Ok(()))));
}

#[test]
fn a_closed_connection_is_a_success() {
    assert_eq!(closed(Outcome::Done), Ok(()));
}

#[test]
fn a_failed_close_is_reported_with_its_reason() {
    let result = closed(Outcome::Failed("Failed to send mqtt requests to eventloop".to_string()));
    assert_eq!(
        result,
        Err(DisconnectError::CloseFailed("Failed to send mqtt requests to eventloop".to_string()))
    );
    assert_eq!(
        result.unwrap_err().message(),
        "Disconnect failed: Failed to send mqtt requests to eventloop"
    );
}

#[test]
fn the_slot_is_empty_even_where_the_close_fails() {
    let mut state = MqttClientState::new();
    state.replace(1u8);
    let action = disconnect(&mut state);
    assert!(matches!(action, DisconnectAction::Close(1)));
    assert!(closed(Outcome::Failed("gone".to_string())).is_err());
    assert!(!state.is_connected());
}
