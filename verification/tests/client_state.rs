use mqttui::settings::ConnectionConfig;
use mqttui::disconnect::{disconnect, DisconnectAction};
use mqttui::state::MqttClientState;
use std::sync::Arc;
use tokio::sync::Mutex;

#[test]
fn a_new_slot_is_empty() {
    let state: MqttClientState<u32> = MqttClientState::new();
    assert!(!state.is_connected());
}

#[test]
fn a_stored_handle_is_the_one_held() {
    let mut state = MqttClientState::new();
    assert_eq!(state.replace(7u32), None);
    assert!(state.is_connected());
    assert_eq!(state.take(), Some(7));
    assert!(!state.is_connected());
    assert_eq!(state.take(), None);
}

#[test]
fn a_second_connect_displaces_the_first_handle() {
    let mut state = MqttClientState::new();
    assert_eq!(state.replace("first"), None);
    assert_eq!(state.replace("second"), Some("first"));
    assert!(state.is_connected());
    assert_eq!(state.take(), Some("second"));
    assert_eq!(state.take(), None);
}

#[test]
fn taking_from_an_empty_slot_leaves_it_empty() {
    let mut state: MqttClientState<u8> = MqttClientState::new();
    assert_eq!(state.take(), None);
    assert!(!state.is_connected());
}

#[test]
fn every_handle_comes_back_exactly_once() {
    // Connects and disconnects in an arbitrary order: what went in is what
    // came out plus what is still held.
    let mut state = MqttClientState::new();
    let mut handed_out = Vec::new();
    let mut put_in = Vec::new();
    let script = [1, 0, 2, 3, 0, 0, 4, 5, 6, 0, 7];
    for step in script {
        let out = if step == 0 {
            state.take()
        } else {
            put_in.push(step);
            state.replace(step)
        };
        handed_out.extend(out);
        assert_eq!(state.is_connected(), step != 0);
    }
    handed_out.extend(state.take());
    assert_eq!(handed_out, put_in);
}

#[test]
fn the_slot_holds_a_connection_handle() {
    let config = ConnectionConfig {
        host: "localhost".to_string(),
        port: 1883,
        secure: false,
        client_id: "slot-test".to_string(),
        keep_alive_secs: 60,
        clean_session: true,
        credentials: None,
    };
    let (client, _stream) = config.open().expect("the settings are accepted");
    let mut state = MqttClientState::new();
    assert!(state.replace(client.clone()).is_none());
    assert!(state.is_connected());
    assert!(state.replace(client).is_some());
    match disconnect(&mut state) {
        DisconnectAction::Close(_) => {}
        DisconnectAction::Finish(_) => panic!("the slot held a handle"),
    }
    assert!(!state.is_connected());
}

fn settings(client_id: &str, clean_session: bool) -> ConnectionConfig {
    ConnectionConfig {
        host: "localhost".to_string(),
        port: 1883,
        secure: false,
        client_id: client_id.to_string(),
        keep_alive_secs: 60,
        clean_session,
        credentials: None,
    }
}

#[test]
fn opening_puts_the_handle_into_the_slot() {
    let mut state = MqttClientState::new();
    let opened = settings("first", true).open_into(&mut state).ok().expect("accepted");
    assert!(opened.displaced.is_none());
    assert!(state.is_connected());
    assert_eq!(opened.stream.mqtt_options.client_id(), "first");
}

#[test]
fn the_handle_in_the_slot_is_a_handle_of_the_new_connection() {
    let mut state = MqttClientState::new();
    let opened = settings("first", true).open_into(&mut state).ok().expect("accepted");
    // The queue of the connection holds ten requests: what is sent on the
    // handle in the slot fills the queue of the handle that was handed out.
    let held = state.take().expect("the slot holds a handle");
    for _ in 0..6 {
        held.try_subscribe("a", rumqttc::QoS::AtMostOnce).expect("the queue has room");
    }
    for _ in 0..4 {
        opened.client.try_subscribe("b", rumqttc::QoS::AtMostOnce).expect("the queue has room");
    }
    assert!(held.try_subscribe("a", rumqttc::QoS::AtMostOnce).is_err());
    assert!(opened.client.try_subscribe("b", rumqttc::QoS::AtMostOnce).is_err());
}

#[test]
fn opening_again_hands_out_the_earlier_handle() {
    let mut state = MqttClientState::new();
    let first = settings("first", true).open_into(&mut state).ok().expect("accepted");
    let second = settings("second", true).open_into(&mut state).ok().expect("accepted");
    let displaced = second.displaced.expect("the slot held the first handle");
    // The displaced handle is a handle of the first connection.
    for _ in 0..10 {
        displaced.try_subscribe("a", rumqttc::QoS::AtMostOnce).expect("the queue has room");
    }
    assert!(first.client.try_subscribe("a", rumqttc::QoS::AtMostOnce).is_err());
    assert!(second.client.try_subscribe("a", rumqttc::QoS::AtMostOnce).is_ok());
    assert!(state.is_connected());
}

#[test]
fn refused_settings_leave_the_slot_as_it_was() {
    let mut state = MqttClientState::new();
    assert!(settings("", false).open_into(&mut state).is_err());
    assert!(!state.is_connected());
    let first = settings("first", true).open_into(&mut state).ok().expect("accepted");
    assert!(settings("", false).open_into(&mut state).is_err());
    let held = state.take().expect("the slot still holds the first handle");
    for _ in 0..10 {
        held.try_subscribe("a", rumqttc::QoS::AtMostOnce).expect("the queue has room");
    }
    assert!(first.client.try_subscribe("a", rumqttc::QoS::AtMostOnce).is_err());
}

#[test]
fn interleaved_connects_and_disconnects_lose_no_handle() {
    let runtime = tokio::runtime::Builder::new_current_thread().build().expect("a runtime");
    runtime.block_on(async {
        let state = Arc::new(Mutex::new(MqttClientState::<u32>::new()));
        let mut tasks = Vec::new();
        for handle in 1..=40u32 {
            let slot = state.clone();
            tasks.push(tokio::spawn(async move {
                for _ in 0..(handle % 5) {
                    tokio::task::yield_now().await;
                }
                let displaced = slot.lock().await.replace(handle);
                tokio::task::yield_now().await;
                displaced
            }));
            let slot = state.clone();
            tasks.push(tokio::spawn(async move {
                for _ in 0..(handle % 3) {
                    tokio::task::yield_now().await;
                }
                let taken = slot.lock().await.take();
                tokio::task::yield_now().await;
                taken
            }));
        }
        let mut handed_out = Vec::new();
        for task in tasks {
            handed_out.extend(task.await.expect("the task ran to its end"));
        }
        handed_out.extend(state.lock().await.take());
        handed_out.sort();
        assert_eq!(handed_out, (1..=40).collect::<Vec<u32>>());
        assert!(!state.lock().await.is_connected());
    });
}
