use mqttui::bridge::{EventBridge, Notification, ProtocolEvent, StreamItem};
use mqttui::model::{MqttMessage, QosLevel};

fn publication(topic: &str, payload: &[u8], qos: QosLevel, retain: bool, dup: bool) -> StreamItem {
    StreamItem::Event(ProtocolEvent::Publication {
        topic: topic.to_string(),
        payload: payload.to_vec(),
        qos,
        retain,
        dup,
    })
}

fn feed(bridge: &mut EventBridge, items: Vec<StreamItem>) -> Vec<Notification> {
    let mut told = Vec::new();
    for item in items {
        told.extend(bridge.handle(item));
    }
    told
}

#[test]
fn a_new_bridge_runs() {
    assert!(EventBridge::new().is_running());
}

#[test]
fn an_acknowledged_connection_is_reported() {
    let mut bridge = EventBridge::new();
    let told = bridge.handle(StreamItem::Event(ProtocolEvent::ConnectionAcknowledged));
    assert_eq!(told, Some(Notification::Connected));
    assert!(bridge.is_running());
}

#[test]
fn a_publication_gives_exactly_one_message() {
    let mut bridge = EventBridge::new();
    let told = feed(
        &mut bridge,
        vec![publication("t", &[1, 2, 3], QosLevel::AtLeastOnce, false, false)],
    );
    assert_eq!(
        told,
        vec![Notification::Message(MqttMessage {
            topic: "t".to_string(),
            payload: vec![1, 2, 3],
            qos: 1,
            retained: false,
            dup: false,
        })]
    );
    assert!(bridge.is_running());
}

#[test]
fn a_message_keeps_flags_and_level() {
    let mut bridge = EventBridge::new();
    let told = bridge.handle(publication("a/b", &[], QosLevel::ExactlyOnce, true, true));
    assert_eq!(
        told,
        Some(Notification::Message(MqttMessage {
            topic: "a/b".to_string(),
            payload: vec![],
            qos: 2,
            retained: true,
            dup: true,
        }))
    );
    let told = bridge.handle(publication("c", &[0xff], QosLevel::AtMostOnce, true, false));
    assert_eq!(
        told,
        Some(Notification::Message(MqttMessage {
            topic: "c".to_string(),
            payload: vec![0xff],
            qos: 0,
            retained: true,
            dup: false,
        }))
    );
}

#[test]
fn other_events_are_passed_over() {
    let mut bridge = EventBridge::new();
    let told = feed(
        &mut bridge,
        vec![
            StreamItem::Event(ProtocolEvent::SubscriptionAcknowledged),
            StreamItem::Event(ProtocolEvent::Outgoing),
            StreamItem::Event(ProtocolEvent::Other),
        ],
    );
    assert_eq!(told, vec![]);
    assert!(bridge.is_running());
}

#[test]
fn a_stream_failure_gives_one_error_and_stops_the_bridge() {
    let mut bridge = EventBridge::new();
    let told = bridge.handle(StreamItem::Failure("Network timeout".to_string()));
    assert_eq!(told, Some(Notification::Error("Connection error: Network timeout".to_string())));
    assert!(!bridge.is_running());
}

#[test]
fn a_stopped_bridge_takes_no_notice() {
    let mut bridge = EventBridge::new();
    let told = feed(
        &mut bridge,
        vec![
            StreamItem::Event(ProtocolEvent::ConnectionAcknowledged),
            StreamItem::Failure("I/O: broken pipe".to_string()),
            publication("t", &[1, 2, 3], QosLevel::AtLeastOnce, false, false),
            StreamItem::Event(ProtocolEvent::ConnectionAcknowledged),
            StreamItem::Failure("again".to_string()),
            StreamItem::Event(ProtocolEvent::SubscriptionAcknowledged),
        ],
    );
    assert_eq!(
        told,
        vec![
            Notification::Connected,
            Notification::Error("Connection error: I/O: broken pipe".to_string()),
        ]
    );
    assert!(!bridge.is_running());
}

#[test]
fn notifications_in_the_order_of_the_events() {
    let mut bridge = EventBridge::new();
    let told = feed(
        &mut bridge,
        vec![
            StreamItem::Event(ProtocolEvent::Outgoing),
            StreamItem::Event(ProtocolEvent::ConnectionAcknowledged),
            StreamItem::Event(ProtocolEvent::SubscriptionAcknowledged),
            publication("x", &[1], QosLevel::AtMostOnce, false, false),
            publication("y", &[2], QosLevel::AtLeastOnce, false, true),
        ],
    );
    assert_eq!(told.len(), 3);
    assert_eq!(told[0], Notification::Connected);
    assert_eq!(told[1].channel(), "mqtt://message");
    match &told[2] {
        Notification::Message(message) => {
            assert_eq!(message.topic, "y");
            assert_eq!(message.payload, vec![2]);
            assert_eq!(message.qos, 1);
            assert!(message.dup);
        }
        other => panic!("{:?} is no message", other),
    }
}

#[test]
fn each_notification_has_its_channel() {
    assert_eq!(Notification::Connected.channel(), "mqtt://connected");
    let message = MqttMessage {
        topic: String::new(),
        payload: Vec::new(),
        qos: 0,
        retained: false,
        dup: false,
    };
    assert_eq!(Notification::Message(message).channel(), "mqtt://message");
    assert_eq!(Notification::Error(String::new()).channel(), "mqtt://error");
}

#[test]
fn an_empty_failure_description_is_kept() {
    let mut bridge = EventBridge::new();
    assert_eq!(
        bridge.handle(StreamItem::Failure(String::new())),
        Some(Notification::Error("Connection error: ".to_string()))
    );
}
