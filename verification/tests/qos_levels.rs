use mqttui::model::{QosLevel, SubscriptionSpec};

#[test]
fn each_level_has_its_number() {
    assert_eq!(QosLevel::from_u8(0), QosLevel::AtMostOnce);
    assert_eq!(QosLevel::from_u8(1), QosLevel::AtLeastOnce);
    assert_eq!(QosLevel::from_u8(2), QosLevel::ExactlyOnce);
    assert_eq!(QosLevel::AtMostOnce.as_u8(), 0);
    assert_eq!(QosLevel::AtLeastOnce.as_u8(), 1);
    assert_eq!(QosLevel::ExactlyOnce.as_u8(), 2);
}

#[test]
fn every_other_number_is_the_lowest_level() {
    for qos in 3..=255u8 {
        assert_eq!(QosLevel::from_u8(qos), QosLevel::AtMostOnce);
        assert_eq!(QosLevel::from_u8(qos).as_u8(), 0);
    }
}

#[test]
fn numbers_up_to_two_come_back() {
    for qos in 0..=2u8 {
        assert_eq!(QosLevel::from_u8(qos).as_u8(), qos);
    }
}

#[test]
fn a_subscription_has_the_level_of_its_number() {
    let wanted = SubscriptionSpec { filter: "a/#".to_string(), qos: 9 };
    assert_eq!(wanted.level(), QosLevel::AtMostOnce);
    let wanted = SubscriptionSpec { filter: "a/#".to_string(), qos: 2 };
    assert_eq!(wanted.level(), QosLevel::ExactlyOnce);
}
