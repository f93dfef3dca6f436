//! The values that describe a wanted connection and a received message.

use vstd::prelude::*;

verus! {

/// The mathematical value of an optional text.
pub open spec fn text_of(text: Option<String>) -> Option<Seq<char>> {
    match text {
        Some(text) => Some(text@),
        None => None,
    }
}

/// One wanted connection. A profile arrives complete and is not changed.
#[derive(Debug, Clone)]
pub struct ConnectionProfile {
    pub id: String,
    pub name: String,
    /// The broker address, as `["mqtt://" | "mqtts://"] host [":" port]`.
    pub url: String,
    pub client_id: Option<String>,
    pub username: Option<String>,
    pub password: Option<String>,
    /// The keep-alive interval in seconds; 60 where it is absent.
    pub keepalive: Option<u64>,
    /// Whether the broker drops the earlier session; true where it is absent.
    pub clean_start: Option<bool>,
}

/// The mathematical value of a [`ConnectionProfile`].
pub struct ProfileView {
    pub id: Seq<char>,
    pub name: Seq<char>,
    pub url: Seq<char>,
    pub client_id: Option<Seq<char>>,
    pub username: Option<Seq<char>>,
    pub password: Option<Seq<char>>,
    pub keepalive: Option<u64>,
    pub clean_start: Option<bool>,
}

impl View for ConnectionProfile {
    type V = ProfileView;

    open spec fn view(&self) -> ProfileView {
        ProfileView {
            id: self.id@,
            name: self.name@,
            url: self.url@,
            client_id: text_of(self.client_id),
            username: text_of(self.username),
            password: text_of(self.password),
            keepalive: self.keepalive,
            clean_start: self.clean_start,
        }
    }
}

/// The three service levels of a delivery.
#[derive(Debug, Clone, Copy, PartialEq, Eq, Structural)]
pub enum QosLevel {
    AtMostOnce,
    AtLeastOnce,
    ExactlyOnce,
}

/// The service level that the number `qos` asks for. Every number other
/// than 1 and 2 asks for the lowest level.
pub open spec fn level_of(qos: u8) -> QosLevel {
    if qos == 1 {
        QosLevel::AtLeastOnce
    } else if qos == 2 {
        QosLevel::ExactlyOnce
    } else {
        QosLevel::AtMostOnce
    }
}

/// The number of a service level: 0, 1 or 2.
pub open spec fn number_of(level: QosLevel) -> u8 {
    match level {
        QosLevel::AtMostOnce => 0,
        QosLevel::AtLeastOnce => 1,
        QosLevel::ExactlyOnce => 2,
    }
}

/// A level has the number that asks for it; a number above 2 is read as 0.
pub proof fn lemma_level_numbers(qos: u8, level: QosLevel)
    ensures
        level_of(number_of(level)) == level,
        number_of(level_of(qos)) == if qos <= 2 {
            qos
        } else {
            0
        },
{
}

impl QosLevel {
    /// The service level that `qos` asks for. No number is refused.
    pub fn from_u8(qos: u8) -> (level: QosLevel)
        ensures
            level == level_of(qos),
    {
        match qos {
            1 => QosLevel::AtLeastOnce,
            2 => QosLevel::ExactlyOnce,
            _ => QosLevel::AtMostOnce,
        }
    }

    /// The number of the level.
    pub fn as_u8(self) -> (qos: u8)
        ensures
            qos == number_of(self),
    {
        match self {
            QosLevel::AtMostOnce => 0,
            QosLevel::AtLeastOnce => 1,
            QosLevel::ExactlyOnce => 2,
        }
    }
}

/// One wanted subscription: a topic filter and the number of a service level.
#[derive(Debug, Clone)]
pub struct SubscriptionSpec {
    pub filter: String,
    pub qos: u8,
}

/// The mathematical value of a [`SubscriptionSpec`].
pub struct SubscriptionView {
    pub filter: Seq<char>,
    pub qos: u8,
}

impl View for SubscriptionSpec {
    type V = SubscriptionView;

    open spec fn view(&self) -> SubscriptionView {
        SubscriptionView { filter: self.filter@, qos: self.qos }
    }
}

impl SubscriptionSpec {
    /// The service level that the subscription asks for.
    pub fn level(&self) -> (level: QosLevel)
        ensures
            level == level_of(self.qos),
    {
        QosLevel::from_u8(self.qos)
    }
}

/// One received publication.
#[derive(Debug, Clone, PartialEq, Eq)]
pub struct MqttMessage {
    pub topic: String,
    pub payload: Vec<u8>,
    pub qos: u8,
    pub retained: bool,
    pub dup: bool,
}

/// The mathematical value of an [`MqttMessage`].
pub struct MessageView {
    pub topic: Seq<char>,
    pub payload: Seq<u8>,
    pub qos: u8,
    pub retained: bool,
    pub dup: bool,
}

impl View for MqttMessage {
    type V = MessageView;

    open spec fn view(&self) -> MessageView {
        MessageView {
            topic: self.topic@,
            payload: self.payload@,
            qos: self.qos,
            retained: self.retained,
            dup: self.dup,
        }
    }
}

/// What the driver of a connect or disconnect reports of the action it
/// was handed.
#[derive(Debug, Clone, PartialEq, Eq)]
pub enum Outcome {
    /// The action was carried out.
    Done,
    /// The action failed; holds the reason.
    Failed(String),
}

/// The mathematical value of an [`Outcome`].
pub enum OutcomeView {
    Done,
    Failed(Seq<char>),
}

impl View for Outcome {
    type V = OutcomeView;

    open spec fn view(&self) -> OutcomeView {
        match self {
            Outcome::Done => OutcomeView::Done,
            Outcome::Failed(reason) => OutcomeView::Failed(reason@),
        }
    }
}

} // verus!
