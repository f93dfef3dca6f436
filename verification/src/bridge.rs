//! The event bridge: from the events of the protocol engine to the
//! notifications of the consumer.
//!
//! A bridge belongs to one connection. It is fed the items of that
//! connection's event stream one by one and says for each what to tell the
//! consumer. The first failure of the stream stops it for good.

use crate::model::{number_of, MessageView, MqttMessage, QosLevel};
use vstd::prelude::*;

verus! {

/// One event of the protocol engine, as far as the bridge tells events apart.
#[derive(Debug, Clone, PartialEq, Eq)]
pub enum ProtocolEvent {
    /// The broker has accepted the connection.
    ConnectionAcknowledged,
    /// The broker has delivered a publication.
    Publication { topic: String, payload: Vec<u8>, qos: QosLevel, retain: bool, dup: bool },
    /// The broker has confirmed a subscription.
    SubscriptionAcknowledged,
    /// The engine has sent something out.
    Outgoing,
    /// Any other incoming event.
    Other,
}

/// The mathematical value of a [`ProtocolEvent`].
pub enum EventView {
    ConnectionAcknowledged,
    Publication { topic: Seq<char>, payload: Seq<u8>, qos: QosLevel, retain: bool, dup: bool },
    SubscriptionAcknowledged,
    Outgoing,
    Other,
}

impl View for ProtocolEvent {
    type V = EventView;

    open spec fn view(&self) -> EventView {
        match self {
            ProtocolEvent::ConnectionAcknowledged => EventView::ConnectionAcknowledged,
            ProtocolEvent::Publication { topic, payload, qos, retain, dup } => EventView::Publication {
                topic: topic@,
                payload: payload@,
                qos: *qos,
                retain: *retain,
                dup: *dup,
            },
            ProtocolEvent::SubscriptionAcknowledged => EventView::SubscriptionAcknowledged,
            ProtocolEvent::Outgoing => EventView::Outgoing,
            ProtocolEvent::Other => EventView::Other,
        }
    }
}

/// One item of a connection's event stream: an event, or the failure of the
/// stream with its description.
#[derive(Debug, Clone, PartialEq, Eq)]
pub enum StreamItem {
    Event(ProtocolEvent),
    Failure(String),
}

/// The mathematical value of a [`StreamItem`].
pub enum ItemView {
    Event(EventView),
    Failure(Seq<char>),
}

impl View for StreamItem {
    type V = ItemView;

    open spec fn view(&self) -> ItemView {
        match self {
            StreamItem::Event(event) => ItemView::Event(event@),
            StreamItem::Failure(description) => ItemView::Failure(description@),
        }
    }
}

/// What the consumer is told.
#[derive(Debug, Clone, PartialEq, Eq)]
pub enum Notification {
    /// The connection stands. Carries nothing.
    Connected,
    /// A publication has arrived.
    Message(MqttMessage),
    /// The connection has failed; carries a description for a reader.
    Error(String),
}

/// The mathematical value of a [`Notification`].
pub enum NotificationView {
    Connected,
    Message(MessageView),
    Error(Seq<char>),
}

impl View for Notification {
    type V = NotificationView;

    open spec fn view(&self) -> NotificationView {
        match self {
            Notification::Connected => NotificationView::Connected,
            Notification::Message(message) => NotificationView::Message(message@),
            Notification::Error(description) => NotificationView::Error(description@),
        }
    }
}

/// The mathematical value of a notification that may be absent.
pub open spec fn notified(notification: Option<Notification>) -> Option<NotificationView> {
    match notification {
        Some(notification) => Some(notification@),
        None => None,
    }
}

/// The name under which a notification reaches the consumer.
pub open spec fn channel_of(notification: NotificationView) -> Seq<char> {
    match notification {
        NotificationView::Connected => "mqtt://connected"@,
        NotificationView::Message(_) => "mqtt://message"@,
        NotificationView::Error(_) => "mqtt://error"@,
    }
}

/// The text that tells the consumer of a stream failure described as
/// `description`.
pub open spec fn failure_text(description: Seq<char>) -> Seq<char> {
    "Connection error: "@ + description
}

/// How a bridge reacts to one item: whether it runs afterwards, and what it
/// tells the consumer.
///
/// A running bridge reports an acknowledged connection and each
/// publication, passes over every other event, and reports a failure of the
/// stream and stops. A stopped bridge takes no notice of anything.
pub open spec fn react(running: bool, item: ItemView) -> (bool, Option<NotificationView>) {
    if !running {
        (false, None)
    } else {
        match item {
            ItemView::Event(EventView::ConnectionAcknowledged) => (
                true,
                Some(NotificationView::Connected),
            ),
            ItemView::Event(EventView::Publication { topic, payload, qos, retain, dup }) => (
                true,
                Some(
                    NotificationView::Message(
                        MessageView { topic, payload, qos: number_of(qos), retained: retain, dup },
                    ),
                ),
            ),
            ItemView::Event(_) => (true, None),
            ItemView::Failure(description) => (
                false,
                Some(NotificationView::Error(failure_text(description))),
            ),
        }
    }
}

/// Whether a bridge runs after it was fed `items` in order.
pub open spec fn running_after(running: bool, items: Seq<ItemView>) -> bool
    decreases items.len(),
{
    if items.len() == 0 {
        running
    } else {
        running_after(react(running, items.first()).0, items.drop_first())
    }
}

/// The notifications of a bridge that is fed `items` in order.
pub open spec fn emitted(running: bool, items: Seq<ItemView>) -> Seq<NotificationView>
    decreases items.len(),
{
    if items.len() == 0 {
        Seq::empty()
    } else {
        let (next, notification) = react(running, items.first());
        let rest = emitted(next, items.drop_first());
        match notification {
            Some(notification) => seq![notification] + rest,
            None => rest,
        }
    }
}

/// Whether every item of `items` is an event.
pub open spec fn all_events(items: Seq<ItemView>) -> bool {
    forall|i: int| 0 <= i < items.len() ==> #[trigger] items[i] is Event
}

/// A stopped bridge stays stopped and tells the consumer nothing.
pub proof fn lemma_stopped_is_silent(items: Seq<ItemView>)
    ensures
        emitted(false, items) == Seq::<NotificationView>::empty(),
        !running_after(false, items),
    decreases items.len(),
{
    if items.len() > 0 {
        lemma_stopped_is_silent(items.drop_first());
    }
}

/// Feeding a bridge two runs of items one after the other is feeding it
/// the first, and then the second in the state that the first left.
pub proof fn lemma_emitted_in_parts(running: bool, first: Seq<ItemView>, second: Seq<ItemView>)
    ensures
        emitted(running, first + second) == emitted(running, first) + emitted(
            running_after(running, first),
            second,
        ),
        running_after(running, first + second) == running_after(
            running_after(running, first),
            second,
        ),
    decreases first.len(),
{
    if first.len() == 0 {
        assert(first + second =~= second);
        assert(emitted(running, first) + emitted(running, second) =~= emitted(running, second));
    } else {
        let whole = first + second;
        assert(whole.first() == first.first());
        assert(whole.drop_first() =~= first.drop_first() + second);
        let next = react(running, first.first()).0;
        lemma_emitted_in_parts(next, first.drop_first(), second);
        assert(emitted(running, whole) =~= emitted(running, first) + emitted(
            running_after(running, first),
            second,
        ));
    }
}

/// Events alone do not stop a bridge, and none of them makes it report an
/// error.
pub proof fn lemma_events_keep_running(items: Seq<ItemView>)
    requires
        all_events(items),
    ensures
        running_after(true, items),
        forall|i: int|
            0 <= i < emitted(true, items).len() ==> !(#[trigger] emitted(true, items)[i] is Error),
    decreases items.len(),
{
    if items.len() > 0 {
        let rest = items.drop_first();
        assert(items[0] is Event);
        assert forall|i: int| 0 <= i < rest.len() implies #[trigger] rest[i] is Event by {
            assert(rest[i] == items[i + 1]);
        }
        lemma_events_keep_running(rest);
    }
}

/// A publication that reaches a running bridge gives one message with the
/// publication's own topic, payload, level number and flags, and nothing
/// else.
pub proof fn lemma_publication_gives_one_message(
    topic: Seq<char>,
    payload: Seq<u8>,
    qos: QosLevel,
    retain: bool,
    dup: bool,
)
    ensures
        emitted(true, seq![ItemView::Event(EventView::Publication { topic, payload, qos, retain, dup })])
            == seq![
            NotificationView::Message(
                MessageView { topic, payload, qos: number_of(qos), retained: retain, dup },
            ),
        ],
{
    let items = seq![ItemView::Event(EventView::Publication { topic, payload, qos, retain, dup })];
    assert(items.drop_first() =~= Seq::<ItemView>::empty());
    assert(emitted(true, items.drop_first()) == Seq::<NotificationView>::empty());
    assert(emitted(true, items) =~= seq![
        NotificationView::Message(
            MessageView { topic, payload, qos: number_of(qos), retained: retain, dup },
        ),
    ]);
}

/// The failure of the stream gives exactly one error notification, and the
/// bridge takes no notice of what follows: a running bridge that is fed the
/// failure and then whatever comes `after` tells the consumer of the error
/// and nothing more, and has stopped.
pub proof fn lemma_failure_is_final(description: Seq<char>, after: Seq<ItemView>)
    ensures
        emitted(true, seq![ItemView::Failure(description)] + after) == seq![
            NotificationView::Error(failure_text(description)),
        ],
        !running_after(true, seq![ItemView::Failure(description)] + after),
{
    let failure = seq![ItemView::Failure(description)];
    lemma_emitted_in_parts(true, failure, after);
    assert(failure.drop_first() =~= Seq::<ItemView>::empty());
    assert(emitted(false, failure.drop_first()) == Seq::<NotificationView>::empty());
    assert(emitted(true, failure) =~= seq![NotificationView::Error(failure_text(description))]);
    assert(!running_after(false, failure.drop_first()));
    assert(!running_after(true, failure));
    lemma_stopped_is_silent(after);
    assert(emitted(true, failure + after) =~= seq![
        NotificationView::Error(failure_text(description)),
    ]);
}

/// How many of `notifications` are errors.
pub open spec fn errors_in(notifications: Seq<NotificationView>) -> nat
    decreases notifications.len(),
{
    if notifications.len() == 0 {
        0
    } else {
        errors_in(notifications.drop_first()) + if notifications.first() is Error {
            1nat
        } else {
            0nat
        }
    }
}

/// Whatever a bridge is fed, it tells the consumer of an error once at
/// most: once if it runs and is fed a failure, else never.
pub proof fn lemma_one_error_at_most(running: bool, items: Seq<ItemView>)
    ensures
        errors_in(emitted(running, items)) == if running && !all_events(items) {
            1nat
        } else {
            0nat
        },
    decreases items.len(),
{
    if !running {
        lemma_stopped_is_silent(items);
    } else if items.len() > 0 {
        let rest = items.drop_first();
        let (next, notification) = react(running, items.first());
        lemma_one_error_at_most(next, rest);
        match notification {
            Some(told) => {
                assert((seq![told] + emitted(next, rest)).drop_first() =~= emitted(next, rest));
            },
            None => {},
        }
        if items.first() is Event {
            if all_events(rest) {
                assert forall|i: int| 0 <= i < items.len() implies #[trigger] items[i] is Event by {
                    if i > 0 {
                        assert(items[i] == rest[i - 1]);
                    }
                }
            } else {
                let i = choose|i: int| 0 <= i < rest.len() && !(#[trigger] rest[i] is Event);
                assert(items[i + 1] == rest[i]);
            }
        } else {
            lemma_stopped_is_silent(rest);
            assert(!(items[0] is Event));
        }
    }
}

impl Notification {
    /// The name under which the notification reaches the consumer.
    pub fn channel(&self) -> (name: &'static str)
        ensures
            name@ == channel_of(self@),
    {
        match self {
            Notification::Connected => "mqtt://connected",
            Notification::Message(_) => "mqtt://message",
            Notification::Error(_) => "mqtt://error",
        }
    }
}

/// The bridge of one connection.
#[derive(Debug)]
pub struct EventBridge {
    running: bool,
}

impl View for EventBridge {
    type V = bool;

    /// Whether the bridge runs.
    closed spec fn view(&self) -> bool {
        self.running
    }
}

impl EventBridge {
    /// The bridge of a connection that has just been opened. It runs.
    pub fn new() -> (bridge: Self)
        ensures
            bridge@,
    {
        EventBridge { running: true }
    }

    /// Whether the bridge runs. A bridge that has stopped is to be fed no more.
    pub fn is_running(&self) -> (running: bool)
        ensures
            running == self@,
    {
        self.running
    }

    /// Feeds the bridge the next item of the stream, and returns what the
    /// consumer is to be told of it, if anything.
    pub fn handle(&mut self, item: StreamItem) -> (notification: Option<Notification>)
        ensures
            final(self)@ == react(old(self)@, item@).0,
            notified(notification) == react(old(self)@, item@).1,
    {
        if !self.running {
            return None;
        }
        match item {
            StreamItem::Event(ProtocolEvent::ConnectionAcknowledged) => Some(Notification::Connected),
            StreamItem::Event(ProtocolEvent::Publication { topic, payload, qos, retain, dup }) => {
                let message = MqttMessage { topic, payload, qos: qos.as_u8(), retained: retain, dup };
                Some(Notification::Message(message))
            },
            StreamItem::Event(_) => None,
            StreamItem::Failure(description) => {
                self.running = false;
                let mut text = "Connection error: ".to_owned();
                text.append(description.as_str());
                Some(Notification::Error(text))
            },
        }
    }
}

} // verus!
