use vstd::prelude::*;
use crate::errors::OrderServiceError;
use crate::json::event_json;
use crate::orders::OrderEvent;

verus! {

/// Narrow capability over the event bus: one synchronous send per call. An
/// error is the broker's cause, as text.
///
/// Implementations live outside the verified core — a real connection in the
/// surrounding binary, doubles in tests — so the method carries no contract;
/// everything the library guarantees is proved in the [`Publisher`] handle
/// that wraps an implementation.
pub trait KafkaProducer: Sized {
    /// Sends one message body to the named topic.
    fn send(&mut self, topic: &str, body: String) -> Result<(), String>;
}

/// A verified handle on a bus producer, keeping two ghost histories.
///
/// `attempts()` holds every `(topic, body)` pair handed to the broker
/// through this handle and `sent()` those it accepted, both oldest first:
/// each `send` call appends exactly its own message to the attempts, and to
/// the accepted messages exactly when the broker answered success — so a
/// message is attempted exactly once per call, never retried. Every broker
/// failure surfaces as `EventBrokerError` carrying the cause.
pub struct Publisher<P: KafkaProducer> {
    pub inner: P,
    sent_log: Ghost<Seq<(Seq<char>, Seq<char>)>>,
    attempt_log: Ghost<Seq<(Seq<char>, Seq<char>)>>,
}

impl<P: KafkaProducer> Publisher<P> {
    /// The messages the broker has accepted through this handle, oldest
    /// first.
    pub closed spec fn sent(&self) -> Seq<(Seq<char>, Seq<char>)> {
        self.sent_log@
    }

    /// Every message handed to the broker through this handle, oldest
    /// first, accepted or not.
    pub closed spec fn attempts(&self) -> Seq<(Seq<char>, Seq<char>)> {
        self.attempt_log@
    }

    /// Wraps a producer; nothing has been sent through the handle yet.
    pub fn new(inner: P) -> (r: Publisher<P>)
        ensures
            r.sent() == Seq::<(Seq<char>, Seq<char>)>::empty(),
            r.attempts() == Seq::<(Seq<char>, Seq<char>)>::empty(),
    {
        Publisher { inner, sent_log: Ghost(Seq::empty()), attempt_log: Ghost(Seq::empty()) }
    }

    /// Sends one message body to the named topic. The call attempts exactly
    /// this message, exactly once; on success the accepted history grows by
    /// the same message, on failure it is unchanged.
    pub fn send(&mut self, topic: &str, body: String) -> (r: Result<(), OrderServiceError>)
        ensures
            final(self).attempts() == old(self).attempts().push((topic@, body@)),
            r is Ok ==> final(self).sent() == old(self).sent().push((topic@, body@)),
            r is Err ==> final(self).sent() == old(self).sent(),
            r matches Err(e) ==> e matches OrderServiceError::EventBrokerError(_),
    {
        let ghost message = (topic@, body@);
        self.attempt_log = Ghost(self.attempt_log@.push(message));
        match self.inner.send(topic, body) {
            Ok(_) => {
                self.sent_log = Ghost(self.sent_log@.push(message));
                Ok(())
            },
            Err(cause) => Err(OrderServiceError::EventBrokerError(cause)),
        }
    }
}

/// Publishes a lifecycle event to the out-for-delivery topic: the event's
/// canonical JSON is handed to the broker under `OrderOutForDelivery`
/// exactly once, with no retry; on success the broker accepts exactly that
/// one message, on failure it accepts nothing.
pub fn publish_order_out_for_delivery<P: KafkaProducer>(
    order: OrderEvent,
    producer: &mut Publisher<P>,
) -> (r: Result<(), OrderServiceError>)
    ensures
        final(producer).attempts() == old(producer).attempts().push(
            ("OrderOutForDelivery"@, event_json(order@)),
        ),
        r is Ok ==> final(producer).sent() == old(producer).sent().push(
            ("OrderOutForDelivery"@, event_json(order@)),
        ),
        r is Err ==> final(producer).sent() == old(producer).sent(),
        r matches Err(e) ==> e matches OrderServiceError::EventBrokerError(_),
{
    let json = match order.to_json_string() {
        Ok(s) => s,
        Err(e) => {
            return Err(e);
        },
    };
    producer.send("OrderOutForDelivery", json)
}

/// Publishes a lifecycle event to the delivered topic: the event's
/// canonical JSON is handed to the broker under `OrderDelivered` exactly
/// once, with no retry; on success the broker accepts exactly that one
/// message, on failure it accepts nothing.
pub fn publish_order_delivered<P: KafkaProducer>(
    order: OrderEvent,
    producer: &mut Publisher<P>,
) -> (r: Result<(), OrderServiceError>)
    ensures
        final(producer).attempts() == old(producer).attempts().push(
            ("OrderDelivered"@, event_json(order@)),
        ),
        r is Ok ==> final(producer).sent() == old(producer).sent().push(
            ("OrderDelivered"@, event_json(order@)),
        ),
        r is Err ==> final(producer).sent() == old(producer).sent(),
        r matches Err(e) ==> e matches OrderServiceError::EventBrokerError(_),
{
    let json = match order.to_json_string() {
        Ok(s) => s,
        Err(e) => {
            return Err(e);
        },
    };
    producer.send("OrderDelivered", json)
}

} // verus!
