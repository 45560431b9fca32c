use vstd::prelude::*;
use crate::errors::OrderServiceError;
use crate::hbase::{
    create_order_table, get_order_row, order_table_request, state_put_record, update_order_state,
    HbaseClient, Store,
};
use crate::json::{event_json, event_of_bytes};
use crate::orders::{Order, OrderEvent, OrderEventView, OrderState};
use crate::producers::{
    publish_order_delivered, publish_order_out_for_delivery, KafkaProducer, Publisher,
};

verus! {

/// The event a state transition for the given order row emits: it points at
/// the order and carries no courier correlation.
pub open spec fn transition_event(row: Seq<char>) -> OrderEventView {
    OrderEventView { order_id: row, courier_id: Seq::<char>::empty() }
}

/// Reads the order stored under the given row key.
pub fn get_row<C: HbaseClient>(row_id: &str, client: &mut Store<C>) -> (r: Result<
    Order,
    OrderServiceError,
>)
    ensures
        final(client).puts() == old(client).puts(),
        final(client).put_attempts() == old(client).put_attempts(),
        final(client).creations() == old(client).creations(),
        r matches Err(e) ==> (e matches OrderServiceError::DBError(_) || e
            matches OrderServiceError::OrderBuildFailed || (e
            matches OrderServiceError::RowNotFound(id) && id@ == row_id@)),
{
    get_order_row(row_id, client)
}

/// Provisions the order table: on success the store accepted exactly the
/// fixed creation request.
pub fn create_table<C: HbaseClient>(client: &mut Store<C>) -> (r: Result<(), OrderServiceError>)
    ensures
        final(client).puts() == old(client).puts(),
        final(client).put_attempts() == old(client).put_attempts(),
        r is Ok ==> final(client).creations() == old(client).creations().push(
            order_table_request(),
        ),
        r is Err ==> final(client).creations() == old(client).creations(),
        r matches Err(e) ==> e matches OrderServiceError::DBError(_),
{
    create_order_table(client)
}

/// Pushes an order to `OutForDelivery`: writes the new state to the store,
/// then publishes the lifecycle event.
///
/// The state write is handed to the store exactly once, with no retry. On
/// success the store accepts it and the broker accepts exactly the one
/// event, itself attempted exactly once. A store failure aborts before any
/// publish. A broker failure leaves the store written and the bus without
/// the event: the two are then out of sync, a known trade-off of this write
/// path.
pub fn mark_order_as_out_for_delivery<C: HbaseClient, P: KafkaProducer>(
    row_id: &str,
    unix_time: i64,
    client: &mut Store<C>,
    producer: &mut Publisher<P>,
) -> (r: Result<(), OrderServiceError>)
    ensures
        final(client).put_attempts() == old(client).put_attempts().push(
            state_put_record(row_id@, OrderState::OutForDelivery, unix_time),
        ),
        final(client).creations() == old(client).creations(),
        r is Ok ==> final(client).puts() == old(client).puts().push(
            state_put_record(row_id@, OrderState::OutForDelivery, unix_time),
        ) && final(producer).sent() == old(producer).sent().push(
            ("OrderOutForDelivery"@, event_json(transition_event(row_id@))),
        ) && final(producer).attempts() == old(producer).attempts().push(
            ("OrderOutForDelivery"@, event_json(transition_event(row_id@))),
        ),
        r matches Err(e) ==> match e {
            OrderServiceError::DBError(_) => final(client).puts() == old(client).puts() && final(producer).sent() == old(producer).sent() && final(producer).attempts() == old(producer).attempts(),
            OrderServiceError::EventBrokerError(_) => final(client).puts() == old(client).puts().push(state_put_record(row_id@, OrderState::OutForDelivery, unix_time))
                && final(producer).sent() == old(producer).sent() && final(producer).attempts() == old(producer).attempts().push(
                ("OrderOutForDelivery"@, event_json(transition_event(row_id@))),
            ),
            _ => false,
        },
{
    match update_order_state(row_id, OrderState::OutForDelivery, unix_time, client) {
        Ok(_) => {},
        Err(e) => {
            return Err(e);
        },
    }
    let event = OrderEvent { orderId: row_id.to_owned(), courierId: String::new() };
    publish_order_out_for_delivery(event, producer)
}

/// Pushes an order to `Delivered`: writes the new state to the store, then
/// publishes the lifecycle event. Failure behaviour mirrors
/// [`mark_order_as_out_for_delivery`].
pub fn mark_order_as_delivered<C: HbaseClient, P: KafkaProducer>(
    row_id: &str,
    unix_time: i64,
    client: &mut Store<C>,
    producer: &mut Publisher<P>,
) -> (r: Result<(), OrderServiceError>)
    ensures
        final(client).put_attempts() == old(client).put_attempts().push(
            state_put_record(row_id@, OrderState::Delivered, unix_time),
        ),
        final(client).creations() == old(client).creations(),
        r is Ok ==> final(client).puts() == old(client).puts().push(
            state_put_record(row_id@, OrderState::Delivered, unix_time),
        ) && final(producer).sent() == old(producer).sent().push(
            ("OrderDelivered"@, event_json(transition_event(row_id@))),
        ) && final(producer).attempts() == old(producer).attempts().push(
            ("OrderDelivered"@, event_json(transition_event(row_id@))),
        ),
        r matches Err(e) ==> match e {
            OrderServiceError::DBError(_) => final(client).puts() == old(client).puts() && final(producer).sent() == old(producer).sent() && final(producer).attempts() == old(producer).attempts(),
            OrderServiceError::EventBrokerError(_) => final(client).puts() == old(client).puts().push(state_put_record(row_id@, OrderState::Delivered, unix_time)) && final(producer).sent() == old(producer).sent() && final(producer).attempts() == old(producer).attempts().push(
                ("OrderDelivered"@, event_json(transition_event(row_id@))),
            ),
            _ => false,
        },
{
    match update_order_state(row_id, OrderState::Delivered, unix_time, client) {
        Ok(_) => {},
        Err(e) => {
            return Err(e);
        },
    }
    let event = OrderEvent { orderId: row_id.to_owned(), courierId: String::new() };
    publish_order_delivered(event, producer)
}

/// Re-applies one consumed lifecycle event to the store: decodes the raw
/// payload and overwrites the pointed-at order's state with the target
/// state, stamped with the given time.
///
/// A payload outside the wire grammar is a codec error and writes nothing;
/// for a well-formed payload the store accepts exactly the one state write
/// on success and nothing on failure.
pub fn apply_event<C: HbaseClient>(
    payload: &Vec<u8>,
    target_state: OrderState,
    unix_time: i64,
    client: &mut Store<C>,
) -> (r: Result<(), OrderServiceError>)
    ensures
        final(client).creations() == old(client).creations(),
        event_of_bytes(payload@) is None ==> final(client).puts() == old(client).puts()
            && final(client).put_attempts() == old(client).put_attempts() && match r {
            Err(e) => e matches OrderServiceError::CodecError(_),
            Ok(_) => false,
        },
        event_of_bytes(payload@) matches Some(ev) ==> {
            &&& final(client).put_attempts() == old(client).put_attempts().push(
                state_put_record(ev.order_id, target_state, unix_time),
            )
            &&& r is Ok ==> final(client).puts() == old(client).puts().push(
                state_put_record(ev.order_id, target_state, unix_time),
            )
            &&& r matches Err(e) ==> final(client).puts() == old(client).puts() && e
                matches OrderServiceError::DBError(_)
        },
{
    let event = match OrderEvent::from_bytes(payload.as_slice()) {
        Ok(e) => e,
        Err(err) => {
            return Err(err);
        },
    };
    update_order_state(event.orderId.as_str(), target_state, unix_time, client)
}

} // verus!
