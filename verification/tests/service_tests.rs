use std::cell::RefCell;

use cour_order_service::consumers::{consume_batch, KafkaConsumer, Subscription};
use cour_order_service::errors::OrderServiceError;
use cour_order_service::hbase::{rows_to_order, HbaseClient, RowMutation, Store};
use cour_order_service::hbase_utils::{
    create_order_builder_from_hbase_row, order_to_row, StoreCell, StoreRow,
};
use cour_order_service::orders::{Order, OrderBuilder, OrderEvent, OrderState};
use cour_order_service::producers::{KafkaProducer, Publisher};
use cour_order_service::utils::get_unix_time;
use cour_order_service::workers::{
    apply_event, create_table, get_row, mark_order_as_delivered, mark_order_as_out_for_delivery,
};

struct TestStore {
    rows: Result<Vec<StoreRow>, String>,
    fail_put: bool,
    put_calls: Vec<(String, Vec<RowMutation>, Option<i64>)>,
    tables: Vec<(String, Vec<String>)>,
}

impl TestStore {
    fn empty() -> Self {
        TestStore {
            rows: Ok(Vec::new()),
            fail_put: false,
            put_calls: Vec::new(),
            tables: Vec::new(),
        }
    }

    fn with_failing_put() -> Self {
        TestStore {
            rows: Ok(Vec::new()),
            fail_put: true,
            put_calls: Vec::new(),
            tables: Vec::new(),
        }
    }
}

impl HbaseClient for TestStore {
    fn get_row(&mut self, _row_id: &str) -> Result<Vec<StoreRow>, String> {
        match &self.rows {
            Ok(rows) => Ok(rows.clone()),
            Err(cause) => Err(cause.clone()),
        }
    }

    fn put(
        &mut self,
        table: &str,
        row_batches: Vec<RowMutation>,
        timestamp: Option<i64>,
        _attributes: Option<Vec<(String, String)>>,
    ) -> Result<(), String> {
        if self.fail_put {
            return Err("write refused".to_string());
        }
        self.put_calls.push((table.to_string(), row_batches, timestamp));
        Ok(())
    }

    fn create_table(&mut self, name: &str, column_families: Vec<String>) -> Result<(), String> {
        self.tables.push((name.to_string(), column_families));
        Ok(())
    }
}

struct RecordingProducer {
    sent: Vec<(String, String)>,
}

impl KafkaProducer for RecordingProducer {
    fn send(&mut self, topic: &str, body: String) -> Result<(), String> {
        self.sent.push((topic.to_string(), body));
        Ok(())
    }
}

struct ScriptedConsumer {
    batches: Vec<Vec<Vec<u8>>>,
    commits: usize,
}

impl KafkaConsumer for ScriptedConsumer {
    fn poll(&mut self) -> Result<Vec<Vec<u8>>, String> {
        if self.batches.is_empty() {
            Ok(Vec::new())
        } else {
            Ok(self.batches.remove(0))
        }
    }

    fn commit(&mut self) -> Result<(), String> {
        self.commits += 1;
        Ok(())
    }
}

/// Scenario: a fully populated order survives an encode/decode round trip
/// unchanged.
#[test]
fn test_order_row_round_trip() {
    let order = Order {
        o_id: "42".to_string(),
        c_id: "c1".to_string(),
        r_id: "r1".to_string(),
        cust_addr: "A".to_string(),
        rest_addr: "B".to_string(),
        state: "Created".to_string(),
    };
    let row = order_to_row(&order);
    let rebuilt = Order::build(create_order_builder_from_hbase_row(&row)).unwrap();
    assert_eq!(rebuilt, order);
}

/// A missing stored state falls back to the creation state on decode.
#[test]
fn test_decode_missing_state_defaults_to_created() {
    let row = StoreRow {
        row: Some(b"42".to_vec()),
        columns: Some(vec![
            StoreCell { column: b"ids:c_id".to_vec(), value: Some(b"c1".to_vec()) },
            StoreCell { column: b"ids:r_id".to_vec(), value: Some(b"r1".to_vec()) },
            StoreCell { column: b"addr:c_addr".to_vec(), value: Some(b"A".to_vec()) },
            StoreCell { column: b"addr:r_addr".to_vec(), value: Some(b"B".to_vec()) },
        ]),
    };
    let order = Order::build(create_order_builder_from_hbase_row(&row)).unwrap();
    assert_eq!(order.state, "Created");
    assert_eq!(order.o_id, "42");
}

/// An unrecognized family:qualifier pair is ignored, not fatal.
#[test]
fn test_decode_ignores_unknown_column() {
    let row = StoreRow {
        row: Some(b"42".to_vec()),
        columns: Some(vec![
            StoreCell { column: b"ids:c_id".to_vec(), value: Some(b"c1".to_vec()) },
            StoreCell { column: b"xx:mystery".to_vec(), value: Some(b"zzz".to_vec()) },
            StoreCell { column: b"ids:r_id".to_vec(), value: Some(b"r1".to_vec()) },
            StoreCell { column: b"addr:c_addr".to_vec(), value: Some(b"A".to_vec()) },
            StoreCell { column: b"addr:r_addr".to_vec(), value: Some(b"B".to_vec()) },
            StoreCell { column: b"info:state".to_vec(), value: Some(b"Delivered".to_vec()) },
        ]),
    };
    let order = Order::build(create_order_builder_from_hbase_row(&row)).unwrap();
    assert_eq!(order.c_id, "c1");
    assert_eq!(order.state, "Delivered");
}

/// A cell whose value bytes are not valid UTF-8 is dropped as if absent.
#[test]
fn test_decode_drops_invalid_value_bytes() {
    let row = StoreRow {
        row: Some(b"42".to_vec()),
        columns: Some(vec![
            StoreCell { column: b"ids:c_id".to_vec(), value: Some(vec![0xff, 0xfe]) },
            StoreCell { column: b"ids:r_id".to_vec(), value: Some(b"r1".to_vec()) },
        ]),
    };
    let builder = create_order_builder_from_hbase_row(&row);
    assert!(builder.c_id.is_none());
    assert_eq!(builder.r_id.unwrap(), "r1");
}

/// A build with any mandatory field absent fails.
#[test]
fn test_build_missing_mandatory_field_fails() {
    let builder = OrderBuilder {
        o_id: Some("42".to_string()),
        c_id: Some("c1".to_string()),
        r_id: Some("r1".to_string()),
        cust_addr: None,
        rest_addr: Some("B".to_string()),
        state: Some("Created".to_string()),
    };
    assert!(Order::build(builder).is_none());
}

/// A store response with zero rows is `RowNotFound` for the requested key.
#[test]
fn test_rows_to_order_zero_rows_is_row_not_found() {
    let res = rows_to_order("99", &Vec::new());
    match res {
        Err(OrderServiceError::RowNotFound(id)) => assert_eq!(id, "99"),
        other => panic!("expected RowNotFound, got {:?}", other),
    }
}

/// Scenario: a lookup against a store holding no such row surfaces
/// `RowNotFound` with the requested id.
#[test]
fn test_get_row_missing_row() {
    let mut store = Store::new(TestStore::empty());
    let res = get_row("99", &mut store);
    match res {
        Err(OrderServiceError::RowNotFound(id)) => assert_eq!(id, "99"),
        other => panic!("expected RowNotFound, got {:?}", other),
    }
}

/// Scenario: a successful transition writes the state cell and publishes
/// exactly one event whose body points back at the order.
#[test]
fn test_mark_out_for_delivery_writes_and_publishes() {
    let mut store = Store::new(TestStore::empty());
    let mut producer = Publisher::new(RecordingProducer { sent: Vec::new() });
    let res = mark_order_as_out_for_delivery("42", 1700000000000, &mut store, &mut producer);
    assert!(res.is_ok());

    assert_eq!(store.inner.put_calls.len(), 1);
    let (table, batch, ts) = &store.inner.put_calls[0];
    assert_eq!(table, "orders");
    assert_eq!(*ts, Some(1700000000000));
    assert_eq!(batch.len(), 1);
    assert_eq!(batch[0].row, "42");
    assert_eq!(batch[0].mutations.len(), 1);
    assert_eq!(batch[0].mutations[0].column_family, "info");
    assert_eq!(batch[0].mutations[0].column_qualifier, "state");
    assert_eq!(batch[0].mutations[0].value, "OutForDelivery");

    assert_eq!(producer.inner.sent.len(), 1);
    let (topic, body) = &producer.inner.sent[0];
    assert_eq!(topic, "OrderOutForDelivery");
    let event = OrderEvent::from_bytes(body.as_bytes()).unwrap();
    assert_eq!(event.orderId, "42");
}

/// Scenario: when the store write fails, nothing is published and the
/// surfaced error is the store's.
#[test]
fn test_mark_out_for_delivery_store_failure_publishes_nothing() {
    let mut store = Store::new(TestStore::with_failing_put());
    let mut producer = Publisher::new(RecordingProducer { sent: Vec::new() });
    let res = mark_order_as_out_for_delivery("42", 5, &mut store, &mut producer);
    assert!(matches!(res, Err(OrderServiceError::DBError(_))));
    assert!(producer.inner.sent.is_empty());
}

/// The delivered transition mirrors the pickup one on its own topic.
#[test]
fn test_mark_delivered_writes_and_publishes() {
    let mut store = Store::new(TestStore::empty());
    let mut producer = Publisher::new(RecordingProducer { sent: Vec::new() });
    let res = mark_order_as_delivered("42", 7, &mut store, &mut producer);
    assert!(res.is_ok());
    assert_eq!(store.inner.put_calls[0].1[0].mutations[0].value, "Delivered");
    assert_eq!(producer.inner.sent[0].0, "OrderDelivered");
}

/// Scenario: a malformed payload in a batch yields a codec error from the
/// handler, every later message of the batch is still handled, and the
/// batch's offsets are still committed.
#[test]
fn test_consume_batch_malformed_payload_still_commits() {
    let store = RefCell::new(Store::new(TestStore::empty()));
    let handler = |payload: &Vec<u8>| {
        apply_event(payload, OrderState::OutForDelivery, 9, &mut *store.borrow_mut())
    };
    let malformed = b"this is not json".to_vec();
    let well_formed = b"{\"orderId\":\"42\",\"courierId\":\"c9\"}".to_vec();
    let mut consumer = Subscription::new(ScriptedConsumer {
        batches: vec![vec![malformed.clone(), well_formed.clone()]],
        commits: 0,
    });
    let res = consume_batch(&mut consumer, &handler);
    let (batch, outcomes) = res.unwrap();
    assert_eq!(consumer.inner.commits, 1);

    assert_eq!(batch, vec![malformed, well_formed]);
    assert_eq!(outcomes.len(), 2);
    assert!(matches!(outcomes[0], Err(OrderServiceError::CodecError(_))));
    assert!(outcomes[1].is_ok());

    let st = store.borrow();
    assert_eq!(st.inner.put_calls.len(), 1);
    assert_eq!(st.inner.put_calls[0].1[0].row, "42");
    assert_eq!(st.inner.put_calls[0].1[0].mutations[0].value, "OutForDelivery");
}

/// Provisioning creates the single order table with its fixed families.
#[test]
fn test_create_table_families() {
    let mut store = Store::new(TestStore::empty());
    let res = create_table(&mut store);
    assert!(res.is_ok());
    assert_eq!(
        store.inner.tables,
        vec![(
            "orders".to_string(),
            vec![
                "info".to_string(),
                "ids".to_string(),
                "addr".to_string(),
                "ol".to_string(),
            ],
        )]
    );
}

/// A transport failure while polling is fatal to the batch: it surfaces and
/// nothing is committed.
#[test]
fn test_consume_batch_poll_failure_is_fatal() {
    struct BrokenConsumer {
        commits: usize,
    }
    impl KafkaConsumer for BrokenConsumer {
        fn poll(&mut self) -> Result<Vec<Vec<u8>>, String> {
            Err("connection lost".to_string())
        }
        fn commit(&mut self) -> Result<(), String> {
            self.commits += 1;
            Ok(())
        }
    }
    let mut consumer = Subscription::new(BrokenConsumer { commits: 0 });
    let handler = |_m: &Vec<u8>| Ok(());
    let res = consume_batch(&mut consumer, &handler);
    assert!(matches!(res, Err(OrderServiceError::EventBrokerError(_))));
    assert_eq!(consumer.inner.commits, 0);
}

/// The clock reads as a nonnegative millisecond count.
#[test]
fn test_get_unix_time_is_nonnegative() {
    assert!(get_unix_time() >= 0);
}
