use cour_order_service::errors::OrderServiceError;
use cour_order_service::orders::{Order, OrderEvent, OrderState};

#[test]
fn test_event_to_json_exact() {
    let event = OrderEvent { orderId: "42".to_string(), courierId: "c7".to_string() };
    let json = event.to_json_string().unwrap();
    assert_eq!(json, "{\"orderId\":\"42\",\"courierId\":\"c7\"}");
}

#[test]
fn test_event_json_escapes_specials_exact() {
    let event = OrderEvent { orderId: "a\"b\\c\nd".to_string(), courierId: "".to_string() };
    let json = event.to_json_string().unwrap();
    assert_eq!(json, "{\"orderId\":\"a\\\"b\\\\c\\nd\",\"courierId\":\"\"}");
}

#[test]
fn test_event_json_escapes_control_exact() {
    let event = OrderEvent { orderId: "x\u{1f}y".to_string(), courierId: "k".to_string() };
    let json = event.to_json_string().unwrap();
    assert_eq!(json, "{\"orderId\":\"x\\u001fy\",\"courierId\":\"k\"}");
}

#[test]
fn test_event_json_round_trip_specials() {
    let event = OrderEvent {
        orderId: "a\"b\\c\nd\te\u{1}f".to_string(),
        courierId: "emoji \u{1f69a} and text".to_string(),
    };
    let json = event.to_json_string().unwrap();
    let back = OrderEvent::from_bytes(json.as_bytes()).unwrap();
    assert_eq!(back, event);
}

#[test]
fn test_event_from_bytes_accepts_whitespace_and_any_field_order() {
    let payload = b" { \"courierId\" : \"c1\" , \"orderId\" : \"o1\" } ";
    let event = OrderEvent::from_bytes(payload).unwrap();
    assert_eq!(event.orderId, "o1");
    assert_eq!(event.courierId, "c1");
}

#[test]
fn test_event_from_bytes_ignores_unknown_members() {
    let payload = b"{\"orderId\":\"o1\",\"note\":\"fragile\",\"courierId\":\"c1\"}";
    let event = OrderEvent::from_bytes(payload).unwrap();
    assert_eq!(event.orderId, "o1");
    assert_eq!(event.courierId, "c1");
}

#[test]
fn test_event_from_bytes_unescapes() {
    let payload = b"{\"orderId\":\"\\u0041\\\"\\\\\\n\",\"courierId\":\"\\t\"}";
    let event = OrderEvent::from_bytes(payload).unwrap();
    assert_eq!(event.orderId, "A\"\\\n");
    assert_eq!(event.courierId, "\t");
}

#[test]
fn test_event_from_bytes_rejects_invalid_utf8() {
    let payload: Vec<u8> = vec![0xff, 0xfe, 0xfd];
    let res = OrderEvent::from_bytes(&payload);
    assert!(matches!(res, Err(OrderServiceError::CodecError(_))));
}

#[test]
fn test_event_from_bytes_rejects_malformed_json() {
    let res = OrderEvent::from_bytes(b"{\"orderId\":\"42\"");
    assert!(matches!(res, Err(OrderServiceError::CodecError(_))));
}

#[test]
fn test_event_from_bytes_missing_courier_reads_empty() {
    let event = OrderEvent::from_bytes(b"{\"orderId\":\"42\"}").unwrap();
    assert_eq!(event.orderId, "42");
    assert_eq!(event.courierId, "");
}

#[test]
fn test_event_from_bytes_rejects_missing_order_id() {
    let res = OrderEvent::from_bytes(b"{\"courierId\":\"c\"}");
    assert!(matches!(res, Err(OrderServiceError::CodecError(_))));
}

#[test]
fn test_event_from_bytes_rejects_duplicate_courier_id() {
    let res = OrderEvent::from_bytes(
        b"{\"orderId\":\"1\",\"courierId\":\"a\",\"courierId\":\"b\"}",
    );
    assert!(matches!(res, Err(OrderServiceError::CodecError(_))));
}

#[test]
fn test_event_from_bytes_rejects_duplicate_member() {
    let res =
        OrderEvent::from_bytes(b"{\"orderId\":\"1\",\"orderId\":\"2\",\"courierId\":\"c\"}");
    assert!(matches!(res, Err(OrderServiceError::CodecError(_))));
}

#[test]
fn test_event_from_bytes_rejects_escaped_surrogate() {
    let res = OrderEvent::from_bytes(b"{\"orderId\":\"\\ud834\",\"courierId\":\"c\"}");
    assert!(matches!(res, Err(OrderServiceError::CodecError(_))));
}

#[test]
fn test_event_from_bytes_rejects_raw_control_character() {
    let payload: Vec<u8> = b"{\"orderId\":\"a\x01b\",\"courierId\":\"c\"}".to_vec();
    let res = OrderEvent::from_bytes(&payload);
    assert!(matches!(res, Err(OrderServiceError::CodecError(_))));
}

#[test]
fn test_event_from_bytes_rejects_empty_object() {
    // an empty object carries no orderId, which is mandatory
    let res = OrderEvent::from_bytes(b"{}");
    assert!(matches!(res, Err(OrderServiceError::CodecError(_))));
}

#[test]
fn test_order_to_json_exact() {
    let order = Order {
        o_id: "42".to_string(),
        c_id: "c1".to_string(),
        r_id: "r1".to_string(),
        cust_addr: "A St".to_string(),
        rest_addr: "B Ave".to_string(),
        state: "Created".to_string(),
    };
    let json = order.to_json_string().unwrap();
    assert_eq!(
        json,
        "{\"o_id\":\"42\",\"c_id\":\"c1\",\"r_id\":\"r1\",\"cust_addr\":\"A St\",\
         \"rest_addr\":\"B Ave\",\"state\":\"Created\"}"
    );
}

#[test]
fn test_order_state_names() {
    assert_eq!(OrderState::OutForDelivery.name(), "OutForDelivery");
    assert_eq!(OrderState::Delivered.name(), "Delivered");
    assert_eq!(OrderState::Created.name(), "Created");
    assert_eq!(OrderState::from_name("OutForDelivery"), Some(OrderState::OutForDelivery));
    assert_eq!(OrderState::from_name("Delivered"), Some(OrderState::Delivered));
    assert_eq!(OrderState::from_name("Created"), Some(OrderState::Created));
    assert_eq!(OrderState::from_name("lost"), None);
}
