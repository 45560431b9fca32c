use cour_order_service::hbase_utils::{
    build_single_column_filter, create_order_builder_from_hbase_row, create_scan, get_column,
    get_column_and_value, get_value, order_to_row, set_order_field, StoreCell, StoreRow,
};
use cour_order_service::orders::{Order, OrderBuilder};

fn to_cell(column: &str, value: &str) -> StoreCell {
    StoreCell { column: column.as_bytes().to_vec(), value: Some(value.as_bytes().to_vec()) }
}

fn sample_order() -> Order {
    Order {
        cust_addr: "addr".into(),
        rest_addr: "addr2".into(),
        c_id: "custid".into(),
        r_id: "restid".into(),
        o_id: "o_id".into(),
        state: "Created".into(),
    }
}

#[test]
fn test_create_order_builder_from_hbase_row_unknown_field() {
    let order = sample_order();
    let trowresult = StoreRow {
        row: Some(order.o_id.as_bytes().to_vec()),
        columns: Some(vec![
            to_cell("ids:c_id", &order.c_id),
            to_cell("ids:r_id", &order.r_id),
            to_cell("addr:c_addr", &order.cust_addr),
            to_cell("addr:r_addr", &order.rest_addr),
        ]),
    };
    let obuilder = create_order_builder_from_hbase_row(&trowresult);

    assert!(obuilder.c_id.is_some());
    assert!(obuilder.r_id.is_some());
    assert!(obuilder.o_id.is_some());
    assert!(obuilder.cust_addr.is_some());
    assert!(obuilder.rest_addr.is_some());
}

#[test]
fn test_create_order_builder_from_hbase_row_missing_field() {
    let order = sample_order();
    let trowresult = StoreRow {
        row: Some(order.o_id.as_bytes().to_vec()),
        columns: Some(vec![
            to_cell("info:o_id", &order.o_id),
            to_cell("ids:r_id", &order.r_id),
            to_cell("addr:c_addr", &order.cust_addr),
            to_cell("addr:r_addr", &order.rest_addr),
        ]),
    };
    let obuilder = create_order_builder_from_hbase_row(&trowresult);
    assert!(obuilder.c_id.is_none());

    assert!(obuilder.o_id.is_some());
    assert!(obuilder.r_id.is_some());
    assert!(obuilder.cust_addr.is_some());
    assert!(obuilder.rest_addr.is_some());
}

#[test]
fn test_create_order_builder_from_hbase_row_on_content() {
    let order = sample_order();
    let trowresult = order_to_row(&order);
    let obuilder = create_order_builder_from_hbase_row(&trowresult);
    assert_eq!(obuilder.o_id.unwrap(), order.o_id);
    assert_eq!(obuilder.r_id.unwrap(), order.r_id);
    assert_eq!(obuilder.c_id.unwrap(), order.c_id);
    assert_eq!(obuilder.cust_addr.unwrap(), order.cust_addr);
    assert_eq!(obuilder.rest_addr.unwrap(), order.rest_addr);
}

#[test]
fn test_create_order_builder_from_hbase_row_on_content_empty_order() {
    let order = sample_order();
    let trowresult = order_to_row(&order);
    let obuilder = create_order_builder_from_hbase_row(&trowresult);
    assert_eq!(obuilder.o_id.unwrap(), order.o_id);
    assert_eq!(obuilder.r_id.unwrap(), order.r_id);
    assert_eq!(obuilder.c_id.unwrap(), order.c_id);
    assert_eq!(obuilder.cust_addr.unwrap(), order.cust_addr);
    assert_eq!(obuilder.rest_addr.unwrap(), order.rest_addr);
}

#[test]
fn test_create_order_builder_from_hbase_row_is_some() {
    let order = sample_order();
    let trowresult = order_to_row(&order);
    let obuilder = create_order_builder_from_hbase_row(&trowresult);
    assert!(obuilder.o_id.is_some());
    assert!(obuilder.c_id.is_some());
    assert!(obuilder.r_id.is_some());
    assert!(obuilder.cust_addr.is_some());
    assert!(obuilder.rest_addr.is_some());
}

#[test]
fn test_create_scan_with_cols() {
    let cols: Vec<Vec<u8>> = vec!["col1:col".into(), "col2".into()];
    let colfam = "testcolfam";
    let col = "testcol";
    let val = "testval";
    let scan = create_scan(cols.clone(), colfam, col, val);
    assert_eq!(scan.columns.unwrap(), cols);
    assert_eq!(
        scan.filter_string.unwrap(),
        Into::<Vec<u8>>::into(build_single_column_filter(colfam, col, "=", val))
    );
}

#[test]
fn test_create_scan_no_cols() {
    let cols: Vec<Vec<u8>> = vec![];
    let colfam = "testcolfam";
    let col = "testcol";
    let val = "testval";
    let scan = create_scan(cols.clone(), colfam, col, val);
    assert_eq!(scan.columns.unwrap(), cols);
    assert_eq!(
        scan.filter_string.unwrap(),
        Into::<Vec<u8>>::into(build_single_column_filter(colfam, col, "=", val))
    );
}

#[test]
fn test_build_single_column_filter() {
    let exp = "SingleColumnValueFilter('test', 'test', =, 'binaryprefix:test')";
    let actual = build_single_column_filter("test", "test", "=", "test");
    assert_eq!(actual, exp.to_string());
}

#[test]
fn test_get_column_bad_str() {
    let input: Vec<u8> = vec![255, 255, 58, 255, 255];
    let actual = get_column(&input);
    assert!(actual.is_none());
}

#[test]
fn test_get_column_bad_split() {
    let input: Vec<u8> = "colfamcol".into();
    let actual = get_column(&input);
    assert!(actual.is_none());
}

#[test]
fn test_get_column() {
    let expected = ("colfam", "col");
    let input: Vec<u8> = "colfam:col".into();
    let actual = get_column(&input);
    assert!(actual.is_some());
    let actual = actual.unwrap();
    assert_eq!(actual.0, expected.0);
    assert_eq!(actual.1, expected.1);
}

#[test]
fn test_get_value_none() {
    let actual = get_value(None);
    assert!(actual.is_none());
}

#[test]
fn test_get_value_bad_str() {
    let input: Vec<u8> = vec![255, 255, 255, 255];
    let actual = get_value(Some(input));
    assert!(actual.is_none());
}

#[test]
fn test_get_value() {
    let expected = "hello, world";
    let input: Vec<u8> = expected.into();
    let actual = get_value(Some(input));
    assert!(actual.is_some());
    assert_eq!(actual.unwrap(), expected);
}

#[test]
fn test_get_column_and_value() {
    let col: Vec<u8> = "ids:c_id".into();
    let actual = get_column_and_value(&col, Some("custid".into()));
    assert!(actual.is_some());
    let ((fam, qual), val) = actual.unwrap();
    assert_eq!(fam, "ids");
    assert_eq!(qual, "c_id");
    assert_eq!(val, "custid");
}

#[test]
fn test_set_order_field_bad_col() {
    let field = ("addr".to_string(), "o_id".to_string());
    let val = "value".to_string();
    let mut order_builder = OrderBuilder::default();
    set_order_field(field, val.clone(), &mut order_builder);
    assert!(order_builder.o_id.is_none());
    assert!(order_builder.r_id.is_none());
    assert!(order_builder.c_id.is_none());
    assert!(order_builder.rest_addr.is_none());
    assert!(order_builder.cust_addr.is_none());
}

#[test]
fn test_set_order_field_bad_colfam() {
    let field = ("aaaaadr".to_string(), "r_addr".to_string());
    let val = "value".to_string();
    let mut order_builder = OrderBuilder::default();
    set_order_field(field, val.clone(), &mut order_builder);
    assert!(order_builder.o_id.is_none());
    assert!(order_builder.r_id.is_none());
    assert!(order_builder.c_id.is_none());
    assert!(order_builder.rest_addr.is_none());
    assert!(order_builder.cust_addr.is_none());
}

#[test]
fn test_set_order_field_r_addr() {
    let field = ("addr".to_string(), "r_addr".to_string());
    let val = "value".to_string();
    let mut order_builder = OrderBuilder::default();
    set_order_field(field, val.clone(), &mut order_builder);
    assert!(order_builder.rest_addr.is_some());
    assert_eq!(order_builder.rest_addr.unwrap(), val);
}

#[test]
fn test_set_order_field_c_addr() {
    let field = ("addr".to_string(), "c_addr".to_string());
    let val = "value".to_string();
    let mut order_builder = OrderBuilder::default();
    set_order_field(field, val.clone(), &mut order_builder);
    assert!(order_builder.cust_addr.is_some());
    assert_eq!(order_builder.cust_addr.unwrap(), val);
}

#[test]
fn test_set_order_field_r_id() {
    let field = ("ids".to_string(), "r_id".to_string());
    let val = "value".to_string();
    let mut order_builder = OrderBuilder::default();
    set_order_field(field, val.clone(), &mut order_builder);
    assert!(order_builder.r_id.is_some());
    assert_eq!(order_builder.r_id.unwrap(), val);
}

#[test]
fn test_set_order_field_c_id() {
    let field = ("ids".to_string(), "c_id".to_string());
    let val = "value".to_string();
    let mut order_builder = OrderBuilder::default();
    set_order_field(field, val.clone(), &mut order_builder);
    assert!(order_builder.c_id.is_some());
    assert_eq!(order_builder.c_id.unwrap(), val);
}

#[test]
fn test_set_order_field_o_id() {
    let field = ("info".to_string(), "o_id".to_string());
    let val = "value".to_string();
    let mut order_builder = OrderBuilder::default();
    set_order_field(field, val.clone(), &mut order_builder);
    assert!(order_builder.o_id.is_some());
    assert_eq!(order_builder.o_id.unwrap(), val);
}

#[test]
fn test_set_order_field_state() {
    let field = ("info".to_string(), "state".to_string());
    let val = "OutForDelivery".to_string();
    let mut order_builder = OrderBuilder::default();
    set_order_field(field, val.clone(), &mut order_builder);
    assert!(order_builder.state.is_some());
    assert_eq!(order_builder.state.unwrap(), val);
}
