use cour_order_service::errors::OrderServiceError;
use cour_order_service::hbase::{
    get_order_row, update_order_state, HbaseClient, RowMutation, Store,
};
use cour_order_service::hbase_utils::{order_to_row, StoreCell, StoreRow};
use cour_order_service::orders::{Order, OrderState};

struct TestStore {
    rows: Result<Vec<StoreRow>, String>,
    fail_put: bool,
    get_calls: Vec<String>,
    put_calls: Vec<(String, Vec<RowMutation>, Option<i64>, bool)>,
}

impl TestStore {
    fn with_rows(rows: Vec<StoreRow>) -> Self {
        TestStore { rows: Ok(rows), fail_put: false, get_calls: Vec::new(), put_calls: Vec::new() }
    }

    fn failing() -> Self {
        TestStore {
            rows: Err("Error".to_string()),
            fail_put: true,
            get_calls: Vec::new(),
            put_calls: Vec::new(),
        }
    }
}

impl HbaseClient for TestStore {
    fn get_row(&mut self, row_id: &str) -> Result<Vec<StoreRow>, String> {
        self.get_calls.push(row_id.to_string());
        match &self.rows {
            Ok(rows) => Ok(rows.clone()),
            Err(cause) => Err(cause.clone()),
        }
    }

    fn put(
        &mut self,
        table: &str,
        row_batches: Vec<RowMutation>,
        timestamp: Option<i64>,
        attributes: Option<Vec<(String, String)>>,
    ) -> Result<(), String> {
        self.put_calls.push((table.to_string(), row_batches, timestamp, attributes.is_none()));
        if self.fail_put {
            Err("Error".to_string())
        } else {
            Ok(())
        }
    }

    fn create_table(&mut self, _name: &str, _column_families: Vec<String>) -> Result<(), String> {
        Ok(())
    }
}

fn to_cell(column: &str, value: &str) -> StoreCell {
    StoreCell { column: column.as_bytes().to_vec(), value: Some(value.as_bytes().to_vec()) }
}

#[test]
fn test_update_order_state_is_ok() {
    let userid = "id";
    let order_state = OrderState::OutForDelivery;
    let time: i64 = 10;
    let mut mock_con = Store::new(TestStore::failing());
    let res = update_order_state(userid, order_state, time, &mut mock_con);
    assert!(res.is_err());
    let result_error = res.err().unwrap();
    assert!(matches!(result_error, OrderServiceError::DBError(_)));
    assert_eq!(mock_con.inner.put_calls.len(), 1);
    let (table, _, ts, no_attrs) = &mock_con.inner.put_calls[0];
    assert!(table.eq("orders") && *ts == Some(time) && *no_attrs);
}

#[test]
fn test_update_order_state_is_err() {
    let userid = "id";
    let order_state = OrderState::OutForDelivery;
    let time: i64 = 10;
    let mut mock_con = Store::new(TestStore::with_rows(Vec::new()));
    let res = update_order_state(userid, order_state, time, &mut mock_con);
    assert!(res.is_ok());
    assert_eq!(mock_con.inner.put_calls.len(), 1);
    let (table, _, ts, no_attrs) = &mock_con.inner.put_calls[0];
    assert!(table.eq("orders") && *ts == Some(time) && *no_attrs);
}

#[test]
fn test_get_order_row_is_ok() {
    let userid = "id";
    let mut mock_con = Store::new(TestStore::with_rows(vec![order_to_row(
        &Order {
            o_id: userid.to_owned(),
            c_id: "cust_id".to_owned(),
            r_id: "rest_id".to_owned(),
            cust_addr: "custaddr".to_owned(),
            rest_addr: "restaddr".to_owned(),
            state: "pending".to_owned(),
        },
    )]));
    let res = get_order_row(userid, &mut mock_con);
    assert!(res.is_ok());
    assert_eq!(mock_con.inner.get_calls, vec![userid.to_string()]);
}

#[test]
fn test_get_order_row_success() {
    let userid = "id";
    let mut mock_con = Store::new(TestStore::with_rows(vec![order_to_row(
        &Order {
            o_id: userid.to_owned(),
            c_id: "cust_id".to_owned(),
            r_id: "rest_id".to_owned(),
            cust_addr: "custaddr".to_owned(),
            rest_addr: "restaddr".to_owned(),
            state: "pending".to_owned(),
        },
    )]));
    let res = get_order_row(userid, &mut mock_con).unwrap();
    assert_eq!(res.o_id, userid);
}

#[test]
fn test_get_order_row_bad_trow_result() {
    let userid = "id";
    let row = StoreRow {
        row: Some(userid.as_bytes().to_vec()),
        columns: Some(vec![
            to_cell("ids:c_id", "cust_id"),
            to_cell("BADCOLUMNFAMILYNAME:r_id", "rest_id"),
            to_cell("addr:c_addr", "&order.cust_addr"),
            to_cell("addr:r_addr", "&order.rest_addr"),
        ]),
    };
    let mut mock_con = Store::new(TestStore::with_rows(vec![row]));
    let res = get_order_row(userid, &mut mock_con);
    assert!(res.is_err());
    let result_error = res.err().unwrap();
    assert!(matches!(result_error, OrderServiceError::OrderBuildFailed));
}

#[test]
fn test_get_order_row_err() {
    let userid = "id";
    let mut mock_con = Store::new(TestStore::failing());
    let res = get_order_row(userid, &mut mock_con);
    assert!(res.is_err());
    let result_error = res.err().unwrap();
    assert!(matches!(result_error, OrderServiceError::DBError(_)));
}
