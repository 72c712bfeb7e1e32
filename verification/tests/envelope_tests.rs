use pg_boundary::boundary::allocate_binary_result;
use pg_boundary::envelope::{
    QueryArg, QueryPlan, create_error_result, execute_query, free_query_result,
    modification_query, select_query,
};
use pg_boundary::encode::serialize_rows_to_binary;
use pg_boundary::model::{CellValue, ColumnDescriptor, Row, TYPE_INT4};

fn int4_column() -> ColumnDescriptor {
    ColumnDescriptor { name: b"id".to_vec(), type_id: TYPE_INT4 }
}

#[test]
fn error_envelope_carries_only_the_message() {
    let r = create_error_result("boom");
    assert!(!r.success);
    assert_eq!(r.affected_rows, 0);
    assert!(r.payload.is_none());
    assert_eq!(r.error.as_deref(), Some("boom"));
}

#[test]
fn select_envelope_carries_the_encoded_rows_and_the_count() {
    let columns = vec![int4_column()];
    let rows = vec![
        Row { cells: vec![CellValue::Int4(10)] },
        Row { cells: vec![CellValue::Int4(20)] },
    ];
    let r = select_query(&rows, &columns);
    assert!(r.success);
    assert_eq!(r.affected_rows, 2);
    assert!(r.error.is_none());
    assert_eq!(r.payload, Some(serialize_rows_to_binary(&rows, &columns)));
}

#[test]
fn modification_envelope_carries_only_the_count() {
    let r = modification_query(5);
    assert!(r.success);
    assert_eq!(r.affected_rows, 5);
    assert!(r.payload.is_none());
    assert!(r.error.is_none());
}

#[test]
fn payload_and_error_are_never_both_present() {
    let columns = vec![int4_column()];
    let rows = vec![Row { cells: vec![CellValue::Int4(1)] }];
    let envelopes = [
        create_error_result("driver failure"),
        select_query(&rows, &columns),
        modification_query(0),
    ];
    for e in envelopes {
        assert!(!(e.payload.is_some() && e.error.is_some()));
    }
}

#[test]
fn missing_client_fails_before_any_driver_work() {
    let r = execute_query(false, QueryArg::Text("select 1"));
    let e = r.err().expect("a missing client must not produce a plan");
    assert!(!e.success);
    assert_eq!(e.affected_rows, 0);
    assert!(e.payload.is_none());
    assert_eq!(e.error.as_deref(), Some("Invalid client or query"));
}

#[test]
fn missing_query_text_fails_with_the_fixed_diagnostic() {
    let e = execute_query(true, QueryArg::Absent).err().unwrap();
    assert_eq!(e.error.as_deref(), Some("Invalid client or query"));
}

#[test]
fn non_utf8_query_text_fails_with_the_fixed_diagnostic() {
    let e = execute_query(true, QueryArg::NotUtf8).err().unwrap();
    assert_eq!(e.error.as_deref(), Some("Invalid UTF-8 in query"));
}

#[test]
fn unrecognized_statement_fails_without_a_driver_call() {
    let e = execute_query(true, QueryArg::Text("vacuum")).err().unwrap();
    assert!(!e.success);
    assert_eq!(e.error.as_deref(), Some("Unknown operation type"));
}

#[test]
fn select_statement_routes_to_a_row_returning_run() {
    let plan = execute_query(true, QueryArg::Text("  SELECT * FROM users")).ok().unwrap();
    assert_eq!(plan, QueryPlan::RunSelect);
}

#[test]
fn modification_statements_route_to_a_row_affecting_run() {
    for sql in ["insert into t values (1)", "update t set x=1", "delete from t"] {
        let plan = execute_query(true, QueryArg::Text(sql)).ok().unwrap();
        assert_eq!(plan, QueryPlan::RunModification);
    }
}

#[test]
fn an_envelope_is_released_exactly_once_with_all_its_buffers() {
    let columns = vec![int4_column()];
    let rows = vec![Row { cells: vec![CellValue::Int4(1)] }];
    free_query_result(select_query(&rows, &columns));
    free_query_result(create_error_result("gone"));
    free_query_result(modification_query(3));
}

#[test]
fn allocated_boundary_buffer_holds_exactly_the_data() {
    let data = [1u8, 2, 3, 4, 5];
    let buffer = allocate_binary_result(&data);
    assert_eq!(buffer, data.to_vec());
}

#[test]
fn allocated_boundary_buffer_of_nothing_is_empty() {
    let buffer = allocate_binary_result(&[]);
    assert!(buffer.is_empty());
}
