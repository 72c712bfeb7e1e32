//! The envelope every query call returns across the boundary: success or
//! failure, an affected-row count, and at most one of an encoded payload
//! or an error message. Also the routing step of query execution, which
//! validates the boundary inputs and classifies the statement before any
//! driver work happens.

use vstd::prelude::*;
use crate::classify::{OperationType, identify_operation_type, spec_classify};
use crate::encode::{serialize_rows_to_binary, spec_encode};
use crate::model::{ColumnDescriptor, Row, wf_result_set};

verus! {

/// The single structured value a query call hands back: failure is data,
/// never an exception across the boundary.
pub struct QueryResult {
    pub success: bool,
    pub affected_rows: i32,
    pub payload: Option<Vec<u8>>,
    pub error: Option<String>,
}

impl QueryResult {
    /// Payload and error are never both present. A failure carries no
    /// payload and a zero count; a success carries no error.
    pub open spec fn wf(self) -> bool {
        &&& !(self.payload is Some && self.error is Some)
        &&& (self.success ==> self.error is None)
        &&& (!self.success ==> self.payload is None && self.affected_rows == 0)
    }
}

/// Build the failure envelope: no payload, a zero count, and exactly the
/// given message as boundary-owned text.
pub fn create_error_result(error_msg: &str) -> (r: QueryResult)
    ensures
        r.wf(),
        !r.success,
        r.affected_rows == 0,
        r.payload is None,
        match r.error {
            Some(m) => m@ == error_msg@,
            None => false,
        },
{
    QueryResult {
        success: false,
        affected_rows: 0,
        payload: None,
        error: Some(error_msg.to_owned()),
    }
}

/// Build the envelope of a row-returning success: the payload is the
/// wire image of the result set and the count is the number of rows.
pub fn select_query(rows: &Vec<Row>, columns: &Vec<ColumnDescriptor>) -> (r: QueryResult)
    requires
        wf_result_set(rows.deep_view(), columns.deep_view()),
        rows@.len() <= i32::MAX,
    ensures
        r.wf(),
        r.success,
        r.affected_rows == rows@.len(),
        match r.payload {
            Some(p) => p@ == spec_encode(rows.deep_view(), columns.deep_view()),
            None => false,
        },
        r.error is None,
{
    let payload = serialize_rows_to_binary(rows, columns);
    QueryResult {
        success: true,
        affected_rows: rows.len() as i32,
        payload: Some(payload),
        error: None,
    }
}

/// Build the envelope of a row-affecting success: only the
/// driver-reported affected count is populated.
pub fn modification_query(affected: u64) -> (r: QueryResult)
    requires
        affected <= i32::MAX,
    ensures
        r.wf(),
        r.success,
        r.affected_rows == affected,
        r.payload is None,
        r.error is None,
{
    QueryResult { success: true, affected_rows: affected as i32, payload: None, error: None }
}

/// How the query text arrived at the boundary: missing altogether, bytes
/// that are not valid UTF-8, or the text itself.
pub enum QueryArg<'a> {
    Absent,
    NotUtf8,
    Text(&'a str),
}

/// What the executor must ask the driver to do for a recognized
/// statement.
#[derive(Clone, Copy, PartialEq, Eq, Structural, Debug)]
pub enum QueryPlan {
    RunSelect,
    RunModification,
}

/// The outcome is the failure envelope carrying exactly this message.
pub open spec fn is_error_with(r: Result<QueryPlan, QueryResult>, msg: Seq<char>) -> bool {
    match r {
        Result::Err(e) => e.wf() && !e.success && e.affected_rows == 0 && e.payload is None
            && (match e.error {
            Some(m) => m@ == msg,
            None => false,
        }),
        Result::Ok(_) => false,
    }
}

/// Validate the boundary inputs and route the statement. A missing
/// client or query, query bytes that are not UTF-8, and a statement
/// whose first keyword is not recognized each yield the failure envelope
/// with its fixed diagnostic, and no driver call is to be made;
/// otherwise the plan says which kind of driver call runs.
pub fn execute_query(client_present: bool, query: QueryArg<'_>) -> (r: Result<
    QueryPlan,
    QueryResult,
>)
    ensures
        match query {
            QueryArg::Absent => is_error_with(r, "Invalid client or query"@),
            QueryArg::NotUtf8 => if client_present {
                is_error_with(r, "Invalid UTF-8 in query"@)
            } else {
                is_error_with(r, "Invalid client or query"@)
            },
            QueryArg::Text(q) => if !client_present {
                is_error_with(r, "Invalid client or query"@)
            } else {
                match spec_classify(q@) {
                    OperationType::Select => r == Result::<QueryPlan, QueryResult>::Ok(
                        QueryPlan::RunSelect,
                    ),
                    OperationType::Unknown => is_error_with(r, "Unknown operation type"@),
                    _ => r == Result::<QueryPlan, QueryResult>::Ok(QueryPlan::RunModification),
                }
            },
        },
{
    if !client_present {
        return Err(create_error_result("Invalid client or query"));
    }
    match query {
        QueryArg::Absent => Err(create_error_result("Invalid client or query")),
        QueryArg::NotUtf8 => Err(create_error_result("Invalid UTF-8 in query")),
        QueryArg::Text(q) => {
            match identify_operation_type(q) {
                OperationType::Select => Ok(QueryPlan::RunSelect),
                OperationType::Insert | OperationType::Update | OperationType::Delete => Ok(
                    QueryPlan::RunModification,
                ),
                OperationType::Unknown => Err(create_error_result("Unknown operation type")),
            }
        },
    }
}

/// Release an envelope together with both buffers it may own. Taking the
/// envelope by value makes this the single release site: the payload and
/// the error text are reclaimed here exactly once each, when present,
/// and no use after release can compile.
pub fn free_query_result(result: QueryResult) {
    let _ = result;
}

} // verus!
