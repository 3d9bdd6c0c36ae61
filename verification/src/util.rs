use vstd::prelude::*;

verus! {

/// The query-id tag that write requests carry; it is accepted and otherwise
/// ignored.
#[derive(Clone, Copy, Debug, PartialEq, Eq, Structural)]
pub struct QueryId {
    pub _query_id: u32,
}

/// The empty response body of a successful create or update.
#[derive(Clone, Copy, Debug, PartialEq, Eq, Structural)]
pub struct NewOrUpdateResponse;

} // verus!
