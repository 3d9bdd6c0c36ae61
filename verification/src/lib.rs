//! An in-memory indexed store of people, places and visit events, with
//! filtered list and average-rating queries.
//!
//! The store keeps three entity tables keyed by numeric id, two derived
//! reverse-reference indexes (place -> visit ids, person -> visit ids) and a
//! derived age cache, all maintained together on every mutation. Queries
//! evaluate optional conjunctive filters with strict date bounds and return
//! either a time-sorted visit listing or an average rating in fixed-point
//! form.

use vstd::prelude::*;

mod age;
mod entities;
mod gender;
mod ingest;
mod laws;
mod query;
mod seq_util;
mod sort;
mod store;
mod util;

pub use age::calculate_age_from_timestamp;
pub use entities::Location;
pub use entities::LocationUpdate;
pub use entities::User;
pub use entities::UserUpdate;
pub use entities::Visit;
pub use entities::VisitUpdate;
pub use gender::Gender;
pub use query::LocationAvg;
pub use query::LocationAvgParams;
pub use query::UserVisits;
pub use query::UsersVisitsParams;
pub use query::VisitInfo;
pub use store::Store;
pub use util::NewOrUpdateResponse;
pub use util::QueryId;

verus! {

/// How an operation on the store can fail.
#[derive(Clone, Copy, Debug, PartialEq, Eq, Structural)]
pub enum ApiError {
    /// The id named by a lookup or update is absent.
    NotFound,
    /// The id of a created record is already present.
    Conflict,
    /// A filter set was supplied but selects nothing, or a filter value is
    /// invalid.
    BadRequest,
    /// A stored foreign reference could not be resolved.
    Internal,
}

} // verus!
