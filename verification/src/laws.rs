use vstd::prelude::*;

use crate::entities::Location;
use crate::entities::User;
use crate::entities::Visit;
use crate::query::effective_visit_params;
use crate::query::passes_date_filters;
use crate::query::LocationAvgParams;
use crate::query::UsersVisitsParams;
use crate::query::VisitInfo;
use crate::seq_util::count_of;
use crate::sort::lemma_sort_by_time_sorted;
use crate::sort::sort_by_time;
use crate::seq_util::lemma_count_positive_implies_contains;
use crate::store::Store;

verus! {

/// For every person and every visit referencing that person, the visit's id
/// appears in the person's index bucket exactly once; it appears in no other
/// person's bucket; and every entry of a person's bucket resolves back to a
/// visit referencing that person.
pub proof fn lemma_person_visits_consistent(s: Store, uid: u32, vid: u32)
    requires
        s.wf(),
    ensures
        s.visits@.contains_key(vid) && s.visits@[vid].user == uid ==> s.user_visits@.contains_key(
            uid,
        ) && count_of(s.user_visits@[uid]@, vid) == 1,
        s.user_visits@.contains_key(uid) && s.visits@.contains_key(vid) && s.visits@[vid].user
            != uid ==> count_of(s.user_visits@[uid]@, vid) == 0,
        forall|i: int|
            s.user_visits@.contains_key(uid) && 0 <= i < s.user_visits@[uid]@.len()
                ==> s.visits@.contains_key(#[trigger] s.user_visits@[uid]@[i]) && s.visits@[
                s.user_visits@[uid]@[i]
            ].user == uid,
{
    if s.user_visits@.contains_key(uid) && s.visits@.contains_key(vid) && s.visits@[vid].user
        != uid {
        if count_of(s.user_visits@[uid]@, vid) > 0 {
            lemma_count_positive_implies_contains(s.user_visits@[uid]@, vid);
            let i = choose|i: int|
                0 <= i < s.user_visits@[uid]@.len() && s.user_visits@[uid]@[i] == vid;
            assert(s.visits@[s.user_visits@[uid]@[i]].user == uid);
            assert(false);
        }
    }
}

/// The mirror of [`lemma_person_visits_consistent`] for places and the
/// place index.
pub proof fn lemma_place_visits_consistent(s: Store, lid: u32, vid: u32)
    requires
        s.wf(),
    ensures
        s.visits@.contains_key(vid) && s.visits@[vid].location == lid
            ==> s.location_visits@.contains_key(lid) && count_of(s.location_visits@[lid]@, vid)
            == 1,
        s.location_visits@.contains_key(lid) && s.visits@.contains_key(vid) && s.visits@[vid].location != lid
            ==> count_of(s.location_visits@[lid]@, vid) == 0,
        forall|i: int|
            s.location_visits@.contains_key(lid) && 0 <= i < s.location_visits@[lid]@.len()
                ==> s.visits@.contains_key(#[trigger] s.location_visits@[lid]@[i]) && s.visits@[
                s.location_visits@[lid]@[i]
            ].location == lid,
{
    if s.location_visits@.contains_key(lid) && s.visits@.contains_key(vid)
        && s.visits@[vid].location != lid {
        if count_of(s.location_visits@[lid]@, vid) > 0 {
            lemma_count_positive_implies_contains(s.location_visits@[lid]@, vid);
            let i = choose|i: int|
                0 <= i < s.location_visits@[lid]@.len() && s.location_visits@[lid]@[i] == vid;
            assert(s.visits@[s.location_visits@[lid]@[i]].location == lid);
            assert(false);
        }
    }
}

/// A lookup or query is a pure function of the store value and its
/// arguments: run twice against the same store, with no write in between, it
/// returns identical results.
pub proof fn lemma_lookup_idempotent(
    s1: Store,
    s2: Store,
    id: u32,
    up: Option<UsersVisitsParams>,
    ap: Option<LocationAvgParams>,
)
    requires
        s1 == s2,
    ensures
        s1.spec_get_user(id) == s2.spec_get_user(id),
        s1.spec_get_location(id) == s2.spec_get_location(id),
        s1.spec_get_visit(id) == s2.spec_get_visit(id),
        s1.spec_users_visits(id, up) == s2.spec_users_visits(id, up),
        s1.spec_location_avg(id, ap) == s2.spec_location_avg(id, ap),
{
}

/// Creating a person and immediately fetching its id returns the record,
/// id included.
pub proof fn lemma_create_then_get_user(before: Store, after: Store, u: User)
    requires
        !before.users@.contains_key(u.id),
        after.users@ == before.users@.insert(u.id, u),
    ensures
        after.spec_get_user(u.id) == Some(u),
{
}

/// Creating a place and immediately fetching its id returns the record.
pub proof fn lemma_create_then_get_location(before: Store, after: Store, l: Location)
    requires
        !before.locations@.contains_key(l.id),
        after.locations@ == before.locations@.insert(l.id, l),
    ensures
        after.spec_get_location(l.id) == Some(l),
{
}

/// Creating a visit and immediately fetching its id returns the record.
pub proof fn lemma_create_then_get_visit(before: Store, after: Store, v: Visit)
    requires
        !before.visits@.contains_key(v.id),
        after.visits@ == before.visits@.insert(v.id, v),
    ensures
        after.spec_get_visit(v.id) == Some(v),
{
}

/// The rows of `project_visits` are the projections of the corresponding
/// visits, in order.
proof fn lemma_project_visits_index(s: Store, vs: Seq<Visit>, j: int, i: int)
    requires
        0 <= i < j,
    ensures
        s.project_visits(vs, j).len() == j,
        s.project_visits(vs, j)[i] == s.project_visit(vs[i]),
    decreases j,
{
    lemma_project_visits_len(s, vs, j - 1);
    if i < j - 1 {
        lemma_project_visits_index(s, vs, j - 1, i);
        assert(s.project_visits(vs, j)[i] == s.project_visits(vs, j - 1)[i]);
    } else {
        assert(s.project_visits(vs, j)[j - 1] == s.project_visit(vs[j - 1]));
    }
}

proof fn lemma_project_visits_len(s: Store, vs: Seq<Visit>, j: int)
    requires
        0 <= j,
    ensures
        s.project_visits(vs, j).len() == j,
    decreases j,
{
    if j > 0 {
        lemma_project_visits_len(s, vs, j - 1);
    }
}

/// A successful person-visits listing is sorted ascending by visit instant.
pub proof fn lemma_users_visits_sorted(
    s: Store,
    id: u32,
    p: Option<UsersVisitsParams>,
    rows: Seq<VisitInfo>,
)
    requires
        s.spec_users_visits(id, p) == Ok::<Seq<VisitInfo>, crate::ApiError>(rows),
    ensures
        forall|i: int, j: int| 0 <= i <= j < rows.len() ==> rows[i].visited_at <= rows[j].visited_at,
{
    if !s.user_visits@.contains_key(id) {
        assert(rows.len() == 0);
    } else {
        let q = effective_visit_params(p);
        let kept = s.user_filtered_upto(id, q, s.user_candidates(id).len() as int);
        let sorted = sort_by_time(kept);
        lemma_sort_by_time_sorted(kept);
        lemma_project_visits_len(s, sorted, sorted.len() as int);
        assert(rows == s.project_visits(sorted, sorted.len() as int));
        assert forall|i: int, j: int| 0 <= i <= j < rows.len() implies rows[i].visited_at
            <= rows[j].visited_at by {
            lemma_project_visits_index(s, sorted, sorted.len() as int, i);
            lemma_project_visits_index(s, sorted, sorted.len() as int, j);
            assert(sorted[i].visited_at <= sorted[j].visited_at);
        }
    }
}

/// Both date bounds are strict open bounds: a visit exactly at the lower or
/// the upper bound is excluded.
pub proof fn lemma_date_bounds_strict(from: i32, to: i32)
    ensures
        !passes_date_filters(Some(from), None, from),
        !passes_date_filters(None, Some(to), to),
{
}

/// The distance bound of the person-visits query is strict: a visit to a
/// place exactly at the bound is excluded.
pub proof fn lemma_distance_bound_strict(s: Store, q: UsersVisitsParams, v: Visit, d: u32)
    requires
        q.to_distance == Some(d),
        s.locations@.contains_key(v.location),
        s.locations@[v.location].distance == d,
    ensures
        !s.visit_passes_user_filters(q, v),
{
}

} // verus!
