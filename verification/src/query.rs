use vstd::prelude::*;

use crate::age::calculate_age_from_timestamp;
use crate::age::spec_age;
use crate::entities::Visit;
use crate::gender::Gender;
use crate::sort::sort_by_time;
use crate::sort::sort_visits;
use crate::sort::lemma_sort_by_time_contains;
use crate::store::Store;
use crate::ApiError;
use vstd::pervasive::unreached;

verus! {

broadcast use vstd::std_specs::hash::group_hash_axioms;

/// The optional filters of a person-visits query. An absent filter passes
/// every visit; a supplied filter set must set at least one field.
#[derive(Debug)]
pub struct UsersVisitsParams {
    /// Strict lower bound on the visit instant.
    pub from_date: Option<i32>,
    /// Strict upper bound on the visit instant.
    pub to_date: Option<i32>,
    /// Exact match on the visited place's country.
    pub country: Option<String>,
    /// Strict upper bound on the visited place's distance.
    pub to_distance: Option<u32>,
}

/// One row of a person-visits listing: the rating mark, the visit instant
/// and the display name of the visited place.
#[derive(Debug, PartialEq)]
pub struct VisitInfo {
    pub mark: u8,
    pub visited_at: i32,
    pub place: String,
}

/// The result of a person-visits query: matching visits sorted ascending by
/// visit instant.
#[derive(Debug, PartialEq)]
pub struct UserVisits {
    pub visits: Vec<VisitInfo>,
}

/// The optional filters of a place-average query. An absent filter passes
/// every visit; a supplied filter set must set at least one field, and a
/// gender filter must be `Male` or `Female`.
#[derive(Debug, Clone, Copy)]
pub struct LocationAvgParams {
    /// Strict lower bound on the visit instant.
    pub from_date: Option<i32>,
    /// Strict upper bound on the visit instant.
    pub to_date: Option<i32>,
    /// Inclusive lower bound on the visitor's age.
    pub from_age: Option<i32>,
    /// Strict upper bound on the visitor's age.
    pub to_age: Option<i32>,
    /// Exact match on the visitor's gender.
    pub gender: Option<Gender>,
}

/// The result of a place-average query: the average rating scaled by
/// `100000` (five decimal digits), rounded half away from zero.
#[derive(Debug, Clone, Copy, PartialEq, Eq, Structural)]
pub struct LocationAvg {
    pub avg_e5: u64,
}

impl Clone for UsersVisitsParams {
    fn clone(&self) -> (r: Self)
        ensures
            r == *self,
    {
        UsersVisitsParams {
            from_date: self.from_date,
            to_date: self.to_date,
            country: match &self.country {
                Some(c) => Some(c.clone()),
                None => None,
            },
            to_distance: self.to_distance,
        }
    }
}

/// Both optional date bounds pass: the lower bound is strictly below the
/// visit instant and the upper bound strictly above it.
pub open spec fn passes_date_filters(from: Option<i32>, to: Option<i32>, t: i32) -> bool {
    &&& (match from {
        Some(f) => f < t,
        None => true,
    })
    &&& (match to {
        Some(td) => t < td,
        None => true,
    })
}

/// The filter set a person-visits query runs under: the supplied one, or the
/// all-absent set that passes everything when none was supplied.
pub open spec fn effective_visit_params(p: Option<UsersVisitsParams>) -> UsersVisitsParams {
    match p {
        Some(q) => q,
        None => UsersVisitsParams { from_date: None, to_date: None, country: None, to_distance: None },
    }
}

/// No field of the filter set is set.
pub open spec fn visit_params_empty(q: UsersVisitsParams) -> bool {
    q.from_date is None && q.to_date is None && q.country is None && q.to_distance is None
}

/// The filter set a place-average query runs under.
pub open spec fn effective_avg_params(p: Option<LocationAvgParams>) -> LocationAvgParams {
    match p {
        Some(q) => q,
        None => LocationAvgParams {
            from_date: None,
            to_date: None,
            from_age: None,
            to_age: None,
            gender: None,
        },
    }
}

/// No field of the filter set is set.
pub open spec fn avg_params_empty(q: LocationAvgParams) -> bool {
    q.from_date is None && q.to_date is None && q.from_age is None && q.to_age is None
        && q.gender is None
}

/// Some filter of the place-average query reads the visitor's record.
pub open spec fn avg_needs_visitor(q: LocationAvgParams) -> bool {
    q.from_age is Some || q.to_age is Some || q.gender is Some
}

/// Sum of the rating marks of a sequence of visits.
pub open spec fn sum_marks(s: Seq<Visit>) -> int
    decreases s.len(),
{
    if s.len() == 0 {
        0
    } else {
        sum_marks(s.drop_last()) + s.last().mark
    }
}

/// The average `sum / count` scaled by `100000` and rounded half away from
/// zero, as exact integer arithmetic; `0` when the sum is `0`, which covers
/// the empty case without dividing by zero.
pub open spec fn avg_e5_of(sum: int, count: int) -> int {
    if sum == 0 {
        0
    } else {
        (200000 * sum + count) / (2 * count)
    }
}

proof fn lemma_sum_marks_push(s: Seq<Visit>, v: Visit)
    ensures
        sum_marks(s.push(v)) == sum_marks(s) + v.mark,
{
    assert(s.push(v).drop_last() =~= s);
    assert(s.push(v).last() == v);
}

proof fn lemma_sum_marks_bound(s: Seq<Visit>)
    ensures
        0 <= sum_marks(s) <= 255 * s.len(),
    decreases s.len(),
{
    if s.len() > 0 {
        lemma_sum_marks_bound(s.drop_last());
    }
}

impl Store {
    /// The visits in the bucket of person `id`, resolved to records, in
    /// index order; empty when the person has no bucket.
    pub open spec fn user_candidates(self, id: u32) -> Seq<Visit> {
        if self.user_visits@.contains_key(id) {
            self.user_visits@[id]@.map_values(|vid: u32| self.visits@[vid])
        } else {
            Seq::empty()
        }
    }

    /// The visits in the bucket of place `id`, resolved to records, in index
    /// order; empty when the place has no bucket.
    pub open spec fn location_candidates(self, id: u32) -> Seq<Visit> {
        if self.location_visits@.contains_key(id) {
            self.location_visits@[id]@.map_values(|vid: u32| self.visits@[vid])
        } else {
            Seq::empty()
        }
    }

    /// All filters of a person-visits query pass for `v`: strict date
    /// bounds, exact country match on the visited place, and strict distance
    /// bound on the visited place.
    pub open spec fn visit_passes_user_filters(self, q: UsersVisitsParams, v: Visit) -> bool {
        &&& passes_date_filters(q.from_date, q.to_date, v.visited_at)
        &&& (match q.country {
            Some(c) => self.locations@.contains_key(v.location) && self.locations@[
                v.location
            ].country@ == c@,
            None => true,
        })
        &&& (match q.to_distance {
            Some(d) => self.locations@.contains_key(v.location) && self.locations@[
                v.location
            ].distance < d,
            None => true,
        })
    }

    /// The first `i` candidates of person `id` that pass every filter, in
    /// index order.
    pub open spec fn user_filtered_upto(self, id: u32, q: UsersVisitsParams, i: int) -> Seq<Visit>
        decreases i,
    {
        if i <= 0 {
            Seq::empty()
        } else {
            let pre = self.user_filtered_upto(id, q, i - 1);
            let v = self.user_candidates(id)[i - 1];
            if self.visit_passes_user_filters(q, v) {
                pre.push(v)
            } else {
                pre
            }
        }
    }

    /// Some candidate that passes the date filters references a place that
    /// does not resolve, so the query cannot evaluate its filters or project
    /// its result: it fails with `Internal`.
    pub open spec fn user_query_blocked(self, id: u32, q: UsersVisitsParams) -> bool {
        exists|i: int|
            #![trigger self.user_candidates(id)[i]]
            0 <= i < self.user_candidates(id).len() && {
                let v = self.user_candidates(id)[i];
                passes_date_filters(q.from_date, q.to_date, v.visited_at)
                    && !self.locations@.contains_key(v.location)
            }
    }

    /// The listing row for `v`: mark, instant, and the display name of the
    /// visited place.
    pub open spec fn project_visit(self, v: Visit) -> VisitInfo {
        VisitInfo { mark: v.mark, visited_at: v.visited_at, place: self.locations@[v.location].place }
    }

    /// The first `j` visits of `s` projected to listing rows.
    pub open spec fn project_visits(self, s: Seq<Visit>, j: int) -> Seq<VisitInfo>
        decreases j,
    {
        if j <= 0 {
            Seq::empty()
        } else {
            self.project_visits(s, j - 1).push(self.project_visit(s[j - 1]))
        }
    }

    /// What a person-visits query returns, for every input.
    pub open spec fn spec_users_visits(self, id: u32, p: Option<UsersVisitsParams>) -> Result<
        Seq<VisitInfo>,
        ApiError,
    > {
        let q = effective_visit_params(p);
        if !self.users@.contains_key(id) {
            Err(ApiError::NotFound)
        } else if p is Some && visit_params_empty(q) {
            Err(ApiError::BadRequest)
        } else if !self.user_visits@.contains_key(id) {
            Ok(Seq::empty())
        } else if self.user_query_blocked(id, q) {
            Err(ApiError::Internal)
        } else {
            let kept = self.user_filtered_upto(id, q, self.user_candidates(id).len() as int);
            Ok(self.project_visits(sort_by_time(kept), sort_by_time(kept).len() as int))
        }
    }

    /// All filters of a place-average query pass for `v`: strict date
    /// bounds, inclusive lower and strict upper age bound on the visitor,
    /// and exact gender match on the visitor.
    pub open spec fn visit_passes_avg_filters(self, q: LocationAvgParams, v: Visit) -> bool {
        &&& passes_date_filters(q.from_date, q.to_date, v.visited_at)
        &&& (match q.from_age {
            Some(a) => self.users@.contains_key(v.user) && a as int <= spec_age(
                self.users@[v.user].birth_date,
                self.now,
            ),
            None => true,
        })
        &&& (match q.to_age {
            Some(a) => self.users@.contains_key(v.user) && spec_age(
                self.users@[v.user].birth_date,
                self.now,
            ) < a as int,
            None => true,
        })
        &&& (match q.gender {
            Some(g) => self.users@.contains_key(v.user) && self.users@[v.user].gender == g,
            None => true,
        })
    }

    /// The first `i` candidates of place `id` that pass every filter, in
    /// index order.
    pub open spec fn avg_filtered_upto(self, id: u32, q: LocationAvgParams, i: int) -> Seq<Visit>
        decreases i,
    {
        if i <= 0 {
            Seq::empty()
        } else {
            let pre = self.avg_filtered_upto(id, q, i - 1);
            let v = self.location_candidates(id)[i - 1];
            if self.visit_passes_avg_filters(q, v) {
                pre.push(v)
            } else {
                pre
            }
        }
    }

    /// An age or gender filter is set and some candidate that passes the
    /// date filters references a person that does not resolve: the query
    /// fails with `Internal`.
    pub open spec fn avg_query_blocked(self, id: u32, q: LocationAvgParams) -> bool {
        avg_needs_visitor(q) && exists|i: int|
            #![trigger self.location_candidates(id)[i]]
            0 <= i < self.location_candidates(id).len() && {
                let v = self.location_candidates(id)[i];
                passes_date_filters(q.from_date, q.to_date, v.visited_at)
                    && !self.users@.contains_key(v.user)
            }
    }

    /// What a place-average query returns, for every input.
    pub open spec fn spec_location_avg(self, id: u32, p: Option<LocationAvgParams>) -> Result<
        int,
        ApiError,
    > {
        let q = effective_avg_params(p);
        if !self.locations@.contains_key(id) {
            Err(ApiError::NotFound)
        } else if p is Some && q.gender == Some(Gender::Unknown) {
            Err(ApiError::BadRequest)
        } else if p is Some && avg_params_empty(q) {
            Err(ApiError::BadRequest)
        } else if !self.location_visits@.contains_key(id) {
            Ok(0)
        } else if self.avg_query_blocked(id, q) {
            Err(ApiError::Internal)
        } else {
            let kept = self.avg_filtered_upto(id, q, self.location_candidates(id).len() as int);
            Ok(avg_e5_of(sum_marks(kept), kept.len() as int))
        }
    }
}

impl Store {
    /// Lists the visits of person `id` under the optional filter set:
    /// `NotFound` when the person is absent; `BadRequest` when a filter set
    /// is supplied with no field set; otherwise the candidate visits from
    /// the person's index bucket that pass every filter, sorted ascending by
    /// visit instant — ties keep index order — and projected to listing
    /// rows. `Internal` reports a stored place reference that does not
    /// resolve.
    #[verifier::loop_isolation(false)]
    pub fn users_visits(&self, id: u32, params: Option<UsersVisitsParams>) -> (r: Result<
        UserVisits,
        ApiError,
    >)
        requires
            self.wf(),
        ensures
            ({
                let expected = self.spec_users_visits(id, params);
                match r {
                    Ok(uv) => expected == Ok::<Seq<VisitInfo>, ApiError>(uv.visits@),
                    Err(e) => expected == Err::<Seq<VisitInfo>, ApiError>(e),
                }
            }),
    {
        if !self.users.contains_key(&id) {
            return Err(ApiError::NotFound);
        }
        let ghost q = effective_visit_params(params);
        let mut from_date: Option<i32> = None;
        let mut to_date: Option<i32> = None;
        let mut country: Option<String> = None;
        let mut to_distance: Option<u32> = None;
        match params {
            Some(p) => {
                let UsersVisitsParams {
                    from_date: fd,
                    to_date: td,
                    country: c,
                    to_distance: tdist,
                } = p;
                if fd.is_none() && td.is_none() && c.is_none() && tdist.is_none() {
                    return Err(ApiError::BadRequest);
                }
                from_date = fd;
                to_date = td;
                country = c;
                to_distance = tdist;
            },
            None => {},
        }
        proof {
            assert(from_date == q.from_date);
            assert(to_date == q.to_date);
            assert(country == q.country);
            assert(to_distance == q.to_distance);
        }
        let bucket = match self.user_visits.get(&id) {
            Some(b) => b,
            None => {
                return Ok(UserVisits { visits: Vec::new() });
            },
        };
        let ghost cands = self.user_candidates(id);
        let mut selected: Vec<Visit> = Vec::new();
        let mut i: usize = 0;
        while i < bucket.len()
            invariant
                i <= bucket@.len(),
                selected@ == self.user_filtered_upto(id, q, i as int),
                forall|m: int|
                    0 <= m < i ==> !(passes_date_filters(
                        q.from_date,
                        q.to_date,
                        cands[m].visited_at,
                    ) && !self.locations@.contains_key(cands[m].location)),
            decreases bucket@.len() - i,
        {
            let vid = bucket[i];
            proof {
                assert(self.user_visits@[id]@[i as int] == vid);
                assert(self.visits@.contains_key(vid));
                assert(cands[i as int] == self.visits@[vid]);
            }
            let v: Visit = match self.visits.get(&vid) {
                Some(vv) => *vv,
                None => unreached(),
            };
            let date_ok = (match from_date {
                Some(f) => f < v.visited_at,
                None => true,
            }) && (match to_date {
                Some(t) => v.visited_at < t,
                None => true,
            });
            if date_ok {
                let loc = match self.locations.get(&v.location) {
                    Some(l) => l,
                    None => {
                        proof {
                            assert(cands[i as int] == v);
                        }
                        return Err(ApiError::Internal);
                    },
                };
                let mut keep = true;
                match &country {
                    Some(c) => {
                        if !(loc.country == *c) {
                            keep = false;
                        }
                    },
                    None => {},
                }
                match to_distance {
                    Some(d) => {
                        if !(loc.distance < d) {
                            keep = false;
                        }
                    },
                    None => {},
                }
                if keep {
                    selected.push(v);
                }
                proof {
                    assert(keep == self.visit_passes_user_filters(q, v));
                }
            }
            i += 1;
        }
        proof {
            assert(cands.len() == bucket@.len());
            if self.user_query_blocked(id, q) {
                let m = choose|m: int|
                    0 <= m < cands.len() && passes_date_filters(
                        q.from_date,
                        q.to_date,
                        cands[m].visited_at,
                    ) && !self.locations@.contains_key(cands[m].location);
                assert(false);
            }
        }
        let ghost kept = self.user_filtered_upto(id, q, cands.len() as int);
        let sorted = sort_visits(selected);
        let mut out: Vec<VisitInfo> = Vec::new();
        let mut j: usize = 0;
        while j < sorted.len()
            invariant
                j <= sorted@.len(),
                out@ == self.project_visits(sorted@, j as int),
            decreases sorted@.len() - j,
        {
            let v = sorted[j];
            proof {
                assert(sorted@[j as int] == v);
                assert(sorted@.contains(v));
                lemma_sort_by_time_contains(kept, v);
                lemma_user_filtered_element(*self, id, q, cands.len() as int, v);
                if !self.locations@.contains_key(v.location) {
                    let m = choose|m: int| 0 <= m < cands.len() && cands[m] == v;
                    assert(passes_date_filters(q.from_date, q.to_date, cands[m].visited_at));
                    assert(self.user_query_blocked(id, q));
                    assert(false);
                }
            }
            let loc = match self.locations.get(&v.location) {
                Some(l) => l,
                None => unreached(),
            };
            out.push(
                VisitInfo { mark: v.mark, visited_at: v.visited_at, place: loc.place.clone() },
            );
            j += 1;
        }
        Ok(UserVisits { visits: out })
    }
}

impl Store {
    /// Average rating of place `id` under the optional filter set:
    /// `NotFound` when the place is absent; `BadRequest` when a gender
    /// filter is not `Male` or `Female`, or when a filter set is supplied
    /// with no field set; `0` without filter evaluation when the place has
    /// no index bucket; otherwise the average mark of the candidate visits
    /// that pass every filter, scaled by `100000` and rounded half away from
    /// zero. `Internal` reports a stored person reference that an age or
    /// gender filter needs but cannot resolve.
    #[verifier::loop_isolation(false)]
    #[verifier::rlimit(50)]
    pub fn locations_avg(&self, id: u32, params: Option<LocationAvgParams>) -> (r: Result<
        LocationAvg,
        ApiError,
    >)
        requires
            self.wf(),
        ensures
            ({
                let expected = self.spec_location_avg(id, params);
                match r {
                    Ok(a) => expected == Ok::<int, ApiError>(a.avg_e5 as int),
                    Err(e) => expected == Err::<int, ApiError>(e),
                }
            }),
    {
        if !self.locations.contains_key(&id) {
            return Err(ApiError::NotFound);
        }
        let ghost q = effective_avg_params(params);
        let p = match params {
            Some(p) => {
                match p.gender {
                    Some(g) => {
                        match g {
                            Gender::Unknown => {
                                return Err(ApiError::BadRequest);
                            },
                            _ => {},
                        }
                    },
                    None => {},
                }
                if p.from_age.is_none() && p.from_date.is_none() && p.gender.is_none()
                    && p.to_age.is_none() && p.to_date.is_none() {
                    return Err(ApiError::BadRequest);
                }
                p
            },
            None => LocationAvgParams {
                from_date: None,
                to_date: None,
                from_age: None,
                to_age: None,
                gender: None,
            },
        };
        proof {
            assert(p == q);
        }
        let bucket = match self.location_visits.get(&id) {
            Some(b) => b,
            None => {
                return Ok(LocationAvg { avg_e5: 0 });
            },
        };
        let ghost cands = self.location_candidates(id);
        let needs_visitor = p.from_age.is_some() || p.to_age.is_some() || p.gender.is_some();
        let mut sum: u128 = 0;
        let mut count: usize = 0;
        let mut i: usize = 0;
        while i < bucket.len()
            invariant
                i <= bucket@.len(),
                count <= i,
                sum as int == sum_marks(self.avg_filtered_upto(id, q, i as int)),
                count as int == self.avg_filtered_upto(id, q, i as int).len(),
                sum as int <= 255 * (count as int),
                avg_needs_visitor(q) ==> forall|m: int|
                    0 <= m < i ==> !(passes_date_filters(
                        q.from_date,
                        q.to_date,
                        cands[m].visited_at,
                    ) && !self.users@.contains_key(cands[m].user)),
            decreases bucket@.len() - i,
        {
            let vid = bucket[i];
            proof {
                assert(self.location_visits@[id]@[i as int] == vid);
                assert(self.visits@.contains_key(vid));
                assert(cands[i as int] == self.visits@[vid]);
            }
            let v: Visit = match self.visits.get(&vid) {
                Some(vv) => *vv,
                None => unreached(),
            };
            let date_ok = (match p.from_date {
                Some(f) => f < v.visited_at,
                None => true,
            }) && (match p.to_date {
                Some(t) => v.visited_at < t,
                None => true,
            });
            if date_ok {
                let mut keep = true;
                if needs_visitor {
                    let visitor = match self.users.get(&v.user) {
                        Some(u) => u,
                        None => {
                            proof {
                                assert(cands[i as int] == v);
                            }
                            return Err(ApiError::Internal);
                        },
                    };
                    if p.from_age.is_some() || p.to_age.is_some() {
                        let age = calculate_age_from_timestamp(visitor.birth_date, self.now);
                        match p.from_age {
                            Some(a) => {
                                if !(a <= age) {
                                    keep = false;
                                }
                            },
                            None => {},
                        }
                        match p.to_age {
                            Some(a) => {
                                if !(age < a) {
                                    keep = false;
                                }
                            },
                            None => {},
                        }
                    }
                    match p.gender {
                        Some(g) => {
                            if !(visitor.gender == g) {
                                keep = false;
                            }
                        },
                        None => {},
                    }
                }
                proof {
                    assert(keep == self.visit_passes_avg_filters(q, v));
                    if keep {
                        lemma_sum_marks_push(self.avg_filtered_upto(id, q, i as int), v);
                    }
                }
                if keep {
                    sum = sum + (v.mark as u128);
                    count = count + 1;
                }
            }
            i += 1;
        }
        proof {
            assert(cands.len() == bucket@.len());
            if self.avg_query_blocked(id, q) {
                let m = choose|m: int|
                    0 <= m < cands.len() && passes_date_filters(
                        q.from_date,
                        q.to_date,
                        cands[m].visited_at,
                    ) && !self.users@.contains_key(cands[m].user);
                assert(false);
            }
        }
        let avg_e5: u64 = if sum == 0 {
            0
        } else {
            let num: u128 = 200000u128 * sum + (count as u128);
            let den: u128 = 2u128 * (count as u128);
            proof {
                assert(count >= 1);
                assert(num as int / den as int <= 25500000) by (nonlinear_arith)
                    requires
                        sum as int <= 255 * (count as int),
                        count >= 1,
                        sum >= 1,
                        num as int == 200000 * (sum as int) + count as int,
                        den as int == 2 * (count as int),
                ;
            }
            (num / den) as u64
        };
        Ok(LocationAvg { avg_e5 })
    }
}

/// Every kept visit passes the filters and comes from the candidate prefix.
proof fn lemma_user_filtered_element(s: Store, id: u32, q: UsersVisitsParams, i: int, x: Visit)
    requires
        s.user_filtered_upto(id, q, i).contains(x),
    ensures
        s.visit_passes_user_filters(q, x),
        exists|m: int| 0 <= m < i && s.user_candidates(id)[m] == x,
    decreases i,
{
    if i <= 0 {
        assert(false);
    } else {
        let pre = s.user_filtered_upto(id, q, i - 1);
        let v = s.user_candidates(id)[i - 1];
        if s.visit_passes_user_filters(q, v) {
            if x == v {
                assert(0 <= i - 1 < i && s.user_candidates(id)[i - 1] == x);
            } else {
                assert(pre.contains(x)) by {
                    let n = choose|n: int| 0 <= n < pre.push(v).len() && pre.push(v)[n] == x;
                    assert(pre[n] == x);
                }
                lemma_user_filtered_element(s, id, q, i - 1, x);
                let m = choose|m: int| 0 <= m < i - 1 && s.user_candidates(id)[m] == x;
                assert(0 <= m < i && s.user_candidates(id)[m] == x);
            }
        } else {
            lemma_user_filtered_element(s, id, q, i - 1, x);
            let m = choose|m: int| 0 <= m < i - 1 && s.user_candidates(id)[m] == x;
            assert(0 <= m < i && s.user_candidates(id)[m] == x);
        }
    }
}

} // verus!
