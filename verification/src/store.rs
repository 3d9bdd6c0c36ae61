use vstd::prelude::*;

use std::collections::HashMap;

use crate::age::calculate_age_from_timestamp;
use crate::age::spec_age;
use crate::entities::apply_location_update;
use crate::entities::apply_user_update;
use crate::entities::apply_visit_update;
use crate::entities::Location;
use crate::entities::LocationUpdate;
use crate::entities::User;
use crate::entities::UserUpdate;
use crate::entities::Visit;
use crate::entities::VisitUpdate;
use crate::gender::Gender;
use crate::seq_util::count_of;
use crate::seq_util::lemma_count_push;
use crate::seq_util::lemma_count_zero_iff_absent;
use crate::seq_util::lemma_remove_all_element;
use crate::seq_util::lemma_remove_all_keeps_others;
use crate::seq_util::lemma_remove_all_removes;
use crate::seq_util::remove_all;
use crate::ApiError;
use vstd::pervasive::unreached;

verus! {

broadcast use vstd::std_specs::hash::group_hash_axioms;

/// The key of `v` in one of the two derived indexes: the person id when
/// `by_user` holds, the place id otherwise.
pub open spec fn index_key(v: Visit, by_user: bool) -> u32 {
    if by_user {
        v.user
    } else {
        v.location
    }
}

/// The derived index `idx` is consistent with the visit table: every visit
/// appears in the bucket of its own key exactly once, and every bucket entry
/// resolves back to a visit with that key.
pub open spec fn index_ok(idx: Map<u32, Vec<u32>>, visits: Map<u32, Visit>, by_user: bool) -> bool {
    &&& forall|vid: u32| #[trigger]
        visits.contains_key(vid) ==> {
            let k = index_key(visits[vid], by_user);
            idx.contains_key(k) && count_of(idx[k]@, vid) == 1
        }
    &&& forall|k: u32, i: int|
        #![trigger idx[k]@[i]]
        idx.contains_key(k) && 0 <= i < idx[k]@.len() ==> {
            let vid = idx[k]@[i];
            visits.contains_key(vid) && index_key(visits[vid], by_user) == k
        }
}

/// `after` is `before` with `vid` appended to the bucket of `k` (the bucket
/// is created when absent); every other bucket is untouched.
pub open spec fn bucket_appended(
    before: Map<u32, Vec<u32>>,
    after: Map<u32, Vec<u32>>,
    k: u32,
    vid: u32,
) -> bool {
    &&& after.dom() == before.dom().insert(k)
    &&& after.contains_key(k)
    &&& after[k]@ == (if before.contains_key(k) {
        before[k]@
    } else {
        Seq::<u32>::empty()
    }).push(vid)
    &&& forall|k2: u32| #[trigger]
        before.contains_key(k2) && k2 != k ==> after.contains_key(k2) && after[k2] == before[k2]
}

/// `after` is `before` with `vid` filtered out of the bucket of `k_old` and
/// appended to the bucket of `k_new` (created when absent); every other
/// bucket is untouched.
pub open spec fn bucket_relocated(
    before: Map<u32, Vec<u32>>,
    after: Map<u32, Vec<u32>>,
    k_old: u32,
    k_new: u32,
    vid: u32,
) -> bool {
    &&& after.dom() == before.dom().insert(k_new)
    &&& after.contains_key(k_old)
    &&& after.contains_key(k_new)
    &&& after[k_old]@ == remove_all(before[k_old]@, vid)
    &&& after[k_new]@ == (if before.contains_key(k_new) {
        before[k_new]@
    } else {
        Seq::<u32>::empty()
    }).push(vid)
    &&& forall|k2: u32| #[trigger]
        before.contains_key(k2) && k2 != k_old && k2 != k_new ==> after.contains_key(k2)
            && after[k2] == before[k2]
}

/// `after` is `before` with the age for `birth` at `now` written under `id`;
/// every other entry is untouched.
pub open spec fn ages_extended(
    before: Map<u32, i32>,
    after: Map<u32, i32>,
    id: u32,
    birth: i32,
    now: i32,
) -> bool {
    &&& after.dom() == before.dom().insert(id)
    &&& after.contains_key(id)
    &&& after[id] as int == spec_age(birth, now)
    &&& forall|k: u32| #[trigger]
        before.contains_key(k) && k != id ==> after.contains_key(k) && after[k] == before[k]
}

/// Appends `vid` to the bucket of `k`, creating the bucket when absent.
fn append_to_bucket(idx: &mut HashMap<u32, Vec<u32>>, k: u32, vid: u32)
    ensures
        bucket_appended(old(idx)@, final(idx)@, k, vid),
{
    let mut b = match idx.remove(&k) {
        Some(b) => b,
        None => Vec::new(),
    };
    b.push(vid);
    idx.insert(k, b);
    proof {
        assert(idx@.dom() =~= old(idx)@.dom().insert(k));
    }
}

/// Appending a fresh visit's id to the bucket of its key keeps the index
/// consistent with the grown visit table.
proof fn lemma_index_ok_after_append(
    before_idx: Map<u32, Vec<u32>>,
    after_idx: Map<u32, Vec<u32>>,
    before_visits: Map<u32, Visit>,
    after_visits: Map<u32, Visit>,
    visit: Visit,
    by_user: bool,
)
    requires
        index_ok(before_idx, before_visits, by_user),
        !before_visits.contains_key(visit.id),
        bucket_appended(before_idx, after_idx, index_key(visit, by_user), visit.id),
        after_visits == before_visits.insert(visit.id, visit),
    ensures
        index_ok(after_idx, after_visits, by_user),
{
    let k = index_key(visit, by_user);
    let vid = visit.id;
    let old_bucket: Seq<u32> = if before_idx.contains_key(k) {
        before_idx[k]@
    } else {
        Seq::<u32>::empty()
    };
    assert(!old_bucket.contains(vid)) by {
        if old_bucket.contains(vid) {
            let i = choose|i: int| 0 <= i < old_bucket.len() && old_bucket[i] == vid;
            assert(before_idx[k]@[i] == vid);
            assert(before_visits.contains_key(vid));
        }
    }
    lemma_count_zero_iff_absent(old_bucket, vid);
    lemma_count_push(old_bucket, vid, vid);
    assert forall|wid: u32| #[trigger] after_visits.contains_key(wid) implies {
        let k2 = index_key(after_visits[wid], by_user);
        after_idx.contains_key(k2) && count_of(after_idx[k2]@, wid) == 1
    } by {
        if wid == vid {
            assert(count_of(after_idx[k]@, vid) == 1);
        } else {
            assert(before_visits.contains_key(wid));
            let k2 = index_key(before_visits[wid], by_user);
            assert(before_idx.contains_key(k2) && count_of(before_idx[k2]@, wid) == 1);
            if k2 == k {
                lemma_count_push(old_bucket, wid, vid);
            }
        }
    }
    assert forall|k2: u32, i: int|
        #![trigger after_idx[k2]@[i]]
        after_idx.contains_key(k2) && 0 <= i < after_idx[k2]@.len() implies {
        let wid = after_idx[k2]@[i];
        after_visits.contains_key(wid) && index_key(after_visits[wid], by_user) == k2
    } by {
        if k2 == k {
            if i < old_bucket.len() {
                assert(after_idx[k]@[i] == old_bucket[i]);
                assert(before_idx.contains_key(k) && before_idx[k]@[i] == old_bucket[i]);
            } else {
                assert(after_idx[k]@[i] == vid);
            }
        } else {
            assert(before_idx.contains_key(k2));
            assert(after_idx[k2] == before_idx[k2]);
            assert(before_idx[k2]@[i] == after_idx[k2]@[i]);
        }
    }
}

/// Copies `b` without any occurrence of `x`, keeping the order of the other
/// elements.
fn vec_without(b: &Vec<u32>, x: u32) -> (r: Vec<u32>)
    ensures
        r@ == remove_all(b@, x),
{
    let mut r: Vec<u32> = Vec::new();
    let mut i: usize = 0;
    while i < b.len()
        invariant
            i <= b@.len(),
            r@ == remove_all(b@.take(i as int), x),
        decreases b@.len() - i,
    {
        proof {
            assert(b@.take(i as int + 1).drop_last() =~= b@.take(i as int));
            assert(b@.take(i as int + 1).last() == b@[i as int]);
        }
        if b[i] != x {
            r.push(b[i]);
        }
        i += 1;
    }
    proof {
        assert(b@.take(b@.len() as int) =~= b@);
    }
    r
}

/// Removes `vid` from the bucket of `k_old` and appends it to the bucket of
/// `k_new`, creating the latter when absent.
fn relocate_bucket(idx: &mut HashMap<u32, Vec<u32>>, k_old: u32, k_new: u32, vid: u32)
    requires
        k_old != k_new,
        old(idx)@.contains_key(k_old),
    ensures
        bucket_relocated(old(idx)@, final(idx)@, k_old, k_new, vid),
{
    let b = match idx.remove(&k_old) {
        Some(b) => b,
        None => unreached(),
    };
    let filtered = vec_without(&b, vid);
    idx.insert(k_old, filtered);
    let ghost mid = idx@;
    proof {
        assert(mid.dom() =~= old(idx)@.dom());
    }
    append_to_bucket(idx, k_new, vid);
    proof {
        assert(idx@.dom() =~= old(idx)@.dom().insert(k_new));
    }
}

/// Relocating a stored visit's id from its old bucket to the bucket of its
/// new key keeps the index consistent with the rewritten visit table.
proof fn lemma_index_ok_after_relocate(
    before_idx: Map<u32, Vec<u32>>,
    after_idx: Map<u32, Vec<u32>>,
    before_visits: Map<u32, Visit>,
    after_visits: Map<u32, Visit>,
    vid: u32,
    new_rec: Visit,
    by_user: bool,
)
    requires
        index_ok(before_idx, before_visits, by_user),
        before_visits.contains_key(vid),
        index_key(before_visits[vid], by_user) != index_key(new_rec, by_user),
        bucket_relocated(
            before_idx,
            after_idx,
            index_key(before_visits[vid], by_user),
            index_key(new_rec, by_user),
            vid,
        ),
        after_visits == before_visits.insert(vid, new_rec),
    ensures
        index_ok(after_idx, after_visits, by_user),
{
    let k_old = index_key(before_visits[vid], by_user);
    let k_new = index_key(new_rec, by_user);
    let old_bucket = before_idx[k_old]@;
    let new_src: Seq<u32> = if before_idx.contains_key(k_new) {
        before_idx[k_new]@
    } else {
        Seq::<u32>::empty()
    };
    assert(!new_src.contains(vid)) by {
        if new_src.contains(vid) {
            let i = choose|i: int| 0 <= i < new_src.len() && new_src[i] == vid;
            assert(before_idx[k_new]@[i] == vid);
        }
    }
    lemma_count_zero_iff_absent(new_src, vid);
    lemma_count_push(new_src, vid, vid);
    lemma_remove_all_removes(old_bucket, vid);
    assert forall|wid: u32| #[trigger] after_visits.contains_key(wid) implies {
        let k2 = index_key(after_visits[wid], by_user);
        after_idx.contains_key(k2) && count_of(after_idx[k2]@, wid) == 1
    } by {
        if wid == vid {
            assert(count_of(after_idx[k_new]@, vid) == 1);
        } else {
            assert(before_visits.contains_key(wid));
            let k2 = index_key(before_visits[wid], by_user);
            assert(before_idx.contains_key(k2) && count_of(before_idx[k2]@, wid) == 1);
            if k2 == k_old {
                lemma_remove_all_keeps_others(old_bucket, vid, wid);
            } else if k2 == k_new {
                lemma_count_push(new_src, wid, vid);
            }
        }
    }
    assert forall|k2: u32, i: int|
        #![trigger after_idx[k2]@[i]]
        after_idx.contains_key(k2) && 0 <= i < after_idx[k2]@.len() implies {
        let wid = after_idx[k2]@[i];
        after_visits.contains_key(wid) && index_key(after_visits[wid], by_user) == k2
    } by {
        if k2 == k_new {
            if i < new_src.len() {
                assert(after_idx[k_new]@[i] == new_src[i]);
                assert(before_idx.contains_key(k_new) && before_idx[k_new]@[i] == new_src[i]);
            } else {
                assert(after_idx[k_new]@[i] == vid);
            }
        } else if k2 == k_old {
            lemma_remove_all_element(old_bucket, vid, i);
            let wid = after_idx[k_old]@[i];
            let j = choose|j: int| 0 <= j < old_bucket.len() && old_bucket[j] == wid;
            assert(before_idx[k_old]@[j] == wid);
        } else {
            assert(before_idx.contains_key(k2));
            assert(after_idx[k2] == before_idx[k2]);
            assert(before_idx[k2]@[i] == after_idx[k2]@[i]);
        }
    }
}

/// Rewriting a stored visit without changing its key leaves the index
/// consistent.
proof fn lemma_index_ok_after_same_key_update(
    idx: Map<u32, Vec<u32>>,
    before_visits: Map<u32, Visit>,
    after_visits: Map<u32, Visit>,
    vid: u32,
    new_rec: Visit,
    by_user: bool,
)
    requires
        index_ok(idx, before_visits, by_user),
        before_visits.contains_key(vid),
        index_key(before_visits[vid], by_user) == index_key(new_rec, by_user),
        after_visits == before_visits.insert(vid, new_rec),
    ensures
        index_ok(idx, after_visits, by_user),
{
    assert forall|wid: u32| #[trigger] after_visits.contains_key(wid) implies {
        let k2 = index_key(after_visits[wid], by_user);
        idx.contains_key(k2) && count_of(idx[k2]@, wid) == 1
    } by {
        assert(before_visits.contains_key(wid));
    }
    assert forall|k2: u32, i: int|
        #![trigger idx[k2]@[i]]
        idx.contains_key(k2) && 0 <= i < idx[k2]@.len() implies {
        let wid = idx[k2]@[i];
        after_visits.contains_key(wid) && index_key(after_visits[wid], by_user) == k2
    } by {
        assert(idx[k2]@[i] == idx[k2]@[i]);
    }
}

/// The indexed entity store: three entity tables, the two derived
/// reverse-reference indexes, the derived age cache, and the fixed reference
/// instant used for every age computation.
///
/// The entity tables are the source of truth; the indexes and the age cache
/// are caches maintained exclusively by the store's own operations, never
/// written from outside.
pub struct Store {
    pub users: HashMap<u32, User>,
    pub locations: HashMap<u32, Location>,
    pub visits: HashMap<u32, Visit>,
    pub ages: HashMap<u32, i32>,
    pub location_visits: HashMap<u32, Vec<u32>>,
    pub user_visits: HashMap<u32, Vec<u32>>,
    /// The reference instant, seconds since the Unix epoch, fixed at
    /// construction.
    pub now: i32,
}

impl Store {
    /// Every stored record carries the id it is keyed under.
    pub open spec fn ids_consistent(self) -> bool {
        &&& forall|id: u32| #[trigger]
            self.users@.contains_key(id) ==> self.users@[id].id == id
        &&& forall|id: u32| #[trigger]
            self.locations@.contains_key(id) ==> self.locations@[id].id == id
        &&& forall|id: u32| #[trigger]
            self.visits@.contains_key(id) ==> self.visits@[id].id == id
    }

    /// Structural well-formedness: id agreement, both derived indexes
    /// consistent with the visit table, and the age cache keyed exactly by
    /// the person table.
    pub open spec fn wf(self) -> bool {
        &&& self.ids_consistent()
        &&& index_ok(self.location_visits@, self.visits@, false)
        &&& index_ok(self.user_visits@, self.visits@, true)
        &&& self.ages@.dom() == self.users@.dom()
    }

    /// The age cache holds, for every person, the age computed from the
    /// person's current birth instant against the reference instant.
    pub open spec fn ages_ok(self) -> bool {
        forall|id: u32| #[trigger]
            self.users@.contains_key(id) ==> self.ages@.contains_key(id) && self.ages@[id] as int
                == spec_age(self.users@[id].birth_date, self.now)
    }

    /// An empty store with the given reference instant.
    pub fn new(now: i32) -> (s: Store)
        ensures
            s.wf(),
            s.ages_ok(),
            s.users@ == Map::<u32, User>::empty(),
            s.locations@ == Map::<u32, Location>::empty(),
            s.visits@ == Map::<u32, Visit>::empty(),
            s.ages@ == Map::<u32, i32>::empty(),
            s.location_visits@ == Map::<u32, Vec<u32>>::empty(),
            s.user_visits@ == Map::<u32, Vec<u32>>::empty(),
            s.now == now,
    {
        let s = Store {
            users: HashMap::new(),
            locations: HashMap::new(),
            visits: HashMap::new(),
            ages: HashMap::new(),
            location_visits: HashMap::new(),
            user_visits: HashMap::new(),
            now,
        };
        proof {
            assert(s.ages@.dom() =~= s.users@.dom());
        }
        s
    }

    /// What a person lookup returns: the stored record, or nothing.
    pub open spec fn spec_get_user(self, id: u32) -> Option<User> {
        if self.users@.contains_key(id) {
            Some(self.users@[id])
        } else {
            None
        }
    }

    /// What a place lookup returns.
    pub open spec fn spec_get_location(self, id: u32) -> Option<Location> {
        if self.locations@.contains_key(id) {
            Some(self.locations@[id])
        } else {
            None
        }
    }

    /// What a visit lookup returns.
    pub open spec fn spec_get_visit(self, id: u32) -> Option<Visit> {
        if self.visits@.contains_key(id) {
            Some(self.visits@[id])
        } else {
            None
        }
    }

    /// Point lookup of a person; no side effects.
    pub fn get_user(&self, id: u32) -> (r: Option<User>)
        ensures
            r == self.spec_get_user(id),
    {
        match self.users.get(&id) {
            Some(u) => Some(u.clone()),
            None => None,
        }
    }

    /// Point lookup of a place; no side effects.
    pub fn get_location(&self, id: u32) -> (r: Option<Location>)
        ensures
            r == self.spec_get_location(id),
    {
        match self.locations.get(&id) {
            Some(l) => Some(l.clone()),
            None => None,
        }
    }

    /// Point lookup of a visit; no side effects.
    pub fn get_visit(&self, id: u32) -> (r: Option<Visit>)
        ensures
            r == self.spec_get_visit(id),
    {
        match self.visits.get(&id) {
            Some(v) => Some(*v),
            None => None,
        }
    }

    /// The cached age of a person, or nothing when the id is absent.
    pub fn get_age(&self, id: u32) -> (r: Option<i32>)
        ensures
            r == (if self.ages@.contains_key(id) {
                Some(self.ages@[id])
            } else {
                None::<i32>
            }),
    {
        match self.ages.get(&id) {
            Some(a) => Some(*a),
            None => None,
        }
    }

    /// The ids of the visits of a person, in index order, or nothing when the
    /// person has no bucket.
    pub fn get_user_visit_ids(&self, id: u32) -> (r: Option<Vec<u32>>)
        ensures
            r matches Some(b) ==> self.user_visits@.contains_key(id) && b@ == self.user_visits@[id]@,
            r is None ==> !self.user_visits@.contains_key(id),
    {
        match self.user_visits.get(&id) {
            Some(b) => Some(b.clone()),
            None => None,
        }
    }

    /// Creates a person. Fails with `Conflict`, leaving the store untouched,
    /// when the id is already present; otherwise inserts the record and its
    /// age into the age cache.
    pub fn create_user(&mut self, user: User) -> (r: Result<(), ApiError>)
        requires
            old(self).wf(),
        ensures
            final(self).wf(),
            old(self).ages_ok() ==> final(self).ages_ok(),
            final(self).now == old(self).now,
            old(self).users@.contains_key(user.id) ==> r == Err::<(), ApiError>(ApiError::Conflict)
                && *final(self) == *old(self),
            !old(self).users@.contains_key(user.id) ==> {
                &&& r == Ok::<(), ApiError>(())
                &&& final(self).users@ == old(self).users@.insert(user.id, user)
                &&& ages_extended(old(self).ages@, final(self).ages@, user.id, user.birth_date, old(self).now)
                &&& final(self).locations@ == old(self).locations@
                &&& final(self).visits@ == old(self).visits@
                &&& final(self).location_visits@ == old(self).location_visits@
                &&& final(self).user_visits@ == old(self).user_visits@
            },
    {
        if self.users.contains_key(&user.id) {
            return Err(ApiError::Conflict);
        }
        let id = user.id;
        let age = calculate_age_from_timestamp(user.birth_date, self.now);
        self.users.insert(id, user);
        self.ages.insert(id, age);
        proof {
            assert(self.ages@.dom() =~= self.users@.dom());
        }
        Ok(())
    }

    /// Creates a place. Fails with `Conflict`, leaving the store untouched,
    /// when the id is already present.
    pub fn create_location(&mut self, location: Location) -> (r: Result<(), ApiError>)
        requires
            old(self).wf(),
        ensures
            final(self).wf(),
            old(self).ages_ok() ==> final(self).ages_ok(),
            final(self).now == old(self).now,
            old(self).locations@.contains_key(location.id) ==> r == Err::<(), ApiError>(
                ApiError::Conflict,
            ) && *final(self) == *old(self),
            !old(self).locations@.contains_key(location.id) ==> {
                &&& r == Ok::<(), ApiError>(())
                &&& final(self).locations@ == old(self).locations@.insert(location.id, location)
                &&& final(self).users@ == old(self).users@
                &&& final(self).ages@ == old(self).ages@
                &&& final(self).visits@ == old(self).visits@
                &&& final(self).location_visits@ == old(self).location_visits@
                &&& final(self).user_visits@ == old(self).user_visits@
            },
    {
        if self.locations.contains_key(&location.id) {
            return Err(ApiError::Conflict);
        }
        let id = location.id;
        self.locations.insert(id, location);
        Ok(())
    }

    /// Creates a visit. Fails with `Conflict`, leaving the store untouched,
    /// when the id is already present; otherwise inserts the record and
    /// appends its id to the bucket of its place and of its person in the
    /// derived indexes. The person and place references are not required to
    /// resolve: a dangling reference surfaces later, as an `Internal` query
    /// error.
    pub fn create_visit(&mut self, visit: Visit) -> (r: Result<(), ApiError>)
        requires
            old(self).wf(),
        ensures
            final(self).wf(),
            old(self).ages_ok() ==> final(self).ages_ok(),
            final(self).now == old(self).now,
            old(self).visits@.contains_key(visit.id) ==> r == Err::<(), ApiError>(
                ApiError::Conflict,
            ) && *final(self) == *old(self),
            !old(self).visits@.contains_key(visit.id) ==> {
                &&& r == Ok::<(), ApiError>(())
                &&& final(self).visits@ == old(self).visits@.insert(visit.id, visit)
                &&& bucket_appended(
                    old(self).location_visits@,
                    final(self).location_visits@,
                    visit.location,
                    visit.id,
                )
                &&& bucket_appended(
                    old(self).user_visits@,
                    final(self).user_visits@,
                    visit.user,
                    visit.id,
                )
                &&& final(self).users@ == old(self).users@
                &&& final(self).ages@ == old(self).ages@
                &&& final(self).locations@ == old(self).locations@
            },
    {
        if self.visits.contains_key(&visit.id) {
            return Err(ApiError::Conflict);
        }
        let vid = visit.id;
        append_to_bucket(&mut self.location_visits, visit.location, vid);
        append_to_bucket(&mut self.user_visits, visit.user, vid);
        self.visits.insert(vid, visit);
        proof {
            lemma_index_ok_after_append(
                old(self).location_visits@,
                self.location_visits@,
                old(self).visits@,
                self.visits@,
                visit,
                false,
            );
            lemma_index_ok_after_append(
                old(self).user_visits@,
                self.user_visits@,
                old(self).visits@,
                self.visits@,
                visit,
                true,
            );
        }
        Ok(())
    }

    /// Partially updates a person. Fails with `NotFound`, leaving the store
    /// untouched, when the id is absent. Only fields whose update value is
    /// not the sentinel are overwritten; when the birth instant changes, the
    /// cached age is recomputed synchronously.
    pub fn update_user(&mut self, id: u32, upd: UserUpdate) -> (r: Result<(), ApiError>)
        requires
            old(self).wf(),
        ensures
            final(self).wf(),
            old(self).ages_ok() ==> final(self).ages_ok(),
            final(self).now == old(self).now,
            !old(self).users@.contains_key(id) ==> r == Err::<(), ApiError>(ApiError::NotFound)
                && *final(self) == *old(self),
            old(self).users@.contains_key(id) ==> {
                &&& r == Ok::<(), ApiError>(())
                &&& final(self).users@ == old(self).users@.insert(
                    id,
                    apply_user_update(old(self).users@[id], upd),
                )
                &&& upd.birth_date != 0 ==> ages_extended(
                    old(self).ages@,
                    final(self).ages@,
                    id,
                    upd.birth_date,
                    old(self).now,
                )
                &&& upd.birth_date == 0 ==> final(self).ages@ == old(self).ages@
                &&& final(self).locations@ == old(self).locations@
                &&& final(self).visits@ == old(self).visits@
                &&& final(self).location_visits@ == old(self).location_visits@
                &&& final(self).user_visits@ == old(self).user_visits@
            },
    {
        if !self.users.contains_key(&id) {
            return Err(ApiError::NotFound);
        }
        let mut user = match self.users.remove(&id) {
            Some(u) => u,
            None => unreached(),
        };
        let UserUpdate { email, first_name, last_name, gender, birth_date } = upd;
        if email.as_str().unicode_len() != 0 {
            user.email = email;
        }
        if first_name.as_str().unicode_len() != 0 {
            user.first_name = first_name;
        }
        if last_name.as_str().unicode_len() != 0 {
            user.last_name = last_name;
        }
        if gender != Gender::Unknown {
            user.gender = gender;
        }
        if birth_date != 0 {
            user.birth_date = birth_date;
            let age = calculate_age_from_timestamp(birth_date, self.now);
            self.ages.insert(id, age);
        }
        self.users.insert(id, user);
        proof {
            assert(self.users@ =~= old(self).users@.insert(
                id,
                apply_user_update(old(self).users@[id], upd),
            ));
            assert(self.ages@.dom() =~= self.users@.dom());
            if upd.birth_date != 0 {
                assert(self.ages@.dom() =~= old(self).ages@.dom().insert(id));
            }
        }
        Ok(())
    }

    /// Partially updates a place. Fails with `NotFound`, leaving the store
    /// untouched, when the id is absent. Only fields whose update value is
    /// not the sentinel are overwritten.
    pub fn update_location(&mut self, id: u32, upd: LocationUpdate) -> (r: Result<(), ApiError>)
        requires
            old(self).wf(),
        ensures
            final(self).wf(),
            old(self).ages_ok() ==> final(self).ages_ok(),
            final(self).now == old(self).now,
            !old(self).locations@.contains_key(id) ==> r == Err::<(), ApiError>(ApiError::NotFound)
                && *final(self) == *old(self),
            old(self).locations@.contains_key(id) ==> {
                &&& r == Ok::<(), ApiError>(())
                &&& final(self).locations@ == old(self).locations@.insert(
                    id,
                    apply_location_update(old(self).locations@[id], upd),
                )
                &&& final(self).users@ == old(self).users@
                &&& final(self).ages@ == old(self).ages@
                &&& final(self).visits@ == old(self).visits@
                &&& final(self).location_visits@ == old(self).location_visits@
                &&& final(self).user_visits@ == old(self).user_visits@
            },
    {
        if !self.locations.contains_key(&id) {
            return Err(ApiError::NotFound);
        }
        let mut location = match self.locations.remove(&id) {
            Some(l) => l,
            None => unreached(),
        };
        let LocationUpdate { place, country, city, distance } = upd;
        if city.as_str().unicode_len() != 0 {
            location.city = city;
        }
        if country.as_str().unicode_len() != 0 {
            location.country = country;
        }
        if distance != 0 {
            location.distance = distance;
        }
        if place.as_str().unicode_len() != 0 {
            location.place = place;
        }
        self.locations.insert(id, location);
        proof {
            assert(self.locations@ =~= old(self).locations@.insert(
                id,
                apply_location_update(old(self).locations@[id], upd),
            ));
        }
        Ok(())
    }

    /// Partially updates a visit. Fails with `NotFound`, leaving the store
    /// untouched, when the id is absent. Only fields whose update value is
    /// not the sentinel are overwritten. When the place or person reference
    /// changes, the visit id is removed from its old bucket — the other
    /// entries keep their order — and appended to the end of the new bucket;
    /// the two indexes are maintained independently.
    pub fn update_visit(&mut self, id: u32, upd: VisitUpdate) -> (r: Result<(), ApiError>)
        requires
            old(self).wf(),
        ensures
            final(self).wf(),
            old(self).ages_ok() ==> final(self).ages_ok(),
            final(self).now == old(self).now,
            !old(self).visits@.contains_key(id) ==> r == Err::<(), ApiError>(ApiError::NotFound)
                && *final(self) == *old(self),
            old(self).visits@.contains_key(id) ==> ({
                let stored = old(self).visits@[id];
                &&& r == Ok::<(), ApiError>(())
                &&& final(self).visits@ == old(self).visits@.insert(
                    id,
                    apply_visit_update(stored, upd),
                )
                &&& (upd.location != 0 && upd.location != stored.location) ==> bucket_relocated(
                    old(self).location_visits@,
                    final(self).location_visits@,
                    stored.location,
                    upd.location,
                    id,
                )
                &&& (upd.location == 0 || upd.location == stored.location)
                    ==> final(self).location_visits@ == old(self).location_visits@
                &&& (upd.user != 0 && upd.user != stored.user) ==> bucket_relocated(
                    old(self).user_visits@,
                    final(self).user_visits@,
                    stored.user,
                    upd.user,
                    id,
                )
                &&& (upd.user == 0 || upd.user == stored.user)
                    ==> final(self).user_visits@ == old(self).user_visits@
                &&& final(self).users@ == old(self).users@
                &&& final(self).ages@ == old(self).ages@
                &&& final(self).locations@ == old(self).locations@
            }),
    {
        if !self.visits.contains_key(&id) {
            return Err(ApiError::NotFound);
        }
        let mut v = match self.visits.remove(&id) {
            Some(v) => v,
            None => unreached(),
        };
        let ghost stored = old(self).visits@[id];
        let VisitUpdate { location, user, visited_at, mark } = upd;
        if location != 0 && location != v.location {
            relocate_bucket(&mut self.location_visits, v.location, location, id);
            v.location = location;
        }
        if mark != 0 {
            v.mark = mark;
        }
        if user != 0 && user != v.user {
            relocate_bucket(&mut self.user_visits, v.user, user, id);
            v.user = user;
        }
        if visited_at != 0 {
            v.visited_at = visited_at;
        }
        self.visits.insert(id, v);
        proof {
            assert(v == apply_visit_update(stored, upd));
            assert(self.visits@ =~= old(self).visits@.insert(id, apply_visit_update(stored, upd)));
            if upd.location != 0 && upd.location != stored.location {
                lemma_index_ok_after_relocate(
                    old(self).location_visits@,
                    self.location_visits@,
                    old(self).visits@,
                    self.visits@,
                    id,
                    v,
                    false,
                );
            } else {
                lemma_index_ok_after_same_key_update(
                    self.location_visits@,
                    old(self).visits@,
                    self.visits@,
                    id,
                    v,
                    false,
                );
            }
            if upd.user != 0 && upd.user != stored.user {
                lemma_index_ok_after_relocate(
                    old(self).user_visits@,
                    self.user_visits@,
                    old(self).visits@,
                    self.visits@,
                    id,
                    v,
                    true,
                );
            } else {
                lemma_index_ok_after_same_key_update(
                    self.user_visits@,
                    old(self).visits@,
                    self.visits@,
                    id,
                    v,
                    true,
                );
            }
        }
        Ok(())
    }

    /// The ids of the visits of a place, in index order, or nothing when the
    /// place has no bucket.
    pub fn get_location_visit_ids(&self, id: u32) -> (r: Option<Vec<u32>>)
        ensures
            r matches Some(b) ==> self.location_visits@.contains_key(id) && b@
                == self.location_visits@[id]@,
            r is None ==> !self.location_visits@.contains_key(id),
    {
        match self.location_visits.get(&id) {
            Some(b) => Some(b.clone()),
            None => None,
        }
    }
}

} // verus!
