use vstd::prelude::*;

use crate::entities::Location;
use crate::entities::User;
use crate::entities::Visit;
use crate::store::index_key;
use crate::store::Store;

verus! {

/// The person table after ingesting a batch: each record is inserted in
/// order, skipped when its id is already present.
pub open spec fn ingest_users_map(m: Map<u32, User>, batch: Seq<User>) -> Map<u32, User>
    decreases batch.len(),
{
    if batch.len() == 0 {
        m
    } else {
        let m2 = ingest_users_map(m, batch.drop_last());
        let u = batch.last();
        if m2.contains_key(u.id) {
            m2
        } else {
            m2.insert(u.id, u)
        }
    }
}

/// The place table after ingesting a batch, with the same skip-on-conflict
/// rule.
pub open spec fn ingest_locations_map(m: Map<u32, Location>, batch: Seq<Location>) -> Map<
    u32,
    Location,
>
    decreases batch.len(),
{
    if batch.len() == 0 {
        m
    } else {
        let m2 = ingest_locations_map(m, batch.drop_last());
        let l = batch.last();
        if m2.contains_key(l.id) {
            m2
        } else {
            m2.insert(l.id, l)
        }
    }
}

/// The visit table after ingesting a batch, with the same skip-on-conflict
/// rule.
pub open spec fn ingest_visits_map(m: Map<u32, Visit>, batch: Seq<Visit>) -> Map<u32, Visit>
    decreases batch.len(),
{
    if batch.len() == 0 {
        m
    } else {
        let m2 = ingest_visits_map(m, batch.drop_last());
        let v = batch.last();
        if m2.contains_key(v.id) {
            m2
        } else {
            m2.insert(v.id, v)
        }
    }
}

/// The ids that ingesting `batch` over the visit table `m` appends to the
/// index bucket of `k`: the accepted visits whose key is `k`, in batch
/// order.
pub open spec fn appended_ids(m: Map<u32, Visit>, batch: Seq<Visit>, k: u32, by_user: bool) -> Seq<
    u32,
>
    decreases batch.len(),
{
    if batch.len() == 0 {
        Seq::empty()
    } else {
        let pre = appended_ids(m, batch.drop_last(), k, by_user);
        let v = batch.last();
        if !ingest_visits_map(m, batch.drop_last()).contains_key(v.id) && index_key(v, by_user)
            == k {
            pre.push(v.id)
        } else {
            pre
        }
    }
}

impl Store {
    /// Ingests a batch of person records: each is created in order, and a
    /// record whose id is already present is skipped.
    pub fn ingest_users(&mut self, batch: Vec<User>)
        requires
            old(self).wf(),
        ensures
            final(self).wf(),
            old(self).ages_ok() ==> final(self).ages_ok(),
            final(self).now == old(self).now,
            final(self).users@ == ingest_users_map(old(self).users@, batch@),
            final(self).locations@ == old(self).locations@,
            final(self).visits@ == old(self).visits@,
            final(self).location_visits@ == old(self).location_visits@,
            final(self).user_visits@ == old(self).user_visits@,
    {
        let mut i: usize = 0;
        while i < batch.len()
            invariant
                old(self).wf(),
                self.wf(),
                old(self).ages_ok() ==> self.ages_ok(),
                self.now == old(self).now,
                i <= batch@.len(),
                self.users@ == ingest_users_map(old(self).users@, batch@.take(i as int)),
                self.locations@ == old(self).locations@,
                self.visits@ == old(self).visits@,
                self.location_visits@ == old(self).location_visits@,
                self.user_visits@ == old(self).user_visits@,
            decreases batch@.len() - i,
        {
            proof {
                assert(batch@.take(i as int + 1).drop_last() =~= batch@.take(i as int));
                assert(batch@.take(i as int + 1).last() == batch@[i as int]);
            }
            let u = batch[i].clone();
            let _ = self.create_user(u);
            i += 1;
        }
        proof {
            assert(batch@.take(batch@.len() as int) =~= batch@);
        }
    }

    /// Ingests a batch of place records, with the same skip-on-conflict
    /// rule.
    pub fn ingest_locations(&mut self, batch: Vec<Location>)
        requires
            old(self).wf(),
        ensures
            final(self).wf(),
            old(self).ages_ok() ==> final(self).ages_ok(),
            final(self).now == old(self).now,
            final(self).locations@ == ingest_locations_map(old(self).locations@, batch@),
            final(self).users@ == old(self).users@,
            final(self).ages@ == old(self).ages@,
            final(self).visits@ == old(self).visits@,
            final(self).location_visits@ == old(self).location_visits@,
            final(self).user_visits@ == old(self).user_visits@,
    {
        let mut i: usize = 0;
        while i < batch.len()
            invariant
                old(self).wf(),
                self.wf(),
                self.now == old(self).now,
                i <= batch@.len(),
                self.locations@ == ingest_locations_map(old(self).locations@, batch@.take(i as int)),
                self.users@ == old(self).users@,
                self.ages@ == old(self).ages@,
                self.visits@ == old(self).visits@,
                self.location_visits@ == old(self).location_visits@,
                self.user_visits@ == old(self).user_visits@,
            decreases batch@.len() - i,
        {
            proof {
                assert(batch@.take(i as int + 1).drop_last() =~= batch@.take(i as int));
                assert(batch@.take(i as int + 1).last() == batch@[i as int]);
            }
            let l = batch[i].clone();
            let _ = self.create_location(l);
            i += 1;
        }
        proof {
            assert(batch@.take(batch@.len() as int) =~= batch@);
        }
    }

    /// Ingests a batch of visit records: each is created in order, a record
    /// whose id is already present is skipped, and both derived indexes are
    /// built while ingesting — each accepted visit's id is appended to the
    /// bucket of its place and of its person.
    pub fn ingest_visits(&mut self, batch: Vec<Visit>)
        requires
            old(self).wf(),
        ensures
            final(self).wf(),
            old(self).ages_ok() ==> final(self).ages_ok(),
            final(self).now == old(self).now,
            final(self).visits@ == ingest_visits_map(old(self).visits@, batch@),
            final(self).users@ == old(self).users@,
            final(self).ages@ == old(self).ages@,
            final(self).locations@ == old(self).locations@,
            index_extended(old(self).location_visits@, final(self).location_visits@, old(self).visits@, batch@, false),
            index_extended(old(self).user_visits@, final(self).user_visits@, old(self).visits@, batch@, true),
    {
        let mut i: usize = 0;
        while i < batch.len()
            invariant
                old(self).wf(),
                self.wf(),
                old(self).ages_ok() ==> self.ages_ok(),
                self.now == old(self).now,
                i <= batch@.len(),
                self.visits@ == ingest_visits_map(old(self).visits@, batch@.take(i as int)),
                self.users@ == old(self).users@,
                self.ages@ == old(self).ages@,
                self.locations@ == old(self).locations@,
                index_extended(old(self).location_visits@, self.location_visits@, old(self).visits@, batch@.take(i as int), false),
                index_extended(old(self).user_visits@, self.user_visits@, old(self).visits@, batch@.take(i as int), true),
            decreases batch@.len() - i,
        {
            proof {
                assert(batch@.take(i as int + 1).drop_last() =~= batch@.take(i as int));
                assert(batch@.take(i as int + 1).last() == batch@[i as int]);
            }
            let ghost pre_lv = self.location_visits@;
            let ghost pre_uv = self.user_visits@;
            let v = batch[i];
            let r = self.create_visit(v);
            proof {
                lemma_index_extended_step(
                    old(self).location_visits@,
                    pre_lv,
                    self.location_visits@,
                    old(self).visits@,
                    batch@,
                    i as int,
                    false,
                );
                lemma_index_extended_step(
                    old(self).user_visits@,
                    pre_uv,
                    self.user_visits@,
                    old(self).visits@,
                    batch@,
                    i as int,
                    true,
                );
            }
            i += 1;
        }
        proof {
            assert(batch@.take(batch@.len() as int) =~= batch@);
        }
    }
}

/// `after` extends `before` bucket-wise with exactly the ids that ingesting
/// `batch` over the visit table `m` appends, in batch order.
pub open spec fn index_extended(
    before: Map<u32, Vec<u32>>,
    after: Map<u32, Vec<u32>>,
    m: Map<u32, Visit>,
    batch: Seq<Visit>,
    by_user: bool,
) -> bool {
    &&& forall|k: u32| #[trigger]
        after.contains_key(k) <==> (before.contains_key(k) || appended_ids(m, batch, k, by_user).len() > 0)
    &&& forall|k: u32| #[trigger]
        after.contains_key(k) ==> after[k]@ == (if before.contains_key(k) {
            before[k]@
        } else {
            Seq::<u32>::empty()
        }) + appended_ids(m, batch, k, by_user)
}

/// One accepted or skipped visit advances the bucket-wise extension by one
/// batch position.
proof fn lemma_index_extended_step(
    base: Map<u32, Vec<u32>>,
    pre: Map<u32, Vec<u32>>,
    post: Map<u32, Vec<u32>>,
    m: Map<u32, Visit>,
    batch: Seq<Visit>,
    i: int,
    by_user: bool,
)
    requires
        0 <= i < batch.len(),
        index_extended(base, pre, m, batch.take(i), by_user),
        ({
            let v = batch[i];
            if !ingest_visits_map(m, batch.take(i)).contains_key(v.id) {
                crate::store::bucket_appended(pre, post, index_key(v, by_user), v.id)
            } else {
                post == pre
            }
        }),
    ensures
        index_extended(base, post, m, batch.take(i + 1), by_user),
{
    let v = batch[i];
    assert(batch.take(i + 1).drop_last() =~= batch.take(i));
    assert(batch.take(i + 1).last() == batch[i]);
    let accepted = !ingest_visits_map(m, batch.take(i)).contains_key(v.id);
    assert forall|k: u32| #[trigger]
        post.contains_key(k) <==> (base.contains_key(k) || appended_ids(m, batch.take(i + 1), k, by_user).len()
            > 0) by {
        if accepted && k == index_key(v, by_user) {
            assert(post.contains_key(k));
            assert(appended_ids(m, batch.take(i + 1), k, by_user) == appended_ids(
                m,
                batch.take(i),
                k,
                by_user,
            ).push(v.id));
        } else {
            assert(appended_ids(m, batch.take(i + 1), k, by_user) == appended_ids(
                m,
                batch.take(i),
                k,
                by_user,
            ));
            if accepted {
                assert(post.contains_key(k) <==> pre.contains_key(k));
            }
        }
    }
    assert forall|k: u32| #[trigger] post.contains_key(k) implies post[k]@ == (if base.contains_key(
        k,
    ) {
        base[k]@
    } else {
        Seq::<u32>::empty()
    }) + appended_ids(m, batch.take(i + 1), k, by_user) by {
        let base_part: Seq<u32> = if base.contains_key(k) {
            base[k]@
        } else {
            Seq::<u32>::empty()
        };
        if accepted && k == index_key(v, by_user) {
            let pre_part: Seq<u32> = if pre.contains_key(k) {
                pre[k]@
            } else {
                Seq::<u32>::empty()
            };
            assert(post[k]@ == pre_part.push(v.id));
            if pre.contains_key(k) {
                assert(pre[k]@ == base_part + appended_ids(m, batch.take(i), k, by_user));
            } else {
                assert(!base.contains_key(k));
                assert(appended_ids(m, batch.take(i), k, by_user).len() == 0);
                assert(pre_part =~= base_part + appended_ids(m, batch.take(i), k, by_user));
            }
            assert((base_part + appended_ids(m, batch.take(i), k, by_user)).push(v.id) =~= base_part
                + appended_ids(m, batch.take(i), k, by_user).push(v.id));
            assert(appended_ids(m, batch.take(i + 1), k, by_user) == appended_ids(
                m,
                batch.take(i),
                k,
                by_user,
            ).push(v.id));
        } else {
            assert(appended_ids(m, batch.take(i + 1), k, by_user) == appended_ids(
                m,
                batch.take(i),
                k,
                by_user,
            ));
            if accepted {
                assert(pre.contains_key(k) && post[k] == pre[k]);
            } else {
                assert(post[k] == pre[k]);
            }
        }
    }
}

} // verus!
