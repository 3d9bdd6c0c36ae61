use vstd::prelude::*;

use crate::entities::Visit;

verus! {

/// `v` inserted into `s` after every element whose visit instant is no
/// later: inserting each element of a sequence in turn with this function is
/// a stable sort by visit instant.
pub open spec fn insert_by_time(s: Seq<Visit>, v: Visit) -> Seq<Visit>
    decreases s.len(),
{
    if s.len() == 0 {
        seq![v]
    } else if s.last().visited_at <= v.visited_at {
        s.push(v)
    } else {
        insert_by_time(s.drop_last(), v).push(s.last())
    }
}

/// `s` sorted ascending by visit instant; elements with equal instants keep
/// their relative order.
pub open spec fn sort_by_time(s: Seq<Visit>) -> Seq<Visit>
    decreases s.len(),
{
    if s.len() == 0 {
        Seq::empty()
    } else {
        insert_by_time(sort_by_time(s.drop_last()), s.last())
    }
}

/// The sequence is ascending by visit instant.
pub open spec fn time_sorted(s: Seq<Visit>) -> bool {
    forall|i: int, j: int| 0 <= i <= j < s.len() ==> s[i].visited_at <= s[j].visited_at
}

/// Inserting at the position `j` that ends the run of strictly later
/// elements is what `insert_by_time` does.
proof fn lemma_insert_by_time_at(s: Seq<Visit>, v: Visit, j: int)
    requires
        0 <= j <= s.len(),
        forall|m: int| j <= m < s.len() ==> s[m].visited_at > v.visited_at,
        j > 0 ==> s[j - 1].visited_at <= v.visited_at,
    ensures
        insert_by_time(s, v) == s.insert(j, v),
    decreases s.len(),
{
    if j == s.len() {
        if s.len() == 0 {
            assert(insert_by_time(s, v) =~= s.insert(j, v));
        } else {
            assert(s.last().visited_at <= v.visited_at);
            assert(s.push(v) =~= s.insert(j, v));
        }
    } else {
        assert(s[s.len() - 1].visited_at > v.visited_at);
        lemma_insert_by_time_at(s.drop_last(), v, j);
        assert(insert_by_time(s, v) == insert_by_time(s.drop_last(), v).push(s.last()));
        assert(s.drop_last().insert(j, v).push(s.last()) =~= s.insert(j, v));
    }
}

/// `insert_by_time` adds exactly its element to the sequence's contents.
pub proof fn lemma_insert_by_time_contains(s: Seq<Visit>, v: Visit, x: Visit)
    ensures
        insert_by_time(s, v).contains(x) <==> (s.contains(x) || x == v),
    decreases s.len(),
{
    if s.len() == 0 {
        assert(insert_by_time(s, v) == seq![v]);
        if x == v {
            assert(insert_by_time(s, v)[0] == v);
        }
        if insert_by_time(s, v).contains(x) {
            let i = choose|i: int| 0 <= i < insert_by_time(s, v).len() && insert_by_time(s, v)[i]
                == x;
            assert(insert_by_time(s, v)[i] == v);
        }
    } else if s.last().visited_at <= v.visited_at {
        assert(s.push(v).contains(x) <==> (s.contains(x) || x == v)) by {
            if s.contains(x) {
                let i = choose|i: int| 0 <= i < s.len() && s[i] == x;
                assert(s.push(v)[i] == x);
            }
            if x == v {
                assert(s.push(v)[s.len() as int] == v);
            }
            if s.push(v).contains(x) && x != v {
                let i = choose|i: int| 0 <= i < s.push(v).len() && s.push(v)[i] == x;
                if i < s.len() {
                    assert(s[i] == x);
                }
            }
        }
    } else {
        lemma_insert_by_time_contains(s.drop_last(), v, x);
        let pre = insert_by_time(s.drop_last(), v);
        assert(pre.push(s.last()).contains(x) <==> (pre.contains(x) || x == s.last())) by {
            if pre.contains(x) {
                let i = choose|i: int| 0 <= i < pre.len() && pre[i] == x;
                assert(pre.push(s.last())[i] == x);
            }
            if x == s.last() {
                assert(pre.push(s.last())[pre.len() as int] == s.last());
            }
            if pre.push(s.last()).contains(x) && x != s.last() {
                let i = choose|i: int| 0 <= i < pre.push(s.last()).len() && pre.push(s.last())[i]
                    == x;
                if i < pre.len() {
                    assert(pre[i] == x);
                }
            }
        }
        assert(s.contains(x) <==> (s.drop_last().contains(x) || x == s.last())) by {
            if s.contains(x) {
                let i = choose|i: int| 0 <= i < s.len() && s[i] == x;
                if i < s.len() - 1 {
                    assert(s.drop_last()[i] == x);
                }
            }
            if s.drop_last().contains(x) {
                let i = choose|i: int| 0 <= i < s.drop_last().len() && s.drop_last()[i] == x;
                assert(s[i] == x);
            }
        }
    }
}

/// Sorting does not change the contents of the sequence.
pub proof fn lemma_sort_by_time_contains(s: Seq<Visit>, x: Visit)
    ensures
        sort_by_time(s).contains(x) <==> s.contains(x),
    decreases s.len(),
{
    if s.len() == 0 {
    } else {
        lemma_sort_by_time_contains(s.drop_last(), x);
        lemma_insert_by_time_contains(sort_by_time(s.drop_last()), s.last(), x);
        assert(s.contains(x) <==> (s.drop_last().contains(x) || x == s.last())) by {
            if s.contains(x) {
                let i = choose|i: int| 0 <= i < s.len() && s[i] == x;
                if i < s.len() - 1 {
                    assert(s.drop_last()[i] == x);
                }
            }
            if s.drop_last().contains(x) {
                let i = choose|i: int| 0 <= i < s.drop_last().len() && s.drop_last()[i] == x;
                assert(s[i] == x);
            }
        }
    }
}

/// Inserting into a sequence that is ascending by visit instant keeps it
/// ascending.
proof fn lemma_insert_by_time_sorted(s: Seq<Visit>, v: Visit)
    requires
        time_sorted(s),
    ensures
        time_sorted(insert_by_time(s, v)),
    decreases s.len(),
{
    if s.len() == 0 {
    } else if s.last().visited_at <= v.visited_at {
    } else {
        assert(time_sorted(s.drop_last()));
        lemma_insert_by_time_sorted(s.drop_last(), v);
        let pre = insert_by_time(s.drop_last(), v);
        lemma_insert_by_time_le_max(s.drop_last(), v);
        assert forall|i: int, j: int|
            0 <= i <= j < pre.push(s.last()).len() implies pre.push(s.last())[i].visited_at
            <= pre.push(s.last())[j].visited_at by {
            if j < pre.len() {
            } else {
                if i < pre.len() {
                    assert(pre[i].visited_at <= s.last().visited_at);
                }
            }
        }
    }
}

/// Every element of `insert_by_time(s, v)` is bounded by the larger of `v`'s
/// instant and the instants in `s`.
proof fn lemma_insert_by_time_le_max(s: Seq<Visit>, v: Visit)
    ensures
        forall|i: int|
            0 <= i < insert_by_time(s, v).len() ==> insert_by_time(s, v)[i].visited_at
                <= v.visited_at || (exists|m: int|
                0 <= m < s.len() && insert_by_time(s, v)[i] == s[m]),
    decreases s.len(),
{
    if s.len() == 0 {
    } else if s.last().visited_at <= v.visited_at {
        assert forall|i: int| 0 <= i < s.push(v).len() implies s.push(v)[i].visited_at
            <= v.visited_at || (exists|m: int| 0 <= m < s.len() && s.push(v)[i] == s[m]) by {
            if i < s.len() {
                assert(s.push(v)[i] == s[i]);
            }
        }
    } else {
        lemma_insert_by_time_le_max(s.drop_last(), v);
        let pre = insert_by_time(s.drop_last(), v);
        assert forall|i: int| 0 <= i < pre.push(s.last()).len() implies pre.push(
            s.last(),
        )[i].visited_at <= v.visited_at || (exists|m: int|
            0 <= m < s.len() && pre.push(s.last())[i] == s[m]) by {
            if i < pre.len() {
                assert(pre.push(s.last())[i] == pre[i]);
                if !(pre[i].visited_at <= v.visited_at) {
                    let m = choose|m: int| 0 <= m < s.drop_last().len() && pre[i] == s.drop_last()[m];
                    assert(s[m] == s.drop_last()[m]);
                }
            } else {
                assert(pre.push(s.last())[i] == s.last());
                assert(s[s.len() - 1] == s.last());
            }
        }
    }
}

/// The sorted sequence is ascending by visit instant.
pub proof fn lemma_sort_by_time_sorted(s: Seq<Visit>)
    ensures
        time_sorted(sort_by_time(s)),
    decreases s.len(),
{
    if s.len() == 0 {
    } else {
        lemma_sort_by_time_sorted(s.drop_last());
        lemma_insert_by_time_sorted(sort_by_time(s.drop_last()), s.last());
    }
}

/// Sorts visits ascending by visit instant with a stable insertion sort.
pub fn sort_visits(input: Vec<Visit>) -> (r: Vec<Visit>)
    ensures
        r@ == sort_by_time(input@),
{
    let mut r: Vec<Visit> = Vec::new();
    let mut i: usize = 0;
    while i < input.len()
        invariant
            i <= input@.len(),
            r@ == sort_by_time(input@.take(i as int)),
        decreases input@.len() - i,
    {
        let v = input[i];
        let mut j: usize = r.len();
        while j > 0 && r[j - 1].visited_at > v.visited_at
            invariant
                j <= r@.len(),
                forall|m: int| j <= m < r@.len() ==> r@[m].visited_at > v.visited_at,
            decreases j,
        {
            j -= 1;
        }
        proof {
            lemma_insert_by_time_at(r@, v, j as int);
            assert(input@.take(i as int + 1).drop_last() =~= input@.take(i as int));
            assert(input@.take(i as int + 1).last() == input@[i as int]);
        }
        r.insert(j, v);
        i += 1;
    }
    proof {
        assert(input@.take(input@.len() as int) =~= input@);
    }
    r
}

} // verus!
