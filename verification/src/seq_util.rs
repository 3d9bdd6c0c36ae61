use vstd::prelude::*;

verus! {

/// How many times `x` occurs in `s`.
pub open spec fn count_of(s: Seq<u32>, x: u32) -> nat
    decreases s.len(),
{
    if s.len() == 0 {
        0
    } else {
        count_of(s.drop_last(), x) + if s.last() == x {
            1nat
        } else {
            0nat
        }
    }
}

/// `s` with every occurrence of `x` removed; the order of the other elements
/// is kept.
pub open spec fn remove_all(s: Seq<u32>, x: u32) -> Seq<u32>
    decreases s.len(),
{
    if s.len() == 0 {
        Seq::empty()
    } else {
        let pre = remove_all(s.drop_last(), x);
        if s.last() == x {
            pre
        } else {
            pre.push(s.last())
        }
    }
}

pub proof fn lemma_count_push(s: Seq<u32>, x: u32, y: u32)
    ensures
        count_of(s.push(y), x) == count_of(s, x) + if y == x {
            1nat
        } else {
            0nat
        },
{
    assert(s.push(y).drop_last() =~= s);
    assert(s.push(y).last() == y);
}

pub proof fn lemma_count_zero_iff_absent(s: Seq<u32>, x: u32)
    ensures
        count_of(s, x) == 0 <==> !s.contains(x),
    decreases s.len(),
{
    if s.len() == 0 {
    } else {
        lemma_count_zero_iff_absent(s.drop_last(), x);
        assert(s.contains(x) <==> (s.last() == x || s.drop_last().contains(x))) by {
            if s.contains(x) {
                let i = choose|i: int| 0 <= i < s.len() && s[i] == x;
                if i < s.len() - 1 {
                    assert(s.drop_last()[i] == x);
                }
            }
            if s.drop_last().contains(x) {
                let i = choose|i: int| 0 <= i < s.drop_last().len() && s.drop_last()[i] == x;
                assert(s[i] == x);
            }
        }
    }
}

pub proof fn lemma_remove_all_removes(s: Seq<u32>, x: u32)
    ensures
        count_of(remove_all(s, x), x) == 0,
        !remove_all(s, x).contains(x),
    decreases s.len(),
{
    if s.len() == 0 {
    } else {
        lemma_remove_all_removes(s.drop_last(), x);
        if s.last() != x {
            lemma_count_push(remove_all(s.drop_last(), x), x, s.last());
        }
    }
    lemma_count_zero_iff_absent(remove_all(s, x), x);
}

pub proof fn lemma_remove_all_keeps_others(s: Seq<u32>, x: u32, y: u32)
    requires
        y != x,
    ensures
        count_of(remove_all(s, x), y) == count_of(s, y),
    decreases s.len(),
{
    if s.len() == 0 {
    } else {
        lemma_remove_all_keeps_others(s.drop_last(), x, y);
        if s.last() != x {
            lemma_count_push(remove_all(s.drop_last(), x), y, s.last());
        }
    }
}

/// Every element of `remove_all(s, x)` is an element of `s` other than `x`.
pub proof fn lemma_remove_all_element(s: Seq<u32>, x: u32, i: int)
    requires
        0 <= i < remove_all(s, x).len(),
    ensures
        remove_all(s, x)[i] != x,
        s.contains(remove_all(s, x)[i]),
    decreases s.len(),
{
    if s.len() == 0 {
    } else {
        let pre = remove_all(s.drop_last(), x);
        if s.last() == x || i < pre.len() {
            lemma_remove_all_element(s.drop_last(), x, i);
            let j = choose|j: int|
                0 <= j < s.drop_last().len() && s.drop_last()[j] == remove_all(s, x)[i];
            assert(s[j] == remove_all(s, x)[i]);
        } else {
            assert(remove_all(s, x)[i] == s.last());
            assert(s[s.len() - 1] == s.last());
        }
    }
}

/// A positive count puts an element in the sequence.
pub proof fn lemma_count_positive_implies_contains(s: Seq<u32>, x: u32)
    requires
        count_of(s, x) > 0,
    ensures
        s.contains(x),
{
    lemma_count_zero_iff_absent(s, x);
}

} // verus!
