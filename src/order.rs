//! Ordering of listing rows and targets: a total preorder per row type and a
//! stable insertion sort proved to return a sorted permutation.
use vstd::prelude::*;
use vstd::multiset::Multiset;
use vstd::seq_lib::{to_multiset_build, to_multiset_insert};

verus! {

/// A type whose values a listing orders by a total preorder.
pub trait ListingOrder: Sized {
    /// Whether `self` may stand before `other`.
    spec fn precedes(&self, other: &Self) -> bool;

    proof fn lemma_precedes_total(a: &Self, b: &Self)
        ensures
            a.precedes(b) || b.precedes(a),
    ;

    proof fn lemma_precedes_trans(a: &Self, b: &Self, c: &Self)
        requires
            a.precedes(b),
            b.precedes(c),
        ensures
            a.precedes(c),
    ;

    fn before(&self, other: &Self) -> (r: bool)
        ensures
            r == self.precedes(other),
    ;
}

/// Every element may stand before every later one.
pub open spec fn ordered<T: ListingOrder>(s: Seq<T>) -> bool {
    forall|i: int, j: int| 0 <= i < j < s.len() ==> #[trigger] s[i].precedes(&s[j])
}

/// Sorts `v`: the result holds the same elements, in order.
pub fn sort_listing<T: ListingOrder>(v: Vec<T>) -> (r: Vec<T>)
    ensures
        r@.to_multiset() == v@.to_multiset(),
        ordered(r@),
{
    let mut input = v;
    let mut out: Vec<T> = Vec::new();
    proof {
        assert(out@.to_multiset() =~= Multiset::empty()) by {
            broadcast use vstd::seq_lib::group_to_multiset_ensures;
        }
    }
    while input.len() > 0
        invariant
            ordered(out@),
            input@.to_multiset().add(out@.to_multiset()) == v@.to_multiset(),
        decreases input.len(),
    {
        let ghost before_pop = input@;
        let x = match input.pop() {
            Some(x) => x,
            None => {
                return out;
            },
        };
        proof {
            assert(before_pop =~= input@.push(x));
            to_multiset_build(input@, x);
        }
        let mut p: usize = 0;
        while p < out.len() && !x.before(&out[p])
            invariant
                p <= out.len(),
                forall|i: int| 0 <= i < p ==> #[trigger] out@[i].precedes(&x),
            decreases out.len() - p,
        {
            proof {
                T::lemma_precedes_total(&x, &out@[p as int]);
            }
            p = p + 1;
        }
        let ghost old_out = out@;
        proof {
            to_multiset_insert(old_out, p as int, x);
        }
        out.insert(p, x);
        proof {
            assert forall|i: int, j: int| 0 <= i < j < out@.len() implies #[trigger] out@[i].precedes(
                &out@[j],
            ) by {
                if j < p {
                    assert(old_out[i].precedes(&old_out[j]));
                } else if j == p {
                } else if i == p {
                    if j - 1 > p {
                        assert(old_out[p as int].precedes(&old_out[j - 1]));
                        T::lemma_precedes_trans(&x, &old_out[p as int], &old_out[j - 1]);
                    }
                } else if i < p {
                    assert(old_out[i].precedes(&old_out[j - 1]));
                } else {
                    assert(old_out[i - 1].precedes(&old_out[j - 1]));
                }
            }
        }
    }
    proof {
        assert(input@.to_multiset() =~= Multiset::empty()) by {
            broadcast use vstd::seq_lib::group_to_multiset_ensures;
        }
        assert(out@.to_multiset() =~= v@.to_multiset());
    }
    out
}

} // verus!
