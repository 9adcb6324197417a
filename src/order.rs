//! Sorting names the way `Vec<String>::sort` orders them.
use vstd::prelude::*;
use crate::text::{lemma_seq_le_refl, lemma_seq_le_total, lemma_seq_le_trans, seq_le, str_le};

verus! {

broadcast use vstd::seq_lib::group_to_multiset_ensures;

/// Names in non-decreasing lexicographic order.
pub open spec fn sorted_names(s: Seq<String>) -> bool {
    forall|i: int, j: int| 0 <= i < j < s.len() ==> seq_le(#[trigger] s[i]@, #[trigger] s[j]@)
}

/// The index of a least name of a non-empty list.
fn least_index(v: &Vec<String>) -> (m: usize)
    requires
        v@.len() > 0,
    ensures
        m < v@.len(),
        forall|j: int| 0 <= j < v@.len() ==> seq_le(v@[m as int]@, #[trigger] v@[j]@),
{
    let mut m: usize = 0;
    let mut k: usize = 1;
    proof {
        lemma_seq_le_refl(v@[0]@);
    }
    while k < v.len()
        invariant
            0 < k <= v@.len(),
            m < k,
            forall|j: int| 0 <= j < k ==> seq_le(v@[m as int]@, #[trigger] v@[j]@),
        decreases v@.len() - k,
    {
        if !str_le(v[m].as_str(), v[k].as_str()) {
            proof {
                lemma_seq_le_total(v@[m as int]@, v@[k as int]@);
                lemma_seq_le_refl(v@[k as int]@);
                assert forall|j: int| 0 <= j < k + 1 implies seq_le(
                    v@[k as int]@,
                    #[trigger] v@[j]@,
                ) by {
                    if j < k {
                        lemma_seq_le_trans(v@[k as int]@, v@[m as int]@, v@[j]@);
                    }
                }
            }
            m = k;
        }
        k = k + 1;
    }
    m
}

/// The names of `v` in lexicographic order.
pub fn sort_names(v: Vec<String>) -> (r: Vec<String>)
    ensures
        r@.to_multiset() == v@.to_multiset(),
        sorted_names(r@),
{
    let mut rest = v;
    let mut out: Vec<String> = Vec::new();
    assert(out@.to_multiset().add(rest@.to_multiset()) =~= v@.to_multiset());
    while rest.len() > 0
        invariant
            out@.to_multiset().add(rest@.to_multiset()) == v@.to_multiset(),
            sorted_names(out@),
            forall|i: int, j: int|
                0 <= i < out@.len() && 0 <= j < rest@.len() ==> seq_le(
                    #[trigger] out@[i]@,
                    #[trigger] rest@[j]@,
                ),
        decreases rest@.len(),
    {
        let m = least_index(&rest);
        let ghost before_rest = rest@;
        let ghost before_out = out@;
        let x = rest.remove(m);
        proof {
            assert(before_rest.remove(m as int).to_multiset() == before_rest.to_multiset().remove(x));
            assert(before_rest.to_multiset().count(x) > 0);
        }
        out.push(x);
        proof {
            assert(out@ == before_out.push(x));
            assert(out@.to_multiset() == before_out.to_multiset().insert(x));
            assert(out@.to_multiset().add(rest@.to_multiset()) =~= v@.to_multiset());
            assert forall|i: int, j: int| 0 <= i < j < out@.len() implies seq_le(
                #[trigger] out@[i]@,
                #[trigger] out@[j]@,
            ) by {
                if j < out@.len() - 1 {
                    assert(out@[i] == before_out[i] && out@[j] == before_out[j]);
                } else {
                    assert(before_rest[m as int] == x);
                }
            }
            assert forall|i: int, j: int| 0 <= i < out@.len() && 0 <= j < rest@.len() implies seq_le(
                #[trigger] out@[i]@,
                #[trigger] rest@[j]@,
            ) by {
                let jj = if j < m { j } else { j + 1 };
                assert(rest@[j] == before_rest[jj]);
                if i < out@.len() - 1 {
                    assert(out@[i] == before_out[i]);
                }
            }
        }
    }
    assert(out@.to_multiset() =~= v@.to_multiset());
    out
}

} // verus!
