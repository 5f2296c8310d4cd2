//! Series-level specifications and helpers shared by every kernel:
//! the spec-level view of a sample series, well-formedness, the scan for
//! undefined samples, prefix filling, and the running sum.

use vstd::prelude::*;

use crate::value::{add_v, is_nan_v, nan_v, ok_v, TAValue};

verus! {

/// The spec-level view of a series: the sequence of its sample values.
pub open spec fn vals(s: Seq<TAValue>) -> Seq<int> {
    s.map_values(|v: TAValue| v@)
}

/// Every value of the sequence is a well-formed sample.
pub open spec fn all_ok_v(xs: Seq<int>) -> bool {
    forall|i: int| 0 <= i < xs.len() ==> ok_v(#[trigger] xs[i])
}

/// Some value of the sequence is the undefined value.
pub open spec fn has_nan_v(xs: Seq<int>) -> bool {
    exists|i: int| 0 <= i < xs.len() && is_nan_v(#[trigger] xs[i])
}

/// Updating one entry of a series changes its value view at that index
/// alone.
pub proof fn lemma_set_vals(pre: Seq<TAValue>, post: Seq<TAValue>, i: int, v: TAValue)
    requires
        0 <= i < pre.len(),
        post == pre.update(i, v),
    ensures
        post.len() == pre.len(),
        vals(post)[i] == v@,
        forall|j: int| 0 <= j < pre.len() && j != i ==> vals(post)[j] == vals(pre)[j],
{
    assert forall|j: int| 0 <= j < pre.len() && j != i implies vals(post)[j] == vals(pre)[j] by {
        assert(vals(post)[j] == post[j]@);
        assert(vals(pre)[j] == pre[j]@);
    }
}

/// Well-formedness of a series transfers to its samples.
pub proof fn lemma_all_ok_elems(s: Seq<TAValue>)
    requires
        all_ok_v(vals(s)),
    ensures
        forall|i: int| 0 <= i < s.len() ==> ok_v(#[trigger] s[i]@),
{
    assert forall|i: int| 0 <= i < s.len() implies ok_v(#[trigger] s[i]@) by {
        assert(vals(s)[i] == s[i]@);
    }
}

/// Well-formedness of every sample makes the series well-formed.
pub proof fn lemma_all_ok_intro(s: Seq<TAValue>)
    requires
        forall|i: int| 0 <= i < s.len() ==> ok_v(#[trigger] s[i]@),
    ensures
        all_ok_v(vals(s)),
{
    assert forall|i: int| 0 <= i < vals(s).len() implies ok_v(#[trigger] vals(s)[i]) by {
        assert(vals(s)[i] == s[i]@);
    }
}

/// Scan a series for undefined samples.
pub fn scan_nan(v: &Vec<TAValue>) -> (b: bool)
    ensures
        b == has_nan_v(vals(v@)),
{
    let mut i: usize = 0;
    while i < v.len()
        invariant
            0 <= i <= v.len(),
            forall|j: int| 0 <= j < i ==> !is_nan_v(#[trigger] vals(v@)[j]),
        decreases v.len() - i,
    {
        if v[i].is_nan() {
            proof {
                assert(is_nan_v(vals(v@)[i as int]));
            }
            return true;
        }
        i += 1;
    }
    false
}

/// Overwrite the first `count` entries of a series with the undefined
/// value, leaving the rest as they were.
pub fn fill_nan_prefix(out: &mut Vec<TAValue>, count: usize)
    requires
        count <= old(out).len(),
    ensures
        final(out).len() == old(out).len(),
        forall|i: int| 0 <= i < count ==> vals(final(out)@)[i] == nan_v(),
        forall|i: int| count <= i < final(out).len() ==> final(out)@[i] == old(out)@[i],
{
    let mut i: usize = 0;
    while i < count
        invariant
            0 <= i <= count <= out.len(),
            out.len() == old(out).len(),
            forall|j: int| 0 <= j < i ==> vals(out@)[j] == nan_v(),
            forall|j: int| i <= j < out.len() ==> out@[j] == old(out)@[j],
        decreases count - i,
    {
        let ghost pre = out@;
        out.set(i, TAValue::nan());
        proof {
            assert forall|j: int| 0 <= j <= i implies vals(out@)[j] == nan_v() by {
                assert(vals(out@)[j] == out@[j]@);
                if j < i {
                    assert(vals(pre)[j] == pre[j]@);
                }
            }
        }
        i += 1;
    }
}

/// The running sum of a sequence of sample values, accumulated left to
/// right with sample addition (so an undefined addend, or an overflow,
/// makes the sum undefined).
pub open spec fn sum_v(xs: Seq<int>) -> int
    decreases xs.len(),
{
    if xs.len() == 0 {
        0
    } else {
        add_v(sum_v(xs.drop_last()), xs.last())
    }
}

/// Sum the first `n` samples of a series.
pub fn sum_prefix(v: &Vec<TAValue>, n: usize) -> (s: TAValue)
    requires
        n <= v.len(),
        all_ok_v(vals(v@)),
    ensures
        s@ == sum_v(vals(v@).subrange(0, n as int)),
        ok_v(s@),
{
    let mut s = TAValue::zero();
    let mut j: usize = 0;
    proof {
        assert(vals(v@).subrange(0, 0) =~= Seq::<int>::empty());
    }
    while j < n
        invariant
            0 <= j <= n <= v.len(),
            all_ok_v(vals(v@)),
            s@ == sum_v(vals(v@).subrange(0, j as int)),
            ok_v(s@),
        decreases n - j,
    {
        let ghost pre = vals(v@).subrange(0, j as int);
        proof {
            assert(vals(v@)[j as int] == v@[j as int]@);
        }
        s = s.add(v[j]);
        proof {
            let post = vals(v@).subrange(0, j + 1int);
            assert(post.drop_last() =~= pre);
            assert(post.last() == vals(v@)[j as int]);
        }
        j += 1;
    }
    s
}

} // verus!
