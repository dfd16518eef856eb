use vstd::prelude::*;

verus! {

/// The interior sample indices of an `n`-subdivision interval, in ascending
/// order: `1, 2, ..., n - 1`. Indices `0` and `n` are the edge samples.
pub open spec fn interior_seq(n: u64) -> Seq<u64>
    recommends
        n >= 1,
{
    Seq::new((n - 1) as nat, |k: int| (k + 1) as u64)
}

/// Whether sample `i` of an `n`-subdivision interval is an edge sample,
/// which the trapezoid rule weights by one half instead of one.
pub open spec fn is_edge_spec(i: u64, n: u64) -> bool {
    i == 0 || i == n
}

/// Classifies a sample index. Edge samples (the two interval endpoints) get
/// half weight under the trapezoid rule, interior samples full weight; the
/// split is the same whichever reducer asks.
pub fn is_edge_sample(i: u64, n: u64) -> (r: bool)
    ensures
        r == is_edge_spec(i, n),
{
    i == 0 || i == n
}

/// The interior sample indices in the ascending order the sequential
/// reducer visits them.
pub fn interior_indices(n: u64) -> (r: Vec<u64>)
    requires
        n >= 1,
    ensures
        r@ == interior_seq(n),
{
    let mut r: Vec<u64> = Vec::new();
    let mut i: u64 = 1;
    while i < n
        invariant
            1 <= i <= n,
            r@.len() == i - 1,
            forall|k: int| 0 <= k < r@.len() ==> r@[k] == k + 1,
        decreases n - i,
    {
        r.push(i);
        i = i + 1;
    }
    proof {
        assert(r@ =~= interior_seq(n));
    }
    r
}

} // verus!
