use crate::error::ReduceError;
use crate::error::validate_params;
use crate::sampling::interior_seq;
use vstd::arithmetic::div_mod::lemma_fundamental_div_mod;
use vstd::prelude::*;

verus! {

/// One worker's contiguous range of interior indices, `start..=end`
/// inclusive. The range is empty when `end < start`; such a chunk is legal
/// and contributes nothing.
#[derive(Clone, Copy, Debug, PartialEq, Eq, Structural)]
pub struct Chunk {
    pub start: u64,
    pub end: u64,
}

/// The size of chunk `k` when `total` interior indices are split across
/// `t` chunks: every chunk takes `total / t` indices and the first
/// `total % t` chunks take one extra, so sizes differ by at most one.
pub open spec fn chunk_size(total: nat, t: nat, k: nat) -> nat
    recommends
        t >= 1,
{
    total / t + if k < total % t {
        1nat
    } else {
        0nat
    }
}

/// The first index of chunk `k`: chunks are laid out contiguously from
/// interior index `1`, each chunk starting right after its predecessor.
pub open spec fn chunk_start(total: nat, t: nat, k: nat) -> nat
    recommends
        t >= 1,
    decreases k,
{
    if k == 0 {
        1
    } else {
        chunk_start(total, t, (k - 1) as nat) + chunk_size(total, t, (k - 1) as nat)
    }
}

/// Whether interior index `i` falls inside chunk `k`.
pub open spec fn chunk_holds(total: nat, t: nat, k: nat, i: nat) -> bool {
    chunk_start(total, t, k) <= i < chunk_start(total, t, k) + chunk_size(total, t, k)
}

/// Whether some of the `t` chunks contains index `i`.
pub open spec fn covered(total: nat, t: nat, i: nat) -> bool {
    exists|k: nat| k < t && chunk_holds(total, t, k, i)
}

/// Closed form of `chunk_start`: `k` whole shares of `total / t` plus one
/// extra index for each of the first `min(k, total % t)` chunks.
proof fn lemma_chunk_start_closed(total: nat, t: nat, k: nat)
    requires
        t >= 1,
    ensures
        chunk_start(total, t, k) == 1 + k * (total / t) + (if k <= total % t {
            k
        } else {
            total % t
        }),
    decreases k,
{
    if k == 0 {
        assert(chunk_start(total, t, 0) == 1);
        assert(k * (total / t) == 0);
    } else {
        let q: nat = total / t;
        let r: nat = total % t;
        let km1: nat = (k - 1) as nat;
        lemma_chunk_start_closed(total, t, km1);
        assert(chunk_start(total, t, k) == chunk_start(total, t, km1) + chunk_size(total, t, km1));
        assert(chunk_size(total, t, km1) == q + (if km1 < r {
            1nat
        } else {
            0nat
        }));
        assert(k * q == km1 * q + q) by (nonlinear_arith)
            requires
                km1 == k - 1,
        ;
        assert(chunk_start(total, t, k) == 1 + k * q + (if k <= r {
            k
        } else {
            r
        }));
    }
}

/// The chunks end exactly where the interior indices do: the start of the
/// one-past-last chunk is `1 + total`.
pub proof fn lemma_chunks_span(total: nat, t: nat)
    requires
        t >= 1,
    ensures
        chunk_start(total, t, t) == 1 + total,
{
    lemma_chunk_start_closed(total, t, t);
    lemma_fundamental_div_mod(total as int, t as int);
    assert(t * (total / t) == (total / t) * t) by (nonlinear_arith);
}

/// Chunk starts never decrease as the chunk number grows.
proof fn lemma_start_monotone(total: nat, t: nat, j: nat, k: nat)
    requires
        j <= k,
    ensures
        chunk_start(total, t, j) <= chunk_start(total, t, k),
    decreases k - j,
{
    if j < k {
        lemma_start_monotone(total, t, j, (k - 1) as nat);
    }
}

/// Every index between `chunk_start(k)` and the end of the interior range
/// falls in some chunk numbered `k` or later.
proof fn lemma_find_chunk(total: nat, t: nat, i: nat, k: nat)
    requires
        t >= 1,
        k < t,
        chunk_start(total, t, k) <= i,
        i <= total,
    ensures
        exists|j: nat| j < t && chunk_holds(total, t, j, i),
    decreases t - k,
{
    if chunk_holds(total, t, k, i) {
    } else {
        assert(chunk_start(total, t, (k + 1) as nat) == chunk_start(total, t, k) + chunk_size(
            total,
            t,
            k,
        ));
        if k + 1 == t {
            lemma_chunks_span(total, t);
            assert(false);
        } else {
            lemma_find_chunk(total, t, i, (k + 1) as nat);
        }
    }
}

/// A chunk is contained in the interior range: whatever it holds lies
/// between `1` and `total`.
proof fn lemma_chunk_inside(total: nat, t: nat, k: nat, i: nat)
    requires
        t >= 1,
        k < t,
        chunk_holds(total, t, k, i),
    ensures
        1 <= i <= total,
{
    lemma_start_monotone(total, t, 0, k);
    lemma_start_monotone(total, t, (k + 1) as nat, t);
    lemma_chunks_span(total, t);
    assert(chunk_start(total, t, (k + 1) as nat) == chunk_start(total, t, k) + chunk_size(
        total,
        t,
        k,
    ));
}

/// The chunks cover an index if and only if it is an interior index.
pub proof fn lemma_covered_iff_interior(total: nat, t: nat)
    requires
        t >= 1,
    ensures
        forall|i: nat| #[trigger] covered(total, t, i) <==> 1 <= i <= total,
{
    assert forall|i: nat| #[trigger] covered(total, t, i) implies 1 <= i <= total by {
        let k: nat = choose|k: nat| k < t && chunk_holds(total, t, k, i);
        lemma_chunk_inside(total, t, k, i);
    }
    assert forall|i: nat| 1 <= i <= total implies #[trigger] covered(total, t, i) by {
        lemma_find_chunk(total, t, i, 0);
    }
}

/// No two distinct chunks hold the same index.
proof fn lemma_chunks_disjoint(total: nat, t: nat, k1: nat, k2: nat, i: nat)
    requires
        t >= 1,
        k1 < k2 < t,
        chunk_holds(total, t, k1, i),
    ensures
        !chunk_holds(total, t, k2, i),
{
    assert(chunk_start(total, t, (k1 + 1) as nat) == chunk_start(total, t, k1) + chunk_size(
        total,
        t,
        k1,
    ));
    lemma_start_monotone(total, t, (k1 + 1) as nat, k2);
}

/// Law (partition completeness): for every interval and positive worker
/// count, the static chunks hold exactly the interior indices `1..=n-1`,
/// each in exactly one chunk, and no two chunk sizes differ by more than
/// one.
pub proof fn lemma_partition_completeness(n: u64, num_threads: u64)
    requires
        n >= 1,
        num_threads >= 1,
    ensures
        forall|i: nat| #[trigger]
            covered((n - 1) as nat, num_threads as nat, i) <==> 1 <= i <= n - 1,
        forall|k1: nat, k2: nat, i: nat|
            k1 < num_threads && k2 < num_threads && #[trigger] chunk_holds(
                (n - 1) as nat,
                num_threads as nat,
                k1,
                i,
            ) && #[trigger] chunk_holds((n - 1) as nat, num_threads as nat, k2, i) ==> k1 == k2,
        forall|k1: nat, k2: nat|
            k1 < num_threads && k2 < num_threads ==> #[trigger] chunk_size(
                (n - 1) as nat,
                num_threads as nat,
                k1,
            ) <= #[trigger] chunk_size((n - 1) as nat, num_threads as nat, k2) + 1,
{
    let total: nat = (n - 1) as nat;
    let t: nat = num_threads as nat;
    lemma_covered_iff_interior(total, t);
    assert forall|k1: nat, k2: nat, i: nat|
        k1 < t && k2 < t && #[trigger] chunk_holds(total, t, k1, i) && #[trigger] chunk_holds(
            total,
            t,
            k2,
            i,
        ) implies k1 == k2 by {
        if k1 < k2 {
            lemma_chunks_disjoint(total, t, k1, k2, i);
        } else if k2 < k1 {
            lemma_chunks_disjoint(total, t, k2, k1, i);
        }
    }
}

/// Law (thread-count invariance): which indices the static strategy covers
/// does not depend on the worker count; only how they are grouped does.
pub proof fn lemma_thread_count_invariance(n: u64, t1: u64, t2: u64)
    requires
        n >= 1,
        t1 >= 1,
        t2 >= 1,
    ensures
        forall|i: nat| #[trigger]
            covered((n - 1) as nat, t1 as nat, i) <==> #[trigger] covered(
                (n - 1) as nat,
                t2 as nat,
                i,
            ),
{
    lemma_covered_iff_interior((n - 1) as nat, t1 as nat);
    lemma_covered_iff_interior((n - 1) as nat, t2 as nat);
}

/// Law (cross-strategy agreement on work): the static chunks cover an
/// index exactly when it is one the dynamic bag hands out, so both
/// strategies sum contributions of the same samples and, with exact
/// arithmetic, agree with the sequential reducer.
pub proof fn lemma_strategies_same_work(n: u64, num_threads: u64)
    requires
        n >= 1,
        num_threads >= 1,
    ensures
        forall|i: u64| #[trigger]
            interior_seq(n).contains(i) <==> covered((n - 1) as nat, num_threads as nat, i as nat),
{
    let total: nat = (n - 1) as nat;
    let t: nat = num_threads as nat;
    lemma_covered_iff_interior(total, t);
    assert forall|i: u64| #[trigger] interior_seq(n).contains(i) implies covered(
        total,
        t,
        i as nat,
    ) by {
        let k: int = choose|k: int|
            0 <= k < interior_seq(n).len() && interior_seq(n)[k] == i;
        assert(i == k + 1);
    }
    assert forall|i: u64| covered(total, t, i as nat) implies #[trigger] interior_seq(n).contains(
        i,
    ) by {
        assert(interior_seq(n)[i - 1] == i);
    }
}

/// Lays out the static chunks for `n` subdivisions across `num_threads`
/// workers: chunk `k` is `[chunk_start(k), chunk_start(k) + chunk_size(k) - 1]`,
/// so the chunks are contiguous from index `1`, gap-free and overlap-free,
/// with the remainder spread over the first chunks.
pub fn chunk_ranges(n: u64, num_threads: u64) -> (r: Vec<Chunk>)
    requires
        n >= 1,
        num_threads >= 1,
    ensures
        r@.len() == num_threads,
        forall|k: int|
            0 <= k < num_threads ==> #[trigger] r@[k].start == chunk_start(
                (n - 1) as nat,
                num_threads as nat,
                k as nat,
            ),
        forall|k: int|
            0 <= k < num_threads ==> #[trigger] r@[k].end + 1 == r@[k].start + chunk_size(
                (n - 1) as nat,
                num_threads as nat,
                k as nat,
            ),
{
    let total: u64 = n - 1;
    let share: u64 = total / num_threads;
    let extra: u64 = total % num_threads;
    let mut r: Vec<Chunk> = Vec::new();
    let mut current: u64 = 1;
    let mut k: u64 = 0;
    while k < num_threads
        invariant
            n >= 1,
            num_threads >= 1,
            total == n - 1,
            share == total as nat / num_threads as nat,
            extra == total as nat % num_threads as nat,
            k <= num_threads,
            current == chunk_start(total as nat, num_threads as nat, k as nat),
            r@.len() == k,
            forall|j: int|
                0 <= j < k ==> #[trigger] r@[j].start == chunk_start(
                    total as nat,
                    num_threads as nat,
                    j as nat,
                ),
            forall|j: int|
                0 <= j < k ==> #[trigger] r@[j].end + 1 == r@[j].start + chunk_size(
                    total as nat,
                    num_threads as nat,
                    j as nat,
                ),
        decreases num_threads - k,
    {
        let size: u64 = if k < extra {
            share + 1
        } else {
            share
        };
        proof {
            assert(size == chunk_size(total as nat, num_threads as nat, k as nat));
            assert(chunk_start(total as nat, num_threads as nat, (k + 1) as nat) == chunk_start(
                total as nat,
                num_threads as nat,
                k as nat,
            ) + chunk_size(total as nat, num_threads as nat, k as nat));
            lemma_start_monotone(total as nat, num_threads as nat, (k + 1) as nat,
                num_threads as nat);
            lemma_chunks_span(total as nat, num_threads as nat);
            lemma_start_monotone(total as nat, num_threads as nat, 0, k as nat);
            assert(chunk_start(total as nat, num_threads as nat, 0) == 1);
        }
        let end: u64 = current + size - 1;
        r.push(Chunk { start: current, end });
        current = current + size;
        k = k + 1;
    }
    r
}

/// The static plan for `(n, num_threads)`: validates the parameters and
/// lays out the chunks. `Ok` exactly when both parameters are at least
/// one; rejections are reported before any chunk is laid out.
pub fn static_plan(n: i64, num_threads: i64) -> (r: Result<Vec<Chunk>, ReduceError>)
    ensures
        r is Ok <==> n >= 1 && num_threads >= 1,
        r matches Ok(chunks) ==> chunks@.len() == num_threads && (forall|k: int|
            0 <= k < num_threads ==> #[trigger] chunks@[k].start == chunk_start(
                (n - 1) as nat,
                num_threads as nat,
                k as nat,
            )) && (forall|k: int|
            0 <= k < num_threads ==> #[trigger] chunks@[k].end + 1 == chunks@[k].start
                + chunk_size((n - 1) as nat, num_threads as nat, k as nat)),
        n < 1 ==> (r matches Err(e) && e == ReduceError::InvalidInterval),
        n >= 1 && num_threads < 1 ==> (r matches Err(e) && e == ReduceError::InvalidThreadCount),
{
    match validate_params(n, num_threads) {
        Err(e) => Err(e),
        Ok(()) => Ok(chunk_ranges(n as u64, num_threads as u64)),
    }
}

} // verus!
