use crate::error::ReduceError;
use crate::error::validate_params;
use crate::sampling::interior_seq;
use crossbeam::queue::SegQueue;
use vstd::prelude::*;

verus! {

#[verifier::external_type_specification]
#[verifier::external_body]
#[verifier::reject_recursive_types(T)]
pub struct ExSegQueue<T>(SegQueue<T>);

/// The elements of a segment queue of sample indices in FIFO order, next
/// to come out first: what a run of pops with exclusive access returns.
pub uninterp spec fn seg_queue_elems(q: SegQueue<u64>) -> Seq<u64>;

/// Relies on crossbeam's `SegQueue::new`: a freshly created queue holds no
/// elements.
#[verifier::external_body]
fn seg_queue_new() -> (q: SegQueue<u64>)
    ensures
        seg_queue_elems(q) == Seq::<u64>::empty(),
{
    SegQueue::new()
}

/// Relies on crossbeam's `SegQueue::push`: the value is appended at the
/// tail of the FIFO order and nothing else changes.
#[verifier::external_body]
fn seg_queue_push(q: &mut SegQueue<u64>, v: u64)
    ensures
        seg_queue_elems(*final(q)) == seg_queue_elems(*old(q)).push(v),
{
    q.push(v)
}

/// Relies on crossbeam's `SegQueue::pop`: the head element is removed and
/// returned, and `None` comes back only from an empty queue. The access
/// here is exclusive, so no concurrent push or pop can intervene.
#[verifier::external_body]
fn seg_queue_pop(q: &mut SegQueue<u64>) -> (r: Option<u64>)
    ensures
        match r {
            Some(v) => seg_queue_elems(*old(q)).len() > 0 && v == seg_queue_elems(*old(q))[0]
                && seg_queue_elems(*final(q)) == seg_queue_elems(*old(q)).drop_first(),
            None => seg_queue_elems(*old(q)).len() == 0 && seg_queue_elems(*final(q))
                == seg_queue_elems(*old(q)),
        },
{
    q.pop()
}

/// A dynamic bag of work items, each one interior sample index: a
/// multi-consumer FIFO pre-filled completely before any worker starts and
/// drained destructively, one index per take, until observed empty.
pub struct TaskBag {
    queue: SegQueue<u64>,
}

impl View for TaskBag {
    type V = Seq<u64>;

    /// The indices still waiting in the bag, next to be taken first.
    closed spec fn view(&self) -> Seq<u64> {
        seg_queue_elems(self.queue)
    }
}

impl TaskBag {
    /// An empty bag.
    pub fn new() -> (bag: TaskBag)
        ensures
            bag@ == Seq::<u64>::empty(),
    {
        TaskBag { queue: seg_queue_new() }
    }

    /// Adds one work item behind all those already waiting.
    pub fn put(&mut self, i: u64)
        ensures
            final(self)@ == old(self)@.push(i),
    {
        seg_queue_push(&mut self.queue, i)
    }

    /// Destructively takes the next work item; `None` exactly when the bag
    /// is exhausted. An item taken is gone: no work item is ever handed out
    /// twice or requeued.
    pub fn take(&mut self) -> (r: Option<u64>)
        ensures
            match r {
                Some(i) => old(self)@.len() > 0 && i == old(self)@[0] && final(self)@ == old(
                    self,
                )@.drop_first(),
                None => old(self)@.len() == 0 && final(self)@ == old(self)@,
            },
    {
        seg_queue_pop(&mut self.queue)
    }

    /// A bag pre-filled with every interior index `1..=n-1` in ascending
    /// order, the setup the dynamic strategy completes before spawning any
    /// worker.
    pub fn with_interior_indices(n: u64) -> (bag: TaskBag)
        requires
            n >= 1,
        ensures
            bag@ == interior_seq(n),
    {
        let mut bag = TaskBag::new();
        let mut i: u64 = 1;
        while i < n
            invariant
                1 <= i <= n,
                bag@.len() == i - 1,
                forall|k: int| 0 <= k < bag@.len() ==> bag@[k] == k + 1,
            decreases n - i,
        {
            bag.put(i);
            i = i + 1;
        }
        proof {
            assert(bag@ =~= interior_seq(n));
        }
        bag
    }

    /// Takes until the bag is observed empty, returning the taken items in
    /// the order they came out: every waiting index exactly once, so
    /// exactly `self@.len()` successful takes occur.
    pub fn drain(self) -> (r: Vec<u64>)
        ensures
            r@ == self@,
    {
        let ghost orig: Seq<u64> = self@;
        let mut bag = self;
        let mut r: Vec<u64> = Vec::new();
        loop
            invariant
                orig == r@ + bag@,
            ensures
                orig == r@ + bag@,
                bag@.len() == 0,
            decreases bag@.len(),
        {
            proof {
                assert(orig =~= r@ + bag@);
            }
            match bag.take() {
                Some(i) => {
                    r.push(i);
                    proof {
                        assert(orig =~= r@ + bag@);
                    }
                },
                None => { break },
            }
        }
        proof {
            assert(r@ =~= orig);
        }
        r
    }

    /// Surrenders the underlying concurrent queue, contents untouched, for
    /// callers that share it across workers.
    pub fn into_queue(self) -> (q: SegQueue<u64>)
        ensures
            seg_queue_elems(q) == self@,
    {
        self.queue
    }
}

/// The work items a single consumer drains from the dynamic strategy's
/// bag for an `n`-subdivision interval: exactly the `n - 1` interior
/// indices, each exactly once, in the order they were enqueued.
pub fn dynamic_schedule(n: u64) -> (r: Vec<u64>)
    requires
        n >= 1,
    ensures
        r@ == interior_seq(n),
        r@.len() == n - 1,
{
    let bag = TaskBag::with_interior_indices(n);
    bag.drain()
}

/// The dynamic plan for `(n, num_threads)`: validates the parameters and
/// pre-fills the bag with the interior indices. `Ok` exactly when both
/// parameters are at least one; the worker count only sizes the pool, so
/// it leaves no mark on the bag.
pub fn dynamic_plan(n: i64, num_threads: i64) -> (r: Result<TaskBag, ReduceError>)
    ensures
        r is Ok <==> n >= 1 && num_threads >= 1,
        r matches Ok(bag) ==> bag@ == interior_seq(n as u64),
        n < 1 ==> (r matches Err(e) && e == ReduceError::InvalidInterval),
        n >= 1 && num_threads < 1 ==> (r matches Err(e) && e == ReduceError::InvalidThreadCount),
{
    match validate_params(n, num_threads) {
        Err(e) => Err(e),
        Ok(()) => Ok(TaskBag::with_interior_indices(n as u64)),
    }
}

} // verus!
