//! A fixed-capacity, first-in first-out buffer of recent samples.

use std::collections::VecDeque;
use vstd::prelude::*;

verus! {

/// The last `n` elements of `s`, in their order (all of `s` when it is shorter).
pub open spec fn last_n<T>(s: Seq<T>, n: nat) -> Seq<T> {
    if s.len() <= n {
        s
    } else {
        s.subrange(s.len() - n, s.len() as int)
    }
}

/// What a history holding `s` holds after `v` is pushed at capacity `cap`.
pub open spec fn pushed<T>(s: Seq<T>, cap: nat, v: T) -> Seq<T> {
    last_n(s.push(v), cap)
}

/// What an empty history of capacity `cap` holds after each of `xs` is
/// pushed, in order.
pub open spec fn pushed_all<T>(cap: nat, xs: Seq<T>) -> Seq<T>
    decreases xs.len(),
{
    if xs.len() == 0 {
        Seq::empty()
    } else {
        pushed(pushed_all(cap, xs.drop_last()), cap, xs.last())
    }
}

/// Recent samples, oldest first, never more than a capacity fixed at
/// construction.
pub struct RollingHistory<T> {
    capacity: usize,
    values: VecDeque<T>,
}

impl<T> View for RollingHistory<T> {
    type V = Seq<T>;

    closed spec fn view(&self) -> Seq<T> {
        self.values@
    }
}

impl<T: Copy> RollingHistory<T> {
    /// The capacity the history was made with.
    pub closed spec fn cap(&self) -> nat {
        self.capacity as nat
    }

    /// The capacity is positive and the samples fit in it.
    pub open spec fn wf(&self) -> bool {
        &&& self.cap() > 0
        &&& self@.len() <= self.cap()
    }

    /// An empty history; a capacity of zero is a programming error.
    pub fn new(capacity: usize) -> (r: Self)
        requires
            capacity > 0,
        ensures
            r.wf(),
            r.cap() == capacity,
            r@ == Seq::<T>::empty(),
    {
        RollingHistory { capacity, values: VecDeque::with_capacity(capacity) }
    }

    pub fn capacity(&self) -> (r: usize)
        ensures
            r == self.cap(),
    {
        self.capacity
    }

    pub fn len(&self) -> (r: usize)
        ensures
            r == self@.len(),
    {
        self.values.len()
    }

    pub fn is_empty(&self) -> (r: bool)
        ensures
            r == (self@.len() == 0),
    {
        self.values.len() == 0
    }

    /// Appends `value`, dropping the oldest sample when the capacity is exceeded.
    pub fn push(&mut self, value: T)
        requires
            old(self).wf(),
        ensures
            final(self).wf(),
            final(self).cap() == old(self).cap(),
            final(self)@ == pushed(old(self)@, old(self).cap(), value),
    {
        self.values.push_back(value);
        if self.values.len() > self.capacity {
            let _ = self.values.pop_front();
        }
        proof {
            assert(self.values@ =~= pushed(old(self)@, old(self).cap(), value));
        }
    }

    /// The most recent sample, if any.
    pub fn latest(&self) -> (r: Option<T>)
        ensures
            self@.len() == 0 ==> r is None,
            self@.len() > 0 ==> r == Some(self@.last()),
    {
        let n = self.values.len();
        if n == 0 {
            None
        } else {
            Some(self.values[n - 1])
        }
    }

    /// The samples, oldest first.
    pub fn snapshot(&self) -> (r: Vec<T>)
        ensures
            r@ == self@,
    {
        let mut out: Vec<T> = Vec::with_capacity(self.values.len());
        let n = self.values.len();
        let mut i: usize = 0;
        while i < n
            invariant
                n == self@.len(),
                i <= n,
                out@ == self@.subrange(0, i as int),
            decreases n - i,
        {
            out.push(self.values[i]);
            i += 1;
            proof {
                assert(out@ =~= self@.subrange(0, i as int));
            }
        }
        proof {
            assert(out@ =~= self@);
        }
        out
    }
}

/// Each sample kept after a push is the new one or one that was kept before.
pub proof fn lemma_pushed_elements<T>(s: Seq<T>, cap: nat, v: T)
    ensures
        forall|k: int|
            0 <= k < pushed(s, cap, v).len() ==> #[trigger] pushed(s, cap, v)[k] == v
                || pushed(s, cap, v)[k] == s[k + (s.len() + 1 - pushed(s, cap, v).len())],
{
}

/// Pushing each of `xs` into an empty history of capacity `cap > 0` leaves
/// it holding `min(|xs|, cap)` samples: the last ones pushed, in push order.
pub proof fn lemma_pushes_keep_last<T>(cap: nat, xs: Seq<T>)
    requires
        cap > 0,
    ensures
        pushed_all(cap, xs) == last_n(xs, cap),
        pushed_all(cap, xs).len() == if xs.len() < cap { xs.len() } else { cap },
    decreases xs.len(),
{
    if xs.len() > 0 {
        let ys = xs.drop_last();
        lemma_pushes_keep_last(cap, ys);
        assert(ys.push(xs.last()) =~= xs);
        assert(last_n(last_n(ys, cap).push(xs.last()), cap) =~= last_n(xs, cap));
    } else {
        assert(pushed_all(cap, xs) =~= last_n(xs, cap));
    }
}

/// A run of pushes: `states[0]` is empty and each later state is the one
/// before with `xs[k]` pushed at capacity `cap > 0`. The run ends holding
/// the last `min(|xs|, cap)` of `xs`, in push order.
pub proof fn lemma_push_run<T>(cap: nat, states: Seq<Seq<T>>, xs: Seq<T>)
    requires
        cap > 0,
        states.len() == xs.len() + 1,
        states[0] == Seq::<T>::empty(),
        forall|k: int| 0 <= k < xs.len() ==> #[trigger] states[k + 1] == pushed(states[k], cap, xs[k]),
    ensures
        states.last() == last_n(xs, cap),
        states.last().len() == if xs.len() < cap { xs.len() } else { cap },
{
    lemma_run_prefix(cap, states, xs, xs.len() as int);
    assert(xs.take(xs.len() as int) =~= xs);
    lemma_pushes_keep_last(cap, xs);
}

proof fn lemma_run_prefix<T>(cap: nat, states: Seq<Seq<T>>, xs: Seq<T>, k: int)
    requires
        0 <= k <= xs.len(),
        states.len() == xs.len() + 1,
        states[0] == Seq::<T>::empty(),
        forall|j: int| 0 <= j < xs.len() ==> #[trigger] states[j + 1] == pushed(states[j], cap, xs[j]),
    ensures
        states[k] == pushed_all(cap, xs.take(k)),
    decreases k,
{
    if k > 0 {
        lemma_run_prefix(cap, states, xs, k - 1);
        assert(xs.take(k).drop_last() =~= xs.take(k - 1));
        assert(states[(k - 1) + 1] == pushed(states[k - 1], cap, xs[k - 1]));
    } else {
        assert(xs.take(0) =~= Seq::<T>::empty());
    }
}

} // verus!
