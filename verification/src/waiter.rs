use vstd::prelude::*;

use crate::clock::clock_now;
use crate::clock::duration_reached;
use crate::clock::elapsed_since;
use crate::loader::LoadResult;
use crate::loader::Loader;
use std::time::Duration;

verus! {

/// Reversing a prefix of a sequence gives a suffix of the reversed sequence:
/// the driver pops elements off the back of its reversed store, and this
/// carries that fact over to the order the elements are handed out in.
proof fn lemma_reverse_of_take_prefix<T>(full: Seq<T>, rest: Seq<T>)
    requires
        rest.len() <= full.len(),
        rest == full.take(rest.len() as int),
    ensures
        full.reverse().len() == full.len(),
        rest.reverse().len() == rest.len(),
        rest.reverse() == full.reverse().skip(full.len() - rest.len()),
{
    let d = full.len() - rest.len();
    assert forall|i: int| 0 <= i < rest.len() implies rest.reverse()[i] == full.reverse().skip(
        d,
    )[i] by {
        assert(rest.reverse()[i] == rest[rest.len() - 1 - i]);
        assert(full.reverse().skip(d)[i] == full.reverse()[d + i]);
        assert(full.reverse()[d + i] == full[full.len() - 1 - d - i]);
    }
    assert(rest.reverse() =~= full.reverse().skip(d));
}

/// Drives a [`Loader`] over a sequence of elements in bounded time slices.
///
/// The elements still to be processed are held in `rest` in reverse order, so
/// that the next element to hand to the loader is always `rest`'s last and
/// can be removed in constant time.
pub struct ProgressiveWaiter<L: Loader> {
    rest: Vec<L::Data>,
    loader: Option<L>,
    count: usize,
}

impl<L: Loader> ProgressiveWaiter<L> {
    /// The elements not yet handed to the loader, in the order they will be
    /// handed over.
    pub closed spec fn remaining(self) -> Seq<L::Data> {
        self.rest@.reverse()
    }

    /// How many elements have been handed to the loader so far.
    pub closed spec fn processed(self) -> nat {
        self.count as nat
    }

    /// Whether the driver still holds its loader; once the final output has
    /// been produced this is false forever.
    pub closed spec fn active(self) -> bool {
        self.loader is Some
    }

    /// The loader held while the driver is active.
    pub closed spec fn current_loader(self) -> L
        recommends
            self.active(),
    {
        self.loader.unwrap()
    }

    /// Elements processed plus elements remaining: fixed at construction and
    /// invariant for the driver's whole life.
    pub open spec fn total(self) -> nat {
        self.processed() + self.remaining().len()
    }

    /// The element count never outgrows the machine: maintained by every
    /// operation, so arithmetic on counts cannot overflow.
    pub open spec fn wf(self) -> bool {
        self.total() <= usize::MAX
    }

    /// The abstract step a single query takes: the processed count does not
    /// shrink and does not pass the total, the total itself is unchanged,
    /// and the remaining elements are exactly the old ones with the newly
    /// processed prefix removed — nothing is skipped, repeated or reordered.
    pub open spec fn advances_to(self, post: Self) -> bool {
        &&& self.processed() <= post.processed() <= self.total()
        &&& post.total() == self.total()
        &&& post.remaining() == self.remaining().skip(post.processed() - self.processed())
    }

    /// The elements one step handed to the loader, in the order it got them.
    pub open spec fn step_batch(self, post: Self) -> Seq<L::Data> {
        self.remaining().take(post.processed() - self.processed())
    }

    /// All elements handed to the loader over a chain of steps, in order.
    pub open spec fn consumed_along(trace: Seq<ProgressiveWaiter<L>>) -> Seq<L::Data>
        decreases trace.len(),
    {
        if trace.len() <= 1 {
            Seq::empty()
        } else {
            trace[0].step_batch(trace[1]) + Self::consumed_along(trace.skip(1))
        }
    }

    /// Law: over any chain of query steps that ends with the sequence
    /// exhausted, the loader is handed exactly the elements that remained at
    /// the start — each one once, in their original order — and the
    /// processed count ends equal to the total element count.
    pub proof fn lemma_run_consumes_all_in_order(trace: Seq<ProgressiveWaiter<L>>)
        requires
            trace.len() >= 1,
            forall|i: int|
                0 <= i < trace.len() - 1 ==> #[trigger] trace[i].advances_to(trace[i + 1]),
            trace[trace.len() - 1].remaining().len() == 0,
        ensures
            Self::consumed_along(trace) == trace[0].remaining(),
            trace[trace.len() - 1].processed() == trace[0].total(),
        decreases trace.len(),
    {
        if trace.len() == 1 {
            assert(Self::consumed_along(trace) =~= trace[0].remaining());
        } else {
            let rest = trace.skip(1);
            assert forall|i: int|
                0 <= i < rest.len() - 1 implies #[trigger] rest[i].advances_to(rest[i + 1]) by {
                let j = i + 1;
                assert(trace[j].advances_to(trace[j + 1]));
                assert(rest[i] == trace[j]);
                assert(rest[i + 1] == trace[j + 1]);
            }
            assert(rest[rest.len() - 1] == trace[trace.len() - 1]);
            Self::lemma_run_consumes_all_in_order(rest);
            let head = trace[0];
            assert(head.advances_to(trace[1]));
            assert(rest[0] == trace[1]);
            let d = trace[1].processed() - head.processed();
            assert(head.step_batch(trace[1]) + head.remaining().skip(d) =~= head.remaining());
        }
    }

    /// Law: the progress ratio — elements processed over total elements —
    /// never falls from one query to the next (stated here by cross
    /// multiplication, so that no division is needed), and once the sequence
    /// is exhausted the ratio is exactly one: the processed count equals the
    /// total.
    pub proof fn lemma_progress_monotone(pre: Self, post: Self)
        requires
            pre.advances_to(post),
        ensures
            pre.processed() * post.total() <= post.processed() * pre.total(),
            post.remaining().len() == 0 ==> post.processed() == post.total(),
    {
        let p0 = pre.processed();
        let p1 = post.processed();
        let t = pre.total();
        assert(p0 * t <= p1 * t) by (nonlinear_arith)
            requires
                p0 <= p1,
        ;
    }

    /// Takes ownership of a loader and of the elements to feed it.
    pub fn new(loader: L, data: Vec<L::Data>) -> (w: Self)
        ensures
            w.wf(),
            w.active(),
            w.processed() == 0,
            w.remaining() == data@,
            w.current_loader() == loader,
    {
        let mut src = data;
        let total: usize = src.len();
        let mut rev: Vec<L::Data> = Vec::new();
        let ghost all = src@;
        while src.len() > 0
            invariant
                src@ == all.take(src@.len() as int),
                rev@.len() + src@.len() == all.len(),
                forall|i: int|
                    0 <= i < rev@.len() ==> rev@[i] == all[all.len() - 1 - i],
            decreases src@.len(),
        {
            if let Some(x) = src.pop() {
                rev.push(x);
            }
        }
        proof {
            assert forall|i: int| 0 <= i < all.len() implies rev@.reverse()[i] == all[i] by {
                assert(rev@.reverse()[i] == rev@[rev@.len() - 1 - i]);
            }
            assert(rev@.reverse() =~= all);
            assert(rev@.len() == total);
        }
        Self { rest: rev, loader: Some(loader), count: 0 }
    }

    /// Process elements until the time budget is spent or the sequence is
    /// exhausted, then hand control back.
    ///
    /// At least one element is processed whenever any remain, even under a
    /// zero budget: the budget is checked only after each element, so every
    /// call makes forward progress. When the sequence is exhausted the
    /// driver consumes its loader, returns the final output, and becomes
    /// permanently inactive; querying again after that is a caller error,
    /// ruled out by the precondition, and the compiled code aborts there.
    pub fn query(&mut self, allowed_time: Duration, context: &L::Context) -> (r: LoadResult<L>)
        requires
            old(self).active(),
            old(self).wf(),
        ensures
            final(self).wf(),
            old(self).advances_to(*final(self)),
            r is Done <==> !final(self).active(),
            r is Done ==> final(self).processed() == final(self).total(),
            old(self).remaining().len() == 0 ==> r is Done && final(self).processed() == old(self).processed(),
            old(self).remaining().len() > 0 ==> final(self).processed() > old(self).processed(),
    {
        let ghost pre = *old(self);
        let mut loader = match self.loader.take() {
            Some(l) => l,
            None => unreached(),
        };
        let start_time = clock_now();
        loop
            invariant
                pre == *old(self),
                self.loader is None,
                self.count + self.rest@.len() == pre.count + pre.rest@.len(),
                pre.count <= self.count,
                self.rest@ == pre.rest@.take(self.rest@.len() as int),
                pre.wf(),
            decreases self.rest@.len(),
        {
            match self.rest.pop() {
                Some(next) => {
                    self.count = self.count + 1;
                    let update = loader.operate(next, context);
                    let spent = elapsed_since(&start_time);
                    if duration_reached(&spent, &allowed_time) {
                        self.loader = Some(loader);
                        proof {
                            assert(self.rest@ =~= pre.rest@.take(self.rest@.len() as int));
                            lemma_reverse_of_take_prefix(pre.rest@, self.rest@);
                        }
                        return LoadResult::Loading(update);
                    }
                }
                None => {
                    let output = loader.finish(context);
                    proof {
                        lemma_reverse_of_take_prefix(pre.rest@, self.rest@);
                    }
                    return LoadResult::Done(output);
                }
            }
        }
    }

    /// How many elements have been processed. Valid in both states; after the
    /// final result it equals the total element count.
    pub fn finished_count(&self) -> (c: usize)
        ensures
            c == self.processed(),
    {
        self.count
    }

    /// How many total elements there are to process, the already-processed
    /// ones included. After the final result this equals `finished_count`.
    pub fn total_elements(&self) -> (n: usize)
        requires
            self.wf(),
        ensures
            n == self.total(),
    {
        self.count + self.rest.len()
    }

    /// How many elements are left to process.
    pub fn elements_left(&self) -> (n: usize)
        ensures
            n == self.remaining().len(),
    {
        self.rest.len()
    }

    /// A shared borrow of the held loader. Calling this after the final
    /// result has been produced is a caller error, ruled out by the
    /// precondition; the compiled code aborts there.
    pub fn loader(&self) -> (l: &L)
        requires
            self.active(),
        ensures
            *l == self.current_loader(),
    {
        self.loader.as_ref().unwrap()
    }

    /// A mutable borrow of the held loader, for callers that want to adjust
    /// it between time slices. The element counts and the remaining sequence
    /// are untouched. As with [`Self::loader`], calling this after the final
    /// result is a caller error, ruled out by the precondition.
    pub fn loader_mut(&mut self) -> (l: &mut L)
        requires
            old(self).active(),
        ensures
            *l == old(self).current_loader(),
            final(self).active(),
            final(self).current_loader() == *final(l),
            final(self).remaining() == old(self).remaining(),
            final(self).processed() == old(self).processed(),
    {
        match &mut self.loader {
            Some(l) => l,
            None => unreached(),
        }
    }
}

} // verus!
