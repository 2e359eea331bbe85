//! Futures that run on another runtime.
use vstd::prelude::*;
use crate::runtime::Poll;

verus! {

/// A future that another runtime is to run: the future `F` until it is handed over, its result
/// `T` from when it is done until it is fetched, and what wakes the task that waits, `W`, from
/// when the future is handed over until it is done.
pub struct Bridge<F, T, W> {
    pub task: Option<F>,
    pub result: Option<T>,
    pub waker: Option<W>,
}

/// A bridge whose future has not been asked for.
pub open spec fn fresh_bridge<F, T, W>(future: F) -> Bridge<F, T, W> {
    Bridge { task: Some(future), result: None, waker: None }
}

/// Makes a bridge for a future.
pub fn tokio_bridge<F, T, W>(future: F) -> (bridge: Bridge<F, T, W>)
    ensures
        bridge == fresh_bridge::<F, T, W>(future),
{
    Bridge { task: Some(future), result: None, waker: None }
}

/// The bridge after the future was asked for by the task with this waker, and the future where
/// it had not been asked for before. The waker of the first task stays.
pub open spec fn started<F, T, W>(bridge: Bridge<F, T, W>, waker: W) -> (
    Bridge<F, T, W>,
    Option<F>,
) {
    match bridge.task {
        Some(future) => (Bridge { task: None, waker: Some(waker), ..bridge }, Some(future)),
        None => (bridge, None),
    }
}

/// The bridge after the future has come to its result, and whom that wakes.
pub open spec fn finished<F, T, W>(bridge: Bridge<F, T, W>, result: T) -> (
    Bridge<F, T, W>,
    Option<W>,
) {
    (Bridge { result: Some(result), waker: None, ..bridge }, bridge.waker)
}

/// The bridge after a poll, and the result where it is there.
pub open spec fn polled<F, T, W>(bridge: Bridge<F, T, W>) -> (Bridge<F, T, W>, Poll<T>) {
    (
        Bridge { result: None, ..bridge },
        match bridge.result {
            Some(result) => Poll::Ready(result),
            None => Poll::Pending,
        },
    )
}

impl<F, T, W> Bridge<F, T, W> {
    /// Gives the future out to be run by the other runtime, at the first call only, and keeps
    /// the waker of the task that makes that call.
    pub fn start(&mut self, waker: W) -> (task: Option<F>)
        ensures
            (*final(self), task) == started(*old(self), waker),
    {
        match self.task.take() {
            Some(future) => {
                self.waker = Some(waker);
                Some(future)
            },
            None => None,
        }
    }

    /// Notes the result, and gives the waker to wake after that.
    pub fn finish(&mut self, result: T) -> (waker: Option<W>)
        ensures
            (*final(self), waker) == finished(*old(self), result),
    {
        self.result = Some(result);
        self.waker.take()
    }

    /// Fetches the result, if it is there.
    pub fn poll(&mut self) -> (poll: Poll<T>)
        ensures
            (*final(self), poll) == polled(*old(self)),
    {
        match self.result.take() {
            Some(result) => Poll::Ready(result),
            None => Poll::Pending,
        }
    }
}

/// What the task that waits does: it asks for the future to be run, leaving its waker, and it
/// asks for the result.
pub enum Visit<W> {
    Start(W),
    Poll,
}

/// The bridge after a visit.
pub open spec fn visited<F, T, W>(bridge: Bridge<F, T, W>, visit: Visit<W>) -> Bridge<F, T, W> {
    match visit {
        Visit::Start(waker) => started(bridge, waker).0,
        Visit::Poll => polled(bridge).0,
    }
}

/// The bridge after these visits.
pub open spec fn after_visits<F, T, W>(bridge: Bridge<F, T, W>, visits: Seq<Visit<W>>) -> Bridge<
    F,
    T,
    W,
>
    decreases visits.len(),
{
    if visits.len() == 0 {
        bridge
    } else {
        visited(after_visits(bridge, visits.drop_last()), visits.last())
    }
}

/// The futures that these visits give out, in order.
pub open spec fn given_out<F, T, W>(bridge: Bridge<F, T, W>, visits: Seq<Visit<W>>) -> Seq<F>
    decreases visits.len(),
{
    if visits.len() == 0 {
        Seq::empty()
    } else {
        let earlier = given_out(bridge, visits.drop_last());
        match visits.last() {
            Visit::Start(waker) => match started(
                after_visits(bridge, visits.drop_last()),
                waker,
            ).1 {
                Some(future) => earlier.push(future),
                None => earlier,
            },
            Visit::Poll => earlier,
        }
    }
}

/// The results that these visits fetch, in order.
pub open spec fn fetched<F, T, W>(bridge: Bridge<F, T, W>, visits: Seq<Visit<W>>) -> Seq<T>
    decreases visits.len(),
{
    if visits.len() == 0 {
        Seq::empty()
    } else {
        let earlier = fetched(bridge, visits.drop_last());
        match visits.last() {
            Visit::Start(_) => earlier,
            Visit::Poll => match polled(after_visits(bridge, visits.drop_last())).1 {
                Poll::Ready(result) => earlier.push(result),
                Poll::Pending => earlier,
            },
        }
    }
}

/// The waker that came with the first wish to run the future.
pub open spec fn first_waker<W>(visits: Seq<Visit<W>>) -> Option<W>
    decreases visits.len(),
{
    if visits.len() == 0 {
        None
    } else {
        match (first_waker(visits.drop_last()), visits.last()) {
            (None, Visit::Start(waker)) => Some(waker),
            (earlier, _) => earlier,
        }
    }
}

/// A future is given out at the first wish to run it and never again, and until it is done
/// every poll has to wait.
pub proof fn law_future_is_given_out_once<F, T, W>(future: F, visits: Seq<Visit<W>>)
    ensures
        ({
            let fresh = fresh_bridge::<F, T, W>(future);
            let waiting = after_visits(fresh, visits);
            &&& fetched(fresh, visits) == Seq::<T>::empty()
            &&& waiting.result is None
            &&& waiting.waker == first_waker(visits)
            &&& if first_waker(visits) is Some {
                given_out(fresh, visits) == seq![future] && waiting.task is None
            } else {
                given_out(fresh, visits) == Seq::<F>::empty() && waiting.task == Some(future)
            }
        }),
    decreases visits.len(),
{
    if visits.len() > 0 {
        law_future_is_given_out_once::<F, T, W>(future, visits.drop_last());
    }
}

/// When a future is done, whatever visits came before, the waker of the first is woken, after
/// the result is there. The next poll gives the result and no other does, the future is not
/// given out again, and nobody is left to be woken.
pub proof fn law_first_waker_is_woken_once<F, T, W>(
    future: F,
    before: Seq<Visit<W>>,
    result: T,
    after: Seq<Visit<W>>,
)
    requires
        first_waker(before) is Some,
    ensures
        ({
            let waiting = after_visits(fresh_bridge::<F, T, W>(future), before);
            let (done, woken) = finished(waiting, result);
            let last = after_visits(done, after);
            &&& woken == first_waker(before)
            &&& done.result == Some(result)
            &&& given_out(done, after) == Seq::<F>::empty()
            &&& fetched(done, after) == if after.contains(Visit::Poll) {
                seq![result]
            } else {
                Seq::empty()
            }
            &&& last.waker is None
            &&& last.task is None
        }),
{
    law_future_is_given_out_once::<F, T, W>(future, before);
    let waiting = after_visits(fresh_bridge::<F, T, W>(future), before);
    lemma_done_bridge(finished(waiting, result).0, result, after);
}

proof fn lemma_done_bridge<F, T, W>(done: Bridge<F, T, W>, result: T, after: Seq<Visit<W>>)
    requires
        done.task is None,
        done.waker is None,
        done.result == Some(result),
    ensures
        given_out(done, after) == Seq::<F>::empty(),
        after_visits(done, after).task is None,
        after_visits(done, after).waker is None,
        if after.contains(Visit::Poll) {
            fetched(done, after) == seq![result] && after_visits(done, after).result is None
        } else {
            fetched(done, after) == Seq::<T>::empty() && after_visits(done, after).result == Some(
                result,
            )
        },
    decreases after.len(),
{
    if after.len() > 0 {
        let earlier = after.drop_last();
        lemma_done_bridge(done, result, earlier);
        if earlier.contains(Visit::Poll) {
            let k = choose|k: int| 0 <= k < earlier.len() && earlier[k] == Visit::<W>::Poll;
            assert(after[k] == Visit::<W>::Poll);
        } else if after.contains(Visit::Poll) {
            let k = choose|k: int| 0 <= k < after.len() && after[k] == Visit::<W>::Poll;
            if k < earlier.len() {
                assert(earlier[k] == Visit::<W>::Poll);
            }
            assert(after.last() == Visit::<W>::Poll);
        } else {
            assert(after.last() == after[after.len() - 1]);
        }
    }
}

} // verus!
