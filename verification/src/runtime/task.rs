//! Tasks: the queue of a worker, and the wakers that put tasks back into it.
//!
//! A task is known by a number; the program keeps the futures themselves.
use crossbeam_queue::ArrayQueue;
use vstd::prelude::*;

verus! {

/// `crossbeam_queue::ArrayQueue`, a bounded queue.
#[verifier::external_type_specification]
#[verifier::external_body]
#[verifier::reject_recursive_types(T)]
pub struct ExArrayQueue<T>(crossbeam_queue::ArrayQueue<T>);

/// The items in a queue, from the oldest to the newest.
pub uninterp spec fn queued(queue: ArrayQueue<u64>) -> Seq<u64>;

/// How many items a queue takes.
pub uninterp spec fn capacity(queue: ArrayQueue<u64>) -> nat;

/// Calls `ArrayQueue::new`. Claims that the queue is empty and takes `limit` items.
#[verifier::external_body]
fn new_queue(limit: usize) -> (queue: ArrayQueue<u64>)
    requires
        0 < limit < 0x1_0000,
    ensures
        queued(queue) == Seq::<u64>::empty(),
        capacity(queue) == limit,
{
    ArrayQueue::new(limit)
}

/// Calls `ArrayQueue::push` on a queue that nobody else uses meanwhile. Claims that the item
/// becomes the newest, or comes back where the queue is full.
#[verifier::external_body]
fn push_item(queue: &mut ArrayQueue<u64>, item: u64) -> (result: Result<(), u64>)
    ensures
        capacity(*final(queue)) == capacity(*old(queue)),
        queued(*old(queue)).len() < capacity(*old(queue)) ==> result is Ok && queued(*final(queue))
            == queued(*old(queue)).push(item),
        queued(*old(queue)).len() >= capacity(*old(queue)) ==> result is Err && result->Err_0
            == item && queued(*final(queue)) == queued(*old(queue)),
{
    queue.push(item)
}

/// Calls `ArrayQueue::pop` on a queue that nobody else uses meanwhile. Claims that the
/// oldest item leaves the queue, if there is one.
#[verifier::external_body]
fn pop_item(queue: &mut ArrayQueue<u64>) -> (item: Option<u64>)
    ensures
        capacity(*final(queue)) == capacity(*old(queue)),
        queued(*old(queue)).len() == 0 ==> item is None && queued(*final(queue)) == queued(
            *old(queue),
        ),
        queued(*old(queue)).len() > 0 ==> item == Some(queued(*old(queue))[0]) && queued(
            *final(queue),
        ) == queued(*old(queue)).drop_first(),
{
    queue.pop()
}

/// Calls `ArrayQueue::is_empty`. Claims that it tells whether the queue has no items.
#[verifier::external_body]
fn no_items(queue: &ArrayQueue<u64>) -> (empty: bool)
    ensures
        empty == (queued(*queue).len() == 0),
{
    queue.is_empty()
}

/// How many tasks can wait for a worker.
pub const QUEUE_LIMIT: usize = 512;

/// The tasks that wait for a worker. Guard it with a lock; where `pop` finds nothing, wait
/// until something has been pushed.
pub struct TaskQueue {
    queue: ArrayQueue<u64>,
    empty: bool,
}

impl TaskQueue {
    /// The waiting tasks, from the oldest to the newest.
    pub closed spec fn tasks(&self) -> Seq<u64> {
        queued(self.queue)
    }

    /// The flag tells whether no task waits, and no more wait than there is room for.
    pub closed spec fn well_formed(&self) -> bool {
        &&& capacity(self.queue) == QUEUE_LIMIT
        &&& queued(self.queue).len() <= QUEUE_LIMIT
        &&& self.empty <==> queued(self.queue).len() == 0
    }

    /// An empty queue.
    pub fn new() -> (queue: Self)
        ensures
            queue.well_formed(),
            queue.tasks() == Seq::<u64>::empty(),
    {
        Self { queue: new_queue(QUEUE_LIMIT), empty: true }
    }

    /// Appends a task; where there is no room it is dropped, and comes back as an error.
    pub fn push(&mut self, task: u64) -> (result: Result<(), u64>)
        requires
            old(self).well_formed(),
        ensures
            final(self).well_formed(),
            old(self).tasks().len() < QUEUE_LIMIT ==> {
                &&& result is Ok
                &&& final(self).tasks() == old(self).tasks().push(task)
            },
            old(self).tasks().len() == QUEUE_LIMIT ==> result is Err && result->Err_0 == task
                && final(self).tasks() == old(self).tasks(),
            old(self).tasks().len() <= QUEUE_LIMIT,
            final(self).tasks().len() > 0,
    {
        let result = push_item(&mut self.queue, task);
        self.empty = false;
        result
    }

    /// Takes the oldest task; `None` means that the worker has to wait.
    pub fn pop(&mut self) -> (task: Option<u64>)
        requires
            old(self).well_formed(),
        ensures
            final(self).well_formed(),
            old(self).tasks().len() == 0 ==> task is None && *final(self) == *old(self),
            old(self).tasks().len() > 0 ==> {
                &&& task == Some(old(self).tasks()[0])
                &&& final(self).tasks() == old(self).tasks().drop_first()
            },
    {
        if self.empty {
            None
        } else {
            let task = pop_item(&mut self.queue);
            self.empty = no_items(&self.queue);
            task
        }
    }
}

/// What a waker knows: the task that it is to put back, and whether it was woken before it
/// had one.
pub struct TaskWaker<T> {
    pub task: Option<T>,
    pub woken: bool,
}

/// The task and the mark of a waker after it was woken, and the task to put back.
pub open spec fn wake_step<T>(task: Option<T>, woken: bool) -> (Option<T>, bool, Option<T>) {
    match task {
        Some(kept) => (None, woken, Some(kept)),
        None => (None, true, None),
    }
}

/// The task and the mark of a waker after it was given a task, and the task to put back.
pub open spec fn delegate_step<T>(task: Option<T>, woken: bool, given: T) -> (
    Option<T>,
    bool,
    Option<T>,
) {
    if woken {
        (task, woken, Some(given))
    } else {
        (Some(given), woken, None)
    }
}

impl<T> TaskWaker<T> {
    /// A waker that has not been woken.
    pub fn new(task: Option<T>) -> (waker: Self)
        ensures
            waker == (TaskWaker { task, woken: false }),
    {
        Self { task, woken: false }
    }

    /// Wakes the task: gives it out to be put back into the queue, or notes that it is to
    /// be put back as soon as it comes.
    pub fn wake(&mut self) -> (ready: Option<T>)
        ensures
            (final(self).task, final(self).woken, ready) == wake_step(
                old(self).task,
                old(self).woken,
            ),
    {
        let kept = self.task.take();
        if kept.is_none() {
            self.woken = true;
        }
        kept
    }

    /// Leaves a pending task with the waker; gives it out again where it has been woken
    /// meanwhile.
    pub fn delegate(&mut self, task: T) -> (ready: Option<T>)
        ensures
            (final(self).task, final(self).woken, ready) == delegate_step(
                old(self).task,
                old(self).woken,
                task,
            ),
    {
        if self.woken {
            Some(task)
        } else {
            self.task = Some(task);
            None
        }
    }

    /// What a worker does with a task that it has polled: a finished task is done with, a
    /// pending one is left with its waker. The task that comes back goes into the queue.
    pub fn after_poll(&mut self, task: T, finished: bool) -> (ready: Option<T>)
        ensures
            finished ==> ready is None && *final(self) == *old(self),
            !finished ==> (final(self).task, final(self).woken, ready) == delegate_step(
                old(self).task,
                old(self).woken,
                task,
            ),
    {
        if finished {
            None
        } else {
            self.delegate(task)
        }
    }
}

/// The task and the mark of a waker after it was woken `times` times.
pub open spec fn waker_after<T>(task: Option<T>, woken: bool, times: nat) -> (Option<T>, bool)
    decreases times,
{
    if times == 0 {
        (task, woken)
    } else {
        let (kept, mark) = waker_after(task, woken, (times - 1) as nat);
        let (next, next_mark, _) = wake_step(kept, mark);
        (next, next_mark)
    }
}

/// How often a waker puts a task back when it is woken `times` times.
pub open spec fn put_back<T>(task: Option<T>, woken: bool, times: nat) -> nat
    decreases times,
{
    if times == 0 {
        0
    } else {
        let (kept, mark) = waker_after(task, woken, (times - 1) as nat);
        put_back(task, woken, (times - 1) as nat) + (if wake_step(kept, mark).2 is Some {
            1nat
        } else {
            0nat
        })
    }
}

/// A waker without a task puts nothing back, and notes that it was woken.
proof fn lemma_woken_without_task<T>(woken: bool, times: nat)
    ensures
        waker_after(None::<T>, woken, times) == (None::<T>, woken || times > 0),
        put_back(None::<T>, woken, times) == 0,
    decreases times,
{
    if times > 0 {
        lemma_woken_without_task::<T>(woken, (times - 1) as nat);
    }
}

/// A waker with a task puts it back at the first of its calls, and never again.
proof fn lemma_woken_with_task<T>(task: T, woken: bool, times: nat)
    ensures
        times > 0 ==> (waker_after(Some(task), woken, times).0 is None && put_back(
            Some(task),
            woken,
            times,
        ) == 1),
        times == 0 ==> put_back(Some(task), woken, times) == 0,
    decreases times,
{
    if times > 0 {
        lemma_woken_with_task(task, woken, (times - 1) as nat);
        if times == 1 {
            assert(waker_after(Some(task), woken, 0) == (Some(task), woken));
        }
    }
}

/// No wake-up is lost and none counts twice: a task that is left with a fresh waker is put
/// back exactly once if the waker is woken at all, before it has the task or after, and not
/// at all otherwise.
pub proof fn law_task_is_put_back_once<T>(task: T, before: nat, after: nat)
    ensures
        ({
            let (kept, mark) = waker_after(None::<T>, false, before);
            let (next, next_mark, ready) = delegate_step(kept, mark, task);
            let total = put_back(None::<T>, false, before) + (if ready is Some {
                1nat
            } else {
                0nat
            }) + put_back(next, next_mark, after);
            total == if before + after > 0 {
                1nat
            } else {
                0nat
            }
        }),
{
    lemma_woken_without_task::<T>(false, before);
    if before > 0 {
        lemma_woken_without_task::<T>(true, after);
    } else {
        lemma_woken_with_task(task, false, after);
    }
}

/// The task that is put back is the one that was left: a waker that has been woken gives a task
/// back as soon as it gets it, and one that has not keeps it until it is woken.
pub proof fn law_the_same_task_is_put_back<T>(task: T)
    ensures
        wake_step(None::<T>, false) == (None::<T>, true, None::<T>),
        wake_step(Some(task), false) == (None::<T>, false, Some(task)),
        delegate_step(None::<T>, true, task) == (None::<T>, true, Some(task)),
        delegate_step(None::<T>, false, task) == (Some(task), false, None::<T>),
{
}

} // verus!
