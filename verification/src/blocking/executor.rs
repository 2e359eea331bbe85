//! The tasks that wait for a worker.
use std::collections::VecDeque;
use vstd::prelude::*;

verus! {

/// The waiting tasks. Guard it with a lock; where `pop` finds nothing, wait until something
/// has been pushed.
pub struct TaskQueue<T> {
    pub queue: VecDeque<T>,
}

impl<T> TaskQueue<T> {
    /// An empty queue.
    pub fn new() -> (queue: Self)
        ensures
            queue.queue@ == Seq::<T>::empty(),
    {
        Self { queue: VecDeque::new() }
    }

    /// Appends a task.
    pub fn push(&mut self, task: T)
        ensures
            final(self).queue@ == old(self).queue@.push(task),
    {
        self.queue.push_back(task);
    }

    /// Takes the oldest task; `None` means that the worker has to wait.
    pub fn pop(&mut self) -> (task: Option<T>)
        ensures
            old(self).queue@.len() == 0 ==> task is None && final(self).queue@ == old(self).queue@,
            old(self).queue@.len() > 0 ==> task == Some(old(self).queue@[0]) && final(
                self).queue@ == old(self).queue@.drop_first(),
    {
        let task = self.queue.pop_front();
        assert(old(self).queue@.len() > 0 ==> self.queue@ =~= old(self).queue@.drop_first());
        task
    }
}

/// How a task has ended.
#[derive(Clone, Copy, PartialEq, Eq, Structural, Debug)]
pub enum TaskEnd {
    /// It came to its end.
    Done,
    /// It reported a fault.
    Failed,
    /// It broke down.
    Panicked,
}

/// What a worker does next.
pub enum WorkerStep<T> {
    /// There is a task to run.
    Run(T),
    /// Wait until a task has been pushed.
    Wait,
}

impl<T> TaskQueue<T> {
    /// Decides what a worker does next, after its last task, if there was one, has ended: it
    /// runs the oldest waiting task, however the last one has ended.
    pub fn next_step(&mut self, last: Option<TaskEnd>) -> (step: WorkerStep<T>)
        ensures
            (final(self).queue@, step) == worker_step(old(self).queue@, last),
    {
        match self.pop() {
            Some(task) => WorkerStep::Run(task),
            None => WorkerStep::Wait,
        }
    }
}

/// The waiting tasks after a worker whose last task has ended so looks for the next one, and
/// what it does.
pub open spec fn worker_step<T>(waiting: Seq<T>, last: Option<TaskEnd>) -> (Seq<T>, WorkerStep<T>) {
    if waiting.len() > 0 {
        (waiting.drop_first(), WorkerStep::Run(waiting[0]))
    } else {
        (waiting, WorkerStep::Wait)
    }
}

/// What happens around a worker.
pub enum WorkerEvent<T> {
    /// A task is pushed.
    Push(T),
    /// The worker looks for a task, its last one having ended so.
    Turn(Option<TaskEnd>),
}

/// The tasks that wait, and those that have been run, after some events.
pub open spec fn worker_after<T>(events: Seq<WorkerEvent<T>>) -> (Seq<T>, Seq<T>)
    decreases events.len(),
{
    if events.len() == 0 {
        (Seq::empty(), Seq::empty())
    } else {
        let (waiting, ran) = worker_after(events.drop_last());
        match events.last() {
            WorkerEvent::Push(task) => (waiting.push(task), ran),
            WorkerEvent::Turn(last) => match worker_step(waiting, last) {
                (left, WorkerStep::Run(task)) => (left, ran.push(task)),
                (left, WorkerStep::Wait) => (left, ran),
            },
        }
    }
}

/// The tasks that are pushed, in order.
pub open spec fn pushed<T>(events: Seq<WorkerEvent<T>>) -> Seq<T>
    decreases events.len(),
{
    if events.len() == 0 {
        Seq::empty()
    } else {
        match events.last() {
            WorkerEvent::Push(task) => pushed(events.drop_last()).push(task),
            WorkerEvent::Turn(_) => pushed(events.drop_last()),
        }
    }
}

/// A worker runs every task once, in the order in which they were pushed, however tasks end:
/// the tasks that have been run, and after them those that wait, are those that were pushed.
pub proof fn law_tasks_run_once_in_order<T>(events: Seq<WorkerEvent<T>>)
    ensures
        worker_after(events).1 + worker_after(events).0 == pushed(events),
    decreases events.len(),
{
    if events.len() == 0 {
        assert(worker_after(events).1 + worker_after(events).0 =~= pushed(events));
    } else {
        law_tasks_run_once_in_order(events.drop_last());
        let (waiting, ran) = worker_after(events.drop_last());
        match events.last() {
            WorkerEvent::Push(task) => {
                assert(ran + waiting.push(task) =~= (ran + waiting).push(task));
            },
            WorkerEvent::Turn(_) => {
                if waiting.len() > 0 {
                    assert(ran.push(waiting[0]) + waiting.drop_first() =~= ran + waiting);
                }
            },
        }
    }
}

/// No task waits for ever while the worker looks for tasks: after as many turns as tasks have
/// been pushed, however they end, all of those tasks have been run.
pub proof fn law_every_task_is_run<T>(before: Seq<WorkerEvent<T>>, turns: Seq<Option<TaskEnd>>)
    requires
        turns.len() >= worker_after(before).0.len(),
    ensures
        ({
            let events = before + Seq::new(turns.len(), |i: int| WorkerEvent::<T>::Turn(turns[i]));
            worker_after(events) == (Seq::<T>::empty(), pushed(before))
        }),
{
    let events = before + Seq::new(turns.len(), |i: int| WorkerEvent::<T>::Turn(turns[i]));
    lemma_turns(before, turns);
    law_tasks_run_once_in_order(events);
    assert(worker_after(events).0 =~= Seq::<T>::empty());
    assert(worker_after(events).1 + Seq::<T>::empty() =~= worker_after(events).1);
}

/// Each turn takes a task, as long as there is one, and pushes none.
proof fn lemma_turns<T>(before: Seq<WorkerEvent<T>>, turns: Seq<Option<TaskEnd>>)
    ensures
        ({
            let events = before + Seq::new(turns.len(), |i: int| WorkerEvent::<T>::Turn(turns[i]));
            let waiting = worker_after(before).0.len();
            &&& worker_after(events).0.len() == (if turns.len() < waiting {
                waiting - turns.len()
            } else {
                0
            })
            &&& pushed(events) == pushed(before)
        }),
    decreases turns.len(),
{
    let all = Seq::new(turns.len(), |i: int| WorkerEvent::<T>::Turn(turns[i]));
    let events = before + all;
    if turns.len() == 0 {
        assert(events =~= before);
    } else {
        let fewer = turns.drop_last();
        lemma_turns(before, fewer);
        assert(events.drop_last() =~= before + Seq::new(
            fewer.len(),
            |i: int| WorkerEvent::<T>::Turn(fewer[i]),
        ));
        assert(events.last() == WorkerEvent::<T>::Turn(turns.last()));
    }
}

} // verus!
