//! The bookkeeping of the asynchronous runtime.
use std::collections::HashMap;
use vstd::prelude::*;

pub mod bridge;
pub mod fs;
pub mod handshake;
pub mod net;
pub mod task;

verus! {

/// Whether an operation is done.
pub enum Poll<T> {
    /// It is done, with this result.
    Ready(T),
    /// It has to be tried again after a wake-up.
    Pending,
}

/// The workers among which tasks are shared out in turn; `W` is what reaches a worker.
pub struct ThreadPool<W> {
    pub workers: Vec<W>,
    pub round: usize,
}

/// The number that follows `n`, from the largest back to zero.
pub open spec fn next_round(n: usize) -> usize {
    if n == usize::MAX {
        0
    } else {
        (n + 1) as usize
    }
}

impl<W> ThreadPool<W> {
    /// A pool without workers.
    pub fn new() -> (pool: Self)
        ensures
            pool.workers@ == Seq::<W>::empty(),
            pool.round == 0,
    {
        Self { workers: Vec::new(), round: 0 }
    }

    /// Adds workers that have been started.
    pub fn spawn_workers(&mut self, started: Vec<W>)
        ensures
            final(self).workers@ == old(self).workers@ + started@,
            final(self).round == old(self).round,
    {
        let mut started = started;
        self.workers.append(&mut started);
    }

    /// The worker whose turn it is.
    pub fn round_robin(&mut self) -> (worker: &W)
        requires
            old(self).workers@.len() > 0,
        ensures
            *worker == old(self).workers@[worker_of(
                old(self).workers@.len(),
                old(self).round,
                0,
            )],
            final(self).workers@ == old(self).workers@,
            final(self).round == next_round(old(self).round),
    {
        let turn: usize = self.round % self.workers.len();
        self.round = if self.round == usize::MAX {
            0
        } else {
            self.round + 1
        };
        &self.workers[turn]
    }
}

/// Of as many numbers in a row as there are workers, exactly one falls to a worker.
proof fn lemma_one_turn_each(workers: int, round: int, worker: int)
    requires
        0 < workers,
        0 <= round,
        0 <= worker < workers,
    ensures
        exists|k: int| 0 <= k < workers && #[trigger] ((round + k) % workers) == worker,
        forall|j: int, k: int|
            0 <= j < workers && 0 <= k < workers && #[trigger] ((round + j) % workers) == worker
                && #[trigger] ((round + k) % workers) == worker ==> j == k,
{
    let start = round % workers;
    let k = if worker >= start {
        worker - start
    } else {
        worker - start + workers
    };
    assert((round + k) % workers == worker) by {
        vstd::arithmetic::div_mod::lemma_fundamental_div_mod(round, workers);
        let q = round / workers;
        if worker >= start {
            assert(round + k == q * workers + worker) by (nonlinear_arith)
                requires
                    round == workers * q + start,
                    k == worker - start,
            ;
            vstd::arithmetic::div_mod::lemma_fundamental_div_mod_converse(
                round + k,
                workers,
                q,
                worker,
            );
        } else {
            assert(round + k == (q + 1) * workers + worker) by (nonlinear_arith)
                requires
                    round == workers * q + start,
                    k == worker - start + workers,
            ;
            vstd::arithmetic::div_mod::lemma_fundamental_div_mod_converse(
                round + k,
                workers,
                q + 1,
                worker,
            );
        }
    }
    assert forall|i: int, j: int|
        0 <= i < workers && 0 <= j < workers && #[trigger] ((round + i) % workers) == worker
            && #[trigger] ((round + j) % workers) == worker implies i == j by {
        let p = (round + i) / workers;
        let q = (round + j) / workers;
        vstd::arithmetic::div_mod::lemma_fundamental_div_mod(round + i, workers);
        vstd::arithmetic::div_mod::lemma_fundamental_div_mod(round + j, workers);
        assert(i == j) by (nonlinear_arith)
            requires
                round + i == workers * p + worker,
                round + j == workers * q + worker,
                0 <= i < workers,
                0 <= j < workers,
        ;
    }
}

/// The count of rounds after `tasks` tasks have been shared out.
pub open spec fn round_after(round: usize, tasks: nat) -> usize
    decreases tasks,
{
    if tasks == 0 {
        round
    } else {
        next_round(round_after(round, (tasks - 1) as nat))
    }
}

/// The worker that the task after `tasks` others goes to.
pub open spec fn worker_of(workers: nat, round: usize, tasks: nat) -> int {
    (round_after(round, tasks) as int) % (workers as int)
}

/// The count of rounds starts over after its largest value.
pub proof fn lemma_round_after(round: usize, tasks: nat)
    ensures
        round_after(round, tasks) == (round + tasks) % (usize::MAX + 1),
    decreases tasks,
{
    let size: int = usize::MAX + 1;
    if tasks > 0 {
        let before = round + tasks - 1;
        lemma_round_after(round, (tasks - 1) as nat);
        vstd::arithmetic::div_mod::lemma_fundamental_div_mod(before, size);
        let q = before / size;
        if before % size == usize::MAX {
            assert(before + 1 == (q + 1) * size) by (nonlinear_arith)
                requires
                    before == size * q + (size - 1),
            ;
            vstd::arithmetic::div_mod::lemma_fundamental_div_mod_converse(before + 1, size, q + 1, 0);
        } else {
            assert(before + 1 == q * size + (before % size + 1)) by (nonlinear_arith)
                requires
                    before == size * q + before % size,
            ;
            vstd::arithmetic::div_mod::lemma_fundamental_div_mod_converse(
                before + 1,
                size,
                q,
                before % size + 1,
            );
        }
    } else {
        vstd::arithmetic::div_mod::lemma_small_mod(round as nat, size as nat);
    }
}

/// Where the count of rounds does not start over in between, or where it holds a whole number
/// of turns, a task goes to the worker that its number gives.
proof fn lemma_worker_of(workers: nat, round: usize, tasks: nat)
    requires
        tasks < workers,
        round + workers <= usize::MAX + 1 || (usize::MAX + 1) % (workers as int) == 0,
    ensures
        worker_of(workers, round, tasks) == (round + tasks) % (workers as int),
{
    let size: int = usize::MAX + 1;
    let n: int = round + tasks;
    lemma_round_after(round, tasks);
    if round + workers <= size {
        vstd::arithmetic::div_mod::lemma_small_mod(n as nat, size as nat);
    } else {
        let turns = size / (workers as int);
        vstd::arithmetic::div_mod::lemma_fundamental_div_mod(size, workers as int);
        assert(turns > 0) by (nonlinear_arith)
            requires
                size == workers * turns,
                size > 0,
                workers > 0,
        ;
        vstd::arithmetic::div_mod::lemma_mod_mod(n, workers as int, turns);
    }
}

/// Tasks are shared out evenly: of as many tasks in a row as there are workers every worker
/// gets exactly one, unless the count of rounds starts over in the middle of a turn.
pub proof fn law_turns_are_fair(workers: nat, round: usize, worker: int)
    requires
        0 <= worker < workers,
        round + workers <= usize::MAX + 1 || (usize::MAX + 1) % (workers as int) == 0,
    ensures
        exists|k: nat| k < workers && #[trigger] worker_of(workers, round, k) == worker,
        forall|j: nat, k: nat|
            j < workers && k < workers && #[trigger] worker_of(workers, round, j) == worker
                && #[trigger] worker_of(workers, round, k) == worker ==> j == k,
{
    lemma_one_turn_each(workers as int, round as int, worker);
    let k = choose|k: int| 0 <= k < workers && #[trigger] ((round + k) % (workers as int)) == worker;
    lemma_worker_of(workers, round, k as nat);
    assert(worker_of(workers, round, k as nat) == worker);
    assert forall|i: nat, j: nat|
        i < workers && j < workers && #[trigger] worker_of(workers, round, i) == worker
            && #[trigger] worker_of(workers, round, j) == worker implies i == j by {
        lemma_worker_of(workers, round, i);
        lemma_worker_of(workers, round, j);
        assert((round + i as int) % (workers as int) == worker);
        assert((round + j as int) % (workers as int) == worker);
    }
}

/// The wakers of the connections that wait for an event, by the token of the connection.
pub struct Reactor<W> {
    waker_vtable: HashMap<usize, W>,
}

/// The wakers that a run of events wakes: each event wakes the waker of its token, unless
/// an earlier event of the run has done so.
pub open spec fn woken_by<W>(table: Map<usize, W>, events: Seq<usize>) -> Seq<W>
    decreases events.len(),
{
    if events.len() == 0 {
        Seq::empty()
    } else {
        let before = woken_by(table, events.drop_last());
        let token = events.last();
        if table.contains_key(token) && !events.drop_last().contains(token) {
            before.push(table[token])
        } else {
            before
        }
    }
}

/// The wakers that are left after a run of events.
pub open spec fn left_by<W>(table: Map<usize, W>, events: Seq<usize>) -> Map<usize, W> {
    table.restrict(table.dom().filter(|token: usize| !events.contains(token)))
}

impl<W> Reactor<W> {
    /// The wakers that wait, by token.
    pub closed spec fn waiting(&self) -> Map<usize, W> {
        self.waker_vtable@
    }

    /// A reactor for which nobody waits.
    pub fn new() -> (reactor: Self)
        ensures
            reactor.waiting() == Map::<usize, W>::empty(),
    {
        Self { waker_vtable: HashMap::new() }
    }

    /// Leaves a waker for the next event of a token, in place of the one that was there.
    pub fn delegate(&mut self, token: usize, waker: W)
        ensures
            final(self).waiting() == old(self).waiting().insert(token, waker),
    {
        broadcast use vstd::std_specs::hash::group_hash_axioms;

        self.waker_vtable.insert(token, waker);
    }

    /// Takes back the waker of a token.
    pub fn undelegate(&mut self, token: usize)
        ensures
            final(self).waiting() == old(self).waiting().remove(token),
    {
        broadcast use vstd::std_specs::hash::group_hash_axioms;

        self.waker_vtable.remove(&token);
    }

    /// Takes a run of events and gives the wakers to wake, in order; a waker is woken once
    /// and has to be left again for a later event.
    pub fn take_events(&mut self, events: &Vec<usize>) -> (wakers: Vec<W>)
        ensures
            wakers@ == woken_by(old(self).waiting(), events@),
            final(self).waiting() == left_by(old(self).waiting(), events@),
    {
        broadcast use vstd::std_specs::hash::group_hash_axioms;

        let mut wakers: Vec<W> = Vec::new();
        let ghost table = self.waker_vtable@;
        let mut i: usize = 0;
        assert(left_by(table, events@.take(0)) =~= table);
        while i < events.len()
            invariant
                i <= events@.len(),
                table == old(self).waiting(),
                wakers@ == woken_by(table, events@.take(i as int)),
                self.waker_vtable@ == left_by(table, events@.take(i as int)),
            decreases events@.len() - i,
        {
            broadcast use vstd::std_specs::hash::group_hash_axioms;

            let token: usize = events[i];
            let ghost before = events@.take(i as int);
            let ghost after = events@.take(i + 1);
            proof {
                assert(after.drop_last() =~= before);
                assert(after.last() == token);
                assert forall|t: usize| after.contains(t) <==> before.contains(t) || t
                    == token by {
                    if before.contains(t) {
                        let k = choose|k: int| 0 <= k < before.len() && before[k] == t;
                        assert(after[k] == t);
                    }
                    if t == token {
                        assert(after[i as int] == t);
                    }
                    if after.contains(t) {
                        let k = choose|k: int| 0 <= k < after.len() && after[k] == t;
                        if k < i {
                            assert(before[k] == t);
                        }
                    }
                }
            }
            match self.waker_vtable.remove(&token) {
                Some(waker) => {
                    wakers.push(waker);
                },
                None => {},
            }
            i += 1;
            assert(self.waker_vtable@ =~= left_by(table, after));
        }
        assert(events@.take(i as int) =~= events@);
        wakers
    }
}

/// An event of a token for which a waker waits wakes it, and it waits no longer; wakers of
/// other tokens go on waiting.
pub proof fn law_events_wake_their_own<W>(table: Map<usize, W>, events: Seq<usize>, token: usize)
    ensures
        events.contains(token) ==> !left_by(table, events).contains_key(token),
        !events.contains(token) && table.contains_key(token) ==> left_by(
            table,
            events,
        ).contains_key(token) && left_by(table, events)[token] == table[token],
        events.contains(token) && table.contains_key(token) ==> woken_by(table, events).contains(
            table[token],
        ),
    decreases events.len(),
{
    if events.len() > 0 {
        let before = events.drop_last();
        law_events_wake_their_own(table, before, token);
        let earlier = woken_by(table, before);
        let now = woken_by(table, events);
        if events.contains(token) && table.contains_key(token) {
            if before.contains(token) {
                let k = choose|k: int| 0 <= k < earlier.len() && earlier[k] == table[token];
                assert(now[k] == table[token]);
            } else {
                let k = choose|k: int| 0 <= k < events.len() && events[k] == token;
                if k < before.len() {
                    assert(before[k] == token);
                }
                assert(now[now.len() - 1] == table[token]);
            }
        }
    }
}

/// Tasks go round the workers: the first goes to the first worker, and each goes to the one after
/// the worker of the task before it, and from the last back to the first, as long as the count of
/// rounds does not start over.
pub proof fn law_turns_follow_each_other(workers: nat, tasks: nat)
    requires
        0 < workers,
        tasks < usize::MAX,
    ensures
        worker_of(workers, 0, 0) == 0,
        worker_of(workers, 0, tasks + 1) == (if worker_of(workers, 0, tasks) + 1 == workers {
            0
        } else {
            worker_of(workers, 0, tasks) + 1
        }),
        0 <= worker_of(workers, 0, tasks) < workers,
        round_after(0, tasks) == tasks,
{
    let size: int = usize::MAX + 1;
    lemma_round_after(0, tasks);
    lemma_round_after(0, tasks + 1);
    vstd::arithmetic::div_mod::lemma_small_mod(tasks, size as nat);
    vstd::arithmetic::div_mod::lemma_small_mod(tasks + 1, size as nat);
    vstd::arithmetic::div_mod::lemma_small_mod(0, workers);
    let w = workers as int;
    let q = tasks as int / w;
    let r = tasks as int % w;
    vstd::arithmetic::div_mod::lemma_fundamental_div_mod(tasks as int, w);
    if r + 1 == w {
        assert(tasks + 1 == (q + 1) * w) by (nonlinear_arith)
            requires
                tasks as int == w * q + r,
                r + 1 == w,
        ;
        vstd::arithmetic::div_mod::lemma_fundamental_div_mod_converse(tasks as int + 1, w, q + 1, 0);
    } else {
        assert(tasks + 1 == q * w + (r + 1)) by (nonlinear_arith)
            requires
                tasks as int == w * q + r,
        ;
        vstd::arithmetic::div_mod::lemma_fundamental_div_mod_converse(tasks as int + 1, w, q, r + 1);
    }
}

/// A task goes to the worker that the count of rounds gives, and the count goes up by one, from its
/// largest value back to zero.
pub proof fn law_round_gives_the_worker(workers: nat, round: usize)
    requires
        0 < workers,
    ensures
        worker_of(workers, round, 0) == round as int % workers as int,
        round < usize::MAX ==> next_round(round) == round + 1,
        round == usize::MAX ==> next_round(round) == 0,
{
}

/// Each event wakes whoever waits for its token, in the order of the events, and nobody twice: an
/// event of a token that has had one in the same run, or for which nobody waits, wakes nobody.
pub proof fn law_events_wake_in_order<W>(table: Map<usize, W>, events: Seq<usize>, token: usize)
    ensures
        woken_by(table, Seq::empty()) == Seq::<W>::empty(),
        events.contains(token) || !table.contains_key(token) ==> woken_by(
            table,
            events + seq![token],
        ) == woken_by(table, events),
        !events.contains(token) && table.contains_key(token) ==> woken_by(
            table,
            events + seq![token],
        ) == woken_by(table, events) + seq![table[token]],
{
    let more = events + seq![token];
    assert(more.drop_last() =~= events);
    assert(more.last() == token);
    if !events.contains(token) && table.contains_key(token) {
        assert(woken_by(table, more) =~= woken_by(table, events) + seq![table[token]]);
    }
}

} // verus!
