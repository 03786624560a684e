//! Bounded concurrency: a pool that hands out a fixed list of tasks, in
//! order, with never more than a cap of them in flight.

use vstd::prelude::*;

verus! {

/// How many plugins may handle one inbound message, or observe one outbound
/// message, at the same time.
pub const DISPATCH_CAP: usize = 5;

/// How many plugins may be under construction at the same time.
pub const INIT_CAP: usize = 10;

/// The number of tasks among the first `n` that are not done.
pub open spec fn pending_count(done: Seq<bool>, n: int) -> nat
    decreases n,
{
    if n <= 0 {
        0
    } else if done[n - 1] {
        pending_count(done, n - 1)
    } else {
        pending_count(done, n - 1) + 1
    }
}

proof fn lemma_pending_bound(done: Seq<bool>, n: int)
    requires
        0 <= n,
    ensures
        pending_count(done, n) <= n,
    decreases n,
{
    if n > 0 {
        lemma_pending_bound(done, n - 1);
    }
}

proof fn lemma_pending_after_finish(done: Seq<bool>, n: int, i: int)
    requires
        0 <= i < n <= done.len(),
        !done[i],
    ensures
        pending_count(done.update(i, true), n) + 1 == pending_count(done, n),
    decreases n,
{
    if n - 1 != i {
        lemma_pending_after_finish(done, n - 1, i);
    } else {
        lemma_pending_unchanged(done, n - 1, i);
    }
}

proof fn lemma_pending_unchanged(done: Seq<bool>, n: int, i: int)
    requires
        0 <= n <= i < done.len(),
    ensures
        pending_count(done.update(i, true), n) == pending_count(done, n),
    decreases n,
{
    if n > 0 {
        lemma_pending_unchanged(done, n - 1, i);
    }
}

/// The model of a [`TaskPool`].
pub ghost struct PoolModel {
    /// The most tasks in flight at once.
    pub cap: nat,
    /// Tasks `0 .. started` have been handed out.
    pub started: nat,
    /// Which tasks have finished; one entry per task.
    pub done: Seq<bool>,
    /// How many handed-out tasks have not finished.
    pub in_flight: nat,
    /// Whether a finished task reported a failure.
    pub failed: bool,
}

impl PoolModel {
    /// Every task has been handed out and has finished.
    pub open spec fn all_done(self) -> bool {
        &&& self.started == self.done.len()
        &&& forall|i: int| 0 <= i < self.done.len() ==> #[trigger] self.done[i]
    }

    /// Never more than `cap` tasks in flight, and the in-flight count is
    /// exactly the handed-out tasks that are not done.
    pub open spec fn wf(self) -> bool {
        &&& self.cap > 0
        &&& self.started <= self.done.len()
        &&& self.in_flight <= self.cap
        &&& self.in_flight == pending_count(self.done, self.started as int)
        &&& forall|i: int| self.started <= i < self.done.len() ==> !#[trigger] self.done[i]
    }

    /// A new task may be handed out.
    pub open spec fn can_start(self) -> bool {
        !self.failed && self.in_flight < self.cap && self.started < self.done.len()
    }
}

/// Hands out the tasks `0 .. total` in order, keeping at most `cap` in flight.
/// Once a task fails no further task is handed out; the ones in flight may
/// still finish.
pub struct TaskPool {
    cap: usize,
    next: usize,
    done: Vec<bool>,
    in_flight: usize,
    failed: bool,
}

impl View for TaskPool {
    type V = PoolModel;

    closed spec fn view(&self) -> PoolModel {
        PoolModel {
            cap: self.cap as nat,
            started: self.next as nat,
            done: self.done@,
            in_flight: self.in_flight as nat,
            failed: self.failed,
        }
    }
}

impl TaskPool {
    /// The pool's invariant, stated on its model.
    pub open spec fn wf(&self) -> bool {
        self@.wf()
    }

    /// A pool over `total` tasks with at most `cap` in flight.
    pub fn new(total: usize, cap: usize) -> (r: TaskPool)
        requires
            cap > 0,
        ensures
            r.wf(),
            r@.cap == cap,
            r@.started == 0,
            r@.done == Seq::new(total as nat, |i: int| false),
            r@.in_flight == 0,
            !r@.failed,
    {
        let mut done: Vec<bool> = Vec::with_capacity(total);
        let mut i: usize = 0;
        while i < total
            invariant
                i <= total,
                done@ == Seq::new(i as nat, |j: int| false),
            decreases total - i,
        {
            done.push(false);
            i = i + 1;
        }
        TaskPool { cap, next: 0, done, in_flight: 0, failed: false }
    }

    /// Hands out the next task, when the cap allows and nothing has failed.
    pub fn start(&mut self) -> (r: Option<usize>)
        requires
            old(self).wf(),
        ensures
            final(self).wf(),
            r is Some <==> old(self)@.can_start(),
            r matches Some(i) ==> {
                &&& i == old(self)@.started
                &&& final(self)@ == (PoolModel {
                    started: old(self)@.started + 1,
                    in_flight: old(self)@.in_flight + 1,
                    ..old(self)@
                })
            },
            r is None ==> final(self)@ == old(self)@,
    {
        if self.failed || self.in_flight >= self.cap || self.next >= self.done.len() {
            return None;
        }
        let i = self.next;
        self.next = self.next + 1;
        self.in_flight = self.in_flight + 1;
        Some(i)
    }

    /// Records that the handed-out task `i` finished, successfully or not.
    pub fn finish(&mut self, i: usize, ok: bool)
        requires
            old(self).wf(),
            i < old(self)@.started,
            !old(self)@.done[i as int],
        ensures
            final(self).wf(),
            final(self)@ == (PoolModel {
                done: old(self)@.done.update(i as int, true),
                in_flight: (old(self)@.in_flight - 1) as nat,
                failed: old(self)@.failed || !ok,
                ..old(self)@
            }),
    {
        proof {
            lemma_pending_after_finish(self.done@, self.next as int, i as int);
        }
        self.done.set(i, true);
        self.in_flight = self.in_flight - 1;
        if !ok {
            self.failed = true;
        }
    }

    /// Whether a handed-out task is still running.
    pub fn is_running(&self, i: usize) -> (r: bool)
        requires
            self.wf(),
        ensures
            r == (i < self@.started && !self@.done[i as int]),
    {
        i < self.next && !self.done[i]
    }

    /// Whether nothing more will happen: nothing is in flight and no task can
    /// be handed out.
    pub fn is_settled(&self) -> (r: bool)
        requires
            self.wf(),
        ensures
            r == (self@.in_flight == 0 && (self@.failed || self@.started == self@.done.len())),
    {
        self.in_flight == 0 && (self.failed || self.next == self.done.len())
    }

    /// Whether every task was handed out and finished, and none failed.
    pub fn succeeded(&self) -> (r: bool)
        requires
            self.wf(),
        ensures
            r == (self@.all_done() && !self@.failed),
    {
        proof {
            if self.in_flight == 0 && self.next == self.done.len() {
                lemma_all_done_when_nothing_pending(self.done@, self.next as int);
            }
            if self@.all_done() {
                lemma_nothing_pending_when_all_done(self.done@, self.next as int);
            }
        }
        !self.failed && self.in_flight == 0 && self.next == self.done.len()
    }

    /// Whether some task failed.
    pub fn has_failed(&self) -> (r: bool)
        ensures
            r == self@.failed,
    {
        self.failed
    }
}

/// With nothing pending among the first `n` tasks, all of them are done.
pub proof fn lemma_all_done_when_nothing_pending(done: Seq<bool>, n: int)
    requires
        0 <= n <= done.len(),
        pending_count(done, n) == 0,
    ensures
        forall|i: int| 0 <= i < n ==> #[trigger] done[i],
    decreases n,
{
    if n > 0 {
        lemma_all_done_when_nothing_pending(done, n - 1);
    }
}

proof fn lemma_nothing_pending_when_all_done(done: Seq<bool>, n: int)
    requires
        0 <= n <= done.len(),
        forall|i: int| 0 <= i < n ==> #[trigger] done[i],
    ensures
        pending_count(done, n) == 0,
    decreases n,
{
    if n > 0 {
        lemma_nothing_pending_when_all_done(done, n - 1);
    }
}

/// The cap is never exceeded: in every state a well-formed pool can reach,
/// at most `cap` tasks are in flight, and that count is exactly the tasks
/// handed out and not yet finished.
pub proof fn lemma_cap_respected(pool: TaskPool)
    requires
        pool.wf(),
    ensures
        pool@.in_flight <= pool@.cap,
        pool@.in_flight == pending_count(pool@.done, pool@.started as int),
        pool@.in_flight <= pool@.started,
{
    lemma_pending_bound(pool@.done, pool@.started as int);
}

} // verus!
