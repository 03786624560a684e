//! Outbound fan-out: every other plugin observes a proposed message, then the
//! message is sent once.

use vstd::prelude::*;
use crate::dispatch::PluginEntry;
use crate::pool::{TaskPool, PoolModel, DISPATCH_CAP};

verus! {

/// The positions, among the first `n` plugins, of those not named `origin`,
/// in increasing order.
pub open spec fn observer_positions(plugins: Seq<PluginEntry>, origin: Seq<char>, n: int) -> Seq<usize>
    decreases n,
{
    if n <= 0 {
        seq![]
    } else if plugins[n - 1].name@ == origin {
        observer_positions(plugins, origin, n - 1)
    } else {
        observer_positions(plugins, origin, n - 1).push((n - 1) as usize)
    }
}

/// The plugins that observe a message from `origin`: all but the one with
/// that name, each once, in plugin order.
pub fn observers(plugins: &Vec<PluginEntry>, origin: &str) -> (r: Vec<usize>)
    ensures
        r@ == observer_positions(plugins@, origin@, plugins@.len() as int),
{
    let mut r: Vec<usize> = Vec::new();
    let mut i: usize = 0;
    while i < plugins.len()
        invariant
            i <= plugins@.len(),
            r@ == observer_positions(plugins@, origin@, i as int),
        decreases plugins@.len() - i,
    {
        if !crate::registry::same_text(plugins[i].name.as_str(), origin) {
            r.push(i);
        }
        i = i + 1;
    }
    r
}

proof fn lemma_observer_positions(plugins: Seq<PluginEntry>, origin: Seq<char>, n: int)
    requires
        0 <= n <= plugins.len(),
        n <= usize::MAX,
    ensures
        forall|k: int| 0 <= k < n ==>
            (observer_positions(plugins, origin, n).contains(k as usize) <==> #[trigger] plugins[k].name@ != origin),
        forall|a: int, b: int| 0 <= a < b < observer_positions(plugins, origin, n).len() ==>
            #[trigger] observer_positions(plugins, origin, n)[a] < #[trigger] observer_positions(plugins, origin, n)[b],
        forall|a: int| 0 <= a < observer_positions(plugins, origin, n).len() ==>
            #[trigger] observer_positions(plugins, origin, n)[a] < n,
    decreases n,
{
    if n > 0 {
        lemma_observer_positions(plugins, origin, n - 1);
        let prev = observer_positions(plugins, origin, n - 1);
        let cur = observer_positions(plugins, origin, n);
        assert forall|k: int| 0 <= k < n implies
            (cur.contains(k as usize) <==> #[trigger] plugins[k].name@ != origin) by {
            if k < n - 1 {
                if cur.contains(k as usize) && !prev.contains(k as usize) {
                    let j = choose|j: int| 0 <= j < cur.len() && cur[j] == k as usize;
                    assert(j == prev.len());
                }
                if prev.contains(k as usize) {
                    let j = choose|j: int| 0 <= j < prev.len() && prev[j] == k as usize;
                    assert(cur[j] == k as usize);
                }
            } else {
                if plugins[k].name@ != origin {
                    assert(cur[prev.len() as int] == k as usize);
                } else if cur.contains(k as usize) {
                    let j = choose|j: int| 0 <= j < cur.len() && cur[j] == k as usize;
                    assert(prev[j] < n - 1);
                }
            }
        }
    }
}

/// The model of an [`OutboundRound`].
pub ghost struct RoundModel {
    /// The plugin positions that observe the message.
    pub observers: Seq<usize>,
    /// The progress of the observation tasks, one per observer.
    pub pool: PoolModel,
    /// Whether the message has been sent.
    pub sent: bool,
}

/// One outbound message on its way: every plugin but its origin observes it,
/// at most [`DISPATCH_CAP`] at a time, and once all of them have returned
/// without error it is sent, once. After an observation failure it is never
/// sent.
pub struct OutboundRound {
    observers: Vec<usize>,
    pool: TaskPool,
    sent: bool,
}

impl View for OutboundRound {
    type V = RoundModel;

    closed spec fn view(&self) -> RoundModel {
        RoundModel { observers: self.observers@, pool: self.pool@, sent: self.sent }
    }
}

impl OutboundRound {
    /// The round's invariant.
    pub open spec fn wf(&self) -> bool {
        &&& self@.pool.wf()
        &&& self@.pool.cap == DISPATCH_CAP
        &&& self@.pool.done.len() == self@.observers.len()
        &&& self@.sent ==> self@.pool.all_done() && !self@.pool.failed
    }

    /// Starts the round for a message proposed by the plugin named `origin`.
    pub fn new(plugins: &Vec<PluginEntry>, origin: &str) -> (r: OutboundRound)
        ensures
            r.wf(),
            r@.observers == observer_positions(plugins@, origin@, plugins@.len() as int),
            r@.pool.started == 0,
            r@.pool.in_flight == 0,
            !r@.pool.failed,
            !r@.sent,
    {
        let observers = observers(plugins, origin);
        let pool = TaskPool::new(observers.len(), DISPATCH_CAP);
        OutboundRound { observers, pool, sent: false }
    }

    /// Hands out the next observation, as `(task, plugin position)`, when the
    /// cap allows and no observation has failed.
    pub fn next_observer(&mut self) -> (r: Option<(usize, usize)>)
        requires
            old(self).wf(),
        ensures
            final(self).wf(),
            final(self)@.observers == old(self)@.observers,
            final(self)@.sent == old(self)@.sent,
            r is Some <==> old(self)@.pool.can_start(),
            r matches Some((t, p)) ==> {
                &&& t == old(self)@.pool.started
                &&& p == old(self)@.observers[t as int]
                &&& final(self)@.pool == (PoolModel {
                    started: old(self)@.pool.started + 1,
                    in_flight: old(self)@.pool.in_flight + 1,
                    ..old(self)@.pool
                })
            },
            r is None ==> final(self)@ == old(self)@,
    {
        match self.pool.start() {
            Some(t) => Some((t, self.observers[t])),
            None => None,
        }
    }

    /// Records that observation task `t` returned, with or without error.
    pub fn observed(&mut self, t: usize, ok: bool)
        requires
            old(self).wf(),
            t < old(self)@.pool.started,
            !old(self)@.pool.done[t as int],
        ensures
            final(self).wf(),
            final(self)@.observers == old(self)@.observers,
            final(self)@.sent == old(self)@.sent,
            final(self)@.pool == (PoolModel {
                done: old(self)@.pool.done.update(t as int, true),
                in_flight: (old(self)@.pool.in_flight - 1) as nat,
                failed: old(self)@.pool.failed || !ok,
                ..old(self)@.pool
            }),
    {
        self.pool.finish(t, ok);
    }

    /// Whether the message is due to be sent now: every observer has
    /// returned without error and it has not been sent yet.
    pub fn ready_to_send(&self) -> (r: bool)
        requires
            self.wf(),
        ensures
            r == (self@.pool.all_done() && !self@.pool.failed && !self@.sent),
    {
        !self.sent && self.pool.succeeded()
    }

    /// Whether the round is over without a send: an observer failed and none
    /// is still running.
    pub fn aborted(&self) -> (r: bool)
        requires
            self.wf(),
        ensures
            r == (self@.pool.failed && self@.pool.in_flight == 0),
    {
        self.pool.has_failed() && self.pool.is_settled()
    }

    /// Records that the message was sent.
    pub fn mark_sent(&mut self)
        requires
            old(self).wf(),
            old(self)@.pool.all_done() && !old(self)@.pool.failed && !old(self)@.sent,
        ensures
            final(self).wf(),
            final(self)@ == (RoundModel { sent: true, ..old(self)@ }),
    {
        self.sent = true;
    }
}

/// Outbound delivery as the round enforces it: the observers are exactly the
/// plugins not named like the origin, each listed once; the message is due
/// to be sent only once every one of them has returned without error, and
/// never twice.
pub proof fn lemma_outbound_protocol(plugins: Seq<PluginEntry>, origin: Seq<char>, round: RoundModel)
    requires
        plugins.len() <= usize::MAX,
        round.observers == observer_positions(plugins, origin, plugins.len() as int),
        round.pool.done.len() == round.observers.len(),
    ensures
        forall|k: int| 0 <= k < plugins.len() ==>
            (round.observers.contains(k as usize) <==> #[trigger] plugins[k].name@ != origin),
        forall|a: int, b: int| 0 <= a < b < round.observers.len() ==>
            #[trigger] round.observers[a] != #[trigger] round.observers[b],
        (round.pool.all_done() && !round.pool.failed && !round.sent) ==> forall|a: int|
            0 <= a < round.observers.len() ==> #[trigger] round.pool.done[a],
        round.pool.failed ==> !(round.pool.all_done() && !round.pool.failed && !round.sent),
        round.sent ==> !(round.pool.all_done() && !round.pool.failed && !round.sent),
{
    lemma_observer_positions(plugins, origin, plugins.len() as int);
    assert forall|a: int, b: int| 0 <= a < b < round.observers.len() implies
        #[trigger] round.observers[a] != #[trigger] round.observers[b] by {
        assert(round.observers[a] < round.observers[b]);
    }
}

} // verus!
