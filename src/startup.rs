//! Plugin startup: resolution of the configured names, then construction
//! with a bounded number in flight, the results kept in configured order.

use vstd::prelude::*;
use crate::pool::{TaskPool, PoolModel, INIT_CAP};

use crate::registry::{PluginKind, UnknownPlugin, kind_named, all_known, first_unknown, resolve_plugins};

verus! {

/// Why startup failed.
#[derive(Clone, Debug, PartialEq, Eq)]
pub enum StartupError {
    /// A configured name is not registered; nothing was constructed.
    Unknown(UnknownPlugin),
    /// The construction of the plugin at this configured position failed.
    ConstructionFailed { index: usize, kind: PluginKind },
}

/// The model of a [`Startup`].
pub ghost struct StartupModel<P> {
    /// The plugins to construct, in configured order.
    pub kinds: Seq<PluginKind>,
    /// The plugins constructed so far, each in its configured slot.
    pub built: Seq<Option<P>>,
    /// The progress of the constructions, one per plugin.
    pub pool: PoolModel,
    /// The first construction seen to fail.
    pub failure: Option<usize>,
}

/// Constructs the configured plugins, at most [`INIT_CAP`] at a time. The
/// first failure stops any further construction and fails the startup.
pub struct Startup<P> {
    kinds: Vec<PluginKind>,
    built: Vec<Option<P>>,
    pool: TaskPool,
    failure: Option<usize>,
}

impl<P> View for Startup<P> {
    type V = StartupModel<P>;

    closed spec fn view(&self) -> StartupModel<P> {
        StartupModel { kinds: self.kinds@, built: self.built@, pool: self.pool@, failure: self.failure }
    }
}

impl<P> Startup<P> {
    /// The invariant: a slot holds a plugin only once its construction has
    /// finished, and a failure is recorded exactly when the pool saw one.
    pub open spec fn wf(&self) -> bool {
        &&& self@.pool.wf()
        &&& self@.pool.cap == INIT_CAP
        &&& self@.kinds.len() == self@.built.len()
        &&& self@.pool.done.len() == self@.kinds.len()
        &&& forall|i: int| 0 <= i < self@.built.len() ==>
            (#[trigger] self@.built[i] is Some ==> self@.pool.done[i])
            && (self@.pool.done[i] && self@.built[i] is None ==> self@.failure is Some)
        &&& (self@.failure is Some <==> self@.pool.failed)
        &&& self@.failure matches Some(f) ==> f < self@.kinds.len() && self@.pool.done[f as int] && self@.built[f as int] is None
    }

    /// Resolves the configured names. An unknown name fails here, before any
    /// plugin is constructed.
    pub fn new(names: &Vec<String>) -> (r: Result<Startup<P>, StartupError>)
        ensures
            r is Ok <==> all_known(names@),
            r matches Ok(s) ==> {
                &&& s.wf()
                &&& s@.kinds.len() == names@.len()
                &&& forall|i: int| 0 <= i < names@.len() ==> kind_named(names@[i]@) == Some(#[trigger] s@.kinds[i])
                &&& s@.built == Seq::new(names@.len(), |i: int| None::<P>)
                &&& s@.pool.started == 0
            },
            r matches Err(e) ==> e matches StartupError::Unknown(u)
                && first_unknown(names@, u.index as int) && u.name@ == names@[u.index as int]@,
    {
        let kinds = match resolve_plugins(names) {
            Ok(k) => k,
            Err(u) => return Err(StartupError::Unknown(u)),
        };
        let n = kinds.len();
        let mut built: Vec<Option<P>> = Vec::with_capacity(n);
        let mut i: usize = 0;
        while i < n
            invariant
                i <= n,
                built@ == Seq::new(i as nat, |j: int| None::<P>),
            decreases n - i,
        {
            built.push(None);
            i = i + 1;
        }
        Ok(Startup { kinds, built, pool: TaskPool::new(n, INIT_CAP), failure: None })
    }

    /// The next plugin to construct, as `(position, kind)`, when the cap
    /// allows and nothing has failed.
    pub fn next_construction(&mut self) -> (r: Option<(usize, PluginKind)>)
        requires
            old(self).wf(),
        ensures
            final(self).wf(),
            final(self)@.kinds == old(self)@.kinds,
            final(self)@.built == old(self)@.built,
            final(self)@.failure == old(self)@.failure,
            r is Some <==> old(self)@.pool.can_start(),
            r matches Some((i, k)) ==> {
                &&& i == old(self)@.pool.started
                &&& k == old(self)@.kinds[i as int]
                &&& final(self)@.pool == (PoolModel {
                    started: old(self)@.pool.started + 1,
                    in_flight: old(self)@.pool.in_flight + 1,
                    ..old(self)@.pool
                })
            },
            r is None ==> final(self)@ == old(self)@,
    {
        match self.pool.start() {
            Some(i) => Some((i, self.kinds[i])),
            None => None,
        }
    }

    /// Records the outcome of the construction at position `i`.
    pub fn constructed(&mut self, i: usize, result: Option<P>)
        requires
            old(self).wf(),
            i < old(self)@.pool.started,
            !old(self)@.pool.done[i as int],
        ensures
            final(self).wf(),
            final(self)@.kinds == old(self)@.kinds,
            final(self)@.built == old(self)@.built.update(i as int, result),
            final(self)@.pool == (PoolModel {
                done: old(self)@.pool.done.update(i as int, true),
                in_flight: (old(self)@.pool.in_flight - 1) as nat,
                failed: old(self)@.pool.failed || result is None,
                ..old(self)@.pool
            }),
            final(self)@.failure == (if old(self)@.failure is None && result is None {
                Some(i)
            } else {
                old(self)@.failure
            }),
    {
        let ok = result.is_some();
        self.pool.finish(i, ok);
        if !ok && self.failure.is_none() {
            self.failure = Some(i);
        }
        self.built.set(i, result);
    }

    /// Whether nothing is under construction and nothing more will start.
    pub fn is_settled(&self) -> (r: bool)
        requires
            self.wf(),
        ensures
            r == (self@.pool.in_flight == 0 && (self@.pool.failed || self@.pool.started == self@.pool.done.len())),
    {
        self.pool.is_settled()
    }

    /// Ends startup: every plugin in configured order, or the first failure.
    pub fn finish(self) -> (r: Result<Vec<P>, StartupError>)
        requires
            self.wf(),
            self@.pool.in_flight == 0,
            self@.pool.failed || self@.pool.started == self@.pool.done.len(),
        ensures
            r is Ok <==> self@.failure is None,
            r matches Ok(ps) ==> ps@.len() == self@.kinds.len() && forall|i: int|
                0 <= i < ps@.len() ==> self@.built[i] == Some(#[trigger] ps@[i]),
            r matches Err(e) ==> self@.failure matches Some(f)
                && e == (StartupError::ConstructionFailed { index: f, kind: self@.kinds[f as int] }),
    {
        if let Some(f) = self.failure {
            return Err(StartupError::ConstructionFailed { index: f, kind: self.kinds[f] });
        }
        let ghost built0 = self.built@;
        let ghost n = self.built@.len();
        proof {
            crate::pool::lemma_all_done_when_nothing_pending(self@.pool.done, self@.pool.started as int);
            assert forall|j: int| 0 <= j < n implies #[trigger] built0[j] is Some by {
                assert(self@.pool.done[j]);
            }
        }
        let mut rest = self.built;
        let mut out: Vec<P> = Vec::new();
        let mut i: usize = 0;
        let total = rest.len();
        while i < total
            invariant
                total == n,
                built0.len() == n,
                i <= n,
                rest@ == built0.subrange(i as int, n as int),
                forall|j: int| 0 <= j < n ==> #[trigger] built0[j] is Some,
                out@.len() == i,
                forall|j: int| 0 <= j < i ==> built0[j] == Some(#[trigger] out@[j]),
            decreases n - i,
        {
            let b = rest.remove(0);
            assert(b == built0[i as int]);
            match b {
                Some(p) => out.push(p),
                None => {
                    assert(false);
                },
            }
            i = i + 1;
            assert(rest@ =~= built0.subrange(i as int, n as int));
        }
        Ok(out)
    }
}

} // verus!
