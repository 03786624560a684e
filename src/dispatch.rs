//! Inbound fan-out and collection: which plugins see a message, and what
//! their answers add up to.

use vstd::prelude::*;
use crate::pool::{TaskPool, PoolModel, DISPATCH_CAP};

verus! {

/// What the dispatcher reads of an inbound protocol message.
#[derive(Clone, Debug, PartialEq, Eq)]
pub struct InboundInfo {
    /// Whether a user sent it (a channel or private message).
    pub user_message: bool,
    /// The nickname of its sender, when it has one.
    pub source: Option<String>,
}

/// A plugin as the dispatcher sees it.
#[derive(Clone, Debug, PartialEq, Eq)]
pub struct PluginEntry {
    /// Its unique name.
    pub name: String,
    /// Whether messages from blacklisted users are withheld from it.
    pub blacklist_opt_in: bool,
}

/// A message proposed for sending, tagged with the plugin that proposed it.
#[derive(Clone, Debug, PartialEq, Eq)]
pub struct Outbound<M> {
    /// The name of the plugin it comes from.
    pub origin: String,
    /// The protocol message itself.
    pub message: M,
}

/// Whether `user` is on the blacklist; identities compare exactly.
pub open spec fn listed(blacklist: Seq<String>, user: Seq<char>) -> bool {
    exists|i: int| 0 <= i < blacklist.len() && (#[trigger] blacklist[i])@ == user
}

/// Whether a plugin's handler is invoked for a message: only user messages
/// are dispatched, and a plugin that opts in to the blacklist does not see
/// messages from blacklisted senders.
pub open spec fn dispatched_to(info: InboundInfo, opt_in: bool, blacklist: Seq<String>) -> bool {
    &&& info.user_message
    &&& !(opt_in && info.source is Some && listed(blacklist, info.source->0@))
}

/// Whether `user` is on the blacklist.
pub fn is_blacklisted(blacklist: &Vec<String>, user: &str) -> (r: bool)
    ensures
        r == listed(blacklist@, user@),
{
    let mut i: usize = 0;
    while i < blacklist.len()
        invariant
            i <= blacklist@.len(),
            forall|j: int| 0 <= j < i ==> (#[trigger] blacklist@[j])@ != user@,
        decreases blacklist@.len() - i,
    {
        if crate::registry::same_text(blacklist[i].as_str(), user) {
            return true;
        }
        i = i + 1;
    }
    false
}

/// Whether one plugin's handler is invoked for this message.
pub fn should_dispatch(info: &InboundInfo, plugin: &PluginEntry, blacklist: &Vec<String>) -> (r: bool)
    ensures
        r == dispatched_to(*info, plugin.blacklist_opt_in, blacklist@),
{
    if !info.user_message {
        return false;
    }
    match &info.source {
        Some(s) => !(plugin.blacklist_opt_in && is_blacklisted(blacklist, s.as_str())),
        None => true,
    }
}

/// For each plugin, in order, whether its handler is invoked for this message.
pub fn dispatch_targets(info: &InboundInfo, plugins: &Vec<PluginEntry>, blacklist: &Vec<String>) -> (r: Vec<bool>)
    ensures
        r@.len() == plugins@.len(),
        forall|i: int| 0 <= i < plugins@.len() ==> #[trigger] r@[i] == dispatched_to(*info, plugins@[i].blacklist_opt_in, blacklist@),
{
    let mut r: Vec<bool> = Vec::with_capacity(plugins.len());
    let mut i: usize = 0;
    while i < plugins.len()
        invariant
            i <= plugins@.len(),
            r@.len() == i,
            forall|j: int| 0 <= j < i ==> #[trigger] r@[j] == dispatched_to(*info, plugins@[j].blacklist_opt_in, blacklist@),
        decreases plugins@.len() - i,
    {
        let d = should_dispatch(info, &plugins[i], blacklist);
        r.push(d);
        i = i + 1;
    }
    r
}

/// What came of one plugin for one inbound message.
#[derive(Clone, Debug, PartialEq, Eq)]
pub enum HandlerOutcome<M> {
    /// Its handler was not invoked.
    Skipped,
    /// Its handler returned, with or without a reply.
    Replied(Option<M>),
    /// Its handler failed.
    Failed,
}

/// A plugin's handler failed while handling an inbound message.
#[derive(Clone, Debug, PartialEq, Eq)]
pub struct DispatchError {
    /// The position of the first failing plugin.
    pub index: usize,
    /// Its name.
    pub plugin: String,
}

/// Whether any of the first `n` outcomes is a failure.
pub open spec fn any_failed<M>(outcomes: Seq<HandlerOutcome<M>>, n: int) -> bool {
    exists|i: int| 0 <= i < n && #[trigger] outcomes[i] is Failed
}

/// The replies among the first `n` outcomes, tagged with their plugin's name,
/// in plugin order.
pub open spec fn replies<M>(plugins: Seq<PluginEntry>, outcomes: Seq<HandlerOutcome<M>>, n: int) -> Seq<(Seq<char>, M)>
    decreases n,
{
    if n <= 0 {
        seq![]
    } else {
        let before = replies(plugins, outcomes, n - 1);
        match outcomes[n - 1] {
            HandlerOutcome::Replied(Some(m)) => before.push((plugins[n - 1].name@, m)),
            _ => before,
        }
    }
}

/// The views of tagged messages.
pub open spec fn outbound_view<M>(out: Seq<Outbound<M>>) -> Seq<(Seq<char>, M)> {
    out.map_values(|o: Outbound<M>| (o.origin@, o.message))
}

/// Collects the outcomes of one inbound message, in plugin order (not in the
/// order the plugins finished). A failure of any plugin fails the whole
/// message, naming the first failing plugin; otherwise every reply is
/// returned, tagged with the name of the plugin that gave it.
pub fn collect_replies<M>(plugins: &Vec<PluginEntry>, outcomes: Vec<HandlerOutcome<M>>) -> (r: Result<Vec<Outbound<M>>, DispatchError>)
    requires
        outcomes@.len() == plugins@.len(),
    ensures
        r is Err <==> any_failed(outcomes@, outcomes@.len() as int),
        r matches Ok(out) ==> outbound_view(out@) == replies(plugins@, outcomes@, outcomes@.len() as int),
        r matches Err(e) ==> {
            &&& e.index < outcomes@.len()
            &&& outcomes@[e.index as int] is Failed
            &&& !any_failed(outcomes@, e.index as int)
            &&& e.plugin@ == plugins@[e.index as int].name@
        },
{
    let ghost all = outcomes@;
    let mut rest = outcomes;
    let mut out: Vec<Outbound<M>> = Vec::new();
    let mut i: usize = 0;
    while i < plugins.len()
        invariant
            all == outcomes@,
            all.len() == plugins@.len(),
            i <= plugins@.len(),
            rest@ == all.subrange(i as int, all.len() as int),
            !any_failed(all, i as int),
            outbound_view(out@) == replies(plugins@, all, i as int),
        decreases plugins@.len() - i,
    {
        let o = rest.remove(0);
        assert(o == all[i as int]);
        match o {
            HandlerOutcome::Failed => {
                assert(all[i as int] is Failed);
                assert(any_failed(all, all.len() as int));
                return Err(DispatchError { index: i, plugin: plugins[i].name.clone() });
            },
            HandlerOutcome::Replied(Some(m)) => {
                let ghost before = out@;
                out.push(Outbound { origin: plugins[i].name.clone(), message: m });
                assert(outbound_view(out@) =~= outbound_view(before).push((plugins@[i as int].name@, all[i as int]->Replied_0->0)));
            },
            _ => {},
        }
        assert(!any_failed(all, i + 1)) by {
            if any_failed(all, i + 1) {
                let k = choose|k: int| 0 <= k < i + 1 && #[trigger] all[k] is Failed;
                assert(k == i || (0 <= k < i && all[k] is Failed));
            }
        }
        i = i + 1;
        proof {
            assert(rest@ =~= all.subrange(i as int, all.len() as int));
        }
    }
    Ok(out)
}

/// A message that no user sent reaches no plugin's handler, whatever the
/// plugin's blacklist setting and whatever the blacklist holds.
pub proof fn lemma_only_user_messages_dispatched(info: InboundInfo, opt_in: bool, blacklist: Seq<String>)
    requires
        !info.user_message,
    ensures
        !dispatched_to(info, opt_in, blacklist),
{
}

/// A plugin that opts in to the blacklist never sees a message from a
/// blacklisted sender; for a plugin that does not, the blacklist makes no
/// difference.
pub proof fn lemma_blacklist_respected(
    info: InboundInfo,
    blacklist: Seq<String>,
    other_blacklist: Seq<String>,
    i: int,
)
    requires
        0 <= i < blacklist.len(),
        info.source matches Some(s) && blacklist[i]@ == s@,
    ensures
        !dispatched_to(info, true, blacklist),
        dispatched_to(info, false, blacklist) == dispatched_to(info, false, other_blacklist),
        dispatched_to(info, false, blacklist) == info.user_message,
{
}

/// The model of an [`InboundRound`].
pub ghost struct InboundModel<M> {
    /// For each plugin, whether its handler is invoked.
    pub targets: Seq<bool>,
    /// The outcome recorded so far for each plugin.
    pub outcomes: Seq<HandlerOutcome<M>>,
    /// The progress of the handler tasks, one per plugin.
    pub pool: PoolModel,
}

/// One inbound message on its way through the plugins: the targeted plugins'
/// handlers run at most [`DISPATCH_CAP`] at a time, each outcome lands in its
/// plugin's own slot, and after a failure no further handler is started.
pub struct InboundRound<M> {
    targets: Vec<bool>,
    outcomes: Vec<HandlerOutcome<M>>,
    pool: TaskPool,
}

impl<M> View for InboundRound<M> {
    type V = InboundModel<M>;

    closed spec fn view(&self) -> InboundModel<M> {
        InboundModel { targets: self.targets@, outcomes: self.outcomes@, pool: self.pool@ }
    }
}

impl<M> InboundRound<M> {
    /// The round's invariant: a plugin has a recorded reply or failure only
    /// if it was targeted and its task finished.
    pub open spec fn wf(&self) -> bool {
        &&& self@.pool.wf()
        &&& self@.pool.cap == DISPATCH_CAP
        &&& self@.targets.len() == self@.outcomes.len()
        &&& self@.pool.done.len() == self@.targets.len()
        &&& forall|i: int| 0 <= i < self@.targets.len() && !(#[trigger] self@.outcomes[i] is Skipped)
            ==> self@.targets[i] && self@.pool.done[i]
    }

    /// Starts the round for a message, given which plugins it targets.
    pub fn new(targets: Vec<bool>) -> (r: InboundRound<M>)
        ensures
            r.wf(),
            r@.targets == targets@,
            r@.outcomes == Seq::new(targets@.len(), |i: int| HandlerOutcome::<M>::Skipped),
            r@.pool.started == 0,
            !r@.pool.failed,
    {
        let n = targets.len();
        let mut outcomes: Vec<HandlerOutcome<M>> = Vec::with_capacity(n);
        let mut i: usize = 0;
        while i < n
            invariant
                i <= n,
                outcomes@ == Seq::new(i as nat, |j: int| HandlerOutcome::<M>::Skipped),
            decreases n - i,
        {
            outcomes.push(HandlerOutcome::Skipped);
            i = i + 1;
        }
        InboundRound { targets, outcomes, pool: TaskPool::new(n, DISPATCH_CAP) }
    }

    /// The next plugin whose handler is to be invoked, if the cap allows and
    /// nothing has failed. Plugins that are not targeted are passed over
    /// without their handler being invoked.
    pub fn next_plugin(&mut self) -> (r: Option<usize>)
        requires
            old(self).wf(),
        ensures
            final(self).wf(),
            final(self)@.targets == old(self)@.targets,
            final(self)@.outcomes == old(self)@.outcomes,
            final(self)@.pool.failed == old(self)@.pool.failed,
            final(self)@.pool.started >= old(self)@.pool.started,
            r matches Some(p) ==> {
                &&& old(self)@.pool.started <= p
                &&& p + 1 == final(self)@.pool.started
                &&& final(self)@.targets[p as int]
                &&& !final(self)@.pool.done[p as int]
            },
            forall|i: int| old(self)@.pool.started <= i < final(self)@.pool.started
                && (r matches Some(p) ==> i != p) ==> !#[trigger] final(self)@.targets[i],
            r is None ==> !final(self)@.pool.can_start(),
    {
        loop
            invariant
                self.wf(),
                self@.targets == old(self)@.targets,
                self@.outcomes == old(self)@.outcomes,
                self@.pool.failed == old(self)@.pool.failed,
                self@.pool.started >= old(self)@.pool.started,
                forall|i: int| old(self)@.pool.started <= i < self@.pool.started
                    ==> !#[trigger] self@.targets[i],
            decreases self@.pool.done.len() - self@.pool.started,
        {
            match self.pool.start() {
                None => return None,
                Some(p) => {
                    if self.targets[p] {
                        return Some(p);
                    }
                    self.pool.finish(p, true);
                },
            }
        }
    }

    /// Records what the handler of plugin `p` returned: a reply or none, or
    /// a failure.
    pub fn record(&mut self, p: usize, result: Result<Option<M>, ()>)
        requires
            old(self).wf(),
            p < old(self)@.pool.started,
            !old(self)@.pool.done[p as int],
            old(self)@.targets[p as int],
        ensures
            final(self).wf(),
            final(self)@.targets == old(self)@.targets,
            final(self)@.outcomes == old(self)@.outcomes.update(p as int, match result {
                Ok(m) => HandlerOutcome::Replied(m),
                Err(_) => HandlerOutcome::Failed,
            }),
            final(self)@.pool == (PoolModel {
                done: old(self)@.pool.done.update(p as int, true),
                in_flight: (old(self)@.pool.in_flight - 1) as nat,
                failed: old(self)@.pool.failed || result is Err,
                ..old(self)@.pool
            }),
    {
        let ok = result.is_ok();
        let o = match result {
            Ok(m) => HandlerOutcome::Replied(m),
            Err(_) => HandlerOutcome::Failed,
        };
        self.pool.finish(p, ok);
        self.outcomes.set(p, o);
    }

    /// Whether every handler that was started has returned, and no more
    /// will be started.
    pub fn is_settled(&self) -> (r: bool)
        requires
            self.wf(),
        ensures
            r == (self@.pool.in_flight == 0 && (self@.pool.failed || self@.pool.started == self@.pool.done.len())),
    {
        self.pool.is_settled()
    }

    /// Ends the round, once no handler is running and none will start: the
    /// replies in plugin order, or the first failure.
    pub fn finish(self, plugins: &Vec<PluginEntry>) -> (r: Result<Vec<Outbound<M>>, DispatchError>)
        requires
            self.wf(),
            self@.outcomes.len() == plugins@.len(),
            self@.pool.in_flight == 0,
            self@.pool.failed || self@.pool.started == self@.pool.done.len(),
        ensures
            r is Err <==> any_failed(self@.outcomes, self@.outcomes.len() as int),
            r matches Ok(out) ==> outbound_view(out@) == replies(plugins@, self@.outcomes, self@.outcomes.len() as int),
            r matches Err(e) ==> {
                &&& e.index < self@.outcomes.len()
                &&& self@.outcomes[e.index as int] is Failed
                &&& !any_failed(self@.outcomes, e.index as int)
                &&& e.plugin@ == plugins@[e.index as int].name@
            },
    {
        collect_replies(plugins, self.outcomes)
    }
}

} // verus!
