//! Monitor lifecycle: one monitor per active subscription, and the registry
//! that owns them.
//!
//! A monitor holds the configuration it was started with and the notification
//! store for its channel. The registry maps channel to monitor with atomic
//! insert-if-absent and remove semantics: a second start for a channel that
//! is already monitored is rejected as a no-op, and stopping a monitor drains
//! its store into one delete action per outstanding notification, so that the
//! channel is left with nothing posted. The surrounding process performs the
//! delete calls best-effort; the handle is gone either way.

use vstd::prelude::*;

use crate::config::TGTGConfig;
use crate::data::{ItemMessage, TGTGListing};
use crate::kvmap::{
    keys_distinct, lemma_contains, lemma_distinct_push, lemma_distinct_remove,
    lemma_distinct_update, lemma_get, lemma_push, lemma_remove, lemma_update, map_of,
};
use crate::reconcile::{
    action_id, commit, commit_spec, decide, decide_spec, opt_action_view, Action, ActionView,
    Outcome,
};
use crate::store::NotificationStore;
use vstd::pervasive::unreached;

verus! {

/// The live state of one monitored subscription.
pub struct ChannelMonitor {
    channel_id: u64,
    config: TGTGConfig,
    messages: NotificationStore,
}

impl ChannelMonitor {
    /// The channel this monitor posts into.
    pub closed spec fn id(&self) -> u64 {
        self.channel_id
    }

    /// The configuration the monitor was started with.
    pub closed spec fn config_spec(&self) -> TGTGConfig {
        self.config
    }

    /// The monitor's filter pattern.
    pub open spec fn pattern(&self) -> Option<Seq<char>> {
        self.config_spec().filter_pattern()
    }

    /// The monitor's notification store.
    pub closed spec fn store(&self) -> Map<Seq<char>, ItemMessage> {
        self.messages@
    }

    /// Internal shape of the store.
    pub closed spec fn wf(&self) -> bool {
        self.messages.wf()
    }

    /// Start monitoring: no notification is visible yet.
    pub fn init(channel_id: u64, config: TGTGConfig) -> (m: Self)
        ensures
            m.wf(),
            m.id() == channel_id,
            m.config_spec() == config,
            m.store() == Map::<Seq<char>, ItemMessage>::empty(),
    {
        ChannelMonitor { channel_id, config, messages: NotificationStore::new() }
    }

    /// The channel this monitor posts into.
    pub fn channel_id(&self) -> (c: u64)
        ensures
            c == self.id(),
    {
        self.channel_id
    }

    /// The monitor's configuration.
    pub fn config(&self) -> (c: &TGTGConfig)
        ensures
            *c == self.config_spec(),
    {
        &self.config
    }

    /// Decide what to do about one listing of the current snapshot.
    pub fn decide_listing(&self, l: &TGTGListing) -> (r: Option<Action>)
        requires
            self.wf(),
        ensures
            opt_action_view(r) == decide_spec(self.store(), self.pattern(), *l),
    {
        decide(&self.messages, &self.config.regex, l)
    }

    /// Fold the transport outcome of an issued action into the store.
    pub fn commit_action(&mut self, a: &Action, o: &Outcome)
        requires
            old(self).wf(),
        ensures
            final(self).wf(),
            final(self).id() == old(self).id(),
            final(self).config_spec() == old(self).config_spec(),
            final(self).store() == commit_spec(old(self).store(), a@, *o),
    {
        commit(&mut self.messages, a, o);
    }

    /// How many notifications the monitor currently has posted.
    pub fn outstanding(&self) -> (n: usize)
        requires
            self.wf(),
        ensures
            n == self.store().dom().len(),
    {
        self.messages.len()
    }

    /// Tear the monitor's channel state down: empty the store and return one
    /// delete action for every notification that was outstanding.
    pub fn teardown(&mut self) -> (r: Vec<Action>)
        requires
            old(self).wf(),
        ensures
            final(self).wf(),
            final(self).id() == old(self).id(),
            final(self).config_spec() == old(self).config_spec(),
            final(self).store() == Map::<Seq<char>, ItemMessage>::empty(),
            r@.len() == old(self).store().dom().len(),
            forall|i: int| 0 <= i < r@.len() ==> {
                &&& old(self).store().dom().contains(action_id(#[trigger] r@[i]@))
                &&& r@[i]@ == (ActionView::Delete {
                    message_id: old(self).store()[action_id(r@[i]@)].message_id,
                    id: action_id(r@[i]@),
                })
            },
            forall|k: Seq<char>| old(self).store().dom().contains(k)
                ==> exists|i: int| 0 <= i < r@.len() && action_id(#[trigger] r@[i]@) == k,
    {
        let drained = self.messages.drain();
        let n = drained.len();
        let mut actions: Vec<Action> = Vec::new();
        let mut i: usize = 0;
        while i < n
            invariant
                n == drained@.len(),
                i <= n,
                actions@.len() == i,
                forall|j: int| 0 <= j < i ==> #[trigger] actions@[j]@ == (ActionView::Delete {
                    message_id: drained@[j].1.message_id,
                    id: drained@[j].0@,
                }),
            decreases n - i,
        {
            let pair = &drained[i];
            actions.push(
                Action::Delete { message_id: pair.1.message_id, item_id: pair.0.clone() },
            );
            i += 1;
        }
        proof {
            assert forall|k: Seq<char>| old(self).store().dom().contains(k) implies exists|j: int|
                0 <= j < actions@.len() && action_id(#[trigger] actions@[j]@) == k by {
                let j = choose|j: int| 0 <= j < drained@.len() && drained@[j].0@ == k;
                assert(action_id(actions@[j]@) == k);
            }
        }
        actions
    }
}

/// All currently monitored subscriptions, keyed by channel.
pub struct MonitorRegistry {
    monitors: Vec<(u64, ChannelMonitor)>,
}

impl MonitorRegistry {
    /// The map this registry represents.
    pub closed spec fn view(&self) -> Map<u64, ChannelMonitor> {
        map_of(self.monitors@)
    }

    /// Internal shape: channels distinct, every monitor sound and filed under
    /// its own channel.
    pub closed spec fn wf(&self) -> bool {
        &&& keys_distinct(self.monitors@)
        &&& forall|i: int| 0 <= i < self.monitors@.len() ==> {
            &&& (#[trigger] self.monitors@[i].1).wf()
            &&& self.monitors@[i].1.channel_id == self.monitors@[i].0
        }
    }

    /// An empty registry: nothing is monitored.
    pub fn new() -> (r: Self)
        ensures
            r.wf(),
            r@ == Map::<u64, ChannelMonitor>::empty(),
    {
        MonitorRegistry { monitors: Vec::new() }
    }

    /// The channels currently monitored, one entry each.
    pub fn channels(&self) -> (r: Vec<u64>)
        requires
            self.wf(),
        ensures
            r@.len() == self@.dom().len(),
            forall|i: int| 0 <= i < r@.len() ==> self@.dom().contains(#[trigger] r@[i]),
            forall|c: u64| self@.dom().contains(c) ==> exists|i: int|
                0 <= i < r@.len() && #[trigger] r@[i] == c,
    {
        proof {
            crate::kvmap::lemma_len(self.monitors@);
            assert forall|i: int| 0 <= i < self.monitors@.len() implies self@.dom().contains(
                #[trigger] self.monitors@[i].0,
            ) by {
                lemma_get(self.monitors@, i);
            }
            assert forall|c: u64| self@.dom().contains(c) implies exists|i: int|
                0 <= i < self.monitors@.len() && #[trigger] self.monitors@[i].0 == c by {
                lemma_contains(self.monitors@, c);
            }
        }
        let n = self.monitors.len();
        let mut out: Vec<u64> = Vec::new();
        let mut i: usize = 0;
        while i < n
            invariant
                n == self.monitors@.len(),
                i <= n,
                out@.len() == i,
                forall|j: int| 0 <= j < i ==> #[trigger] out@[j] == self.monitors@[j].0,
            decreases n - i,
        {
            out.push(self.monitors[i].0);
            i += 1;
        }
        proof {
            assert forall|c: u64| self@.dom().contains(c) implies exists|i: int|
                0 <= i < out@.len() && #[trigger] out@[i] == c by {
                let j = choose|j: int|
                    0 <= j < self.monitors@.len() && self.monitors@[j].0 == c;
                assert(out@[j] == c);
            }
        }
        out
    }

    /// Index of the monitor for `channel_id`, if one is running.
    fn find(&self, channel_id: u64) -> (r: Option<usize>)
        requires
            self.wf(),
        ensures
            match r {
                Some(i) => i < self.monitors@.len() && self.monitors@[i as int].0 == channel_id,
                None => forall|j: int| 0 <= j < self.monitors@.len()
                    ==> self.monitors@[j].0 != channel_id,
            },
    {
        let n = self.monitors.len();
        let mut i: usize = 0;
        while i < n
            invariant
                n == self.monitors@.len(),
                i <= n,
                forall|j: int| 0 <= j < i ==> self.monitors@[j].0 != channel_id,
            decreases n - i,
        {
            if self.monitors[i].0 == channel_id {
                return Some(i);
            }
            i += 1;
        }
        None
    }

    /// Whether a monitor is running for `channel_id`.
    pub fn is_active(&self, channel_id: u64) -> (r: bool)
        requires
            self.wf(),
        ensures
            r == self@.dom().contains(channel_id),
    {
        let r = self.find(channel_id);
        proof {
            lemma_contains(self.monitors@, channel_id);
        }
        r.is_some()
    }

    /// Start monitoring `channel_id`, unless a monitor already runs for it:
    /// a duplicate start is rejected as a no-op, never stacked.
    pub fn start(&mut self, channel_id: u64, config: TGTGConfig) -> (r: bool)
        requires
            old(self).wf(),
        ensures
            final(self).wf(),
            r == !old(self)@.dom().contains(channel_id),
            !r ==> *final(self) == *old(self),
            r ==> {
                &&& final(self)@.dom() == old(self)@.dom().insert(channel_id)
                &&& final(self)@[channel_id].id() == channel_id
                &&& final(self)@[channel_id].config_spec() == config
                &&& final(self)@[channel_id].store() == Map::<Seq<char>, ItemMessage>::empty()
                &&& forall|c: u64| c != channel_id && old(self)@.dom().contains(c)
                    ==> final(self)@.dom().contains(c) && final(self)@[c] == old(self)@[c]
            },
    {
        let r = self.find(channel_id);
        proof {
            lemma_contains(self.monitors@, channel_id);
        }
        match r {
            Some(_) => false,
            None => {
                let monitor = ChannelMonitor::init(channel_id, config);
                proof {
                    lemma_distinct_push(self.monitors@, (channel_id, monitor));
                    lemma_push(self.monitors@, (channel_id, monitor));
                }
                self.monitors.push((channel_id, monitor));
                proof {
                    assert(self@.dom() =~= old(self)@.dom().insert(channel_id));
                }
                true
            },
        }
    }

    /// Stop monitoring `channel_id`. Returns the delete actions that clear
    /// the channel — one per outstanding notification — or nothing when no
    /// monitor was running. The monitor is removed in either success or
    /// failure of the individual deletions: those are performed best-effort
    /// by the caller.
    pub fn stop(&mut self, channel_id: u64) -> (r: Option<Vec<Action>>)
        requires
            old(self).wf(),
        ensures
            final(self).wf(),
            (r is Some) == old(self)@.dom().contains(channel_id),
            r is None ==> *final(self) == *old(self),
            r matches Some(acts) ==> {
                &&& final(self)@ == old(self)@.remove(channel_id)
                &&& acts@.len() == old(self)@[channel_id].store().dom().len()
                &&& forall|i: int| 0 <= i < acts@.len() ==> {
                    &&& old(self)@[channel_id].store().dom().contains(
                        action_id(#[trigger] acts@[i]@),
                    )
                    &&& acts@[i]@ == (ActionView::Delete {
                        message_id: old(self)@[channel_id].store()[action_id(
                            acts@[i]@,
                        )].message_id,
                        id: action_id(acts@[i]@),
                    })
                }
                &&& forall|k: Seq<char>| old(self)@[channel_id].store().dom().contains(k)
                    ==> exists|i: int| 0 <= i < acts@.len() && action_id(
                        #[trigger] acts@[i]@,
                    ) == k
            },
    {
        let r = self.find(channel_id);
        proof {
            lemma_contains(self.monitors@, channel_id);
        }
        match r {
            Some(i) => {
                proof {
                    lemma_get(self.monitors@, i as int);
                    lemma_remove(self.monitors@, i as int);
                    lemma_distinct_remove(self.monitors@, i as int);
                }
                let pair = self.monitors.remove(i);
                let mut monitor = pair.1;
                let actions = monitor.teardown();
                Some(actions)
            },
            None => None,
        }
    }

    /// Decide what to do about one listing, for the channel's monitor.
    ///
    /// The caller checks `is_active` first; a stopped channel has no monitor
    /// to decide for.
    pub fn decide_for(&self, channel_id: u64, l: &TGTGListing) -> (r: Option<Action>)
        requires
            self.wf(),
            self@.dom().contains(channel_id),
        ensures
            opt_action_view(r) == decide_spec(
                self@[channel_id].store(),
                self@[channel_id].pattern(),
                *l,
            ),
    {
        let i = match self.find(channel_id) {
            Some(i) => i,
            None => {
                proof {
                    lemma_contains(self.monitors@, channel_id);
                }
                unreached()
            },
        };
        proof {
            lemma_get(self.monitors@, i as int);
        }
        self.monitors[i].1.decide_listing(l)
    }

    /// Fold an issued action's outcome into the channel's monitor. Every
    /// other channel's monitor is untouched: reconciliation for distinct
    /// subscriptions never interferes.
    pub fn commit_for(&mut self, channel_id: u64, a: &Action, o: &Outcome)
        requires
            old(self).wf(),
            old(self)@.dom().contains(channel_id),
        ensures
            final(self).wf(),
            final(self)@.dom() == old(self)@.dom(),
            final(self)@[channel_id].id() == old(self)@[channel_id].id(),
            final(self)@[channel_id].config_spec() == old(self)@[channel_id].config_spec(),
            final(self)@[channel_id].store() == commit_spec(
                old(self)@[channel_id].store(),
                a@,
                *o,
            ),
            forall|c: u64| c != channel_id && old(self)@.dom().contains(c)
                ==> final(self)@.dom().contains(c) && final(self)@[c] == old(self)@[c],
    {
        let i = match self.find(channel_id) {
            Some(i) => i,
            None => {
                proof {
                    lemma_contains(self.monitors@, channel_id);
                }
                unreached()
            },
        };
        proof {
            lemma_get(self.monitors@, i as int);
        }
        let pair = self.monitors.remove(i);
        let mut monitor = pair.1;
        monitor.commit_action(a, o);
        let ghost m = monitor;
        self.monitors.insert(i, (channel_id, monitor));
        proof {
            assert(self.monitors@ =~= old(self).monitors@.update(i as int, (channel_id, m)));
            lemma_distinct_update(old(self).monitors@, i as int, (channel_id, m));
            lemma_update(old(self).monitors@, i as int, (channel_id, m));
            assert(self@.dom() =~= old(self)@.dom());
        }
    }
}

} // verus!
