//! Per-client subscriptions and bounded notification outboxes.
//!
//! Each connected client holds a set of subscribed event types and a
//! FIFO outbox of pending notifications. The outbox is bounded: when a
//! notification arrives on a full outbox, the oldest entry is dropped.

use crate::protocol::{EventType, RpcNotification};
use crate::transport::ClientId;
use std::collections::VecDeque;
use vstd::prelude::*;

verus! {

broadcast use vstd::set::group_set_axioms;

/// Default notification buffer size per client.
pub const DEFAULT_BUFFER_SIZE: usize = 100;

/// Whether two notifications carry the same wire message.
pub open spec fn same_note(a: RpcNotification, b: RpcNotification) -> bool {
    a.method@ == b.method@ && crate::json::same_json(a.params, b.params)
}

/// The subscription state of one client.
pub struct ClientSubscription {
    event_types: Vec<EventType>,
    event_buffer: VecDeque<RpcNotification>,
    buffer_size: usize,
}

impl ClientSubscription {
    /// The event types this client listens to: the set of the
    /// subscription-order list.
    pub open spec fn topics(&self) -> Set<EventType> {
        self.topics_seq().to_set()
    }

    /// The subscribed event types, in order of first subscription.
    pub closed spec fn topics_seq(&self) -> Seq<EventType> {
        self.event_types@
    }

    /// The queued notifications, oldest first.
    pub closed spec fn queued(&self) -> Seq<RpcNotification> {
        self.event_buffer@
    }

    /// The outbox bound this client was created with.
    pub closed spec fn capacity(&self) -> nat {
        self.buffer_size as nat
    }

    /// No event type is listed twice, and the outbox respects its
    /// bound — one entry may stand even under a zero bound, since a
    /// queued notification always lands after the oldest is dropped.
    pub closed spec fn wf(&self) -> bool {
        &&& forall|i: int, j: int|
            0 <= i < j < self.event_types@.len() ==> self.event_types@[i] != self.event_types@[j]
        &&& (self.event_buffer@.len() <= self.buffer_size || self.event_buffer@.len() <= 1)
    }
}

/// The topic list after subscribing to the requested types, in order:
/// each requested type joins the end of the list unless already held.
pub open spec fn merged_topics(base: Seq<EventType>, requested: Seq<EventType>) -> Seq<EventType>
    decreases requested,
{
    if requested.len() == 0 {
        base
    } else {
        merged_topics(
            if base.contains(requested[0]) {
                base
            } else {
                base.push(requested[0])
            },
            requested.drop_first(),
        )
    }
}

/// The topic list after unsubscribing from the listed types: the
/// survivors, in their old order.
pub open spec fn retained_topics(base: Seq<EventType>, removed: Seq<EventType>) -> Seq<EventType>
    decreases base,
{
    if base.len() == 0 {
        Seq::empty()
    } else if removed.contains(base[0]) {
        retained_topics(base.drop_first(), removed)
    } else {
        seq![base[0]] + retained_topics(base.drop_first(), removed)
    }
}

/// The outbox after one notification is queued on it: the oldest entry
/// leaves first when the bound is already reached.
pub open spec fn queued_after(old_q: Seq<RpcNotification>, cap: nat) -> Seq<RpcNotification> {
    if old_q.len() >= cap && old_q.len() > 0 {
        old_q.drop_first()
    } else {
        old_q
    }
}

/// Manages every client's subscribed topics and outbox.
pub struct SubscriptionManager {
    subscriptions: Vec<(ClientId, ClientSubscription)>,
    buffer_size: usize,
}

impl SubscriptionManager {
    /// The subscription entry of a client, if any.
    pub closed spec fn entry_of(&self, client: ClientId) -> Option<ClientSubscription> {
        entry_lookup(self.subscriptions@, client)
    }

    /// Whether a client currently holds subscription state.
    pub open spec fn has_client(&self, client: ClientId) -> bool {
        self.entry_of(client) is Some
    }

    /// The topics a client is subscribed to; none when untracked.
    pub open spec fn topics_of(&self, client: ClientId) -> Set<EventType> {
        match self.entry_of(client) {
            Some(e) => e.topics(),
            None => Set::empty(),
        }
    }

    /// The subscribed topics of a client in subscription order.
    pub open spec fn topics_seq_of(&self, client: ClientId) -> Seq<EventType> {
        match self.entry_of(client) {
            Some(e) => e.topics_seq(),
            None => Seq::empty(),
        }
    }

    /// The topic set of a client is exactly the set of its topic list,
    /// so the list returned by [`SubscriptionManager::get_subscriptions`]
    /// carries the set the mutators' contracts speak of.
    pub proof fn lemma_topics_of_is_list_set(&self, client: ClientId)
        ensures
            self.topics_of(client) == self.topics_seq_of(client).to_set(),
    {
        match self.entry_of(client) {
            Some(_) => {},
            None => {
                assert(Seq::<EventType>::empty().to_set() =~= Set::<EventType>::empty());
            },
        }
    }

    /// The queued notifications of a client, oldest first.
    pub open spec fn queued_of(&self, client: ClientId) -> Seq<RpcNotification> {
        match self.entry_of(client) {
            Some(e) => e.queued(),
            None => Seq::empty(),
        }
    }

    /// The outbox bound given to new clients.
    pub closed spec fn bound(&self) -> nat {
        self.buffer_size as nat
    }

    /// The number of clients holding subscription state.
    pub closed spec fn client_count(&self) -> nat {
        self.subscriptions@.len()
    }

    /// Each client has one entry, each entry lists no topic twice, and
    /// every outbox bound is the manager's.
    pub closed spec fn wf(&self) -> bool {
        &&& forall|i: int, j: int|
            0 <= i < j < self.subscriptions@.len() ==> (#[trigger] self.subscriptions@[i]).0 != (
            #[trigger] self.subscriptions@[j]).0
        &&& forall|i: int|
            0 <= i < self.subscriptions@.len() ==> (#[trigger] self.subscriptions@[i]).1.wf()
        &&& forall|i: int|
            0 <= i < self.subscriptions@.len() ==> (#[trigger] self.subscriptions@[i]).1.capacity()
                == self.bound()
    }

    /// A manager with the default outbox bound.
    pub fn new() -> (r: Self)
        ensures
            r.wf(),
            r.client_count() == 0,
            r.bound() == DEFAULT_BUFFER_SIZE,
            forall|c: ClientId| !r.has_client(c),
    {
        SubscriptionManager { subscriptions: Vec::new(), buffer_size: DEFAULT_BUFFER_SIZE }
    }

    /// A manager with a chosen outbox bound. A zero bound still admits
    /// one entry per outbox: queueing drops the oldest entry first and
    /// then always lands, so the resting bound is `max(buffer_size, 1)`.
    pub fn with_buffer_size(buffer_size: usize) -> (r: Self)
        ensures
            r.wf(),
            r.client_count() == 0,
            r.bound() == buffer_size,
            forall|c: ClientId| !r.has_client(c),
    {
        SubscriptionManager { subscriptions: Vec::new(), buffer_size }
    }

    fn find_index(&self, client: ClientId) -> (r: Option<usize>)
        ensures
            match r {
                Some(i) => i < self.subscriptions@.len() && self.subscriptions@[i as int].0
                    == client && self.entry_of(client) == Some(
                    self.subscriptions@[i as int].1,
                ) && (forall|j: int| 0 <= j < i ==> (#[trigger] self.subscriptions@[j]).0
                    != client),
                None => self.entry_of(client) is None,
            },
    {
        let mut i: usize = 0;
        proof {
            assert(self.subscriptions@.skip(0) =~= self.subscriptions@);
        }
        while i < self.subscriptions.len()
            invariant
                i <= self.subscriptions@.len(),
                forall|j: int| 0 <= j < i ==> (#[trigger] self.subscriptions@[j]).0 != client,
                entry_lookup(self.subscriptions@, client) == entry_lookup(
                    self.subscriptions@.skip(i as int),
                    client,
                ),
            decreases self.subscriptions@.len() - i,
        {
            proof {
                assert(self.subscriptions@.skip(i as int)[0] == self.subscriptions@[i as int]);
                assert(self.subscriptions@.skip(i as int).drop_first() =~= self.subscriptions@.skip(
                    i + 1,
                ));
            }
            if self.subscriptions[i].0 == client {
                return Some(i);
            }
            i += 1;
        }
        proof {
            assert(self.subscriptions@.skip(self.subscriptions@.len() as int) =~= Seq::<(
                ClientId,
                ClientSubscription,
            )>::empty());
        }
        None
    }

    /// Subscribe a client to event types; topics already held are kept
    /// once. The subscribed list is echoed back. A client without state
    /// gets a fresh entry with an empty outbox.
    pub fn subscribe(&mut self, client_id: ClientId, event_types: Vec<EventType>) -> (r: Result<
        Vec<EventType>,
        String,
    >)
        requires
            old(self).wf(),
        ensures
            final(self).wf(),
            r matches Ok(v) && v@ == event_types@,
            final(self).bound() == old(self).bound(),
            old(self).has_client(client_id) ==> final(self).client_count() == old(
                self,
            ).client_count(),
            !old(self).has_client(client_id) ==> final(self).client_count() == old(
                self,
            ).client_count() + 1,
            final(self).has_client(client_id),
            final(self).topics_of(client_id) == old(self).topics_of(client_id) + event_types@.to_set(),
            final(self).topics_seq_of(client_id) == merged_topics(
                old(self).topics_seq_of(client_id),
                event_types@,
            ),
            final(self).queued_of(client_id) == old(self).queued_of(client_id),
            forall|c: ClientId|
                c != client_id ==> #[trigger] final(self).entry_of(c) == old(self).entry_of(c),
    {
        let idx = match self.find_index(client_id) {
            Some(i) => i,
            None => {
                let fresh = ClientSubscription {
                    event_types: Vec::new(),
                    event_buffer: VecDeque::new(),
                    buffer_size: self.buffer_size,
                };
                let ghost pre = self.subscriptions@;
                self.subscriptions.push((client_id, fresh));
                proof {
                    lemma_entry_lookup_none_absent(pre, client_id);
                    lemma_entry_lookup_push(pre, client_id, fresh);
                    assert forall|c: ClientId| c != client_id implies #[trigger] entry_lookup(
                        self.subscriptions@,
                        c,
                    ) == entry_lookup(pre, c) by {
                        lemma_entry_lookup_push_other(pre, client_id, fresh, c);
                    };
                    assert(fresh.topics() =~= Set::<EventType>::empty());
                    assert(fresh.topics_seq() =~= Seq::<EventType>::empty());
                }
                self.subscriptions.len() - 1
            },
        };
        let ghost pre_subs = self.subscriptions@;
        let ghost pre_entry = self.subscriptions@[idx as int].1;
        proof {
            assert(forall|a: int, b: int|
                0 <= a < b < pre_subs.len() ==> (#[trigger] pre_subs[a]).0 != (
                #[trigger] pre_subs[b]).0);
        }
        let mut k: usize = 0;
        while k < event_types.len()
            invariant
                self.buffer_size == old(self).buffer_size,
                idx < self.subscriptions@.len(),
                k <= event_types@.len(),
                self.subscriptions@.len() == pre_subs.len(),
                forall|j: int|
                    0 <= j < self.subscriptions@.len() && j != idx ==> #[trigger] self.subscriptions@[j]
                        == pre_subs[j],
                self.subscriptions@[idx as int].0 == pre_subs[idx as int].0,
                self.subscriptions@[idx as int].1.queued() == pre_entry.queued(),
                self.subscriptions@[idx as int].1.capacity() == pre_entry.capacity(),
                self.subscriptions@[idx as int].1.wf(),
                pre_entry.wf(),
                self.subscriptions@[idx as int].1.topics() == pre_entry.topics() + event_types@.take(
                    k as int,
                ).to_set(),
                self.subscriptions@[idx as int].1.topics_seq() == merged_topics(
                    pre_entry.topics_seq(),
                    event_types@.take(k as int),
                ),
            decreases event_types@.len() - k,
        {
            let e = event_types[k];
            let sub = &mut self.subscriptions[idx].1;
            let mut present = false;
            let mut t: usize = 0;
            while t < sub.event_types.len()
                invariant
                    t <= sub.event_types@.len(),
                    present == exists|j: int| 0 <= j < t && sub.event_types@[j] == e,
                decreases sub.event_types@.len() - t,
            {
                if sub.event_types[t] == e {
                    present = true;
                }
                t += 1;
            }
            let ghost pre_list = sub.event_types@;
            if !present {
                sub.event_types.push(e);
            }
            proof {
                if !present {
                    lemma_to_set_push(pre_list, e);
                } else {
                    let j = choose|j: int| 0 <= j < pre_list.len() && pre_list[j] == e;
                    assert(pre_list.to_set().contains(e));
                    assert(pre_list.to_set() =~= pre_list.to_set().insert(e));
                }
                lemma_to_set_push(event_types@.take(k as int), event_types@[k as int]);
                assert(event_types@.take(k as int).push(event_types@[k as int]) =~= event_types@
                    .take(k + 1));
                assert(self.subscriptions@[idx as int].1.topics() =~= pre_entry.topics()
                    + event_types@.take(k + 1).to_set());
                lemma_merged_topics_step(
                    pre_entry.topics_seq(),
                    event_types@.take(k as int),
                    event_types@[k as int],
                );
                assert(pre_list == merged_topics(
                    pre_entry.topics_seq(),
                    event_types@.take(k as int),
                ));
                assert(present == pre_list.contains(e));
            }
            k += 1;
        }
        proof {
            assert(event_types@.take(event_types@.len() as int) =~= event_types@);
            if !old(self).has_client(client_id) {
                assert(old(self).topics_seq_of(client_id) =~= Seq::<EventType>::empty());
            }
            assert(forall|j: int|
                0 <= j < self.subscriptions@.len() ==> (#[trigger] self.subscriptions@[j]).0
                    == pre_subs[j].0);
            assert(forall|a: int, b: int|
                0 <= a < b < self.subscriptions@.len() ==> (#[trigger] self.subscriptions@[a]).0
                    != (#[trigger] self.subscriptions@[b]).0);
            lemma_entry_lookup_at(self.subscriptions@, idx as int);
            assert forall|c: ClientId| c != client_id implies #[trigger] entry_lookup(
                self.subscriptions@,
                c,
            ) == entry_lookup(pre_subs, c) by {
                lemma_entry_lookup_same_others(pre_subs, self.subscriptions@, idx as int, c);
            };
        }
        let mut echo: Vec<EventType> = Vec::new();
        let mut k2: usize = 0;
        while k2 < event_types.len()
            invariant
                k2 <= event_types@.len(),
                echo@ == event_types@.take(k2 as int),
            decreases event_types@.len() - k2,
        {
            echo.push(event_types[k2]);
            proof {
                assert(echo@ =~= event_types@.take(k2 + 1));
            }
            k2 += 1;
        }
        proof {
            assert(echo@ =~= event_types@);
        }
        Ok(echo)
    }
}

/// Bounded outboxes: an outbox within its bound stays within it when a
/// notification is queued — the drop of the oldest entry makes room
/// first, so the bound is never exceeded.
pub proof fn lemma_outbox_stays_bounded(old_q: Seq<RpcNotification>, cap: nat)
    requires
        1 <= cap,
        old_q.len() <= cap,
    ensures
        queued_after(old_q, cap).len() + 1 <= cap,
{
}

/// One client's entry after a notification on a topic is queued: topics
/// and bound are kept; a subscribed client's outbox grows by an equal
/// copy of the notification, dropping its oldest entry when full; any
/// other outbox is untouched.
pub open spec fn queue_step(
    pre: (ClientId, ClientSubscription),
    post: (ClientId, ClientSubscription),
    topic: EventType,
    n: RpcNotification,
) -> bool {
    &&& post.0 == pre.0
    &&& post.1.topics_seq() == pre.1.topics_seq()
    &&& post.1.capacity() == pre.1.capacity()
    &&& if pre.1.topics().contains(topic) {
        let base = queued_after(pre.1.queued(), pre.1.capacity());
        &&& post.1.queued().len() == base.len() + 1
        &&& post.1.queued().take(base.len() as int) == base
        &&& same_note(post.1.queued().last(), n)
    } else {
        post.1 == pre.1
    }
}

impl SubscriptionManager {
    /// Unsubscribe a client from event types; ones it never held are
    /// ignored. A client without state is refused, named in the message.
    pub fn unsubscribe(&mut self, client_id: ClientId, event_types: Vec<EventType>) -> (r: Result<
        Vec<EventType>,
        String,
    >)
        requires
            old(self).wf(),
        ensures
            final(self).wf(),
            final(self).bound() == old(self).bound(),
            final(self).client_count() == old(self).client_count(),
            !old(self).has_client(client_id) ==> (r matches Err(m) && m@ == "Client "@
                + crate::decimal::dec_str(client_id as nat) + " has no subscriptions"@
                && *final(self) == *old(self)),
            old(self).has_client(client_id) ==> {
                &&& r matches Ok(v) && v@ == event_types@
                &&& final(self).has_client(client_id)
                &&& final(self).topics_of(client_id) == old(self).topics_of(
                    client_id,
                ).difference(event_types@.to_set())
                &&& final(self).topics_seq_of(client_id) == retained_topics(
                    old(self).topics_seq_of(client_id),
                    event_types@,
                )
                &&& final(self).queued_of(client_id) == old(self).queued_of(client_id)
                &&& forall|c: ClientId|
                    c != client_id ==> #[trigger] final(self).entry_of(c) == old(self).entry_of(c)
            },
    {
        let idx = match self.find_index(client_id) {
            Some(i) => i,
            None => {
                let mut m = String::new();
                m.append("Client ");
                crate::decimal::push_dec_u64(client_id, &mut m);
                m.append(" has no subscriptions");
                return Err(m);
            },
        };
        let ghost pre_subs = self.subscriptions@;
        let ghost pre_entry = self.subscriptions@[idx as int].1;
        let sub = &mut self.subscriptions[idx].1;
        let ghost pre_list = sub.event_types@;
        let mut kept: Vec<EventType> = Vec::new();
        proof {
            assert(pre_list.skip(0) =~= pre_list);
            assert(Seq::<EventType>::empty() + retained_topics(pre_list, event_types@)
                =~= retained_topics(pre_list, event_types@));
        }
        let mut t: usize = 0;
        while t < sub.event_types.len()
            invariant
                t <= sub.event_types@.len(),
                sub.event_types@ == pre_list,
                sub.wf(),
                retained_topics(pre_list, event_types@) == kept@ + retained_topics(
                    pre_list.skip(t as int),
                    event_types@,
                ),
                kept@.to_set() == pre_list.take(t as int).to_set().difference(
                    event_types@.to_set(),
                ),
                forall|a: int, b: int|
                    0 <= a < b < kept@.len() ==> #[trigger] kept@[a] != #[trigger] kept@[b],
                forall|a: int|
                    0 <= a < kept@.len() ==> pre_list.to_set().contains(#[trigger] kept@[a]),
            decreases sub.event_types@.len() - t,
        {
            let e = sub.event_types[t];
            let mut listed = false;
            let mut j: usize = 0;
            while j < event_types.len()
                invariant
                    j <= event_types@.len(),
                    listed == exists|q: int| 0 <= q < j && event_types@[q] == e,
                decreases event_types@.len() - j,
            {
                if event_types[j] == e {
                    listed = true;
                }
                j += 1;
            }
            let ghost kept_pre = kept@;
            if !listed {
                kept.push(e);
            }
            proof {
                lemma_to_set_push(pre_list.take(t as int), pre_list[t as int]);
                assert(pre_list.take(t as int).push(pre_list[t as int]) =~= pre_list.take(t + 1));
                assert(pre_list.skip(t as int)[0] == pre_list[t as int]);
                assert(pre_list.skip(t as int).drop_first() =~= pre_list.skip(t + 1));
                assert(listed == event_types@.contains(e));
                if !listed {
                    assert(!event_types@.to_set().contains(e));
                    assert(!kept_pre.to_set().contains(e)) by {
                        if kept_pre.to_set().contains(e) {
                            let j = choose|j: int|
                                0 <= j < pre_list.take(t as int).len() && pre_list.take(
                                    t as int,
                                )[j] == e;
                            assert(pre_list[j] == e);
                            assert(pre_list[j] != pre_list[t as int]);
                        }
                    };
                    lemma_to_set_push(kept_pre, e);
                    assert(retained_topics(pre_list.skip(t as int), event_types@) == seq![e]
                        + retained_topics(pre_list.skip(t + 1), event_types@));
                    assert(kept_pre + (seq![e] + retained_topics(pre_list.skip(t + 1), event_types@))
                        =~= kept@ + retained_topics(pre_list.skip(t + 1), event_types@));
                } else {
                    assert(event_types@.to_set().contains(e));
                }
                assert(kept@.to_set() =~= pre_list.take(t + 1).to_set().difference(
                    event_types@.to_set(),
                ));
            }
            t += 1;
        }
        proof {
            assert(pre_list.take(pre_list.len() as int) =~= pre_list);
            assert(pre_list.skip(pre_list.len() as int) =~= Seq::<EventType>::empty());
            assert(kept@ + Seq::<EventType>::empty() =~= kept@);
            assert(kept@ == retained_topics(pre_list, event_types@));
        }
        sub.event_types = kept;
        proof {
            assert(forall|j: int|
                0 <= j < self.subscriptions@.len() ==> (#[trigger] self.subscriptions@[j]).0
                    == pre_subs[j].0);
            lemma_entry_lookup_at(self.subscriptions@, idx as int);
            assert forall|c: ClientId| c != client_id implies #[trigger] entry_lookup(
                self.subscriptions@,
                c,
            ) == entry_lookup(pre_subs, c) by {
                lemma_entry_lookup_same_others(pre_subs, self.subscriptions@, idx as int, c);
            };
        }
        let mut echo: Vec<EventType> = Vec::new();
        let mut k2: usize = 0;
        while k2 < event_types.len()
            invariant
                k2 <= event_types@.len(),
                echo@ == event_types@.take(k2 as int),
            decreases event_types@.len() - k2,
        {
            echo.push(event_types[k2]);
            proof {
                assert(echo@ =~= event_types@.take(k2 + 1));
            }
            k2 += 1;
        }
        proof {
            assert(echo@ =~= event_types@);
        }
        Ok(echo)
    }

    /// The event types a client is currently subscribed to, in order of
    /// first subscription; none for an untracked client.
    pub fn get_subscriptions(&self, client_id: ClientId) -> (r: Vec<EventType>)
        ensures
            r@ == self.topics_seq_of(client_id),
    {
        match self.find_index(client_id) {
            None => Vec::new(),
            Some(idx) => {
                let sub = &self.subscriptions[idx].1;
                let mut out: Vec<EventType> = Vec::new();
                let mut t: usize = 0;
                while t < sub.event_types.len()
                    invariant
                        t <= sub.event_types@.len(),
                        out@ == sub.event_types@.take(t as int),
                    decreases sub.event_types@.len() - t,
                {
                    out.push(sub.event_types[t]);
                    proof {
                        assert(out@ =~= sub.event_types@.take(t + 1));
                    }
                    t += 1;
                }
                proof {
                    assert(out@ =~= sub.event_types@);
                }
                out
            },
        }
    }

    /// Queue a notification on the outbox of every client subscribed to
    /// its topic, dropping the oldest entry of a full outbox first.
    pub fn queue_notification(&mut self, event_type: EventType, notification: RpcNotification)
        requires
            old(self).wf(),
        ensures
            final(self).wf(),
            final(self).bound() == old(self).bound(),
            final(self).client_count() == old(self).client_count(),
            forall|c: ClientId| final(self).has_client(c) == old(self).has_client(c),
            forall|c: ClientId| #[trigger] final(self).topics_of(c) == old(self).topics_of(c),
            forall|c: ClientId|
                old(self).has_client(c) && !old(self).topics_of(c).contains(event_type)
                    ==> #[trigger] final(self).queued_of(c) == old(self).queued_of(c),
            forall|c: ClientId|
                old(self).has_client(c) && old(self).topics_of(c).contains(event_type) ==> {
                    let base = queued_after(old(self).queued_of(c), old(self).bound());
                    &&& (#[trigger] final(self).queued_of(c)).len() == base.len() + 1
                    &&& final(self).queued_of(c).take(base.len() as int) == base
                    &&& same_note(final(self).queued_of(c).last(), notification)
                },
    {
        let ghost pre_subs = self.subscriptions@;
        let n = self.subscriptions.len();
        let mut i: usize = 0;
        while i < n
            invariant
                n == self.subscriptions@.len(),
                self.buffer_size == old(self).buffer_size,
                i <= n,
                self.subscriptions@.len() == pre_subs.len(),
                forall|j: int| i <= j < n ==> #[trigger] self.subscriptions@[j] == pre_subs[j],
                forall|j: int|
                    0 <= j < i ==> queue_step(
                        pre_subs[j],
                        #[trigger] self.subscriptions@[j],
                        event_type,
                        notification,
                    ),
                forall|j: int|
                    0 <= j < pre_subs.len() ==> (#[trigger] pre_subs[j]).1.wf() && pre_subs[j].1
                        .capacity() == old(self).bound(),
            decreases n - i,
        {
            let sub = &mut self.subscriptions[i].1;
            let ghost pre_entry = *sub;
            let mut member = false;
            let mut t: usize = 0;
            while t < sub.event_types.len()
                invariant
                    t <= sub.event_types@.len(),
                    *sub == pre_entry,
                    member == exists|q: int|
                        0 <= q < t && pre_entry.topics_seq()[q] == event_type,
                decreases sub.event_types@.len() - t,
            {
                if sub.event_types[t] == event_type {
                    member = true;
                }
                t += 1;
            }
            if member {
                if sub.event_buffer.len() >= sub.buffer_size {
                    let _oldest = sub.event_buffer.pop_front();
                }
                sub.event_buffer.push_back(notification.duplicate());
                proof {
                    assert(pre_entry.topics().contains(event_type));
                    assert(self.subscriptions@[i as int].1.queued().take(
                        queued_after(pre_entry.queued(), pre_entry.capacity()).len() as int,
                    ) =~= queued_after(pre_entry.queued(), pre_entry.capacity()));
                }
            } else {
                proof {
                    assert(!pre_entry.topics().contains(event_type)) by {
                        if pre_entry.topics().contains(event_type) {
                            let q = choose|q: int|
                                0 <= q < pre_entry.topics_seq().len() && pre_entry.topics_seq()[q]
                                    == event_type;
                        }
                    };
                }
            }
            i += 1;
        }
        proof {
            assert forall|c: ClientId| #[trigger] entry_lookup(self.subscriptions@, c) is Some
                == (entry_lookup(pre_subs, c) is Some) by {
                lemma_lookup_pointwise(pre_subs, self.subscriptions@, c);
            };
            assert forall|c: ClientId| entry_lookup(pre_subs, c) is Some implies {
                &&& (#[trigger] entry_lookup(self.subscriptions@, c)) matches Some(post_e)
                &&& entry_lookup(pre_subs, c) matches Some(pre_e)
                &&& post_e.topics_seq() == pre_e.topics_seq()
                &&& post_e.topics() == pre_e.topics()
                &&& post_e.capacity() == pre_e.capacity()
                &&& pre_e.capacity() == old(self).bound()
                &&& (pre_e.topics().contains(event_type) ==> {
                    let base = queued_after(pre_e.queued(), pre_e.capacity());
                    &&& post_e.queued().len() == base.len() + 1
                    &&& post_e.queued().take(base.len() as int) == base
                    &&& same_note(post_e.queued().last(), notification)
                })
                &&& (!pre_e.topics().contains(event_type) ==> post_e == pre_e)
            } by {
                lemma_lookup_pointwise(pre_subs, self.subscriptions@, c);
                let pre_e = entry_lookup(pre_subs, c)->Some_0;
                let j = choose|j: int|
                    0 <= j < pre_subs.len() && pre_subs[j] == (c, pre_e)
                        && self.subscriptions@[j].0 == c && entry_lookup(self.subscriptions@, c)
                        == Some(self.subscriptions@[j].1);
                assert(queue_step(
                    pre_subs[j],
                    self.subscriptions@[j],
                    event_type,
                    notification,
                ));
            };
        }
    }

    /// Remove and return every queued notification of a client, oldest
    /// first; an untracked client yields none.
    pub fn drain_notifications(&mut self, client_id: ClientId) -> (r: Vec<RpcNotification>)
        requires
            old(self).wf(),
        ensures
            final(self).wf(),
            final(self).bound() == old(self).bound(),
            final(self).client_count() == old(self).client_count(),
            r@ == old(self).queued_of(client_id),
            final(self).queued_of(client_id) == Seq::<RpcNotification>::empty(),
            forall|c: ClientId| final(self).has_client(c) == old(self).has_client(c),
            forall|c: ClientId| #[trigger] final(self).topics_of(c) == old(self).topics_of(c),
            forall|c: ClientId|
                c != client_id ==> #[trigger] final(self).queued_of(c) == old(self).queued_of(c),
    {
        let idx = match self.find_index(client_id) {
            Some(i) => i,
            None => {
                return Vec::new();
            },
        };
        let ghost pre_subs = self.subscriptions@;
        let ghost pre_entry = self.subscriptions@[idx as int].1;
        let mut out: Vec<RpcNotification> = Vec::new();
        proof {
            assert(out@ + pre_entry.queued() =~= pre_entry.queued());
        }
        loop
            invariant
                idx < self.subscriptions@.len(),
                self.subscriptions@.len() == pre_subs.len(),
                self.buffer_size == old(self).buffer_size,
                forall|j: int|
                    0 <= j < self.subscriptions@.len() && j != idx
                        ==> #[trigger] self.subscriptions@[j] == pre_subs[j],
                self.subscriptions@[idx as int].0 == pre_subs[idx as int].0,
                self.subscriptions@[idx as int].1.topics_seq() == pre_entry.topics_seq(),
                self.subscriptions@[idx as int].1.capacity() == pre_entry.capacity(),
                self.subscriptions@[idx as int].1.wf(),
                out@ + self.subscriptions@[idx as int].1.queued() == pre_entry.queued(),
            ensures
                idx < self.subscriptions@.len(),
                self.subscriptions@.len() == pre_subs.len(),
                self.buffer_size == old(self).buffer_size,
                forall|j: int|
                    0 <= j < self.subscriptions@.len() && j != idx
                        ==> #[trigger] self.subscriptions@[j] == pre_subs[j],
                self.subscriptions@[idx as int].0 == pre_subs[idx as int].0,
                self.subscriptions@[idx as int].1.topics_seq() == pre_entry.topics_seq(),
                self.subscriptions@[idx as int].1.capacity() == pre_entry.capacity(),
                self.subscriptions@[idx as int].1.wf(),
                out@ == pre_entry.queued(),
                self.subscriptions@[idx as int].1.queued().len() == 0,
            decreases self.subscriptions@[idx as int].1.queued().len(),
        {
            let sub = &mut self.subscriptions[idx].1;
            let next = sub.event_buffer.pop_front();
            match next {
                Some(x) => {
                    out.push(x);
                    proof {
                        assert(out@ + self.subscriptions@[idx as int].1.queued() =~= pre_entry
                            .queued());
                    }
                },
                None => {
                    proof {
                        assert(out@ =~= pre_entry.queued()) by {
                            assert(out@ + Seq::<RpcNotification>::empty() =~= out@);
                        };
                    }
                    break;
                },
            }
        }
        proof {
            assert(forall|j: int|
                0 <= j < self.subscriptions@.len() ==> (#[trigger] self.subscriptions@[j]).0
                    == pre_subs[j].0);
            lemma_entry_lookup_at(self.subscriptions@, idx as int);
            assert forall|c: ClientId| c != client_id implies #[trigger] entry_lookup(
                self.subscriptions@,
                c,
            ) == entry_lookup(pre_subs, c) by {
                lemma_entry_lookup_same_others(pre_subs, self.subscriptions@, idx as int, c);
            };
        }
        out
    }

    /// Drop a client's subscriptions and outbox on disconnect.
    pub fn remove_client(&mut self, client_id: ClientId)
        requires
            old(self).wf(),
        ensures
            final(self).wf(),
            final(self).bound() == old(self).bound(),
            old(self).has_client(client_id) ==> final(self).client_count() + 1 == old(
                self,
            ).client_count(),
            !old(self).has_client(client_id) ==> final(self).client_count() == old(
                self,
            ).client_count(),
            !final(self).has_client(client_id),
            final(self).topics_of(client_id) == Set::<EventType>::empty(),
            final(self).queued_of(client_id) == Seq::<RpcNotification>::empty(),
            forall|c: ClientId|
                c != client_id ==> #[trigger] final(self).entry_of(c) == old(self).entry_of(c),
    {
        let idx = match self.find_index(client_id) {
            Some(i) => i,
            None => {
                return ;
            },
        };
        let ghost pre_subs = self.subscriptions@;
        let removed = self.subscriptions.remove(idx);
        proof {
            lemma_entry_lookup_removed(pre_subs, self.subscriptions@, idx as int, client_id);
            assert forall|c: ClientId| c != client_id implies #[trigger] entry_lookup(
                self.subscriptions@,
                c,
            ) == entry_lookup(pre_subs, c) by {
                lemma_entry_lookup_remove_other(pre_subs, self.subscriptions@, idx as int, c);
            };
        }
    }

    /// The number of clients holding subscription state.
    pub fn subscriber_count(&self) -> (r: usize)
        ensures
            r == self.client_count(),
    {
        self.subscriptions.len()
    }
}

/// Two association lists with the same ids relate pointwise through
/// their lookups at any id present.
proof fn lemma_lookup_pointwise(
    pre: Seq<(ClientId, ClientSubscription)>,
    post: Seq<(ClientId, ClientSubscription)>,
    c: ClientId,
)
    requires
        pre.len() == post.len(),
        forall|j: int| 0 <= j < pre.len() ==> (#[trigger] post[j]).0 == pre[j].0,
    ensures
        entry_lookup(post, c) is Some <==> entry_lookup(pre, c) is Some,
        entry_lookup(pre, c) matches Some(pe) ==> (exists|j: int|
            0 <= j < pre.len() && pre[j] == (c, pe) && post[j].0 == c && entry_lookup(post, c)
                == Some(post[j].1)),
    decreases pre,
{
    if pre.len() > 0 {
        if pre[0].0 == c {
            assert(pre[0] == (c, pre[0].1));
        } else {
            assert(forall|j: int|
                0 <= j < pre.drop_first().len() ==> (#[trigger] post.drop_first()[j]).0
                    == pre.drop_first()[j].0);
            lemma_lookup_pointwise(pre.drop_first(), post.drop_first(), c);
            if entry_lookup(pre.drop_first(), c) is Some {
                let pe = entry_lookup(pre.drop_first(), c)->Some_0;
                let j = choose|j: int|
                    0 <= j < pre.drop_first().len() && pre.drop_first()[j] == (c, pe)
                        && post.drop_first()[j].0 == c && entry_lookup(post.drop_first(), c)
                        == Some(post.drop_first()[j].1);
                assert(pre[j + 1] == (c, pe));
                assert(post[j + 1].0 == c);
            }
        }
    }
}

/// After removing a client's entry from a list with distinct ids, the
/// client has none.
proof fn lemma_entry_lookup_removed(
    pre: Seq<(ClientId, ClientSubscription)>,
    post: Seq<(ClientId, ClientSubscription)>,
    i: int,
    client: ClientId,
)
    requires
        0 <= i < pre.len(),
        pre[i].0 == client,
        post == pre.remove(i),
        forall|a: int, b: int| 0 <= a < b < pre.len() ==> (#[trigger] pre[a]).0 != (
        #[trigger] pre[b]).0,
    ensures
        entry_lookup(post, client) is None,
    decreases pre,
{
    if pre.len() > 0 {
        if i == 0 {
            assert(post =~= pre.drop_first());
            lemma_entry_lookup_absent(pre.drop_first(), client);
        } else {
            assert(post[0] == pre[0]);
            assert(pre[0].0 != client);
            assert(post.drop_first() =~= pre.drop_first().remove(i - 1));
            assert(pre.drop_first()[i - 1] == pre[i]);
            assert(forall|a: int, b: int|
                0 <= a < b < pre.drop_first().len() ==> (#[trigger] pre.drop_first()[a]).0 != (
                #[trigger] pre.drop_first()[b]).0);
            lemma_entry_lookup_removed(
                pre.drop_first(),
                pre.drop_first().remove(i - 1),
                i - 1,
                client,
            );
        }
    }
}

/// A client listed at no index has no entry.
proof fn lemma_entry_lookup_absent(subs: Seq<(ClientId, ClientSubscription)>, client: ClientId)
    requires
        forall|j: int| 0 <= j < subs.len() ==> (#[trigger] subs[j]).0 != client,
    ensures
        entry_lookup(subs, client) is None,
    decreases subs,
{
    if subs.len() > 0 {
        assert(forall|j: int|
            0 <= j < subs.drop_first().len() ==> (#[trigger] subs.drop_first()[j]).0 != client);
        lemma_entry_lookup_absent(subs.drop_first(), client);
    }
}

/// Removing one entry leaves every other client's lookup unchanged,
/// when ids are distinct.
proof fn lemma_entry_lookup_remove_other(
    pre: Seq<(ClientId, ClientSubscription)>,
    post: Seq<(ClientId, ClientSubscription)>,
    i: int,
    other: ClientId,
)
    requires
        0 <= i < pre.len(),
        post == pre.remove(i),
        other != pre[i].0,
    ensures
        entry_lookup(post, other) == entry_lookup(pre, other),
    decreases pre,
{
    if pre.len() > 0 {
        if i == 0 {
            assert(post =~= pre.drop_first());
        } else {
            assert(post[0] == pre[0]);
            if pre[0].0 != other {
                assert(post.drop_first() =~= pre.drop_first().remove(i - 1));
                assert(pre.drop_first()[i - 1] == pre[i]);
                lemma_entry_lookup_remove_other(
                    pre.drop_first(),
                    pre.drop_first().remove(i - 1),
                    i - 1,
                    other,
                );
            }
        }
    }
}

/// Extending the requested list by one type extends the merge by one
/// step: the type joins the end unless the merged list already holds it.
pub proof fn lemma_merged_topics_step(base: Seq<EventType>, s: Seq<EventType>, x: EventType)
    ensures
        merged_topics(base, s.push(x)) == (if merged_topics(base, s).contains(x) {
            merged_topics(base, s)
        } else {
            merged_topics(base, s).push(x)
        }),
    decreases s,
{
    let p = s.push(x);
    if s.len() == 0 {
        assert(p[0] == x);
        assert(p.drop_first() =~= Seq::<EventType>::empty());
        let basex = if base.contains(x) {
            base
        } else {
            base.push(x)
        };
        assert(merged_topics(base, p) == merged_topics(basex, p.drop_first()));
        assert(merged_topics(basex, p.drop_first()) == basex);
        assert(merged_topics(base, s) == base);
    } else {
        assert(p[0] == s[0]);
        assert(p.drop_first() =~= s.drop_first().push(x));
        let base2 = if base.contains(s[0]) {
            base
        } else {
            base.push(s[0])
        };
        lemma_merged_topics_step(base2, s.drop_first(), x);
        assert(merged_topics(base, p) == merged_topics(base2, p.drop_first()));
        assert(merged_topics(base, s) == merged_topics(base2, s.drop_first()));
    }
}

/// Pushing one element onto a sequence adds exactly it to the set of
/// elements.
pub proof fn lemma_to_set_push<A>(s: Seq<A>, e: A)
    ensures
        s.push(e).to_set() == s.to_set().insert(e),
{
    let p = s.push(e);
    assert forall|x: A| #[trigger] p.to_set().contains(x) implies s.to_set().insert(e).contains(
        x,
    ) by {
        let i = choose|i: int| 0 <= i < p.len() && p[i] == x;
        if i < s.len() {
            assert(s[i] == x);
        }
    };
    assert forall|x: A| #[trigger] s.to_set().insert(e).contains(x) implies p.to_set().contains(
        x,
    ) by {
        if x == e {
            assert(p[s.len() as int] == x);
        } else {
            let i = choose|i: int| 0 <= i < s.len() && s[i] == x;
            assert(p[i] == x);
        }
    };
    assert(p.to_set() =~= s.to_set().insert(e));
}

/// The first entry of a client in an association list, if any.
pub open spec fn entry_lookup(subs: Seq<(ClientId, ClientSubscription)>, client: ClientId) -> Option<
    ClientSubscription,
>
    decreases subs,
{
    if subs.len() == 0 {
        None
    } else if subs[0].0 == client {
        Some(subs[0].1)
    } else {
        entry_lookup(subs.drop_first(), client)
    }
}

proof fn lemma_entry_lookup_none_absent(subs: Seq<(ClientId, ClientSubscription)>, client: ClientId)
    requires
        entry_lookup(subs, client) is None,
    ensures
        forall|j: int| 0 <= j < subs.len() ==> (#[trigger] subs[j]).0 != client,
    decreases subs,
{
    if subs.len() > 0 {
        lemma_entry_lookup_none_absent(subs.drop_first(), client);
        assert(forall|j: int| 1 <= j < subs.len() ==> subs.drop_first()[j - 1] == subs[j]);
    }
}

proof fn lemma_entry_lookup_push(
    subs: Seq<(ClientId, ClientSubscription)>,
    client: ClientId,
    fresh: ClientSubscription,
)
    requires
        entry_lookup(subs, client) is None,
    ensures
        entry_lookup(subs.push((client, fresh)), client) == Some(fresh),
    decreases subs,
{
    let p = subs.push((client, fresh));
    if subs.len() == 0 {
        assert(p[0] == (client, fresh));
    } else {
        assert(p[0] == subs[0]);
        assert(p.drop_first() =~= subs.drop_first().push((client, fresh)));
        lemma_entry_lookup_push(subs.drop_first(), client, fresh);
    }
}

proof fn lemma_entry_lookup_push_other(
    subs: Seq<(ClientId, ClientSubscription)>,
    client: ClientId,
    fresh: ClientSubscription,
    other: ClientId,
)
    requires
        other != client,
    ensures
        entry_lookup(subs.push((client, fresh)), other) == entry_lookup(subs, other),
    decreases subs,
{
    let p = subs.push((client, fresh));
    if subs.len() == 0 {
        assert(p[0] == (client, fresh));
        assert(p[0].0 == client);
        assert(p.drop_first() =~= Seq::<(ClientId, ClientSubscription)>::empty());
        assert(entry_lookup(p, other) == entry_lookup(p.drop_first(), other));
        assert(entry_lookup(p.drop_first(), other) is None);
        assert(entry_lookup(subs, other) is None);
    } else {
        assert(p[0] == subs[0]);
        assert(p.drop_first() =~= subs.drop_first().push((client, fresh)));
        lemma_entry_lookup_push_other(subs.drop_first(), client, fresh, other);
    }
}

/// In a list with distinct client ids, the lookup of the id at an index
/// yields that index's entry.
pub proof fn lemma_entry_lookup_at(subs: Seq<(ClientId, ClientSubscription)>, i: int)
    requires
        0 <= i < subs.len(),
        forall|a: int, b: int| 0 <= a < b < subs.len() ==> (#[trigger] subs[a]).0 != (
        #[trigger] subs[b]).0,
    ensures
        entry_lookup(subs, subs[i].0) == Some(subs[i].1),
    decreases i,
{
    if i > 0 {
        assert(subs[0].0 != subs[i].0);
        assert(subs.drop_first()[i - 1] == subs[i]);
        assert(forall|a: int, b: int|
            0 <= a < b < subs.drop_first().len() ==> (#[trigger] subs.drop_first()[a]).0 != (
            #[trigger] subs.drop_first()[b]).0);
        lemma_entry_lookup_at(subs.drop_first(), i - 1);
    }
}

/// Replacing the entry at one index leaves every other client's lookup
/// unchanged, provided the id at that index is kept.
pub proof fn lemma_entry_lookup_same_others(
    pre: Seq<(ClientId, ClientSubscription)>,
    post: Seq<(ClientId, ClientSubscription)>,
    i: int,
    other: ClientId,
)
    requires
        0 <= i < pre.len(),
        post.len() == pre.len(),
        forall|j: int| 0 <= j < pre.len() && j != i ==> #[trigger] post[j] == pre[j],
        post[i].0 == pre[i].0,
        other != pre[i].0,
    ensures
        entry_lookup(post, other) == entry_lookup(pre, other),
    decreases pre,
{
    assert(post[0].0 == pre[0].0);
    if pre[0].0 != other {
        if pre.len() > 1 {
            if i == 0 {
                assert(post.drop_first() =~= pre.drop_first());
            } else {
                assert(forall|j: int|
                    0 <= j < pre.drop_first().len() && j != i - 1 ==> #[trigger] post.drop_first()[j]
                        == pre.drop_first()[j]);
                lemma_entry_lookup_same_others(pre.drop_first(), post.drop_first(), i - 1, other);
            }
        }
    }
}

} // verus!
