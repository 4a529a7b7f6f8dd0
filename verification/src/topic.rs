//! Topics: configuration and the buffered / fanned-out state machine.
//!
//! A topic with no consumers buffers messages in one shared queue. The first
//! subscriber to attach inherits that backlog; from then on every pushed
//! message is copied by reference into each live subscriber's private queue.
//! Detaching reaps dead entries and, when the last subscriber leaves, salvages
//! its pending messages back into the shared buffer.

use vstd::prelude::*;
use std::sync::Arc;
use crate::message::{Messages, QueuedMessage, pushed, popped, remaining, share};

verus! {

/// Per-topic policy: an optional message lifetime in milliseconds and an
/// optional compaction switch (absent means off).
#[derive(Clone, Copy)]
pub struct TopicConfig {
    pub retention_millis: Option<u64>,
    pub compaction: Option<bool>,
}

impl Default for TopicConfig {
    fn default() -> (r: Self)
        ensures
            r.retention_millis == None::<u64>,
            r.compaction == None::<bool>,
    {
        TopicConfig { retention_millis: None, compaction: None }
    }
}

/// One attached consumer: an identity, a liveness mark (false once the
/// consumer's stream is gone and only the topic's entry is left), and the
/// consumer's private queue.
pub struct Subscriber {
    pub id: u128,
    pub live: bool,
    pub messages: Messages,
}

/// The mathematical shape of a subscriber entry.
#[verifier::ext_equal]
pub ghost struct SubscriberView {
    pub id: u128,
    pub live: bool,
    pub messages: Seq<Arc<QueuedMessage>>,
}

impl View for Subscriber {
    type V = SubscriberView;

    open spec fn view(&self) -> SubscriberView {
        SubscriberView { id: self.id, live: self.live, messages: self.messages@ }
    }
}

impl Subscriber {
    pub fn id(&self) -> (r: u128)
        ensures
            r == self.id,
    {
        self.id
    }

    /// Append a message to this subscriber's queue under the topic's policy.
    pub fn push_back(&mut self, message: Arc<QueuedMessage>, config: &TopicConfig)
        ensures
            final(self).id == old(self).id,
            final(self).live == old(self).live,
            final(self).messages@ == pushed(old(self).messages@, message, *config),
    {
        self.messages.push_back(message, config);
    }

    /// Replace this subscriber's queue; used at attach to hand it a backlog.
    pub fn set_messages(&mut self, messages: Messages)
        ensures
            final(self).id == old(self).id,
            final(self).live == old(self).live,
            final(self).messages@ == messages@,
    {
        self.messages = messages;
    }

    /// Swap this subscriber's queue with an empty one and return the old
    /// contents; used at detach to salvage pending messages.
    pub fn take_messages(&mut self) -> (r: Messages)
        ensures
            final(self).id == old(self).id,
            final(self).live == old(self).live,
            final(self).messages@ == Seq::<Arc<QueuedMessage>>::empty(),
            r@ == old(self).messages@,
    {
        let mut ret = Messages::default();
        core::mem::swap(&mut ret, &mut self.messages);
        ret
    }
}

/// The tagged state of a topic: a shared buffer while nobody listens, or the
/// set of subscriber entries once somebody does.
pub enum TopicContent {
    Messages(Messages),
    Subscribers(Vec<Subscriber>),
}

/// The mathematical shape of a topic's state.
#[verifier::ext_equal]
pub ghost enum ContentView {
    Messages(Seq<Arc<QueuedMessage>>),
    Subscribers(Seq<SubscriberView>),
}

/// The views of a sequence of subscriber entries, in order.
pub open spec fn subs_view(s: Seq<Subscriber>) -> Seq<SubscriberView> {
    s.map_values(|x: Subscriber| x@)
}

impl View for TopicContent {
    type V = ContentView;

    open spec fn view(&self) -> ContentView {
        match self {
            TopicContent::Messages(q) => ContentView::Messages(q@),
            TopicContent::Subscribers(v) => ContentView::Subscribers(subs_view(v@)),
        }
    }
}

impl Default for TopicContent {
    fn default() -> (r: Self)
        ensures
            r@ == ContentView::Messages(Seq::<Arc<QueuedMessage>>::empty()),
    {
        TopicContent::Messages(Messages::default())
    }
}

/// A named channel: its state plus its immutable policy.
pub struct Topic {
    pub content: TopicContent,
    pub config: TopicConfig,
}

/// The mathematical shape of a topic.
#[verifier::ext_equal]
pub ghost struct TopicView {
    pub content: ContentView,
    pub config: TopicConfig,
}

impl View for Topic {
    type V = TopicView;

    open spec fn view(&self) -> TopicView {
        TopicView { content: self.content@, config: self.config }
    }
}

impl Default for Topic {
    fn default() -> (r: Self)
        ensures
            r@.content == ContentView::Messages(Seq::<Arc<QueuedMessage>>::empty()),
            r@.config == (TopicConfig { retention_millis: None, compaction: None }),
    {
        Topic { content: TopicContent::default(), config: TopicConfig::default() }
    }
}

/// A live subscriber entry takes the pushed message into its queue; a dead
/// entry is skipped.
pub open spec fn sub_pushed(s: SubscriberView, m: Arc<QueuedMessage>, cfg: TopicConfig) -> SubscriberView {
    if s.live {
        SubscriberView { messages: pushed(s.messages, m, cfg), ..s }
    } else {
        s
    }
}

/// A push: buffered topics queue the message, fanned-out topics copy it to
/// every live subscriber.
pub open spec fn content_pushed(c: ContentView, m: Arc<QueuedMessage>, cfg: TopicConfig) -> ContentView {
    match c {
        ContentView::Messages(q) => ContentView::Messages(pushed(q, m, cfg)),
        ContentView::Subscribers(subs) => ContentView::Subscribers(
            subs.map_values(|s: SubscriberView| sub_pushed(s, m, cfg)),
        ),
    }
}

/// A fresh, live subscriber entry holding the given queue contents.
pub open spec fn new_subscriber(id: u128, msgs: Seq<Arc<QueuedMessage>>) -> SubscriberView {
    SubscriberView { id, live: true, messages: msgs }
}

/// An attach: the first subscriber inherits the whole backlog, later ones
/// start with an empty queue.
pub open spec fn content_subscribed(c: ContentView, id: u128) -> ContentView {
    match c {
        ContentView::Messages(q) => ContentView::Subscribers(seq![new_subscriber(id, q)]),
        ContentView::Subscribers(subs) => ContentView::Subscribers(
            subs.push(new_subscriber(id, Seq::<Arc<QueuedMessage>>::empty())),
        ),
    }
}

/// The entries that survive a reap: exactly the live ones, in order.
pub open spec fn reaped(subs: Seq<SubscriberView>) -> Seq<SubscriberView>
    decreases subs.len(),
{
    if subs.len() == 0 {
        subs
    } else {
        let rest = reaped(subs.drop_last());
        if subs.last().live {
            rest.push(subs.last())
        } else {
            rest
        }
    }
}

/// The first position holding the given identity, or -1 when there is none.
pub open spec fn idx_of(subs: Seq<SubscriberView>, id: u128) -> int
    decreases subs.len(),
{
    if subs.len() == 0 {
        -1
    } else if subs[0].id == id {
        0
    } else {
        let r = idx_of(subs.drop_first(), id);
        if r < 0 {
            -1
        } else {
            r + 1
        }
    }
}

/// A detach: dead entries are reaped; then, depending on how many entries are
/// left, the topic either reverts to a buffer (salvaging the departing
/// subscriber's queue when it was the last one) or stays fanned out without
/// the departing entry.
pub open spec fn content_removed(c: ContentView, id: u128) -> ContentView {
    match c {
        ContentView::Messages(_) => c,
        ContentView::Subscribers(subs) => {
            let r = reaped(subs);
            if r.len() == 0 {
                ContentView::Messages(Seq::<Arc<QueuedMessage>>::empty())
            } else if r.len() == 1 {
                if r[0].id == id {
                    ContentView::Messages(r[0].messages)
                } else {
                    ContentView::Messages(Seq::<Arc<QueuedMessage>>::empty())
                }
            } else {
                let i = idx_of(r, id);
                if i >= 0 {
                    ContentView::Subscribers(r.remove(i))
                } else {
                    ContentView::Subscribers(r)
                }
            }
        },
    }
}

/// A disconnect: the entry with the given identity goes dead; nothing else
/// changes until the next detach reaps it.
pub open spec fn content_disconnected(c: ContentView, id: u128) -> ContentView {
    match c {
        ContentView::Messages(_) => c,
        ContentView::Subscribers(subs) => ContentView::Subscribers(
            subs.map_values(|s: SubscriberView| if s.id == id {
                SubscriberView { live: false, ..s }
            } else {
                s
            }),
        ),
    }
}

/// What a poll for the given subscriber returns.
pub open spec fn poll_result(
    c: ContentView,
    id: u128,
    cfg: TopicConfig,
    now: u64,
) -> Option<Arc<QueuedMessage>> {
    match c {
        ContentView::Messages(_) => None,
        ContentView::Subscribers(subs) => {
            let i = idx_of(subs, id);
            if i >= 0 {
                popped(subs[i].messages, cfg, now)
            } else {
                None
            }
        },
    }
}

/// The topic state after a poll for the given subscriber: only that
/// subscriber's queue advances.
pub open spec fn content_polled(c: ContentView, id: u128, cfg: TopicConfig, now: u64) -> ContentView {
    match c {
        ContentView::Messages(_) => c,
        ContentView::Subscribers(subs) => {
            let i = idx_of(subs, id);
            if i >= 0 {
                ContentView::Subscribers(subs.update(i, SubscriberView {
                    messages: remaining(subs[i].messages, cfg, now),
                    ..subs[i]
                }))
            } else {
                c
            }
        },
    }
}

impl Topic {
    /// Push one message: buffered topics queue it; fanned-out topics hand a
    /// shared reference to every live subscriber, skipping dead entries.
    pub fn push(&mut self, message: Arc<QueuedMessage>)
        ensures
            final(self)@.content == content_pushed(old(self)@.content, message, old(self).config),
            final(self).config == old(self).config,
    {
        match &mut self.content {
            TopicContent::Messages(q) => {
                q.push_back(message, &self.config);
            },
            TopicContent::Subscribers(subs) => {
                let ghost osubs = subs_view(subs@);
                let ghost cfg = self.config;
                let n = subs.len();
                let mut i: usize = 0;
                while i < n
                    invariant
                        i <= n,
                        n == subs.len(),
                        osubs.len() == n,
                        cfg == self.config,
                        forall|j: int| 0 <= j < i ==> subs@[j]@ == sub_pushed(osubs[j], message, cfg),
                        forall|j: int| i <= j < n ==> subs@[j]@ == osubs[j],
                    decreases n - i,
                {
                    let ghost pre = subs@;
                    let mut s = subs.remove(i);
                    if s.live {
                        let copy = share(&message);
                        s.push_back(copy, &self.config);
                    }
                    subs.insert(i, s);
                    proof {
                        assert(subs@ =~= pre.update(i as int, subs@[i as int]));
                    }
                    i = i + 1;
                }
                proof {
                    assert(subs_view(subs@) =~= osubs.map_values(
                        |s: SubscriberView| sub_pushed(s, message, cfg),
                    ));
                }
            },
        }
    }

    /// Attach a subscriber: on a buffered topic it takes over the backlog and
    /// the topic fans out; on a fanned-out topic it is appended with an empty
    /// queue and sees only later messages.
    pub fn add_subscriber(&mut self, id: u128)
        ensures
            final(self)@.content == content_subscribed(old(self)@.content, id),
            final(self).config == old(self).config,
    {
        let mut tmp = TopicContent::Messages(Messages::default());
        core::mem::swap(&mut self.content, &mut tmp);
        match tmp {
            TopicContent::Messages(q) => {
                let ghost backlog = q@;
                let sub = Subscriber { id, live: true, messages: q };
                let mut v: Vec<Subscriber> = Vec::new();
                v.push(sub);
                proof {
                    assert(subs_view(v@) =~= seq![new_subscriber(id, backlog)]);
                }
                self.content = TopicContent::Subscribers(v);
            },
            TopicContent::Subscribers(mut subs) => {
                let ghost osubs = subs_view(subs@);
                let sub = Subscriber { id, live: true, messages: Messages::default() };
                subs.push(sub);
                proof {
                    assert(subs_view(subs@) =~= osubs.push(new_subscriber(
                        id,
                        Seq::<Arc<QueuedMessage>>::empty(),
                    )));
                }
                self.content = TopicContent::Subscribers(subs);
            },
        }
    }

    /// Mark the entry with this identity dead: the consumer's stream is gone
    /// and only the topic still remembers it, until the next detach reaps it.
    pub fn mark_disconnected(&mut self, id: u128)
        ensures
            final(self)@.content == content_disconnected(old(self)@.content, id),
            final(self).config == old(self).config,
    {
        match &mut self.content {
            TopicContent::Messages(_) => {},
            TopicContent::Subscribers(subs) => {
                let ghost osubs = subs_view(subs@);
                let n = subs.len();
                let mut i: usize = 0;
                while i < n
                    invariant
                        i <= n,
                        n == subs.len(),
                        osubs.len() == n,
                        forall|j: int| 0 <= j < i ==> subs@[j]@ == (if osubs[j].id == id {
                            SubscriberView { live: false, ..osubs[j] }
                        } else {
                            osubs[j]
                        }),
                        forall|j: int| i <= j < n ==> subs@[j]@ == osubs[j],
                    decreases n - i,
                {
                    let ghost pre = subs@;
                    let mut s = subs.remove(i);
                    if s.id == id {
                        s.live = false;
                    }
                    subs.insert(i, s);
                    proof {
                        assert(subs@ =~= pre.update(i as int, subs@[i as int]));
                    }
                    i = i + 1;
                }
                proof {
                    assert(subs_view(subs@) =~= osubs.map_values(
                        |s: SubscriberView| if s.id == id {
                            SubscriberView { live: false, ..s }
                        } else {
                            s
                        },
                    ));
                }
            },
        }
    }

    /// Poll for the subscriber with this identity: pop from its queue under
    /// the topic's policy. Buffered topics and unknown identities yield
    /// nothing.
    pub fn poll_message(&mut self, id: u128, now: u64) -> (r: Option<Arc<QueuedMessage>>)
        ensures
            r == poll_result(old(self)@.content, id, old(self).config, now),
            final(self)@.content == content_polled(old(self)@.content, id, old(self).config, now),
            final(self).config == old(self).config,
    {
        let mut tmp = TopicContent::Messages(Messages::default());
        core::mem::swap(&mut self.content, &mut tmp);
        match tmp {
            TopicContent::Messages(q) => {
                self.content = TopicContent::Messages(q);
                None
            },
            TopicContent::Subscribers(mut subs) => {
                let ghost osubs = subs_view(subs@);
                let n = subs.len();
                let mut j: usize = 0;
                let mut found = false;
                while j < n && !found
                    invariant
                        j <= n,
                        n == subs.len(),
                        osubs == subs_view(subs@),
                        !found ==> forall|l: int| 0 <= l < j ==> osubs[l].id != id,
                        found ==> j < n && osubs[j as int].id == id && (forall|l: int|
                            0 <= l < j ==> osubs[l].id != id),
                    decreases n - j + (if found { 0int } else { 1int }),
                {
                    if subs[j].id == id {
                        found = true;
                    } else {
                        j = j + 1;
                    }
                }
                if found {
                    proof {
                        lemma_idx_of_first(osubs, id, j as int);
                    }
                    let ghost pre = subs@;
                    let mut s = subs.remove(j);
                    let r = s.messages.pop_front(&self.config, now);
                    subs.insert(j, s);
                    proof {
                        assert(subs@ =~= pre.update(j as int, subs@[j as int]));
                        assert(subs_view(subs@) =~= osubs.update(j as int, SubscriberView {
                            messages: remaining(osubs[j as int].messages, self.config, now),
                            ..osubs[j as int]
                        }));
                    }
                    self.content = TopicContent::Subscribers(subs);
                    r
                } else {
                    proof {
                        lemma_idx_of_first(osubs, id, n as int);
                    }
                    self.content = TopicContent::Subscribers(subs);
                    None
                }
            },
        }
    }

    /// Detach the subscriber with this identity: reap dead entries, then
    /// either revert to a buffer (salvaging the departing subscriber's queue
    /// when it was the last one left) or stay fanned out without it.
    pub fn remove_subscriber(&mut self, id: u128)
        ensures
            final(self)@.content == content_removed(old(self)@.content, id),
            final(self).config == old(self).config,
    {
        let mut tmp = TopicContent::Messages(Messages::default());
        core::mem::swap(&mut self.content, &mut tmp);
        match tmp {
            TopicContent::Messages(q) => {
                self.content = TopicContent::Messages(q);
            },
            TopicContent::Subscribers(mut subs) => {
                let ghost orig = subs_view(subs@);
                let mut kept: Vec<Subscriber> = Vec::new();
                let n = subs.len();
                let mut i: usize = 0;
                while subs.len() > 0
                    invariant
                        i <= n,
                        n == orig.len(),
                        subs_view(subs@) =~= orig.skip(i as int),
                        subs_view(kept@) =~= reaped(orig.take(i as int)),
                    decreases subs.len(),
                {
                    proof {
                        assert(orig.skip(i as int).len() > 0);
                    }
                    let ghost pre = subs@;
                    let s = subs.remove(0);
                    proof {
                        assert(subs_view(pre)[0] == s@);
                        assert(subs_view(subs@) =~= subs_view(pre).drop_first());
                        assert(orig.skip(i as int).drop_first() =~= orig.skip(i as int + 1));
                        assert(orig.take(i as int + 1).drop_last() =~= orig.take(i as int));
                        assert(orig.take(i as int + 1).last() == orig[i as int]);
                    }
                    if s.live {
                        kept.push(s);
                    }
                    i = i + 1;
                }
                proof {
                    assert(orig.take(n as int) =~= orig);
                }
                if kept.len() == 0 {
                    self.content = TopicContent::Messages(Messages::default());
                } else if kept.len() == 1 {
                    let mut s = match kept.pop() {
                        Some(s) => s,
                        None => {
                            proof {
                                assert(false);
                            }
                            Subscriber { id, live: true, messages: Messages::default() }
                        },
                    };
                    if s.id == id {
                        let q = s.take_messages();
                        self.content = TopicContent::Messages(q);
                    } else {
                        self.content = TopicContent::Messages(Messages::default());
                    }
                } else {
                    let ghost r = reaped(orig);
                    let m = kept.len();
                    let mut j: usize = 0;
                    let mut found = false;
                    while j < m && !found
                        invariant
                            j <= m,
                            m == kept.len(),
                            r == subs_view(kept@),
                            !found ==> forall|l: int| 0 <= l < j ==> r[l].id != id,
                            found ==> j < m && r[j as int].id == id && (forall|l: int|
                                0 <= l < j ==> r[l].id != id),
                        decreases m - j + (if found { 0int } else { 1int }),
                    {
                        if kept[j].id == id {
                            found = true;
                        } else {
                            j = j + 1;
                        }
                    }
                    if found {
                        proof {
                            lemma_idx_of_first(r, id, j as int);
                        }
                        let ghost pre = kept@;
                        kept.remove(j);
                        proof {
                            assert(subs_view(kept@) =~= subs_view(pre).remove(j as int));
                        }
                    } else {
                        proof {
                            lemma_idx_of_first(r, id, m as int);
                        }
                    }
                    self.content = TopicContent::Subscribers(kept);
                }
            },
        }
    }
}

/// When the first `i` entries miss the identity, `idx_of` either finds it at
/// `i` (when entry `i` carries it) or, at the end, reports -1.
pub proof fn lemma_idx_of_first(subs: Seq<SubscriberView>, id: u128, i: int)
    requires
        0 <= i <= subs.len(),
        forall|j: int| 0 <= j < i ==> subs[j].id != id,
        i < subs.len() ==> subs[i].id == id,
    ensures
        i < subs.len() ==> idx_of(subs, id) == i,
        i == subs.len() ==> idx_of(subs, id) == -1,
    decreases subs.len(),
{
    if subs.len() == 0 {
    } else if subs[0].id == id {
        assert(i == 0);
    } else {
        assert(subs.drop_first().len() == subs.len() - 1);
        lemma_idx_of_first(subs.drop_first(), id, i - 1);
    }
}


/// Law (order preservation under fan-out): a push appends the message, out
/// of compaction's reach, at the tail of every live subscriber's queue, and
/// leaves dead entries untouched — so each consumer sees a producer's
/// messages in push order.
pub proof fn lemma_fanout_appends(
    subs: Seq<SubscriberView>,
    m: Arc<QueuedMessage>,
    cfg: TopicConfig,
)
    requires
        !crate::message::compaction_on(cfg) || crate::message::key_of(m.content) is None,
    ensures
        content_pushed(ContentView::Subscribers(subs), m, cfg) matches ContentView::Subscribers(
            subs2,
        ) && subs2.len() == subs.len() && (forall|j: int|
            0 <= j < subs.len() && subs[j].live ==> subs2[j] == (SubscriberView {
                messages: subs[j].messages.push(m),
                ..subs[j]
            })) && (forall|j: int| 0 <= j < subs.len() && !subs[j].live ==> subs2[j] == subs[j]),
{
    let subs2 = subs.map_values(|s: SubscriberView| sub_pushed(s, m, cfg));
    assert forall|j: int| 0 <= j < subs.len() && subs[j].live implies subs2[j] == (SubscriberView {
        messages: subs[j].messages.push(m),
        ..subs[j]
    }) by {
        crate::message::lemma_push_appends(subs[j].messages, m, cfg);
    }
}

/// Law (no cross-subscriber leakage): polling one subscriber advances only
/// that subscriber's queue; every other entry, live or dead, stays exactly
/// as it was.
pub proof fn lemma_poll_isolates(subs: Seq<SubscriberView>, id: u128, cfg: TopicConfig, now: u64)
    ensures
        content_polled(ContentView::Subscribers(subs), id, cfg, now) matches ContentView::Subscribers(
            subs2,
        ) && subs2.len() == subs.len() && (forall|j: int|
            0 <= j < subs.len() && j != idx_of(subs, id) ==> subs2[j] == subs[j]),
{
    lemma_idx_of_bounds(subs, id);
}

/// A found position lies inside the sequence and carries the identity.
pub proof fn lemma_idx_of_bounds(subs: Seq<SubscriberView>, id: u128)
    ensures
        -1 <= idx_of(subs, id) < subs.len(),
        idx_of(subs, id) >= 0 ==> subs[idx_of(subs, id)].id == id,
    decreases subs.len(),
{
    if subs.len() > 0 && subs[0].id != id {
        lemma_idx_of_bounds(subs.drop_first(), id);
    }
}

/// Law (first-subscriber backlog transfer): attaching to a buffered topic
/// hands the whole backlog, untouched and in order, to the new subscriber.
pub proof fn lemma_backlog_transfer(q: Seq<Arc<QueuedMessage>>, id: u128)
    ensures
        content_subscribed(ContentView::Messages(q), id) == ContentView::Subscribers(
            seq![new_subscriber(id, q)],
        ),
{
}

/// Law (second-subscriber clean slate): attaching to an already fanned-out
/// topic appends an entry with an empty queue — the newcomer sees only
/// messages pushed after its attach — and leaves every existing entry alone.
pub proof fn lemma_clean_slate(subs: Seq<SubscriberView>, id: u128)
    ensures
        content_subscribed(ContentView::Subscribers(subs), id) matches ContentView::Subscribers(
            subs2,
        ) && subs2.len() == subs.len() + 1 && subs2[subs.len() as int] == new_subscriber(
            id,
            Seq::<Arc<QueuedMessage>>::empty(),
        ) && (forall|j: int| 0 <= j < subs.len() ==> subs2[j] == subs[j]),
{
}

/// A reap of entries that are all dead keeps none of them.
pub proof fn lemma_reaped_of_dead(subs: Seq<SubscriberView>)
    requires
        forall|j: int| 0 <= j < subs.len() ==> !subs[j].live,
    ensures
        reaped(subs).len() == 0,
    decreases subs.len(),
{
    if subs.len() > 0 {
        lemma_reaped_of_dead(subs.drop_last());
    }
}

/// Law (detach reaps dead entries): once every subscriber is gone, the next
/// detach call — whichever identity it names — reverts the topic to an
/// empty buffer.
pub proof fn lemma_detach_reaps(subs: Seq<SubscriberView>, id: u128)
    requires
        forall|j: int| 0 <= j < subs.len() ==> !subs[j].live,
    ensures
        content_removed(ContentView::Subscribers(subs), id) == ContentView::Messages(
            Seq::<Arc<QueuedMessage>>::empty(),
        ),
{
    lemma_reaped_of_dead(subs);
}


/// Law (retention bound, delivery level): under retention `r`, any message a
/// poll emits to any subscriber has been queued for at most `r` milliseconds.
pub proof fn lemma_poll_retention_bound(
    subs: Seq<SubscriberView>,
    id: u128,
    cfg: TopicConfig,
    now: u64,
    r: u64,
)
    requires
        cfg.retention_millis == Some(r),
    ensures
        poll_result(ContentView::Subscribers(subs), id, cfg, now) matches Some(m)
            ==> crate::message::elapsed_of(m, now) <= r,
{
    lemma_idx_of_bounds(subs, id);
    if idx_of(subs, id) >= 0 {
        crate::message::lemma_retention_bound(subs[idx_of(subs, id)].messages, cfg, now, r);
    }
}

/// Law (at-most-once, delivery level): what a poll hands a subscriber is one
/// occurrence out of that subscriber's own queue, and the queue it leaves
/// behind holds only what stood strictly after that occurrence — the same
/// occurrence can never be emitted to that subscriber again.
pub proof fn lemma_poll_consumes(subs: Seq<SubscriberView>, id: u128, cfg: TopicConfig, now: u64)
    ensures
        poll_result(ContentView::Subscribers(subs), id, cfg, now) matches Some(m) ==> ({
            let i = idx_of(subs, id);
            let q = subs[i].messages;
            let d = crate::message::drop_count(q, cfg, now);
            0 <= i < subs.len() && 0 <= d < q.len() && q[d] == m && (content_polled(
                ContentView::Subscribers(subs),
                id,
                cfg,
                now,
            ) matches ContentView::Subscribers(subs2) && subs2[i].messages == q.skip(d + 1))
        }),
{
    lemma_idx_of_bounds(subs, id);
    if idx_of(subs, id) >= 0 {
        crate::message::lemma_pop_consumes(subs[idx_of(subs, id)].messages, cfg, now);
    }
}

} // verus!
