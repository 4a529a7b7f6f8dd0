//! Messages and the ordered queue that stores them.
//!
//! A queue keeps shared references to queued messages in arrival order.
//! Compaction (when enabled) runs on push: every older message carrying the
//! same key is removed before the new one is appended. Retention runs on pop:
//! heads older than the configured age are silently discarded until a fresh
//! message (or the empty queue) is found.

use vstd::prelude::*;
use std::sync::Arc;
use crate::topic::TopicConfig;

verus! {

/// An immutable payload: optional JSON data plus an optional compaction key.
pub struct Message {
    pub data: Option<serde_json::Value>,
    pub key: Option<String>,
}

/// A message together with the moment (in milliseconds) it was enqueued.
pub struct QueuedMessage {
    pub content: Message,
    pub created_at: u64,
}

impl QueuedMessage {
    pub fn new(content: Message, now: u64) -> (r: Arc<QueuedMessage>)
        ensures
            r.content == content,
            r.created_at == now,
    {
        Arc::new(QueuedMessage { content, created_at: now })
    }

    pub fn content(&self) -> (r: &Message)
        ensures
            *r == self.content,
    {
        &self.content
    }
}

/// Relies on std::sync::Arc::clone: the result is a handle to the same
/// queued message, used when one message is fanned out to many queues.
#[verifier::external_body]
pub(crate) fn share(m: &Arc<QueuedMessage>) -> (r: Arc<QueuedMessage>)
    ensures
        r == *m,
{
    Arc::clone(m)
}

/// The compaction key of a message, as a sequence of characters.
pub open spec fn key_of(m: Message) -> Option<Seq<char>> {
    match m.key {
        Some(k) => Some(k@),
        None => None,
    }
}

/// Whether the configuration switches compaction on.
pub open spec fn compaction_on(cfg: TopicConfig) -> bool {
    cfg.compaction == Some(true)
}

/// The queue with every message keyed `k` removed, other messages kept in order.
pub open spec fn compact_away(s: Seq<Arc<QueuedMessage>>, k: Seq<char>) -> Seq<Arc<QueuedMessage>>
    decreases s.len(),
{
    if s.len() == 0 {
        s
    } else {
        let rest = compact_away(s.drop_last(), k);
        if key_of(s.last().content) == Some(k) {
            rest
        } else {
            rest.push(s.last())
        }
    }
}

/// The queue after pushing `m` under `cfg`: compaction first (when enabled
/// and `m` carries a key), then an append at the tail.
pub open spec fn pushed(
    s: Seq<Arc<QueuedMessage>>,
    m: Arc<QueuedMessage>,
    cfg: TopicConfig,
) -> Seq<Arc<QueuedMessage>> {
    match key_of(m.content) {
        Some(k) => if compaction_on(cfg) {
            compact_away(s, k).push(m)
        } else {
            s.push(m)
        },
        None => s.push(m),
    }
}

/// How many milliseconds `m` has been queued at instant `now`.
pub open spec fn elapsed_of(m: Arc<QueuedMessage>, now: u64) -> int {
    if now >= m.created_at {
        now - m.created_at
    } else {
        0
    }
}

/// Whether `m` has outlived the configured retention at instant `now`.
pub open spec fn expired(m: Arc<QueuedMessage>, cfg: TopicConfig, now: u64) -> bool {
    match cfg.retention_millis {
        Some(r) => elapsed_of(m, now) > r,
        None => false,
    }
}

/// The message a pop returns: the first head that has not expired.
pub open spec fn popped(
    s: Seq<Arc<QueuedMessage>>,
    cfg: TopicConfig,
    now: u64,
) -> Option<Arc<QueuedMessage>>
    decreases s.len(),
{
    if s.len() == 0 {
        None
    } else if expired(s[0], cfg, now) {
        popped(s.drop_first(), cfg, now)
    } else {
        Some(s[0])
    }
}

/// The queue left behind by a pop: expired heads and the returned message
/// are gone, everything after the returned message stays.
pub open spec fn remaining(
    s: Seq<Arc<QueuedMessage>>,
    cfg: TopicConfig,
    now: u64,
) -> Seq<Arc<QueuedMessage>>
    decreases s.len(),
{
    if s.len() == 0 {
        s
    } else if expired(s[0], cfg, now) {
        remaining(s.drop_first(), cfg, now)
    } else {
        s.drop_first()
    }
}

/// An ordered buffer of shared message references; insertion order is
/// delivery order.
pub struct Messages(pub Vec<Arc<QueuedMessage>>);

impl View for Messages {
    type V = Seq<Arc<QueuedMessage>>;

    open spec fn view(&self) -> Seq<Arc<QueuedMessage>> {
        self.0@
    }
}

impl Default for Messages {
    fn default() -> (r: Self)
        ensures
            r@ == Seq::<Arc<QueuedMessage>>::empty(),
    {
        Messages(Vec::new())
    }
}

impl Messages {
    /// A queue holding exactly one message.
    pub fn new(message: Arc<QueuedMessage>) -> (r: Self)
        ensures
            r@ == seq![message],
    {
        let ghost m0 = message;
        let mut v: Vec<Arc<QueuedMessage>> = Vec::new();
        v.push(message);
        proof {
            assert(v@ =~= seq![m0]);
        }
        Messages(v)
    }

    /// Push under the given configuration: when compaction is on and the
    /// message carries a key, every queued message with that key is removed
    /// first; the new message always lands at the tail.
    pub fn push_back(&mut self, message: Arc<QueuedMessage>, config: &TopicConfig)
        ensures
            final(self)@ == pushed(old(self)@, message, *config),
    {
        let compacting = match config.compaction {
            Some(c) => c,
            None => false,
        };
        if compacting {
            if let Some(k) = &message.content.key {
                let ghost orig = self.0@;
                let ghost kseq = k@;
                let n = self.0.len();
                proof {
                    assert(orig.len() == n);
                }
                let mut kept: Vec<Arc<QueuedMessage>> = Vec::new();
                let mut i: usize = 0;
                while self.0.len() > 0
                    invariant
                        i <= orig.len(),
                        orig.len() <= usize::MAX,
                        orig == old(self)@,
                        self.0@ == orig.skip(i as int),
                        kept@ == compact_away(orig.take(i as int), kseq),
                        kseq == k@,
                        key_of(message.content) == Some(kseq),
                        compaction_on(*config),
                    decreases self.0.len(),
                {
                    proof {
                        assert(orig.skip(i as int).len() > 0);
                    }
                    let m = self.0.remove(0);
                    let keep = match &m.content.key {
                        Some(k2) => !(*k2 == *k),
                        None => true,
                    };
                    proof {
                        assert(m == orig[i as int]);
                        assert(orig.skip(i as int).drop_first() =~= orig.skip(i as int + 1));
                        assert(self.0@ =~= orig.skip(i as int).drop_first());
                        assert(orig.take(i as int + 1).drop_last() =~= orig.take(i as int));
                        assert(orig.take(i as int + 1).last() == orig[i as int]);
                    }
                    proof {
                        assert(keep == (key_of(orig[i as int].content) != Some(kseq)));
                    }
                    if keep {
                        kept.push(m);
                    }
                    i = i + 1;
                }
                proof {
                    assert(orig.take(orig.len() as int) =~= orig);
                }
                self.0 = kept;
            }
        }
        self.0.push(message);
    }

    /// Pop under the given configuration and the current instant: expired
    /// heads are discarded; the first live head is transferred out.
    pub fn pop_front(&mut self, config: &TopicConfig, now: u64) -> (r: Option<Arc<QueuedMessage>>)
        ensures
            r == popped(old(self)@, *config, now),
            final(self)@ == remaining(old(self)@, *config, now),
    {
        let ghost orig = self.0@;
        loop
            invariant
                orig == old(self)@,
                popped(orig, *config, now) == popped(self.0@, *config, now),
                remaining(orig, *config, now) == remaining(self.0@, *config, now),
            decreases self.0.len(),
        {
            if self.0.len() == 0 {
                return None;
            }
            let ghost pre = self.0@;
            let m = self.0.remove(0);
            proof {
                assert(m == pre[0]);
                assert(self.0@ =~= pre.drop_first());
            }
            let keep = match config.retention_millis {
                Some(r) => {
                    let e = if now >= m.created_at {
                        now - m.created_at
                    } else {
                        0
                    };
                    e <= r
                }
                None => true,
            };
            proof {
                assert(keep == !expired(m, *config, now));
            }
            if keep {
                return Some(m);
            }
        }
    }
}


/// Law: when compaction cannot act — it is off, or the message carries no
/// key — a push is a plain append at the tail.
pub proof fn lemma_push_appends(s: Seq<Arc<QueuedMessage>>, m: Arc<QueuedMessage>, cfg: TopicConfig)
    requires
        !compaction_on(cfg) || key_of(m.content) is None,
    ensures
        pushed(s, m, cfg) == s.push(m),
{
}

/// Law (order preservation): two messages pushed in turn, out of compaction's
/// reach, stand in the queue in push order, after whatever was already there.
pub proof fn lemma_order_preservation(
    s: Seq<Arc<QueuedMessage>>,
    m1: Arc<QueuedMessage>,
    m2: Arc<QueuedMessage>,
    cfg: TopicConfig,
)
    requires
        !compaction_on(cfg) || (key_of(m1.content) is None && key_of(m2.content) is None),
    ensures
        pushed(pushed(s, m1, cfg), m2, cfg) == s.push(m1).push(m2),
{
}

/// Law (order preservation, pop side): with retention off a pop is plain
/// first-in-first-out.
pub proof fn lemma_pop_fifo(s: Seq<Arc<QueuedMessage>>, cfg: TopicConfig, now: u64)
    requires
        cfg.retention_millis is None,
    ensures
        s.len() > 0 ==> popped(s, cfg, now) == Some(s[0]),
        s.len() > 0 ==> remaining(s, cfg, now) == s.drop_first(),
        s.len() == 0 ==> popped(s, cfg, now) is None,
{
}

/// How many expired heads a pop at `now` discards before it answers.
pub open spec fn drop_count(s: Seq<Arc<QueuedMessage>>, cfg: TopicConfig, now: u64) -> int
    decreases s.len(),
{
    if s.len() == 0 {
        0
    } else if expired(s[0], cfg, now) {
        1 + drop_count(s.drop_first(), cfg, now)
    } else {
        0
    }
}

/// Law (at-most-once): a pop that returns a message consumes that occurrence:
/// what it returns is the queue's entry at the position it reached, and the
/// queue left behind is what stood strictly after that position — so no later
/// pop can hand the same occurrence out again. A pop that returns nothing
/// leaves the queue empty.
pub proof fn lemma_pop_consumes(s: Seq<Arc<QueuedMessage>>, cfg: TopicConfig, now: u64)
    ensures
        popped(s, cfg, now) is None ==> remaining(s, cfg, now).len() == 0,
        popped(s, cfg, now) matches Some(m) ==> ({
            let i = drop_count(s, cfg, now);
            0 <= i < s.len() && s[i] == m && remaining(s, cfg, now) == s.skip(i + 1) && (forall|
                j: int,
            |
                0 <= j < i ==> expired(s[j], cfg, now))
        }),
    decreases s.len(),
{
    if s.len() == 0 {
    } else if expired(s[0], cfg, now) {
        let sub = s.drop_first();
        lemma_pop_consumes(sub, cfg, now);
        if popped(s, cfg, now) is Some {
            let i = drop_count(s, cfg, now);
            let i0 = drop_count(sub, cfg, now);
            assert(i == 1 + i0);
            assert(sub[i0] == s[i0 + 1]);
            assert(s.skip(i + 1) =~= sub.skip(i0 + 1));
            assert forall|j: int| 0 <= j < i implies expired(s[j], cfg, now) by {
                if j > 0 {
                    assert(expired(sub[j - 1], cfg, now));
                    assert(sub[j - 1] == s[j]);
                }
            }
        }
    } else {
        assert(s.drop_first() =~= s.skip(1));
    }
}

/// Law (retention bound): under retention `r`, any message a pop emits has
/// been queued for at most `r` milliseconds.
pub proof fn lemma_retention_bound(s: Seq<Arc<QueuedMessage>>, cfg: TopicConfig, now: u64, r: u64)
    requires
        cfg.retention_millis == Some(r),
    ensures
        popped(s, cfg, now) matches Some(m) ==> elapsed_of(m, now) <= r,
    decreases s.len(),
{
    if s.len() > 0 && expired(s[0], cfg, now) {
        lemma_retention_bound(s.drop_first(), cfg, now, r);
    }
}

/// The messages in `s` that carry key `k`, in order.
pub open spec fn with_key(s: Seq<Arc<QueuedMessage>>, k: Seq<char>) -> Seq<Arc<QueuedMessage>>
    decreases s.len(),
{
    if s.len() == 0 {
        s
    } else {
        let rest = with_key(s.drop_last(), k);
        if key_of(s.last().content) == Some(k) {
            rest.push(s.last())
        } else {
            rest
        }
    }
}

/// Compacting a key away leaves no message with that key behind.
pub proof fn lemma_compact_away_removes_key(s: Seq<Arc<QueuedMessage>>, k: Seq<char>)
    ensures
        with_key(compact_away(s, k), k) == Seq::<Arc<QueuedMessage>>::empty(),
    decreases s.len(),
{
    if s.len() == 0 {
    } else {
        lemma_compact_away_removes_key(s.drop_last(), k);
        let x = compact_away(s.drop_last(), k);
        assert(x.push(s.last()).drop_last() =~= x);
        assert(x.push(s.last()).last() == s.last());
    }
}

/// Law (compaction): after pushing a keyed message under compaction, the
/// queue holds exactly one message with that key — the one just pushed. The
/// older values for the key are gone for good.
pub proof fn lemma_compaction_latest_wins(
    s: Seq<Arc<QueuedMessage>>,
    m: Arc<QueuedMessage>,
    cfg: TopicConfig,
    k: Seq<char>,
)
    requires
        compaction_on(cfg),
        key_of(m.content) == Some(k),
    ensures
        with_key(pushed(s, m, cfg), k) == seq![m],
{
    lemma_compact_away_removes_key(s, k);
    let x = compact_away(s, k);
    assert(x.push(m).drop_last() =~= x);
    assert(x.push(m).last() == m);
    assert(with_key(x.push(m), k) =~= seq![m]);
}

/// A pop never grows the queue; it strictly shrinks a non-empty one.
pub proof fn lemma_remaining_shorter(s: Seq<Arc<QueuedMessage>>, cfg: TopicConfig, now: u64)
    ensures
        remaining(s, cfg, now).len() <= s.len(),
        s.len() > 0 ==> remaining(s, cfg, now).len() < s.len(),
    decreases s.len(),
{
    if s.len() > 0 && expired(s[0], cfg, now) {
        lemma_remaining_shorter(s.drop_first(), cfg, now);
    }
}

/// Everything a queue emits when popped until empty, in emission order.
pub open spec fn drained(s: Seq<Arc<QueuedMessage>>, cfg: TopicConfig, now: u64) -> Seq<
    Arc<QueuedMessage>,
>
    decreases s.len(),
    via drained_decreases
{
    match popped(s, cfg, now) {
        None => Seq::<Arc<QueuedMessage>>::empty(),
        Some(m) => seq![m] + drained(remaining(s, cfg, now), cfg, now),
    }
}

#[via_fn]
proof fn drained_decreases(s: Seq<Arc<QueuedMessage>>, cfg: TopicConfig, now: u64) {
    lemma_remaining_shorter(s, cfg, now);
}

/// Law (backlog delivery): with retention off, draining a queue yields
/// exactly its contents, in order — so a subscriber that inherited a backlog
/// of `n` messages receives precisely those `n` messages, first to last.
pub proof fn lemma_drain_in_order(s: Seq<Arc<QueuedMessage>>, cfg: TopicConfig, now: u64)
    requires
        cfg.retention_millis is None,
    ensures
        drained(s, cfg, now) == s,
    decreases s.len(),
{
    lemma_remaining_shorter(s, cfg, now);
    if s.len() == 0 {
        assert(drained(s, cfg, now) =~= s);
    } else {
        lemma_pop_fifo(s, cfg, now);
        lemma_drain_in_order(s.drop_first(), cfg, now);
        assert(drained(s, cfg, now) =~= s);
    }
}

} // verus!
