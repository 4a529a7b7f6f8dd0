//! The registry: a name-to-topic mapping with at-most-once creation.
//!
//! Topics are created on first use — by an explicit create, by a push, or by
//! a subscribe — and never removed. Identity of names is string equality.

use vstd::prelude::*;
use std::sync::Arc;
use crate::message::{Messages, QueuedMessage};
use crate::topic::{
    content_disconnected, content_polled, content_pushed, content_removed, content_subscribed,
    poll_result, ContentView, Topic, TopicConfig, TopicView,
};

verus! {

/// Relies on uuid::Uuid::new_v4 (read back through Uuid::as_u128): a freshly
/// drawn random version-4 identity; nothing is promised of the value.
#[verifier::external_body]
fn fresh_id() -> u128 {
    uuid::Uuid::new_v4().as_u128()
}

/// The first position whose name reads `name`, or -1 when there is none.
pub open spec fn name_idx(s: Seq<(String, Topic)>, name: Seq<char>) -> int
    decreases s.len(),
{
    if s.len() == 0 {
        -1
    } else if s[0].0@ == name {
        0
    } else {
        let r = name_idx(s.drop_first(), name);
        if r < 0 {
            -1
        } else {
            r + 1
        }
    }
}

/// The topic registered under `name`, if any.
pub open spec fn lookup(s: Seq<(String, Topic)>, name: Seq<char>) -> Option<TopicView> {
    let i = name_idx(s, name);
    if i >= 0 {
        Some(s[i].1@)
    } else {
        None
    }
}

/// A found position lies inside the sequence and carries the name.
pub proof fn lemma_name_idx_bounds(s: Seq<(String, Topic)>, name: Seq<char>)
    ensures
        -1 <= name_idx(s, name) < s.len(),
        name_idx(s, name) >= 0 ==> s[name_idx(s, name)].0@ == name,
        name_idx(s, name) >= 0 ==> forall|j: int|
            0 <= j < name_idx(s, name) ==> s[j].0@ != name,
        name_idx(s, name) == -1 ==> forall|j: int| 0 <= j < s.len() ==> s[j].0@ != name,
    decreases s.len(),
{
    if s.len() > 0 && s[0].0@ != name {
        lemma_name_idx_bounds(s.drop_first(), name);
        if name_idx(s, name) >= 0 {
            assert forall|j: int| 0 <= j < name_idx(s, name) implies s[j].0@ != name by {
                if j > 0 {
                    assert(s.drop_first()[j - 1] == s[j]);
                }
            }
        } else {
            assert forall|j: int| 0 <= j < s.len() implies s[j].0@ != name by {
                if j > 0 {
                    assert(s.drop_first()[j - 1] == s[j]);
                }
            }
        }
    }
}

/// When the first `i` entries miss the name, `name_idx` either finds it at
/// `i` (when entry `i` carries it) or, at the end, reports -1.
pub proof fn lemma_name_idx_first(s: Seq<(String, Topic)>, name: Seq<char>, i: int)
    requires
        0 <= i <= s.len(),
        forall|j: int| 0 <= j < i ==> s[j].0@ != name,
        i < s.len() ==> s[i].0@ == name,
    ensures
        i < s.len() ==> name_idx(s, name) == i,
        i == s.len() ==> name_idx(s, name) == -1,
    decreases s.len(),
{
    if s.len() == 0 {
    } else if s[0].0@ == name {
        assert(i == 0);
    } else {
        lemma_name_idx_first(s.drop_first(), name, i - 1);
    }
}

/// `name_idx` reads names only: replacing the topic at a position moves no
/// name and so moves no lookup position.
pub proof fn lemma_name_idx_names_only(s1: Seq<(String, Topic)>, s2: Seq<(String, Topic)>, name: Seq<char>)
    requires
        s1.len() == s2.len(),
        forall|j: int| 0 <= j < s1.len() ==> s1[j].0@ == s2[j].0@,
    ensures
        name_idx(s1, name) == name_idx(s2, name),
    decreases s1.len(),
{
    if s1.len() > 0 {
        assert(s1.drop_first().len() == s2.drop_first().len());
        assert forall|j: int| 0 <= j < s1.drop_first().len() implies s1.drop_first()[j].0@
            == s2.drop_first()[j].0@ by {
            assert(s1.drop_first()[j] == s1[j + 1]);
            assert(s2.drop_first()[j] == s2[j + 1]);
        }
        lemma_name_idx_names_only(s1.drop_first(), s2.drop_first(), name);
    }
}

/// Replacing the topic stored at the looked-up position changes that name's
/// lookup to the new topic and no other name's lookup at all.
pub proof fn lemma_lookup_update(s: Seq<(String, Topic)>, i: int, t: Topic, n: Seq<char>)
    requires
        0 <= i < s.len(),
        name_idx(s, s[i].0@) == i,
    ensures
        lookup(s.update(i, (s[i].0, t)), n) == (if n == s[i].0@ {
            Some(t@)
        } else {
            lookup(s, n)
        }),
{
    let s2 = s.update(i, (s[i].0, t));
    lemma_name_idx_names_only(s, s2, n);
    lemma_name_idx_bounds(s, n);
}

/// Appending a fresh pair changes only the lookup of names that were absent
/// and read as the new pair's name.
pub proof fn lemma_lookup_push(s: Seq<(String, Topic)>, p: (String, Topic), n: Seq<char>)
    ensures
        name_idx(s, n) >= 0 ==> lookup(s.push(p), n) == lookup(s, n),
        name_idx(s, n) < 0 && p.0@ == n ==> lookup(s.push(p), n) == Some(p.1@),
        name_idx(s, n) < 0 && p.0@ != n ==> lookup(s.push(p), n) is None,
    decreases s.len(),
{
    lemma_name_idx_bounds(s, n);
    lemma_name_idx_bounds(s.push(p), n);
    if s.len() == 0 {
    } else {
        assert(s.push(p).drop_first() =~= s.drop_first().push(p));
        lemma_lookup_push(s.drop_first(), p, n);
    }
}

/// The name-to-topic mapping. Insertion order is irrelevant to callers:
/// every contract speaks through `lookup`.
pub struct Registry {
    pub topics: Vec<(String, Topic)>,
}

impl Registry {
    /// An empty registry.
    pub fn new() -> (r: Self)
        ensures
            r.topics@ == Seq::<(String, Topic)>::empty(),
    {
        let v: Vec<(String, Topic)> = Vec::new();
        Registry { topics: v }
    }

    /// The position of the topic registered under `name`, if any.
    fn find(&self, name: &String) -> (r: Option<usize>)
        ensures
            match r {
                Some(i) => i < self.topics.len() && name_idx(self.topics@, name@) == i as int,
                None => name_idx(self.topics@, name@) == -1,
            },
    {
        let n = self.topics.len();
        let mut j: usize = 0;
        let mut found = false;
        while j < n && !found
            invariant
                j <= n,
                n == self.topics.len(),
                !found ==> forall|l: int| 0 <= l < j ==> self.topics@[l].0@ != name@,
                found ==> j < n && self.topics@[j as int].0@ == name@ && (forall|l: int|
                    0 <= l < j ==> self.topics@[l].0@ != name@),
            decreases n - j + (if found { 0int } else { 1int }),
        {
            if self.topics[j].0 == *name {
                found = true;
            } else {
                j = j + 1;
            }
        }
        if found {
            proof {
                lemma_name_idx_first(self.topics@, name@, j as int);
            }
            Some(j)
        } else {
            proof {
                lemma_name_idx_first(self.topics@, name@, n as int);
            }
            None
        }
    }

    /// Create the topic when absent; report whether it was created. An
    /// existing topic is left untouched.
    pub fn create_topic(&mut self, name: String) -> (created: bool)
        ensures
            created == (lookup(old(self).topics@, name@) is None),
            !created ==> final(self).topics@ == old(self).topics@,
            created ==> lookup(final(self).topics@, name@) == Some(TopicView {
                content: ContentView::Messages(Seq::<Arc<QueuedMessage>>::empty()),
                config: TopicConfig { retention_millis: None, compaction: None },
            }),
            forall|n: Seq<char>| n != name@ ==> lookup(final(self).topics@, n) == lookup(
                old(self).topics@,
                n,
            ),
    {
        proof {
            lemma_name_idx_bounds(self.topics@, name@);
        }
        match self.find(&name) {
            Some(_) => false,
            None => {
                let ghost pre = self.topics@;
                let ghost nview = name@;
                let t = Topic::default();
                let ghost tview = t@;
                self.topics.push((name, t));
                proof {
                    let p = self.topics@.last();
                    assert(self.topics@.drop_last() =~= pre);
                    assert(self.topics@ =~= pre.push(p));
                    assert forall|n: Seq<char>| true implies lookup(self.topics@, n) == (
                    if n == nview {
                        Some(tview)
                    } else {
                        lookup(pre, n)
                    }) by {
                        lemma_lookup_push(pre, p, n);
                        lemma_name_idx_bounds(pre, n);
                    }
                }
                true
            },
        }
    }

    /// Push a message to the named topic, creating the topic around the
    /// message when absent; report whether it was newly created.
    pub fn push_message(&mut self, name: String, message: Arc<QueuedMessage>) -> (created: bool)
        ensures
            created == (lookup(old(self).topics@, name@) is None),
            created ==> lookup(final(self).topics@, name@) == Some(TopicView {
                content: ContentView::Messages(seq![message]),
                config: TopicConfig { retention_millis: None, compaction: None },
            }),
            !created ==> (lookup(old(self).topics@, name@) matches Some(t) && lookup(
                final(self).topics@,
                name@,
            ) == Some(TopicView {
                content: content_pushed(t.content, message, t.config),
                ..t
            })),
            forall|n: Seq<char>| n != name@ ==> lookup(final(self).topics@, n) == lookup(
                old(self).topics@,
                n,
            ),
    {
        proof {
            lemma_name_idx_bounds(self.topics@, name@);
        }
        match self.find(&name) {
            Some(i) => {
                let ghost pre = self.topics@;
                let (nm, mut t) = self.topics.remove(i);
                t.push(message);
                self.topics.insert(i, (nm, t));
                proof {
                    assert(self.topics@ =~= pre.update(i as int, (pre[i as int].0, self.topics@[i as int].1)));
                    lemma_lookup_update(pre, i as int, self.topics@[i as int].1, name@);
                    assert forall|n: Seq<char>| n != name@ implies lookup(self.topics@, n)
                        == lookup(pre, n) by {
                        lemma_lookup_update(pre, i as int, self.topics@[i as int].1, n);
                    }
                }
                false
            },
            None => {
                let ghost pre = self.topics@;
                let ghost nview = name@;
                let ghost m0 = message;
                let t = Topic {
                    content: crate::topic::TopicContent::Messages(Messages::new(message)),
                    config: TopicConfig::default(),
                };
                let ghost tview = t@;
                self.topics.push((name, t));
                proof {
                    let p = self.topics@.last();
                    assert(self.topics@.drop_last() =~= pre);
                    assert(self.topics@ =~= pre.push(p));
                    assert forall|n: Seq<char>| true implies lookup(self.topics@, n) == (
                    if n == nview {
                        Some(tview)
                    } else {
                        lookup(pre, n)
                    }) by {
                        lemma_lookup_push(pre, p, n);
                        lemma_name_idx_bounds(pre, n);
                    }
                }
                true
            },
        }
    }

    /// Attach a fresh subscriber to the named topic, creating the topic when
    /// absent, and return the subscriber's identity.
    pub fn subscribe(&mut self, name: String) -> (id: u128)
        ensures
            lookup(old(self).topics@, name@) matches Some(t) ==> lookup(
                final(self).topics@,
                name@,
            ) == Some(TopicView { content: content_subscribed(t.content, id), ..t }),
            lookup(old(self).topics@, name@) is None ==> lookup(final(self).topics@, name@)
                == Some(TopicView {
                content: content_subscribed(
                    ContentView::Messages(Seq::<Arc<QueuedMessage>>::empty()),
                    id,
                ),
                config: TopicConfig { retention_millis: None, compaction: None },
            }),
            forall|n: Seq<char>| n != name@ ==> lookup(final(self).topics@, n) == lookup(
                old(self).topics@,
                n,
            ),
    {
        let id = fresh_id();
        self.subscribe_with_id(name, id);
        id
    }

    /// Attach a subscriber with a caller-chosen identity to the named topic,
    /// creating the topic when absent.
    pub fn subscribe_with_id(&mut self, name: String, id: u128)
        ensures
            lookup(old(self).topics@, name@) matches Some(t) ==> lookup(
                final(self).topics@,
                name@,
            ) == Some(TopicView { content: content_subscribed(t.content, id), ..t }),
            lookup(old(self).topics@, name@) is None ==> lookup(final(self).topics@, name@)
                == Some(TopicView {
                content: content_subscribed(
                    ContentView::Messages(Seq::<Arc<QueuedMessage>>::empty()),
                    id,
                ),
                config: TopicConfig { retention_millis: None, compaction: None },
            }),
            forall|n: Seq<char>| n != name@ ==> lookup(final(self).topics@, n) == lookup(
                old(self).topics@,
                n,
            ),
    {
        let nm = name.clone();
        self.create_topic(nm);
        proof {
            lemma_name_idx_bounds(self.topics@, name@);
        }
        match self.find(&name) {
            Some(i) => {
                let ghost pre = self.topics@;
                proof {
                    lemma_name_idx_bounds(pre, name@);
                    assert(pre[i as int].0@ == name@);
                }
                let (nm2, mut t) = self.topics.remove(i);
                t.add_subscriber(id);
                self.topics.insert(i, (nm2, t));
                proof {
                    assert(self.topics@ =~= pre.update(
                        i as int,
                        (pre[i as int].0, self.topics@[i as int].1),
                    ));
                    lemma_lookup_update(pre, i as int, self.topics@[i as int].1, name@);
                    assert forall|n: Seq<char>| n != name@ implies lookup(self.topics@, n)
                        == lookup(pre, n) by {
                        lemma_lookup_update(pre, i as int, self.topics@[i as int].1, n);
                    }
                }
            },
            None => {
                proof {
                    assert(false);
                }
            },
        }
    }

    /// Poll the named topic for the given subscriber; yields nothing for an
    /// unknown topic, a buffered topic, or an unknown identity.
    pub fn poll_message(&mut self, name: &String, id: u128, now: u64) -> (r: Option<
        Arc<QueuedMessage>,
    >)
        ensures
            lookup(old(self).topics@, name@) is None ==> r is None && final(self).topics@ == old(
                self,
            ).topics@,
            lookup(old(self).topics@, name@) matches Some(t) ==> r == poll_result(
                t.content,
                id,
                t.config,
                now,
            ) && lookup(final(self).topics@, name@) == Some(TopicView {
                content: content_polled(t.content, id, t.config, now),
                ..t
            }),
            forall|n: Seq<char>| n != name@ ==> lookup(final(self).topics@, n) == lookup(
                old(self).topics@,
                n,
            ),
    {
        proof {
            lemma_name_idx_bounds(self.topics@, name@);
        }
        match self.find(name) {
            None => None,
            Some(i) => {
                let ghost pre = self.topics@;
                let (nm, mut t) = self.topics.remove(i);
                let r = t.poll_message(id, now);
                self.topics.insert(i, (nm, t));
                proof {
                    assert(self.topics@ =~= pre.update(i as int, (pre[i as int].0, self.topics@[i as int].1)));
                    lemma_lookup_update(pre, i as int, self.topics@[i as int].1, name@);
                    assert forall|n: Seq<char>| n != name@ implies lookup(self.topics@, n)
                        == lookup(pre, n) by {
                        lemma_lookup_update(pre, i as int, self.topics@[i as int].1, n);
                    }
                }
                r
            },
        }
    }

    /// Detach the given subscriber from the named topic; a no-op for an
    /// unknown topic.
    pub fn remove_subscriber(&mut self, name: &String, id: u128)
        ensures
            lookup(old(self).topics@, name@) is None ==> final(self).topics@ == old(self).topics@,
            lookup(old(self).topics@, name@) matches Some(t) ==> lookup(
                final(self).topics@,
                name@,
            ) == Some(TopicView { content: content_removed(t.content, id), ..t }),
            forall|n: Seq<char>| n != name@ ==> lookup(final(self).topics@, n) == lookup(
                old(self).topics@,
                n,
            ),
    {
        proof {
            lemma_name_idx_bounds(self.topics@, name@);
        }
        match self.find(name) {
            None => {},
            Some(i) => {
                let ghost pre = self.topics@;
                let (nm, mut t) = self.topics.remove(i);
                t.remove_subscriber(id);
                self.topics.insert(i, (nm, t));
                proof {
                    assert(self.topics@ =~= pre.update(i as int, (pre[i as int].0, self.topics@[i as int].1)));
                    lemma_lookup_update(pre, i as int, self.topics@[i as int].1, name@);
                    assert forall|n: Seq<char>| n != name@ implies lookup(self.topics@, n)
                        == lookup(pre, n) by {
                        lemma_lookup_update(pre, i as int, self.topics@[i as int].1, n);
                    }
                }
            },
        }
    }

    /// Mark the given subscriber of the named topic dead — its consumer is
    /// gone — so that the next detach reaps it; a no-op for an unknown topic.
    pub fn mark_disconnected(&mut self, name: &String, id: u128)
        ensures
            lookup(old(self).topics@, name@) is None ==> final(self).topics@ == old(self).topics@,
            lookup(old(self).topics@, name@) matches Some(t) ==> lookup(
                final(self).topics@,
                name@,
            ) == Some(TopicView { content: content_disconnected(t.content, id), ..t }),
            forall|n: Seq<char>| n != name@ ==> lookup(final(self).topics@, n) == lookup(
                old(self).topics@,
                n,
            ),
    {
        proof {
            lemma_name_idx_bounds(self.topics@, name@);
        }
        match self.find(name) {
            None => {},
            Some(i) => {
                let ghost pre = self.topics@;
                let (nm, mut t) = self.topics.remove(i);
                t.mark_disconnected(id);
                self.topics.insert(i, (nm, t));
                proof {
                    assert(self.topics@ =~= pre.update(i as int, (pre[i as int].0, self.topics@[i as int].1)));
                    lemma_lookup_update(pre, i as int, self.topics@[i as int].1, name@);
                    assert forall|n: Seq<char>| n != name@ implies lookup(self.topics@, n)
                        == lookup(pre, n) by {
                        lemma_lookup_update(pre, i as int, self.topics@[i as int].1, n);
                    }
                }
            },
        }
    }
}

} // verus!
