use vstd::prelude::*;

use crate::text::{owned, same_text};

verus! {

#[verifier::external_type_specification]
#[verifier::external_body]
#[verifier::reject_recursive_types(T)]
pub struct ExUnboundedSender<T>(tokio::sync::mpsc::UnboundedSender<T>);

#[verifier::external_type_specification]
#[verifier::external_body]
#[verifier::reject_recursive_types(T)]
pub struct ExUnboundedReceiver<T>(tokio::sync::mpsc::UnboundedReceiver<T>);

/// Relies on `tokio::sync::mpsc::unbounded_channel`: a connected sender and receiver.
#[verifier::external_body]
fn open_channel() -> (r: (
    tokio::sync::mpsc::UnboundedSender<String>,
    tokio::sync::mpsc::UnboundedReceiver<String>,
)) {
    tokio::sync::mpsc::unbounded_channel()
}

/// Relies on `UnboundedSender::send`: whether the message was queued, which fails once the
/// receiver is gone. Nothing is promised of the outcome.
#[verifier::external_body]
fn send_text(tx: &tokio::sync::mpsc::UnboundedSender<String>, payload: String) -> (r: bool) {
    tx.send(payload).is_ok()
}

/// The number of subscribers of topic `t` among `subs`, whose topics are distinct.
pub open spec fn count_in<S>(subs: Seq<(String, Vec<S>)>, t: Seq<char>) -> nat
    decreases subs.len(),
{
    if subs.len() == 0 {
        0
    } else if subs.last().0@ == t {
        subs.last().1@.len()
    } else {
        count_in(subs.drop_last(), t)
    }
}

pub open spec fn topics_distinct<S>(subs: Seq<(String, Vec<S>)>) -> bool {
    forall|i: int, j: int| 0 <= i < j < subs.len() ==> subs[i].0@ != subs[j].0@
}

proof fn lemma_count_absent<S>(subs: Seq<(String, Vec<S>)>, t: Seq<char>)
    requires
        forall|i: int| 0 <= i < subs.len() ==> subs[i].0@ != t,
    ensures
        count_in(subs, t) == 0,
    decreases subs.len(),
{
    if subs.len() > 0 {
        lemma_count_absent(subs.drop_last(), t);
    }
}

/// Replacing the list of the entry at `i` changes the count of its topic alone.
proof fn lemma_count_update<S>(subs: Seq<(String, Vec<S>)>, i: int, list: Vec<S>, t: Seq<char>)
    requires
        topics_distinct(subs),
        0 <= i < subs.len(),
    ensures
        count_in(subs.update(i, (subs[i].0, list)), t) == (if subs[i].0@ == t {
            list@.len()
        } else {
            count_in(subs, t)
        }),
    decreases subs.len(),
{
    let new = subs.update(i, (subs[i].0, list));
    if i == subs.len() - 1 {
        assert(new.drop_last() =~= subs.drop_last());
    } else {
        assert(new.drop_last() =~= subs.drop_last().update(i, (subs[i].0, list)));
        assert(new.last() == subs.last());
        lemma_count_update(subs.drop_last(), i, list, t);
        if subs[i].0@ == t {
            assert(subs.last().0@ != t);
        }
    }
}

/// A small event bus inside the host: each topic has the senders of its subscribers, and a
/// message on a topic goes to each of them.
pub struct EventBus {
    subscribers: Vec<(String, Vec<tokio::sync::mpsc::UnboundedSender<String>>)>,
}

impl EventBus {
    /// Each topic is held once.
    pub closed spec fn wf(&self) -> bool {
        topics_distinct(self.subscribers@)
    }

    /// The number of subscribers of `topic`.
    pub closed spec fn count(&self, topic: Seq<char>) -> nat {
        count_in(self.subscribers@, topic)
    }

    /// No topics, no subscribers.
    pub fn new() -> (r: Self)
        ensures
            r.wf(),
            forall|t: Seq<char>| r.count(t) == 0,
    {
        EventBus { subscribers: Vec::new() }
    }

    fn find(&self, topic: &str) -> (r: Option<usize>)
        requires
            self.wf(),
        ensures
            match r {
                Some(i) => i < self.subscribers@.len() && self.subscribers@[i as int].0@ == topic@,
                None => forall|j: int|
                    0 <= j < self.subscribers@.len() ==> self.subscribers@[j].0@ != topic@,
            },
    {
        let mut i: usize = 0;
        while i < self.subscribers.len()
            invariant
                i <= self.subscribers@.len(),
                forall|j: int| 0 <= j < i ==> self.subscribers@[j].0@ != topic@,
            decreases self.subscribers.len() - i,
        {
            if same_text(self.subscribers[i].0.as_str(), topic) {
                return Some(i);
            }
            i = i + 1;
        }
        None
    }

    /// Puts `list` in place of the senders of the topic at `i`.
    fn replace_list(
        &mut self,
        i: usize,
        list: Vec<tokio::sync::mpsc::UnboundedSender<String>>,
    ) -> (r: Vec<tokio::sync::mpsc::UnboundedSender<String>>)
        requires
            old(self).wf(),
            i < old(self).subscribers@.len(),
        ensures
            final(self).wf(),
            r == old(self).subscribers@[i as int].1,
            final(self).subscribers@ == old(self).subscribers@.update(
                i as int,
                (old(self).subscribers@[i as int].0, list),
            ),
    {
        let (topic, prev) = self.subscribers.remove(i);
        self.subscribers.insert(i, (topic, list));
        assert(self.subscribers@ =~= old(self).subscribers@.update(
            i as int,
            (old(self).subscribers@[i as int].0, list),
        ));
        prev
    }

    /// Subscribes to `topic`: one more subscriber of it, and the receiver of its messages.
    pub fn subscribe(&mut self, topic: &str) -> (r: tokio::sync::mpsc::UnboundedReceiver<String>)
        requires
            old(self).wf(),
        ensures
            final(self).wf(),
            final(self).count(topic@) == old(self).count(topic@) + 1,
            forall|t: Seq<char>| t != topic@ ==> final(self).count(t) == old(self).count(t),
    {
        let (tx, rx) = open_channel();
        match self.find(topic) {
            Some(i) => {
                let ghost before = self.subscribers@;
                let mut list = self.replace_list(i, Vec::new());
                list.push(tx);
                self.replace_list(i, list);
                proof {
                    assert(self.subscribers@ == before.update(i as int, (before[i as int].0, list)))
                        by {
                        assert(self.subscribers@ =~= before.update(
                            i as int,
                            (before[i as int].0, list),
                        ));
                    }
                    assert forall|t: Seq<char>| #[trigger]
                        count_in(self.subscribers@, t) == (if before[i as int].0@ == t {
                            list@.len()
                        } else {
                            count_in(before, t)
                        }) by {
                        lemma_count_update(before, i as int, list, t);
                    }
                    lemma_count_update(before, i as int, before[i as int].1, topic@);
                    assert(before.update(i as int, (before[i as int].0, before[i as int].1))
                        =~= before);
                }
            },
            None => {
                let ghost before = self.subscribers@;
                let mut list = Vec::new();
                list.push(tx);
                self.subscribers.push((owned(topic), list));
                proof {
                    lemma_count_absent(before, topic@);
                    assert(self.subscribers@.drop_last() =~= before);
                }
            },
        }
        rx
    }

    /// Sends `payload` to every subscriber of `topic`; subscribers whose receiver is gone are
    /// dropped.
    pub fn publish(&mut self, topic: &str, payload: String)
        requires
            old(self).wf(),
        ensures
            final(self).wf(),
            final(self).count(topic@) <= old(self).count(topic@),
            forall|t: Seq<char>| t != topic@ ==> final(self).count(t) == old(self).count(t),
    {
        let i = match self.find(topic) {
            Some(i) => i,
            None => {
                return;
            },
        };
        let ghost before = self.subscribers@;
        let mut pending = self.replace_list(i, Vec::new());
        let ghost n = pending@.len();
        let mut kept = Vec::new();
        while pending.len() > 0
            invariant
                kept@.len() + pending@.len() <= n,
            decreases pending.len(),
        {
            let tx = pending.remove(0);
            if send_text(&tx, payload.clone()) {
                kept.push(tx);
            }
        }
        self.replace_list(i, kept);
        proof {
            assert(self.subscribers@ =~= before.update(i as int, (before[i as int].0, kept)));
            assert forall|t: Seq<char>| t != topic@ implies count_in(self.subscribers@, t)
                == count_in(before, t) by {
                lemma_count_update(before, i as int, kept, t);
            }
            lemma_count_update(before, i as int, kept, topic@);
            lemma_count_update(before, i as int, before[i as int].1, topic@);
            assert(before.update(i as int, (before[i as int].0, before[i as int].1)) =~= before);
        }
    }
}

impl Default for EventBus {
    fn default() -> (r: Self)
        ensures
            r.wf(),
            forall|t: Seq<char>| r.count(t) == 0,
    {
        EventBus::new()
    }
}

} // verus!
