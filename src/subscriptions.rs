use vstd::prelude::*;

use crate::json::{Json, JsonValue, items_model};
use crate::text::{owned, same_text};

verus! {

/// The topics a plugin has subscribed to.
pub struct SubscriptionSet {
    topics: Vec<String>,
}

/// The texts among a run of values.
pub open spec fn texts_in(items: Seq<JsonValue>) -> Set<Seq<char>> {
    texts_before(items, items.len() as int)
}

/// The texts among a run of modelled values.
pub open spec fn json_texts(items: Seq<Json>) -> Set<Seq<char>> {
    Set::new(|t: Seq<char>| exists|i: int| 0 <= i < items.len() && items[i] == Json::Str(t))
}

pub proof fn lemma_texts_model(items: Seq<JsonValue>)
    ensures
        texts_in(items) == json_texts(items_model(items)),
{
    assert forall|t: Seq<char>| texts_in(items).contains(t) <==> json_texts(items_model(items)).contains(t) by {
        if texts_in(items).contains(t) {
            let i = choose|i: int| 0 <= i < items.len() && #[trigger] items[i]@ == Json::Str(t);
            assert(items_model(items)[i] == Json::Str(t));
        }
        if json_texts(items_model(items)).contains(t) {
            let i = choose|i: int| 0 <= i < items.len() && items_model(items)[i] == Json::Str(t);
            assert(items[i]@ == Json::Str(t));
        }
    }
    assert(texts_in(items) =~= json_texts(items_model(items)));
}

/// The texts among the first `n` values.
pub open spec fn texts_before(items: Seq<JsonValue>, n: int) -> Set<Seq<char>> {
    Set::new(|t: Seq<char>| exists|i: int| 0 <= i < n && #[trigger] items[i]@ == Json::Str(t))
}

impl View for SubscriptionSet {
    type V = Set<Seq<char>>;

    closed spec fn view(&self) -> Set<Seq<char>> {
        Set::new(|t: Seq<char>| exists|i: int| 0 <= i < self.topics@.len() && self.topics@[i]@ == t)
    }
}

impl SubscriptionSet {
    /// Each topic is held once.
    pub closed spec fn wf(&self) -> bool {
        forall|i: int, j: int|
            0 <= i < j < self.topics@.len() ==> self.topics@[i]@ != self.topics@[j]@
    }

    /// No subscriptions.
    pub fn new() -> (r: Self)
        ensures
            r.wf(),
            r@ == Set::<Seq<char>>::empty(),
    {
        let r = SubscriptionSet { topics: Vec::new() };
        assert(r@ =~= Set::<Seq<char>>::empty());
        r
    }

    /// Whether the plugin has subscribed to `topic`.
    pub fn contains(&self, topic: &str) -> (r: bool)
        ensures
            r == self@.contains(topic@),
    {
        let mut i: usize = 0;
        while i < self.topics.len()
            invariant
                i <= self.topics@.len(),
                forall|j: int| 0 <= j < i ==> self.topics@[j]@ != topic@,
            decreases self.topics.len() - i,
        {
            if same_text(self.topics[i].as_str(), topic) {
                return true;
            }
            i = i + 1;
        }
        false
    }

    /// Adds one topic.
    pub fn insert(&mut self, topic: &str)
        requires
            old(self).wf(),
        ensures
            final(self).wf(),
            final(self)@ == old(self)@.insert(topic@),
    {
        if self.contains(topic) {
            assert(self@.insert(topic@) =~= self@);
            return;
        }
        let ghost prev = self.topics@;
        self.topics.push(owned(topic));
        assert forall|t: Seq<char>| self@.contains(t) <==> old(self)@.insert(topic@).contains(t) by {
            if old(self)@.contains(t) {
                let i = choose|i: int| 0 <= i < prev.len() && prev[i]@ == t;
                assert(self.topics@[i] == prev[i]);
            }
            if t == topic@ {
                assert(self.topics@[prev.len() as int]@ == t);
            }
            if self@.contains(t) && t != topic@ {
                let i = choose|i: int| 0 <= i < self.topics@.len() && self.topics@[i]@ == t;
                assert(i < prev.len());
                assert(prev[i]@ == t);
            }
        }
        assert(self@ =~= old(self)@.insert(topic@));
    }

    /// Adds every text among `items`; other values are passed over.
    pub fn subscribe(&mut self, items: &Vec<JsonValue>)
        requires
            old(self).wf(),
        ensures
            final(self).wf(),
            final(self)@ == old(self)@.union(texts_in(items@)),
    {
        let mut i: usize = 0;
        while i < items.len()
            invariant
                self.wf(),
                i <= items@.len(),
                self@ == old(self)@.union(texts_before(items@, i as int)),
            decreases items.len() - i,
        {
            let ghost before = self@;
            match items[i].as_str() {
                Some(t) => self.insert(t.as_str()),
                None => {},
            }
            assert forall|t: Seq<char>|
                texts_before(items@, i + 1).contains(t) <==> (texts_before(items@, i as int).contains(
                    t,
                ) || items@[i as int]@ == Json::Str(t)) by {
                if texts_before(items@, i + 1).contains(t) {
                    let j = choose|j: int| 0 <= j < i + 1 && #[trigger] items@[j]@ == Json::Str(t);
                    if j < i {
                        assert(texts_before(items@, i as int).contains(t));
                    }
                }
            }
            assert(self@ =~= old(self)@.union(texts_before(items@, i + 1)));
            i = i + 1;
        }

    }

    /// The subscribed topics.
    pub fn topics(&self) -> (r: Vec<String>)
        ensures
            forall|t: Seq<char>| self@.contains(t) <==> exists|i: int| 0 <= i < r@.len() && r@[i]@ == t,
    {
        let mut out: Vec<String> = Vec::new();
        let mut i: usize = 0;
        while i < self.topics.len()
            invariant
                i <= self.topics@.len(),
                out@.len() == i,
                forall|j: int| 0 <= j < i ==> (#[trigger] out@[j])@ == self.topics@[j]@,
            decreases self.topics.len() - i,
        {
            out.push(owned(self.topics[i].as_str()));
            i = i + 1;
        }
        assert forall|t: Seq<char>| self@.contains(t) <==> exists|i: int|
            0 <= i < out@.len() && out@[i]@ == t by {
            if self@.contains(t) {
                let j = choose|j: int| 0 <= j < self.topics@.len() && self.topics@[j]@ == t;
                assert(out@[j]@ == t);
            }
            if exists|i: int| 0 <= i < out@.len() && out@[i]@ == t {
                let j = choose|j: int| 0 <= j < out@.len() && out@[j]@ == t;
                assert(self.topics@[j]@ == t);
            }
        }
        out
    }
}

/// Subscribing twice to the same topics leaves the same set as subscribing once.
pub proof fn lemma_subscribe_idempotent(subs: Set<Seq<char>>, topics: Set<Seq<char>>)
    ensures
        subs.union(topics).union(topics) == subs.union(topics),
{
    assert(subs.union(topics).union(topics) =~= subs.union(topics));
}

} // verus!
