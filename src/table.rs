use vstd::prelude::*;

use crate::text::same_text;

verus! {

/// Values keyed by text, each key held once. It holds the calls that await a response (each
/// request id with the single-use slot through which its caller is answered) and a plugin's
/// stored values.
pub struct KeyedTable<T> {
    entries: Vec<(String, T)>,
    slots: Ghost<Map<Seq<char>, T>>,
}

impl<T> View for KeyedTable<T> {
    type V = Map<Seq<char>, T>;

    closed spec fn view(&self) -> Map<Seq<char>, T> {
        self.slots@
    }
}

impl<T> KeyedTable<T> {
    /// The entries hold each id once, and the map holds exactly the entries.
    pub closed spec fn wf(&self) -> bool {
        &&& forall|i: int, j: int|
            0 <= i < j < self.entries@.len() ==> self.entries@[i].0@ != self.entries@[j].0@
        &&& forall|i: int|
            0 <= i < self.entries@.len() ==> #[trigger] self.slots@.contains_key(
                self.entries@[i].0@,
            ) && self.slots@[self.entries@[i].0@] == self.entries@[i].1
        &&& forall|k: Seq<char>|
            #[trigger] self.slots@.contains_key(k) ==> exists|i: int|
                0 <= i < self.entries@.len() && self.entries@[i].0@ == k
    }

    /// An empty table.
    pub fn new() -> (r: Self)
        ensures
            r.wf(),
            r@ == Map::<Seq<char>, T>::empty(),
    {
        KeyedTable { entries: Vec::new(), slots: Ghost(Map::empty()) }
    }

    fn find(&self, id: &str) -> (r: Option<usize>)
        requires
            self.wf(),
        ensures
            match r {
                Some(i) => i < self.entries@.len() && self.entries@[i as int].0@ == id@,
                None => !self@.contains_key(id@),
            },
    {
        let mut i: usize = 0;
        while i < self.entries.len()
            invariant
                self.wf(),
                i <= self.entries@.len(),
                forall|j: int| 0 <= j < i ==> self.entries@[j].0@ != id@,
            decreases self.entries.len() - i,
        {
            if same_text(self.entries[i].0.as_str(), id) {
                return Some(i);
            }
            i = i + 1;
        }
        None
    }

    /// Whether the table holds `id`.
    pub fn contains(&self, id: &str) -> (r: bool)
        requires
            self.wf(),
        ensures
            r == self@.contains_key(id@),
    {
        self.find(id).is_some()
    }

    /// The value under `id`.
    pub fn get(&self, id: &str) -> (r: Option<&T>)
        requires
            self.wf(),
        ensures
            r is Some <==> self@.contains_key(id@),
            r is Some ==> *r->0 == self@[id@],
    {
        match self.find(id) {
            Some(i) => {
                assert(self.slots@.contains_key(self.entries@[i as int].0@));
                Some(&self.entries[i].1)
            },
            None => None,
        }
    }

    /// The keys and values, in the order of insertion.
    pub fn entries(&self) -> (r: &Vec<(String, T)>)
        requires
            self.wf(),
        ensures
            forall|i: int| 0 <= i < r@.len() ==> #[trigger] self@.contains_key(r@[i].0@) && self@[r@[i].0@] == r@[i].1,
            forall|k: Seq<char>| #[trigger] self@.contains_key(k) ==> exists|i: int| 0 <= i < r@.len() && r@[i].0@ == k,
            forall|i: int, j: int| 0 <= i < j < r@.len() ==> r@[i].0@ != r@[j].0@,
    {
        &self.entries
    }

    /// The number of keys.
    pub fn len(&self) -> (r: usize)
        requires
            self.wf(),
        ensures
            r == self@.dom().len(),
    {
        proof {
            self.lemma_len();
        }
        self.entries.len()
    }

    proof fn lemma_len(&self)
        requires
            self.wf(),
        ensures
            self@.dom().len() == self.entries@.len(),
            self@.dom().finite(),
        decreases self.entries@.len(),
    {
        let keys = self.entries@.map_values(|e: (String, T)| e.0@);
        assert forall|k: Seq<char>| self@.dom().contains(k) <==> keys.to_set().contains(k) by {
            if self@.contains_key(k) {
                let i = choose|i: int| 0 <= i < self.entries@.len() && self.entries@[i].0@ == k;
                assert(keys[i] == k);
            }
            if keys.contains(k) {
                let i = choose|i: int| 0 <= i < keys.len() && keys[i] == k;
                assert(self.slots@.contains_key(self.entries@[i].0@));
            }
        }
        assert(self@.dom() =~= keys.to_set());
        assert forall|i: int, j: int| 0 <= i < j < keys.len() implies keys[i] != keys[j] by {}
        keys.unique_seq_to_set();
    }

    /// Adds `slot` under a new key. A key the table holds already is refused, and the value
    /// handed back.
    pub fn insert(&mut self, id: String, slot: T) -> (r: Result<(), T>)
        requires
            old(self).wf(),
        ensures
            final(self).wf(),
            match r {
                Ok(()) => !old(self)@.contains_key(id@) && final(self)@ == old(self)@.insert(
                    id@,
                    slot,
                ),
                Err(back) => old(self)@.contains_key(id@) && back == slot && *final(self) == *old(self),
            },
    {
        if self.find(id.as_str()).is_some() {
            return Err(slot);
        }
        let ghost key = id@;
        self.slots = Ghost(self.slots@.insert(key, slot));
        self.entries.push((id, slot));
        assert forall|k: Seq<char>| #[trigger] self.slots@.contains_key(k) implies exists|i: int|
            0 <= i < self.entries@.len() && self.entries@[i].0@ == k by {
            if k != key {
                let i = choose|i: int|
                    0 <= i < old(self).entries@.len() && old(self).entries@[i].0@ == k;
                assert(self.entries@[i] == old(self).entries@[i]);
            } else {
                assert(self.entries@[self.entries@.len() - 1].0@ == k);
            }
        }
        Ok(())
    }

    /// Takes the value under `id` out of the table: a response resolves its caller's slot once.
    pub fn remove(&mut self, id: &str) -> (r: Option<T>)
        requires
            old(self).wf(),
        ensures
            final(self).wf(),
            final(self)@ == old(self)@.remove(id@),
            r is None ==> *final(self) == *old(self),
            r == (if old(self)@.contains_key(id@) {
                Some(old(self)@[id@])
            } else {
                None::<T>
            }),
    {
        match self.find(id) {
            None => {
                assert(self@.remove(id@) =~= self@);
                None
            },
            Some(i) => {
                let ghost old_entries = self.entries@;
                let (_, slot) = self.entries.remove(i);
                self.slots = Ghost(self.slots@.remove(id@));
                assert forall|j: int| 0 <= j < self.entries@.len() implies #[trigger]
                    self.slots@.contains_key(self.entries@[j].0@) && self.slots@[self.entries@[j].0@]
                    == self.entries@[j].1 by {
                    if j < i {
                        assert(self.entries@[j] == old_entries[j]);
                    } else {
                        assert(self.entries@[j] == old_entries[j + 1]);
                    }
                }
                assert forall|k: Seq<char>| #[trigger] self.slots@.contains_key(k) implies exists|
                    j: int,
                | 0 <= j < self.entries@.len() && self.entries@[j].0@ == k by {
                    let j = choose|j: int| 0 <= j < old_entries.len() && old_entries[j].0@ == k;
                    if j < i {
                        assert(self.entries@[j] == old_entries[j]);
                    } else {
                        assert(j != i);
                        assert(self.entries@[j - 1] == old_entries[j]);
                    }
                }
                Some(slot)
            },
        }
    }

    /// Takes every value out of the table, as when the plugin's output ends.
    pub fn drain(&mut self) -> (r: Vec<T>)
        requires
            old(self).wf(),
        ensures
            final(self).wf(),
            final(self)@ == Map::<Seq<char>, T>::empty(),
            r@.len() == old(self)@.dom().len(),
            forall|k: Seq<char>| old(self)@.contains_key(k) ==> r@.contains(#[trigger] old(self)@[k]),
    {
        proof {
            self.lemma_len();
        }
        let ghost old_entries = self.entries@;
        let ghost old_map = self@;
        let mut out: Vec<T> = Vec::new();
        while self.entries.len() > 0
            invariant
                self.wf(),
                self.entries@.len() + out@.len() == old_entries.len(),
                forall|j: int|
                    0 <= j < self.entries@.len() ==> #[trigger] self.entries@[j] == old_entries[j],
                forall|j: int|
                    self.entries@.len() <= j < old_entries.len() ==> out@.contains(
                        #[trigger] old_entries[j].1,
                    ),
            decreases self.entries.len(),
        {
            let ghost n = self.entries@.len();
            let ghost pre_entries = self.entries@;
            let ghost pre_slots = self.slots@;
            let (name, slot) = self.entries.pop().unwrap();
            self.slots = Ghost(self.slots@.remove(name@));
            let ghost prev = out@;
            out.push(slot);
            assert forall|j: int| n - 1 <= j < old_entries.len() implies out@.contains(
                #[trigger] old_entries[j].1,
            ) by {
                if j == n - 1 {
                    assert(out@[out@.len() - 1] == slot);
                } else {
                    assert(prev.contains(old_entries[j].1));
                    let t = choose|t: int| 0 <= t < prev.len() && prev[t] == old_entries[j].1;
                    assert(out@[t] == prev[t]);
                }
            }
            assert forall|k: Seq<char>| #[trigger] self.slots@.contains_key(k) implies exists|
                j: int,
            | 0 <= j < self.entries@.len() && self.entries@[j].0@ == k by {
                assert(pre_slots.contains_key(k));
                let j = choose|j: int| 0 <= j < pre_entries.len() && pre_entries[j].0@ == k;
                if j == n - 1 {
                    assert(pre_entries[j].0@ == name@);
                }
                assert(self.entries@[j] == pre_entries[j]);
            }
        }
        assert(self.slots@ =~= Map::<Seq<char>, T>::empty());
        assert forall|k: Seq<char>| old_map.contains_key(k) implies out@.contains(
            #[trigger] old_map[k],
        ) by {
            let j = choose|j: int| 0 <= j < old_entries.len() && old_entries[j].0@ == k;
            assert(out@.contains(old_entries[j].1));
        }
        out
    }
}

/// Once a slot is taken out, the table no longer holds its id, so a second response with
/// the same id finds nothing: each slot is resolved at most once.
pub proof fn lemma_resolved_once<T>(m: Map<Seq<char>, T>, id: Seq<char>)
    ensures
        !m.remove(id).contains_key(id),
        m.remove(id).remove(id) == m.remove(id),
{
    assert(m.remove(id).remove(id) =~= m.remove(id));
}

/// With two requests in flight under distinct ids, each response reaches the slot that was
/// registered under its own id, whichever of the two answers first.
pub proof fn lemma_responses_reach_their_callers<T>(
    m: Map<Seq<char>, T>,
    a: Seq<char>,
    slot_a: T,
    b: Seq<char>,
    slot_b: T,
)
    requires
        a != b,
        !m.contains_key(a),
        !m.contains_key(b),
    ensures
        ({
            let t = m.insert(a, slot_a).insert(b, slot_b);
            &&& t.contains_key(b) && t[b] == slot_b
            &&& t.remove(b).contains_key(a) && t.remove(b)[a] == slot_a
            &&& t.contains_key(a) && t[a] == slot_a
            &&& t.remove(a).contains_key(b) && t.remove(a)[b] == slot_b
        }),
{
}

} // verus!
