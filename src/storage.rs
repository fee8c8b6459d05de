use vstd::prelude::*;

use crate::envelope::opt_json;
use crate::json::{Json, JsonValue};
use crate::table::KeyedTable;
use crate::text::owned;

verus! {

/// A plugin's stored values, by key.
pub struct Storage {
    data: KeyedTable<JsonValue>,
}

/// The map that a run of entries leaves when put in order: a later entry replaces an earlier
/// one with the same key.
pub open spec fn stored_of(entries: Seq<(String, JsonValue)>) -> Map<Seq<char>, Json>
    decreases entries.len(),
{
    if entries.len() == 0 {
        Map::empty()
    } else {
        stored_of(entries.drop_last()).insert(entries.last().0@, entries.last().1@)
    }
}

impl View for Storage {
    type V = Map<Seq<char>, Json>;

    closed spec fn view(&self) -> Map<Seq<char>, Json> {
        Map::new(|k: Seq<char>| self.data@.contains_key(k), |k: Seq<char>| self.data@[k]@)
    }
}

impl Storage {
    pub closed spec fn wf(&self) -> bool {
        self.data.wf()
    }

    /// Nothing stored.
    pub fn new() -> (r: Self)
        ensures
            r.wf(),
            r@ == Map::<Seq<char>, Json>::empty(),
    {
        let r = Storage { data: KeyedTable::new() };
        assert(r@ =~= Map::<Seq<char>, Json>::empty());
        r
    }

    /// The value stored under `key`.
    pub fn get(&self, key: &str) -> (r: Option<JsonValue>)
        requires
            self.wf(),
        ensures
            opt_json(r) == (if self@.contains_key(key@) {
                Some(self@[key@])
            } else {
                None::<Json>
            }),
    {
        match self.data.get(key) {
            Some(v) => Some(v.deep_clone()),
            None => None,
        }
    }

    /// Stores `value` under `key`, in place of any earlier value.
    pub fn put(&mut self, key: String, value: JsonValue)
        requires
            old(self).wf(),
        ensures
            final(self).wf(),
            final(self)@ == old(self)@.insert(key@, value@),
    {
        let ghost k = key@;
        let ghost v = value@;
        self.data.remove(key.as_str());
        let r = self.data.insert(key, value);
        assert(r is Ok);
        assert(self@ =~= old(self)@.insert(k, v));
    }

    /// The store that a run of entries fills, put in order.
    pub fn from_entries(entries: Vec<(String, JsonValue)>) -> (r: Self)
        ensures
            r.wf(),
            r@ == stored_of(entries@),
    {
        let mut store = Storage::new();
        let mut rest = entries;
        let ghost all = rest@;
        let n = rest.len();
        let mut i: usize = 0;
        while i < n
            invariant
                n == all.len(),
                i <= n,
                rest@ == all.skip(i as int),
                store.wf(),
                store@ == stored_of(all.subrange(0, i as int)),
            decreases n - i,
        {
            let (key, value) = rest.remove(0);
            assert(rest@ =~= all.skip(i + 1));
            assert(all.subrange(0, i + 1).drop_last() =~= all.subrange(0, i as int));
            store.put(key, value);
            i = i + 1;
        }
        assert(all.subrange(0, n as int) =~= all);
        store
    }

    /// A copy of the stored entries, each key once.
    pub fn entries(&self) -> (r: Vec<(String, JsonValue)>)
        requires
            self.wf(),
        ensures
            forall|i: int|
                0 <= i < r@.len() ==> #[trigger] self@.contains_key(r@[i].0@) && self@[r@[i].0@]
                    == r@[i].1@,
            forall|k: Seq<char>|
                #[trigger] self@.contains_key(k) ==> exists|i: int| 0 <= i < r@.len() && r@[i].0@ == k,
            forall|i: int, j: int| 0 <= i < j < r@.len() ==> r@[i].0@ != r@[j].0@,
    {
        let src = self.data.entries();
        let mut out: Vec<(String, JsonValue)> = Vec::new();
        let mut i: usize = 0;
        while i < src.len()
            invariant
                i <= src@.len(),
                out@.len() == i,
                forall|j: int|
                    0 <= j < i ==> (#[trigger] out@[j]).0@ == src@[j].0@ && out@[j].1@ == src@[j].1@,
            decreases src.len() - i,
        {
            out.push((owned(src[i].0.as_str()), src[i].1.deep_clone()));
            i = i + 1;
        }
        assert forall|k: Seq<char>| #[trigger] self@.contains_key(k) implies exists|i: int|
            0 <= i < out@.len() && out@[i].0@ == k by {
            let i = choose|i: int| 0 <= i < src@.len() && src@[i].0@ == k;
            assert(out@[i].0@ == k);
        }
        assert forall|i: int| 0 <= i < out@.len() implies #[trigger] self@.contains_key(out@[i].0@)
            && self@[out@[i].0@] == out@[i].1@ by {
            assert(self.data@.contains_key(src@[i].0@));
        }
        out
    }
}

} // verus!
