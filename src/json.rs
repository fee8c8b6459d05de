use vstd::prelude::*;

use crate::text::{owned, same_text};

verus! {

/// A structured value as carried in envelope fields.
///
/// Numbers keep the three shapes a JSON reader distinguishes: a non-negative integer, a
/// negative integer, and any other number, which is held as its decimal text.
#[derive(Debug, PartialEq)]
pub enum JsonValue {
    Null,
    Bool(bool),
    UInt(u64),
    NegInt(i64),
    Float(String),
    Str(String),
    Array(Vec<JsonValue>),
    Object(Vec<(String, JsonValue)>),
}

/// The mathematical model of a [`JsonValue`]: texts as character sequences.
pub enum Json {
    Null,
    Bool(bool),
    UInt(u64),
    NegInt(i64),
    Float(Seq<char>),
    Str(Seq<char>),
    Array(Seq<Json>),
    Object(Seq<(Seq<char>, Json)>),
}

impl View for JsonValue {
    type V = Json;

    open spec fn view(&self) -> Json {
        json_model(*self)
    }
}

/// The model of a value, field by field.
pub open spec fn json_model(v: JsonValue) -> Json
    decreases v,
{
    match v {
        JsonValue::Null => Json::Null,
        JsonValue::Bool(b) => Json::Bool(b),
        JsonValue::UInt(n) => Json::UInt(n),
        JsonValue::NegInt(n) => Json::NegInt(n),
        JsonValue::Float(s) => Json::Float(s@),
        JsonValue::Str(s) => Json::Str(s@),
        JsonValue::Array(items) => Json::Array(
            Seq::new(
                items@.len(),
                |i: int|
                    if 0 <= i < items@.len() {
                        json_model(items@[i])
                    } else {
                        Json::Null
                    },
            ),
        ),
        JsonValue::Object(entries) => Json::Object(
            Seq::new(
                entries@.len(),
                |i: int|
                    if 0 <= i < entries@.len() {
                        (entries@[i].0@, json_model(entries@[i].1))
                    } else {
                        (Seq::empty(), Json::Null)
                    },
            ),
        ),
    }
}

/// The value stored under the first entry named `key`.
pub open spec fn lookup(entries: Seq<(Seq<char>, Json)>, key: Seq<char>) -> Option<Json>
    decreases entries.len(),
{
    if entries.len() == 0 {
        None
    } else if entries[0].0 == key {
        Some(entries[0].1)
    } else {
        lookup(entries.drop_first(), key)
    }
}

impl Json {
    /// The value of field `key` of an object; nothing for any other value.
    pub open spec fn field(self, key: Seq<char>) -> Option<Json> {
        match self {
            Json::Object(entries) => lookup(entries, key),
            _ => None,
        }
    }

    /// The text of a string value.
    pub open spec fn text(self) -> Option<Seq<char>> {
        match self {
            Json::Str(s) => Some(s),
            _ => None,
        }
    }

    /// The number of a non-negative integer value.
    pub open spec fn unsigned(self) -> Option<u64> {
        match self {
            Json::UInt(n) => Some(n),
            _ => None,
        }
    }

    /// Whether this is the object `{"ok": true}`.
    pub open spec fn is_ok_ack(self) -> bool {
        self == Json::Object(seq![("ok"@, Json::Bool(true))])
    }
}

impl JsonValue {
    /// Looks up field `key` of an object.
    pub fn get(&self, key: &str) -> (r: Option<&JsonValue>)
        ensures
            r is Some <==> self@.field(key@) is Some,
            r is Some ==> self@.field(key@) == Some(r->0@),
    {
        match self {
            JsonValue::Object(entries) => {
                let ghost v = match self@ {
                    Json::Object(v) => v,
                    _ => Seq::empty(),
                };
                assert(*self == JsonValue::Object(*entries));
                assert((*self)@ is Object);
                assert(v.len() == entries@.len());
                assert(v.skip(0) =~= v);
                let mut i: usize = 0;
                while i < entries.len()
                    invariant
                        self@ == Json::Object(v),
                        v.len() == entries@.len(),
                        forall|j: int|
                            0 <= j < v.len() ==> #[trigger] v[j] == (
                                entries@[j].0@,
                                entries@[j].1@,
                            ),
                        i <= entries@.len(),
                        lookup(v, key@) == lookup(v.skip(i as int), key@),
                    decreases entries.len() - i,
                {
                    assert(v.skip(i as int).drop_first() =~= v.skip(i + 1));
                    assert(v.skip(i as int)[0] == v[i as int]);
                    if same_text(entries[i].0.as_str(), key) {
                        return Some(&entries[i].1);
                    }
                    i = i + 1;
                }
                None
            },
            _ => None,
        }
    }

    /// The text of a string value.
    pub fn as_str(&self) -> (r: Option<&String>)
        ensures
            r is Some <==> self@ is Str,
            r is Some ==> self@.text() == Some(r->0@),
    {
        match self {
            JsonValue::Str(s) => Some(s),
            _ => None,
        }
    }

    /// The number of a non-negative integer value.
    pub fn as_u64(&self) -> (r: Option<u64>)
        ensures
            r == self@.unsigned(),
    {
        match self {
            JsonValue::UInt(n) => Some(*n),
            _ => None,
        }
    }

    /// The items of an array value.
    pub fn as_array(&self) -> (r: Option<&Vec<JsonValue>>)
        ensures
            r is Some <==> self@ is Array,
            r is Some ==> self@ == (JsonValue::Array(*r->0))@,
    {
        match self {
            JsonValue::Array(items) => Some(items),
            _ => None,
        }
    }

    /// A copy of this value.
    pub fn deep_clone(&self) -> (r: JsonValue)
        ensures
            r@ == self@,
        decreases self,
    {
        match self {
            JsonValue::Null => JsonValue::Null,
            JsonValue::Bool(b) => JsonValue::Bool(*b),
            JsonValue::UInt(n) => JsonValue::UInt(*n),
            JsonValue::NegInt(n) => JsonValue::NegInt(*n),
            JsonValue::Float(s) => JsonValue::Float(owned(s.as_str())),
            JsonValue::Str(s) => JsonValue::Str(owned(s.as_str())),
            JsonValue::Array(items) => {
                let mut out: Vec<JsonValue> = Vec::new();
                let mut i: usize = 0;
                while i < items.len()
                    invariant
                        *self == JsonValue::Array(*items),
                        i <= items@.len(),
                        out@.len() == i,
                        forall|j: int| 0 <= j < i ==> (#[trigger] out@[j])@ == items@[j]@,
                    decreases items.len() - i,
                {
                    proof {
                        assert(decreases_to!(*items => items[i as int]));
                        assert(decreases_to!(*self => (*self)->Array_0));
                    }
                    let item = items[i].deep_clone();
                    out.push(item);
                    i = i + 1;
                }
                let r = JsonValue::Array(out);
                assert(r@ == self@) by {
                    match (r@, self@) {
                        (Json::Array(a), Json::Array(b)) => {
                            assert(a =~= b);
                        },
                        _ => {},
                    }
                }
                r
            },
            JsonValue::Object(entries) => {
                let mut out: Vec<(String, JsonValue)> = Vec::new();
                let mut i: usize = 0;
                while i < entries.len()
                    invariant
                        *self == JsonValue::Object(*entries),
                        i <= entries@.len(),
                        out@.len() == i,
                        forall|j: int|
                            0 <= j < i ==> (#[trigger] out@[j]).0@ == entries@[j].0@ && out@[j].1@
                                == entries@[j].1@,
                    decreases entries.len() - i,
                {
                    proof {
                        assert(decreases_to!(*entries => entries[i as int]));
                        assert(decreases_to!(*self => (*self)->Object_0));
                        assert(decreases_to!(entries[i as int] => entries[i as int].1));
                    }
                    let value = entries[i].1.deep_clone();
                    let name = owned(entries[i].0.as_str());
                    out.push((name, value));
                    i = i + 1;
                }
                let r = JsonValue::Object(out);
                assert(r@ == self@) by {
                    match (r@, self@) {
                        (Json::Object(a), Json::Object(b)) => {
                            assert(a =~= b);
                        },
                        _ => {},
                    }
                }
                r
            },
        }
    }
}

/// The model of the entries of an object.
pub open spec fn entries_model(s: Seq<(String, JsonValue)>) -> Seq<(Seq<char>, Json)> {
    Seq::new(s.len(), |i: int| (s[i].0@, s[i].1@))
}

pub proof fn lemma_object_model(v: Vec<(String, JsonValue)>)
    ensures
        JsonValue::Object(v)@ == Json::Object(entries_model(v@)),
{
    match JsonValue::Object(v)@ {
        Json::Object(a) => {
            assert(a =~= entries_model(v@));
        },
        _ => {},
    }
}

/// The model of the items of an array.
pub open spec fn items_model(s: Seq<JsonValue>) -> Seq<Json> {
    Seq::new(s.len(), |i: int| s[i]@)
}

pub proof fn lemma_array_model(v: Vec<JsonValue>)
    ensures
        JsonValue::Array(v)@ == Json::Array(items_model(v@)),
{
    match JsonValue::Array(v)@ {
        Json::Array(a) => {
            assert(a =~= items_model(v@));
        },
        _ => {},
    }
}

/// Appends the entry `name: value` to the entries of an object.
pub fn push_entry(entries: &mut Vec<(String, JsonValue)>, name: &str, value: JsonValue)
    ensures
        entries_model(final(entries)@) == entries_model(old(entries)@).push((name@, value@)),
{
    entries.push((owned(name), value));
    assert(entries_model(entries@) =~= entries_model(old(entries)@).push((name@, value@)));
}

/// The object `{"ok": true}`.
pub fn ok_ack() -> (r: JsonValue)
    ensures
        r@.is_ok_ack(),
{
    let mut entries: Vec<(String, JsonValue)> = Vec::new();
    entries.push((owned("ok"), JsonValue::Bool(true)));
    let r = JsonValue::Object(entries);
    proof {
        reveal_strlit("ok");
    }
    assert(r@ == Json::Object(seq![("ok"@, Json::Bool(true))])) by {
        match r@ {
            Json::Object(a) => {
                assert(a.len() == 1);
                assert(json_model(JsonValue::Bool(true)) == Json::Bool(true));
                assert(a[0] == ("ok"@, Json::Bool(true)));
                assert(a =~= seq![("ok"@, Json::Bool(true))]);
            },
            _ => {},
        }
    }
    r
}

} // verus!
