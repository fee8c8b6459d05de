use vstd::prelude::*;

use crate::envelope::{Envelope, EnvelopeView, ErrorView, Kind, RpcError, opt_json, opt_text};
use crate::json::{Json, JsonValue, entries_model, lemma_object_model, lookup, push_entry};
use crate::text::{owned, push_char, same_text, trim_text, trimmed};

verus! {

// ---------------------------------------------------------------------------
// Envelope <-> structured value
// ---------------------------------------------------------------------------

/// The wire name of a kind.
pub open spec fn kind_name(k: Kind) -> Seq<char> {
    match k {
        Kind::Request => "request"@,
        Kind::Response => "response"@,
        Kind::Event => "event"@,
    }
}

/// The kind with wire name `s`.
pub open spec fn kind_of_name(s: Seq<char>) -> Option<Kind> {
    if s == "request"@ {
        Some(Kind::Request)
    } else if s == "response"@ {
        Some(Kind::Response)
    } else if s == "event"@ {
        Some(Kind::Event)
    } else {
        None
    }
}

/// The entry for an optional text field: absent fields are left out.
pub open spec fn text_entry(name: Seq<char>, o: Option<Seq<char>>) -> Seq<(Seq<char>, Json)> {
    match o {
        Some(s) => seq![(name, Json::Str(s))],
        None => seq![],
    }
}

/// The entry for an optional structured field: absent fields are left out.
pub open spec fn value_entry(name: Seq<char>, o: Option<Json>) -> Seq<(Seq<char>, Json)> {
    match o {
        Some(v) => seq![(name, v)],
        None => seq![],
    }
}

/// An error code as a number.
pub open spec fn code_json(c: i32) -> Json {
    if c >= 0 {
        Json::UInt(c as u64)
    } else {
        Json::NegInt(c as i64)
    }
}

/// The object `{"code": .., "message": ..}`.
pub open spec fn error_json(e: ErrorView) -> Json {
    Json::Object(seq![("code"@, code_json(e.code)), ("message"@, Json::Str(e.message))])
}

pub open spec fn error_entry(o: Option<ErrorView>) -> Seq<(Seq<char>, Json)> {
    match o {
        Some(e) => seq![("error"@, error_json(e))],
        None => seq![],
    }
}

/// The object that stands for an envelope: `kind` first, then each present field.
pub open spec fn encode(e: EnvelopeView) -> Json {
    Json::Object(
        seq![("kind"@, Json::Str(kind_name(e.kind)))] + text_entry("id"@, e.id) + text_entry(
            "method"@,
            e.method,
        ) + value_entry("params"@, e.params) + value_entry("result"@, e.result) + error_entry(
            e.error,
        ) + text_entry("topic"@, e.topic) + value_entry("payload"@, e.payload),
    )
}

/// Why a structured value does not stand for an envelope.
#[derive(Debug, Clone, Copy, PartialEq, Eq, Structural)]
pub enum DecodeError {
    NotAnObject,
    /// `kind` is missing or names no kind.
    BadKind,
    /// A field holds a value of the wrong type.
    BadField,
}

/// A text field: absent and `null` read as absent; `None` when it holds a non-text value.
pub open spec fn text_field(f: Option<Json>) -> Option<Option<Seq<char>>> {
    match f {
        None => Some(None),
        Some(Json::Null) => Some(None),
        Some(Json::Str(s)) => Some(Some(s)),
        _ => None,
    }
}

/// An error code: an integer within the range of `i32`.
pub open spec fn code_of(j: Json) -> Option<i32> {
    match j {
        Json::UInt(n) => if n <= i32::MAX {
            Some(n as i32)
        } else {
            None
        },
        Json::NegInt(n) => if n >= i32::MIN {
            Some(n as i32)
        } else {
            None
        },
        _ => None,
    }
}

/// The error field; `None` when it is present but not an error object.
pub open spec fn error_field(f: Option<Json>) -> Option<Option<ErrorView>> {
    match f {
        None => Some(None),
        Some(Json::Null) => Some(None),
        Some(j) => match (j.field("code"@), j.field("message"@)) {
            (Some(c), Some(Json::Str(m))) => match code_of(c) {
                Some(k) => Some(Some(ErrorView { code: k, message: m })),
                None => None,
            },
            _ => None,
        },
    }
}

/// The envelope that a structured value stands for. Fields other than the eight are ignored;
/// a text field that is `null` reads as absent, a structured field keeps the value `null`.
pub open spec fn decode(j: Json) -> Result<EnvelopeView, DecodeError> {
    let kind = match j.field("kind"@) {
        Some(Json::Str(s)) => kind_of_name(s),
        _ => None,
    };
    let id = text_field(j.field("id"@));
    let method = text_field(j.field("method"@));
    let error = error_field(j.field("error"@));
    let topic = text_field(j.field("topic"@));
    if !(j is Object) {
        Err(DecodeError::NotAnObject)
    } else if kind is None {
        Err(DecodeError::BadKind)
    } else if id is None || method is None || error is None || topic is None {
        Err(DecodeError::BadField)
    } else {
        Ok(
            EnvelopeView {
                id: id->0,
                kind: kind->0,
                method: method->0,
                params: j.field("params"@),
                result: j.field("result"@),
                error: error->0,
                topic: topic->0,
                payload: j.field("payload"@),
            },
        )
    }
}

/// A lookup in two joined runs of entries looks in the first run, then in the second.
pub proof fn lemma_lookup_concat(a: Seq<(Seq<char>, Json)>, b: Seq<(Seq<char>, Json)>, k: Seq<char>)
    ensures
        lookup(a + b, k) == (if lookup(a, k) is Some {
            lookup(a, k)
        } else {
            lookup(b, k)
        }),
    decreases a.len(),
{
    if a.len() > 0 {
        assert((a + b).drop_first() =~= a.drop_first() + b);
        assert((a + b)[0] == a[0]);
        lemma_lookup_concat(a.drop_first(), b, k);
    } else {
        assert(a + b =~= b);
    }
}

pub proof fn lemma_lookup_one(x: (Seq<char>, Json), k: Seq<char>)
    ensures
        lookup(seq![x], k) == (if x.0 == k {
            Some(x.1)
        } else {
            None
        }),
{
    reveal_with_fuel(lookup, 2);
    assert(seq![x].drop_first() =~= Seq::<(Seq<char>, Json)>::empty());
}

pub proof fn lemma_lookup_two(x: (Seq<char>, Json), y: (Seq<char>, Json), k: Seq<char>)
    ensures
        lookup(seq![x, y], k) == (if x.0 == k {
            Some(x.1)
        } else if y.0 == k {
            Some(y.1)
        } else {
            None
        }),
{
    assert(seq![x, y] =~= seq![x] + seq![y]);
    lemma_lookup_concat(seq![x], seq![y], k);
    lemma_lookup_one(x, k);
    lemma_lookup_one(y, k);
}

/// The field names of the wire format differ from each other.
proof fn lemma_names_distinct()
    ensures
        "kind"@ != "id"@ && "kind"@ != "method"@ && "kind"@ != "params"@ && "kind"@ != "result"@
            && "kind"@ != "error"@ && "kind"@ != "topic"@ && "kind"@ != "payload"@,
        "id"@ != "method"@ && "id"@ != "params"@ && "id"@ != "result"@ && "id"@ != "error"@ && "id"@
            != "topic"@ && "id"@ != "payload"@,
        "method"@ != "params"@ && "method"@ != "result"@ && "method"@ != "error"@ && "method"@
            != "topic"@ && "method"@ != "payload"@,
        "params"@ != "result"@ && "params"@ != "error"@ && "params"@ != "topic"@ && "params"@
            != "payload"@,
        "result"@ != "error"@ && "result"@ != "topic"@ && "result"@ != "payload"@,
        "error"@ != "topic"@ && "error"@ != "payload"@,
        "topic"@ != "payload"@,
        "code"@ != "message"@,
        "request"@ != "response"@ && "request"@ != "event"@ && "response"@ != "event"@,
{
    reveal_strlit("kind");
    reveal_strlit("id");
    reveal_strlit("method");
    reveal_strlit("params");
    reveal_strlit("result");
    reveal_strlit("error");
    reveal_strlit("topic");
    reveal_strlit("payload");
    reveal_strlit("code");
    reveal_strlit("message");
    reveal_strlit("request");
    reveal_strlit("response");
    reveal_strlit("event");
    assert("kind"@.len() == 4);
    assert("id"@.len() == 2);
    assert("method"@.len() == 6 && "method"@[0] == 'm');
    assert("params"@.len() == 6 && "params"@[0] == 'p');
    assert("result"@.len() == 6 && "result"@[0] == 'r');
    assert("error"@.len() == 5 && "error"@[0] == 'e');
    assert("topic"@.len() == 5 && "topic"@[0] == 't');
    assert("payload"@.len() == 7);
    assert("code"@.len() == 4);
    assert("message"@.len() == 7);
    assert("request"@.len() == 7);
    assert("response"@.len() == 8);
    assert("event"@.len() == 5);
}

/// The field values of an encoded envelope, one named key at a time.
proof fn lemma_encode_fields(e: EnvelopeView, k: Seq<char>)
    ensures
        encode(e).field(k) == (if k == "kind"@ {
            Some(Json::Str(kind_name(e.kind)))
        } else if k == "id"@ {
            match e.id {
                Some(s) => Some(Json::Str(s)),
                None => None,
            }
        } else if k == "method"@ {
            match e.method {
                Some(s) => Some(Json::Str(s)),
                None => None,
            }
        } else if k == "params"@ {
            e.params
        } else if k == "result"@ {
            e.result
        } else if k == "error"@ {
            match e.error {
                Some(x) => Some(error_json(x)),
                None => None,
            }
        } else if k == "topic"@ {
            match e.topic {
                Some(s) => Some(Json::Str(s)),
                None => None,
            }
        } else if k == "payload"@ {
            e.payload
        } else {
            None
        }),
{
    let kind_part: Seq<(Seq<char>, Json)> = seq![("kind"@, Json::Str(kind_name(e.kind)))];
    let id_part = text_entry("id"@, e.id);
    let method_part = text_entry("method"@, e.method);
    let params_part = value_entry("params"@, e.params);
    let result_part = value_entry("result"@, e.result);
    let error_part = error_entry(e.error);
    let topic_part = text_entry("topic"@, e.topic);
    let payload_part = value_entry("payload"@, e.payload);
    lemma_names_distinct();
    lemma_lookup_concat(kind_part + id_part + method_part + params_part + result_part + error_part + topic_part, payload_part, k);
    lemma_lookup_concat(kind_part + id_part + method_part + params_part + result_part + error_part, topic_part, k);
    lemma_lookup_concat(kind_part + id_part + method_part + params_part + result_part, error_part, k);
    lemma_lookup_concat(kind_part + id_part + method_part + params_part, result_part, k);
    lemma_lookup_concat(kind_part + id_part + method_part, params_part, k);
    lemma_lookup_concat(kind_part + id_part, method_part, k);
    lemma_lookup_concat(kind_part, id_part, k);
    lemma_lookup_one(("kind"@, Json::Str(kind_name(e.kind))), k);
    match e.id {
        Some(s) => lemma_lookup_one(("id"@, Json::Str(s)), k),
        None => {},
    }
    match e.method {
        Some(s) => lemma_lookup_one(("method"@, Json::Str(s)), k),
        None => {},
    }
    match e.params {
        Some(v) => lemma_lookup_one(("params"@, v), k),
        None => {},
    }
    match e.result {
        Some(v) => lemma_lookup_one(("result"@, v), k),
        None => {},
    }
    match e.error {
        Some(x) => lemma_lookup_one(("error"@, error_json(x)), k),
        None => {},
    }
    match e.topic {
        Some(s) => lemma_lookup_one(("topic"@, Json::Str(s)), k),
        None => {},
    }
    match e.payload {
        Some(v) => lemma_lookup_one(("payload"@, v), k),
        None => {},
    }
}

/// Encoding an envelope and decoding the result gives the envelope back.
pub proof fn lemma_round_trip(e: EnvelopeView)
    ensures
        decode(encode(e)) == Ok::<EnvelopeView, DecodeError>(e),
{
    lemma_names_distinct();
    lemma_encode_fields(e, "kind"@);
    lemma_encode_fields(e, "id"@);
    lemma_encode_fields(e, "method"@);
    lemma_encode_fields(e, "params"@);
    lemma_encode_fields(e, "result"@);
    lemma_encode_fields(e, "error"@);
    lemma_encode_fields(e, "topic"@);
    lemma_encode_fields(e, "payload"@);
    match e.error {
        Some(x) => {
            lemma_lookup_two(("code"@, code_json(x.code)), ("message"@, Json::Str(x.message)), "code"@);
            lemma_lookup_two(
                ("code"@, code_json(x.code)),
                ("message"@, Json::Str(x.message)),
                "message"@,
            );
        },
        None => {},
    }
}


/// The wire name of a kind.
pub fn kind_text(k: Kind) -> (r: String)
    ensures
        r@ == kind_name(k),
{
    match k {
        Kind::Request => owned("request"),
        Kind::Response => owned("response"),
        Kind::Event => owned("event"),
    }
}

/// The kind that a wire name names.
pub fn kind_from_text(s: &str) -> (r: Option<Kind>)
    ensures
        r == kind_of_name(s@),
{
    if same_text(s, "request") {
        Some(Kind::Request)
    } else if same_text(s, "response") {
        Some(Kind::Response)
    } else if same_text(s, "event") {
        Some(Kind::Event)
    } else {
        None
    }
}

fn code_value(c: i32) -> (r: JsonValue)
    ensures
        r@ == code_json(c),
{
    if c >= 0 {
        JsonValue::UInt(c as u64)
    } else {
        JsonValue::NegInt(c as i64)
    }
}

fn error_value(e: &RpcError) -> (r: JsonValue)
    ensures
        r@ == error_json(e@),
{
    let mut entries: Vec<(String, JsonValue)> = Vec::new();
    push_entry(&mut entries, "code", code_value(e.code));
    push_entry(&mut entries, "message", JsonValue::Str(owned(e.message.as_str())));
    proof {
        lemma_object_model(entries);
        assert(entries_model(entries@) =~= seq![
            ("code"@, code_json(e.code)),
            ("message"@, Json::Str(e.message@)),
        ]);
    }
    JsonValue::Object(entries)
}

/// The structured value that stands for an envelope: `kind` first, then each present field.
pub fn to_json(env: &Envelope) -> (r: JsonValue)
    ensures
        r@ == encode(env@),
{
    let e = Ghost(env@);
    let mut entries: Vec<(String, JsonValue)> = Vec::new();
    push_entry(&mut entries, "kind", JsonValue::Str(kind_text(env.kind)));
    let ghost acc = seq![("kind"@, Json::Str(kind_name(env.kind)))];
    assert(entries_model(entries@) =~= acc);
    match &env.id {
        Some(s) => push_entry(&mut entries, "id", JsonValue::Str(owned(s.as_str()))),
        None => {},
    }
    proof {
        acc = acc + text_entry("id"@, e@.id);
        assert(entries_model(entries@) =~= acc);
    }
    match &env.method {
        Some(s) => push_entry(&mut entries, "method", JsonValue::Str(owned(s.as_str()))),
        None => {},
    }
    proof {
        acc = acc + text_entry("method"@, e@.method);
        assert(entries_model(entries@) =~= acc);
    }
    match &env.params {
        Some(v) => push_entry(&mut entries, "params", v.deep_clone()),
        None => {},
    }
    proof {
        acc = acc + value_entry("params"@, e@.params);
        assert(entries_model(entries@) =~= acc);
    }
    match &env.result {
        Some(v) => push_entry(&mut entries, "result", v.deep_clone()),
        None => {},
    }
    proof {
        acc = acc + value_entry("result"@, e@.result);
        assert(entries_model(entries@) =~= acc);
    }
    match &env.error {
        Some(x) => push_entry(&mut entries, "error", error_value(x)),
        None => {},
    }
    proof {
        acc = acc + error_entry(e@.error);
        assert(entries_model(entries@) =~= acc);
    }
    match &env.topic {
        Some(s) => push_entry(&mut entries, "topic", JsonValue::Str(owned(s.as_str()))),
        None => {},
    }
    proof {
        acc = acc + text_entry("topic"@, e@.topic);
        assert(entries_model(entries@) =~= acc);
    }
    match &env.payload {
        Some(v) => push_entry(&mut entries, "payload", v.deep_clone()),
        None => {},
    }
    proof {
        acc = acc + value_entry("payload"@, e@.payload);
        assert(entries_model(entries@) =~= acc);
        lemma_object_model(entries);
    }
    JsonValue::Object(entries)
}

fn read_text_field(v: &JsonValue, name: &str) -> (r: Option<Option<String>>)
    ensures
        match r {
            None => text_field(v@.field(name@)) is None,
            Some(o) => text_field(v@.field(name@)) == Some(opt_text(o)),
        },
{
    match v.get(name) {
        None => Some(None),
        Some(JsonValue::Null) => Some(None),
        Some(JsonValue::Str(s)) => Some(Some(owned(s.as_str()))),
        Some(_) => None,
    }
}

fn read_value_field(v: &JsonValue, name: &str) -> (r: Option<JsonValue>)
    ensures
        opt_json(r) == v@.field(name@),
{
    match v.get(name) {
        None => None,
        Some(x) => Some(x.deep_clone()),
    }
}

fn read_code(j: &JsonValue) -> (r: Option<i32>)
    ensures
        r == code_of(j@),
{
    match j {
        JsonValue::UInt(n) => if *n <= i32::MAX as u64 {
            Some(*n as i32)
        } else {
            None
        },
        JsonValue::NegInt(n) => if *n >= i32::MIN as i64 {
            Some(*n as i32)
        } else {
            None
        },
        _ => None,
    }
}

fn read_error_field(v: &JsonValue) -> (r: Option<Option<RpcError>>)
    ensures
        match r {
            None => error_field(v@.field("error"@)) is None,
            Some(None) => error_field(v@.field("error"@)) == Some(None::<ErrorView>),
            Some(Some(x)) => error_field(v@.field("error"@)) == Some(Some(x@)),
        },
{
    match v.get("error") {
        None => Some(None),
        Some(JsonValue::Null) => Some(None),
        Some(j) => match (j.get("code"), j.get("message")) {
            (Some(c), Some(JsonValue::Str(m))) => match read_code(c) {
                Some(code) => Some(Some(RpcError { code, message: owned(m.as_str()) })),
                None => None,
            },
            _ => None,
        },
    }
}

/// The envelope that a structured value stands for.
pub fn from_json(v: &JsonValue) -> (r: Result<Envelope, DecodeError>)
    ensures
        match r {
            Ok(e) => decode(v@) == Ok::<EnvelopeView, DecodeError>(e@),
            Err(x) => decode(v@) == Err::<EnvelopeView, DecodeError>(x),
        },
{
    let kind = match v.get("kind") {
        Some(JsonValue::Str(s)) => kind_from_text(s.as_str()),
        _ => None,
    };
    let id = read_text_field(v, "id");
    let method = read_text_field(v, "method");
    let error = read_error_field(v);
    let topic = read_text_field(v, "topic");
    match v {
        JsonValue::Object(_) => {},
        _ => {
            return Err(DecodeError::NotAnObject);
        },
    }
    let kind = match kind {
        Some(k) => k,
        None => {
            return Err(DecodeError::BadKind);
        },
    };
    match (id, method, error, topic) {
        (Some(id), Some(method), Some(error), Some(topic)) => {
            let params = read_value_field(v, "params");
            let result = read_value_field(v, "result");
            let payload = read_value_field(v, "payload");
            Ok(Envelope { id, kind, method, params, result, error, topic, payload })
        },
        _ => Err(DecodeError::BadField),
    }
}

// ---------------------------------------------------------------------------
// Line framing
// ---------------------------------------------------------------------------

/// Why a line read from a plugin holds no envelope text.
#[derive(Debug, Clone, Copy, PartialEq, Eq, Structural)]
pub enum FrameError {
    /// The read returned nothing: the other side closed its end.
    ClosedPipe,
    /// The line holds only white space.
    BlankLine,
}

/// What one read of a line yields: its text without surrounding white space.
pub open spec fn frame_of(line: Seq<char>) -> Result<Seq<char>, FrameError> {
    if line.len() == 0 {
        Err(FrameError::ClosedPipe)
    } else if trimmed(line).len() == 0 {
        Err(FrameError::BlankLine)
    } else {
        Ok(trimmed(line))
    }
}

/// Takes the text of one envelope out of a line as it was read, terminator included.
/// An empty read is the end of the stream.
pub fn read_frame(line: &str) -> (r: Result<String, FrameError>)
    ensures
        match r {
            Ok(s) => frame_of(line@) == Ok::<Seq<char>, FrameError>(s@),
            Err(x) => frame_of(line@) == Err::<Seq<char>, FrameError>(x),
        },
{
    if line.unicode_len() == 0 {
        return Err(FrameError::ClosedPipe);
    }
    let t = trim_text(line);
    if t.as_str().unicode_len() == 0 {
        Err(FrameError::BlankLine)
    } else {
        Ok(t)
    }
}

/// The line that carries an envelope's text: the text and one line feed. Text that itself
/// holds a line feed cannot be framed.
pub fn frame_line(text: &str) -> (r: Option<String>)
    ensures
        r is Some <==> !text@.contains('\n'),
        r is Some ==> r->0@ == text@.push('\n'),
{
    let n = text.unicode_len();
    let mut i: usize = 0;
    while i < n
        invariant
            n == text@.len(),
            i <= n,
            forall|j: int| 0 <= j < i ==> text@[j] != '\n',
        decreases n - i,
    {
        if text.get_char(i) == '\n' {
            return None;
        }
        i = i + 1;
    }
    let mut r = owned(text);
    push_char(&mut r, '\n');
    Some(r)
}

/// The stream that frames `texts`, one after another.
pub open spec fn joined(texts: Seq<Seq<char>>) -> Seq<char>
    decreases texts.len(),
{
    if texts.len() == 0 {
        Seq::empty()
    } else {
        texts[0].push('\n') + joined(texts.drop_first())
    }
}

/// The position of the first line feed.
pub open spec fn first_newline(s: Seq<char>) -> Option<int>
    decreases s.len(),
{
    if s.len() == 0 {
        None
    } else if s[0] == '\n' {
        Some(0)
    } else {
        match first_newline(s.drop_first()) {
            Some(i) => Some(i + 1),
            None => None,
        }
    }
}

/// A stream cut at each line feed; a last piece without one is a line of its own.
pub open spec fn split_lines(s: Seq<char>) -> Seq<Seq<char>>
    decreases s.len(),
{
    if s.len() == 0 {
        Seq::empty()
    } else {
        match first_newline(s) {
            Some(i) => if 0 <= i < s.len() {
                seq![s.take(i)] + split_lines(s.skip(i + 1))
            } else {
                seq![s]
            },
            None => seq![s],
        }
    }
}

proof fn lemma_first_newline_of_frame(t: Seq<char>, rest: Seq<char>)
    requires
        !t.contains('\n'),
    ensures
        first_newline(t.push('\n') + rest) == Some(t.len() as int),
    decreases t.len(),
{
    let s = t.push('\n') + rest;
    if t.len() == 0 {
        assert(s[0] == '\n');
    } else {
        assert(s[0] == t[0]);
        assert(s.drop_first() =~= t.drop_first().push('\n') + rest);
        assert(!t.drop_first().contains('\n')) by {
            if t.drop_first().contains('\n') {
                let k = choose|k: int| 0 <= k < t.drop_first().len() && t.drop_first()[k] == '\n';
                assert(t[k + 1] == '\n');
            }
        }
        lemma_first_newline_of_frame(t.drop_first(), rest);
    }
}

/// Whole frames written one after another split back into exactly the framed texts: the
/// characters of one envelope never mix with those of another.
pub proof fn lemma_frames_split_back(texts: Seq<Seq<char>>)
    requires
        forall|i: int| 0 <= i < texts.len() ==> !(#[trigger] texts[i]).contains('\n'),
    ensures
        split_lines(joined(texts)) == texts,
    decreases texts.len(),
{
    if texts.len() > 0 {
        let t = texts[0];
        let rest = joined(texts.drop_first());
        let s = t.push('\n') + rest;
        lemma_first_newline_of_frame(t, rest);
        assert(s.take(t.len() as int) =~= t);
        assert(s.skip(t.len() as int + 1) =~= rest);
        assert forall|i: int| 0 <= i < texts.drop_first().len() implies !(
        #[trigger] texts.drop_first()[i]).contains('\n') by {
            assert(texts.drop_first()[i] == texts[i + 1]);
        }
        lemma_frames_split_back(texts.drop_first());
        assert(split_lines(s) == seq![t] + split_lines(rest));
        assert(seq![t] + texts.drop_first() =~= texts);
    } else {
        assert(texts =~= Seq::<Seq<char>>::empty());
    }
}

} // verus!
