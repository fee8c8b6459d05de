use vstd::prelude::*;

use crate::envelope::{Envelope, EnvelopeView, ErrorView, Kind, RpcError, opt_json};
use crate::json::{Json, JsonValue, lemma_array_model, ok_ack};
use crate::log::{LogEntry, level_of};
use crate::storage::Storage;
use crate::subscriptions::{SubscriptionSet, json_texts, lemma_texts_model};
use crate::text::{append_text, owned, same_text};
use crate::timer::{TimerParams, timer_request};

verus! {

/// Code of the error answer to a request for a method the host does not offer.
pub const UNKNOWN_METHOD_CODE: i32 = -32601;

/// Code of the error answer to a request whose parameters lack what its method needs.
pub const INVALID_PARAMS_CODE: i32 = -32602;

/// Work that answering a request hands to the host, beyond the response itself.
#[derive(Debug, PartialEq, Eq)]
pub enum HostAction {
    /// Record an entry in the host's logging sink.
    Log(LogEntry),
    /// Start a timer that sends `timer.tick` events to the plugin. A second request with the
    /// same timer id starts a second timer beside the first.
    StartTimer(TimerParams),
    /// Write the plugin's stored values to disk.
    Persist,
}

/// The answer to a request from a plugin.
#[derive(Debug, PartialEq)]
pub struct Reply {
    pub response: Envelope,
    pub action: Option<HostAction>,
}

/// The response `{"ok": true}` to request `id`.
pub open spec fn ok_response(id: Seq<char>) -> EnvelopeView {
    EnvelopeView {
        id: Some(id),
        kind: Kind::Response,
        method: None,
        params: None,
        result: Some(Json::Object(seq![("ok"@, Json::Bool(true))])),
        error: None,
        topic: None,
        payload: None,
    }
}

/// The response to request `id` with result `v`.
pub open spec fn result_response(id: Seq<char>, v: Json) -> EnvelopeView {
    EnvelopeView {
        id: Some(id),
        kind: Kind::Response,
        method: None,
        params: None,
        result: Some(v),
        error: None,
        topic: None,
        payload: None,
    }
}

/// The error response to request `id` whose parameters lack what its method needs.
pub open spec fn invalid_params_response(id: Seq<char>) -> EnvelopeView {
    EnvelopeView {
        id: Some(id),
        kind: Kind::Response,
        method: None,
        params: None,
        result: None,
        error: Some(ErrorView { code: INVALID_PARAMS_CODE, message: "invalid params"@ }),
        topic: None,
        payload: None,
    }
}

/// The text `key` of a storage request.
pub open spec fn requested_key(p: Option<Json>) -> Option<Seq<char>> {
    match p {
        Some(j) => match j.field("key"@) {
            Some(Json::Str(k)) => Some(k),
            _ => None,
        },
        None => None,
    }
}

/// The `value` of a `storage.put` request; `null` when there is none.
pub open spec fn requested_value(p: Option<Json>) -> Json {
    match p {
        Some(j) => match j.field("value"@) {
            Some(v) => v,
            None => Json::Null,
        },
        None => Json::Null,
    }
}

/// The error response to request `id` for a method the host does not offer.
pub open spec fn unknown_method_response(id: Seq<char>, method: Seq<char>) -> EnvelopeView {
    EnvelopeView {
        id: Some(id),
        kind: Kind::Response,
        method: None,
        params: None,
        result: None,
        error: Some(ErrorView { code: UNKNOWN_METHOD_CODE, message: "unknown method "@ + method }),
        topic: None,
        payload: None,
    }
}

/// The level and message of a `log.write` request, when both are texts.
pub open spec fn log_request(p: Option<Json>) -> Option<(Seq<char>, Seq<char>)> {
    match p {
        Some(j) => match (j.field("level"@), j.field("message"@)) {
            (Some(Json::Str(l)), Some(Json::Str(m))) => Some((l, m)),
            _ => None,
        },
        None => None,
    }
}

/// The topics named by an `event.subscribe` request.
pub open spec fn requested_topics(p: Option<Json>) -> Set<Seq<char>> {
    match p {
        Some(j) => match j.field("topics"@) {
            Some(Json::Array(items)) => json_texts(items),
            _ => Set::empty(),
        },
        None => Set::empty(),
    }
}

/// The timer asked for by a `timer.set_interval` request.
pub open spec fn requested_timer(p: Option<Json>) -> Option<(Seq<char>, u64)> {
    match p {
        Some(j) => timer_request(j),
        None => None,
    }
}

/// Whether `a` is the log action for the request `req`.
pub open spec fn is_log_action(a: Option<HostAction>, req: Option<(Seq<char>, Seq<char>)>) -> bool {
    match req {
        Some((l, m)) => match a {
            Some(HostAction::Log(e)) => e.level == level_of(l) && e.message@ == m,
            _ => false,
        },
        None => a is None,
    }
}

/// Whether `a` is the timer action for the request `req`.
pub open spec fn is_timer_action(a: Option<HostAction>, req: Option<(Seq<char>, u64)>) -> bool {
    match req {
        Some((id, ms)) => match a {
            Some(HostAction::StartTimer(t)) => t.id@ == id && t.millis == ms,
            _ => false,
        },
        None => a is None,
    }
}

/// What answering request `id` for `method` with `params` does: the reply, and the
/// subscription set and stored values before and after.
pub open spec fn answers(
    before: Set<Seq<char>>,
    after: Set<Seq<char>>,
    stored_before: Map<Seq<char>, Json>,
    stored_after: Map<Seq<char>, Json>,
    id: Seq<char>,
    method: Seq<char>,
    params: Option<Json>,
    r: Reply,
) -> bool {
    if method == "storage.put"@ {
        &&& after == before
        &&& match requested_key(params) {
            Some(k) => {
                &&& r.response@ == ok_response(id)
                &&& stored_after == stored_before.insert(k, requested_value(params))
                &&& r.action == Some(HostAction::Persist)
            },
            None => {
                &&& r.response@ == invalid_params_response(id)
                &&& stored_after == stored_before
                &&& r.action is None
            },
        }
    } else {
        &&& stored_after == stored_before
        &&& if method == "log.write"@ {
            &&& r.response@ == ok_response(id)
            &&& after == before
            &&& is_log_action(r.action, log_request(params))
        } else if method == "event.subscribe"@ {
            &&& r.response@ == ok_response(id)
            &&& after == before.union(requested_topics(params))
            &&& r.action is None
        } else if method == "timer.set_interval"@ {
            &&& r.response@ == ok_response(id)
            &&& after == before
            &&& is_timer_action(r.action, requested_timer(params))
        } else if method == "storage.get"@ {
            &&& after == before
            &&& r.action is None
            &&& r.response@ == match requested_key(params) {
                Some(k) => result_response(
                    id,
                    if stored_before.contains_key(k) {
                        stored_before[k]
                    } else {
                        Json::Null
                    },
                ),
                None => invalid_params_response(id),
            }
        } else {
            &&& r.response@ == unknown_method_response(id, method)
            &&& after == before
            &&& r.action is None
        }
    }
}

fn invalid_params(id: String) -> (r: Envelope)
    ensures
        r@ == invalid_params_response(id@),
{
    Envelope::response_err(Some(id), RpcError { code: INVALID_PARAMS_CODE, message: owned("invalid params") })
}

proof fn lemma_method_names_distinct()
    ensures
        "storage.put"@ != "log.write"@,
        "storage.put"@ != "event.subscribe"@,
        "storage.put"@ != "timer.set_interval"@,
        "storage.put"@ != "storage.get"@,
{
    reveal_strlit("storage.put");
    reveal_strlit("storage.get");
    reveal_strlit("log.write");
    reveal_strlit("event.subscribe");
    reveal_strlit("timer.set_interval");
    assert("storage.put"@.len() == 11 && "storage.put"@[8] == 'p');
    assert("storage.get"@.len() == 11 && "storage.get"@[8] == 'g');
    assert("log.write"@.len() == 9);
    assert("event.subscribe"@.len() == 15);
    assert("timer.set_interval"@.len() == 18);
}

/// Answers a request that a plugin sent to one of the host's services. Every request gets
/// exactly one response, with the request's id.
pub fn handle_request(
    subs: &mut SubscriptionSet,
    store: &mut Storage,
    id: String,
    method: &str,
    params: Option<JsonValue>,
) -> (r: Reply)
    requires
        old(subs).wf(),
        old(store).wf(),
    ensures
        final(subs).wf(),
        final(store).wf(),
        answers(old(subs)@, final(subs)@, old(store)@, final(store)@, id@, method@, opt_json(params), r),
{
    proof {
        lemma_method_names_distinct();
    }
    if same_text(method, "log.write") {
        let action = match &params {
            Some(p) => match (p.get("level"), p.get("message")) {
                (Some(JsonValue::Str(l)), Some(JsonValue::Str(m))) => Some(
                    HostAction::Log(crate::log::write(l.as_str(), m.as_str())),
                ),
                _ => None,
            },
            None => None,
        };
        Reply { response: Envelope::response_ok(Some(id), ok_ack()), action }
    } else if same_text(method, "event.subscribe") {
        match &params {
            Some(p) => match p.get("topics") {
                Some(t) => match t.as_array() {
                    Some(items) => {
                        proof {
                            lemma_array_model(*items);
                            lemma_texts_model(items@);
                        }
                        subs.subscribe(items);
                    },
                    None => {
                        assert(subs@.union(Set::empty()) =~= subs@);
                    },
                },
                None => {
                    assert(subs@.union(Set::empty()) =~= subs@);
                },
            },
            None => {
                assert(subs@.union(Set::empty()) =~= subs@);
            },
        }
        Reply { response: Envelope::response_ok(Some(id), ok_ack()), action: None }
    } else if same_text(method, "timer.set_interval") {
        let action = match &params {
            Some(p) => match TimerParams::from_params(p) {
                Some(t) => Some(HostAction::StartTimer(t)),
                None => None,
            },
            None => None,
        };
        Reply { response: Envelope::response_ok(Some(id), ok_ack()), action }
    } else if same_text(method, "storage.get") {
        let key = match &params {
            Some(p) => match p.get("key") {
                Some(JsonValue::Str(k)) => Some(k),
                _ => None,
            },
            None => None,
        };
        match key {
            Some(k) => {
                let value = match store.get(k.as_str()) {
                    Some(v) => v,
                    None => JsonValue::Null,
                };
                Reply { response: Envelope::response_ok(Some(id), value), action: None }
            },
            None => Reply { response: invalid_params(id), action: None },
        }
    } else if same_text(method, "storage.put") {
        let key = match &params {
            Some(p) => match p.get("key") {
                Some(JsonValue::Str(k)) => Some(owned(k.as_str())),
                _ => None,
            },
            None => None,
        };
        match key {
            Some(k) => {
                let value = match &params {
                    Some(p) => match p.get("value") {
                        Some(v) => v.deep_clone(),
                        None => JsonValue::Null,
                    },
                    None => JsonValue::Null,
                };
                store.put(k, value);
                Reply {
                    response: Envelope::response_ok(Some(id), ok_ack()),
                    action: Some(HostAction::Persist),
                }
            },
            None => Reply { response: invalid_params(id), action: None },
        }
    } else {
        let mut message = owned("unknown method ");
        append_text(&mut message, method);
        let error = RpcError { code: UNKNOWN_METHOD_CODE, message };
        Reply { response: Envelope::response_err(Some(id), error), action: None }
    }
}

} // verus!
