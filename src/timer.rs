use vstd::prelude::*;

use crate::envelope::{Envelope, EnvelopeView, Kind};
use crate::json::{Json, JsonValue, entries_model, lemma_object_model, push_entry};
use crate::text::owned;

verus! {

/// Parameters of a `timer.set_interval` request.
#[derive(Debug, PartialEq, Eq)]
pub struct TimerParams {
    pub id: String,
    pub millis: u64,
}

/// The timer that request parameters ask for: a text `id` and a positive whole number of
/// milliseconds `millis`. Any other parameters start no timer.
pub open spec fn timer_request(p: Json) -> Option<(Seq<char>, u64)> {
    match (p.field("id"@), p.field("millis"@)) {
        (Some(Json::Str(id)), Some(Json::UInt(ms))) => if ms > 0 {
            Some((id, ms))
        } else {
            None
        },
        _ => None,
    }
}

impl TimerParams {
    /// Reads the timer that request parameters ask for.
    pub fn from_params(params: &JsonValue) -> (r: Option<TimerParams>)
        ensures
            match r {
                Some(t) => timer_request(params@) == Some((t.id@, t.millis)),
                None => timer_request(params@) is None,
            },
    {
        match (params.get("id"), params.get("millis")) {
            (Some(JsonValue::Str(id)), Some(JsonValue::UInt(ms))) => if *ms > 0 {
                Some(TimerParams { id: owned(id.as_str()), millis: *ms })
            } else {
                None
            },
            _ => None,
        }
    }
}

/// The payload `{"id": .., "now_ms": ..}` of a tick.
pub open spec fn tick_payload(id: Seq<char>, now_ms: u64) -> Json {
    Json::Object(seq![("id"@, Json::Str(id)), ("now_ms"@, Json::UInt(now_ms))])
}

/// The event that a timer sends on each tick.
pub open spec fn tick_view(id: Seq<char>, now_ms: u64) -> EnvelopeView {
    EnvelopeView {
        id: None,
        kind: Kind::Event,
        method: None,
        params: None,
        result: None,
        error: None,
        topic: Some("timer.tick"@),
        payload: Some(tick_payload(id, now_ms)),
    }
}

/// The `timer.tick` event of timer `timer_id` at wall-clock time `now_ms`.
pub fn tick_event(timer_id: &str, now_ms: u64) -> (r: Envelope)
    ensures
        r@ == tick_view(timer_id@, now_ms),
{
    let mut entries: Vec<(String, JsonValue)> = Vec::new();
    push_entry(&mut entries, "id", JsonValue::Str(owned(timer_id)));
    push_entry(&mut entries, "now_ms", JsonValue::UInt(now_ms));
    proof {
        lemma_object_model(entries);
        assert(entries_model(entries@) =~= seq![
            ("id"@, Json::Str(timer_id@)),
            ("now_ms"@, Json::UInt(now_ms)),
        ]);
    }
    Envelope::event(owned("timer.tick"), Some(JsonValue::Object(entries)))
}

} // verus!
