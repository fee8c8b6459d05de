use vstd::prelude::*;

use crate::json::{Json, JsonValue};

verus! {

/// Kind of envelope used in the protocol.
#[derive(Debug, Clone, Copy, PartialEq, Eq, Structural)]
pub enum Kind {
    Request,
    Response,
    Event,
}

/// Error object carried by a failed response.
#[derive(Debug, PartialEq, Eq)]
pub struct RpcError {
    pub code: i32,
    pub message: String,
}

/// The single message shape exchanged between the host and a plugin.
#[derive(Debug, PartialEq)]
pub struct Envelope {
    pub id: Option<String>,
    pub kind: Kind,
    pub method: Option<String>,
    pub params: Option<JsonValue>,
    pub result: Option<JsonValue>,
    pub error: Option<RpcError>,
    pub topic: Option<String>,
    pub payload: Option<JsonValue>,
}

/// Metadata a plugin sends with `plugin.init`.
#[derive(Debug, PartialEq, Eq, Clone)]
pub struct Metadata {
    pub id: String,
    pub name: String,
    pub version: String,
    pub needs: Vec<String>,
}

/// Model of an [`RpcError`].
pub struct ErrorView {
    pub code: i32,
    pub message: Seq<char>,
}

/// Model of an [`Envelope`].
pub struct EnvelopeView {
    pub id: Option<Seq<char>>,
    pub kind: Kind,
    pub method: Option<Seq<char>>,
    pub params: Option<Json>,
    pub result: Option<Json>,
    pub error: Option<ErrorView>,
    pub topic: Option<Seq<char>>,
    pub payload: Option<Json>,
}

pub open spec fn opt_text(o: Option<String>) -> Option<Seq<char>> {
    match o {
        Some(s) => Some(s@),
        None => None,
    }
}

pub open spec fn opt_json(o: Option<JsonValue>) -> Option<Json> {
    match o {
        Some(v) => Some(v@),
        None => None,
    }
}

impl View for RpcError {
    type V = ErrorView;

    open spec fn view(&self) -> ErrorView {
        ErrorView { code: self.code, message: self.message@ }
    }
}

impl View for Envelope {
    type V = EnvelopeView;

    open spec fn view(&self) -> EnvelopeView {
        EnvelopeView {
            id: opt_text(self.id),
            kind: self.kind,
            method: opt_text(self.method),
            params: opt_json(self.params),
            result: opt_json(self.result),
            error: match self.error {
                Some(e) => Some(e@),
                None => None,
            },
            topic: opt_text(self.topic),
            payload: opt_json(self.payload),
        }
    }
}

// ---------------------------------------------------------------------------
// Shapes
// ---------------------------------------------------------------------------

/// A request names its id and its method.
pub open spec fn is_request_shape(e: EnvelopeView) -> bool {
    e.kind == Kind::Request && e.id is Some && e.method is Some
}

/// A response names its id and carries exactly one of a result and an error.
pub open spec fn is_response_shape(e: EnvelopeView) -> bool {
    e.kind == Kind::Response && e.id is Some && (e.result is Some != e.error is Some)
}

/// An event names its topic.
pub open spec fn is_event_shape(e: EnvelopeView) -> bool {
    e.kind == Kind::Event && e.topic is Some
}

pub open spec fn valid_shape(e: EnvelopeView) -> bool {
    is_request_shape(e) || is_response_shape(e) || is_event_shape(e)
}

/// An envelope sorted by kind, holding only the fields that its kind uses.
#[derive(Debug, PartialEq)]
pub enum Message {
    Request { id: String, method: String, params: Option<JsonValue> },
    Response { id: String, outcome: Result<JsonValue, RpcError> },
    Event { topic: String, payload: Option<JsonValue> },
}

/// Why an envelope has none of the three valid shapes.
#[derive(Debug, Clone, Copy, PartialEq, Eq, Structural)]
pub enum ShapeError {
    MissingId,
    MissingMethod,
    MissingTopic,
    /// A response with both a result and an error.
    AmbiguousOutcome,
    /// A response with neither a result nor an error.
    MissingOutcome,
}

/// What [`classify`] answers for an envelope of the given model.
pub open spec fn shape_error(e: EnvelopeView) -> Option<ShapeError> {
    match e.kind {
        Kind::Request => if e.id is None {
            Some(ShapeError::MissingId)
        } else if e.method is None {
            Some(ShapeError::MissingMethod)
        } else {
            None
        },
        Kind::Response => if e.id is None {
            Some(ShapeError::MissingId)
        } else if e.result is Some && e.error is Some {
            Some(ShapeError::AmbiguousOutcome)
        } else if e.result is None && e.error is None {
            Some(ShapeError::MissingOutcome)
        } else {
            None
        },
        Kind::Event => if e.topic is None {
            Some(ShapeError::MissingTopic)
        } else {
            None
        },
    }
}

/// Whether `m` holds exactly the fields of envelope `e` that its kind uses.
pub open spec fn message_of(e: EnvelopeView, m: Message) -> bool {
    match m {
        Message::Request { id, method, params } => e.kind == Kind::Request && e.id == Some(id@)
            && e.method == Some(method@) && e.params == opt_json(params),
        Message::Response { id, outcome } => e.kind == Kind::Response && e.id == Some(id@) && match
            outcome {
            Ok(v) => e.result == Some(v@) && e.error is None,
            Err(x) => e.error == Some(x@) && e.result is None,
        },
        Message::Event { topic, payload } => e.kind == Kind::Event && e.topic == Some(topic@)
            && e.payload == opt_json(payload),
    }
}

/// Each envelope has at most one of the three shapes, and a valid envelope exactly one.
pub proof fn lemma_one_shape(e: EnvelopeView)
    ensures
        !(is_request_shape(e) && is_response_shape(e)),
        !(is_request_shape(e) && is_event_shape(e)),
        !(is_response_shape(e) && is_event_shape(e)),
        valid_shape(e) <==> shape_error(e) is None,
{
}

/// Sorts an envelope by kind; an envelope without the fields its kind requires is refused.
pub fn classify(env: Envelope) -> (r: Result<Message, ShapeError>)
    ensures
        match r {
            Ok(m) => shape_error(env@) is None && message_of(env@, m),
            Err(x) => shape_error(env@) == Some(x),
        },
{
    let Envelope { id, kind, method, params, result, error, topic, payload } = env;
    match kind {
        Kind::Request => match id {
            None => Err(ShapeError::MissingId),
            Some(id) => match method {
                None => Err(ShapeError::MissingMethod),
                Some(method) => Ok(Message::Request { id, method, params }),
            },
        },
        Kind::Response => match id {
            None => Err(ShapeError::MissingId),
            Some(id) => match (result, error) {
                (Some(v), None) => Ok(Message::Response { id, outcome: Ok(v) }),
                (None, Some(x)) => Ok(Message::Response { id, outcome: Err(x) }),
                (None, None) => Err(ShapeError::MissingOutcome),
                (Some(_), Some(_)) => Err(ShapeError::AmbiguousOutcome),
            },
        },
        Kind::Event => match topic {
            None => Err(ShapeError::MissingTopic),
            Some(topic) => Ok(Message::Event { topic, payload }),
        },
    }
}

// ---------------------------------------------------------------------------
// Constructors
// ---------------------------------------------------------------------------

impl Envelope {
    /// A request with the given id, method and parameters.
    pub fn request(id: String, method: String, params: Option<JsonValue>) -> (r: Envelope)
        ensures
            r@ == (EnvelopeView {
                id: Some(id@),
                kind: Kind::Request,
                method: Some(method@),
                params: opt_json(params),
                result: None,
                error: None,
                topic: None,
                payload: None,
            }),
    {
        Envelope {
            id: Some(id),
            kind: Kind::Request,
            method: Some(method),
            params,
            result: None,
            error: None,
            topic: None,
            payload: None,
        }
    }

    /// A successful response to request `id`.
    pub fn response_ok(id: Option<String>, result: JsonValue) -> (r: Envelope)
        ensures
            r@ == (EnvelopeView {
                id: opt_text(id),
                kind: Kind::Response,
                method: None,
                params: None,
                result: Some(result@),
                error: None,
                topic: None,
                payload: None,
            }),
    {
        Envelope {
            id,
            kind: Kind::Response,
            method: None,
            params: None,
            result: Some(result),
            error: None,
            topic: None,
            payload: None,
        }
    }

    /// A failed response to request `id`.
    pub fn response_err(id: Option<String>, error: RpcError) -> (r: Envelope)
        ensures
            r@ == (EnvelopeView {
                id: opt_text(id),
                kind: Kind::Response,
                method: None,
                params: None,
                result: None,
                error: Some(error@),
                topic: None,
                payload: None,
            }),
    {
        Envelope {
            id,
            kind: Kind::Response,
            method: None,
            params: None,
            result: None,
            error: Some(error),
            topic: None,
            payload: None,
        }
    }

    /// An event on `topic`.
    pub fn event(topic: String, payload: Option<JsonValue>) -> (r: Envelope)
        ensures
            r@ == (EnvelopeView {
                id: None,
                kind: Kind::Event,
                method: None,
                params: None,
                result: None,
                error: None,
                topic: Some(topic@),
                payload: opt_json(payload),
            }),
    {
        Envelope {
            id: None,
            kind: Kind::Event,
            method: None,
            params: None,
            result: None,
            error: None,
            topic: Some(topic),
            payload,
        }
    }
}

} // verus!
