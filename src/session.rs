use vstd::prelude::*;

use crate::dispatch::{Reply, answers, handle_request, ok_response};
use crate::envelope::{Envelope, EnvelopeView, Kind, Message, RpcError, ShapeError, classify, shape_error};
use crate::json::{Json, JsonValue, entries_model, lemma_array_model, lemma_object_model, items_model, ok_ack, push_entry};
use crate::manifest::PluginStatus;
use crate::storage::{Storage, stored_of};
use crate::table::KeyedTable;
use crate::subscriptions::SubscriptionSet;
use crate::text::{owned, same_text};
use crate::timer::{tick_event, tick_view};

verus! {

/// Where a plugin stands in its lifecycle.
#[derive(Debug, Clone, Copy, PartialEq, Eq, Structural)]
pub enum Phase {
    /// The child runs; nothing has been written to it yet.
    Spawned,
    /// `core.hello` was sent; `plugin.init` is awaited.
    AwaitInit,
    /// `plugin.init` was answered; `plugin.start` is awaited.
    AwaitStart,
    /// The handshake is complete.
    Running,
    /// The handshake failed or the plugin's output ended.
    Stopped,
}

/// Why a lifecycle step was refused.
#[derive(Debug, Clone, Copy, PartialEq, Eq, Structural)]
pub enum LifecycleError {
    /// The plugin sent something other than the request the handshake expects next.
    HandshakeViolation,
    /// The step does not belong to the plugin's current phase.
    WrongPhase,
}

/// Why a call to a plugin failed.
#[derive(Debug, PartialEq, Eq)]
pub enum CallError {
    PluginNotFound,
    PluginNotRunning,
    /// A call with the same id already awaits its response.
    DuplicateId,
    /// The plugin's output ended before the response came.
    ClosedPipe,
    /// The plugin answered with an error object.
    MethodError { code: i32, message: String },
}

/// What the reader loop does with one envelope from a running plugin.
#[derive(Debug)]
pub enum Incoming<T> {
    /// A request was answered: write the response, then perform the action, if any.
    Answer(Reply),
    /// A response resolved the slot of a waiting caller.
    Deliver(T, Result<JsonValue, RpcError>),
    /// A response whose id no caller awaits; it is discarded.
    Unmatched,
    /// An event from the plugin; the host has no use for it.
    Dropped,
    /// An envelope of none of the valid shapes; it is discarded.
    Rejected(ShapeError),
    /// The plugin is not running.
    NotRunning,
}

/// The error with which a call under `call_id` is refused by a plugin in session `s`, if it is.
pub open spec fn call_refusal<T>(s: PluginSession<T>, call_id: Seq<char>) -> Option<CallError> {
    if s.phase() == Phase::Stopped {
        Some(CallError::ClosedPipe)
    } else if s.phase() != Phase::Running {
        Some(CallError::PluginNotRunning)
    } else if s.pending().contains_key(call_id) {
        Some(CallError::DuplicateId)
    } else {
        None
    }
}

/// The `core.hello` event that opens the handshake.
pub open spec fn hello_view() -> EnvelopeView {
    EnvelopeView {
        id: None,
        kind: Kind::Event,
        method: None,
        params: None,
        result: None,
        error: None,
        topic: Some("core.hello"@),
        payload: Some(
            Json::Object(
                seq![
                    ("api_version"@, Json::Str("1"@)),
                    ("services"@, Json::Array(
                        seq![
                            Json::Str("log"@),
                            Json::Str("event"@),
                            Json::Str("timer"@),
                            Json::Str("storage"@),
                        ],
                    )),
                ],
            ),
        ),
    }
}

/// The `system.ready` event that closes the handshake.
pub open spec fn ready_view() -> EnvelopeView {
    EnvelopeView {
        id: None,
        kind: Kind::Event,
        method: None,
        params: None,
        result: None,
        error: None,
        topic: Some("system.ready"@),
        payload: None,
    }
}

pub open spec fn is_ready(e: EnvelopeView) -> bool {
    e.kind == Kind::Event && e.topic == Some("system.ready"@)
}

/// A timer tick or a request that the host originates.
pub open spec fn is_tick_or_call(e: EnvelopeView) -> bool {
    (e.kind == Kind::Event && e.topic == Some("timer.tick"@)) || e.kind == Kind::Request
}

/// The handshake came first on the wire: `core.hello`, two responses, then the one and only
/// `system.ready`, with no tick or host request before it.
pub open spec fn handshake_first(sent: Seq<EnvelopeView>) -> bool {
    &&& sent.len() >= 4
    &&& sent[0] == hello_view()
    &&& is_ready(sent[3])
    &&& forall|i: int| 0 <= i < sent.len() && i != 3 ==> !is_ready(#[trigger] sent[i])
    &&& forall|i: int| 0 <= i < 3 ==> !is_tick_or_call(#[trigger] sent[i])
}

/// A request that completes the current handshake step: a request with an id and the
/// expected method.
pub open spec fn is_handshake_request(e: EnvelopeView, method: Seq<char>) -> bool {
    e.kind == Kind::Request && e.id is Some && e.method == Some(method)
}

proof fn lemma_topics_distinct()
    ensures
        "system.ready"@ != "timer.tick"@,
        "system.ready"@ != "core.hello"@,
        "core.hello"@ != "timer.tick"@,
        "plugin.init"@ != "plugin.start"@,
{
    reveal_strlit("system.ready");
    reveal_strlit("timer.tick");
    reveal_strlit("core.hello");
    reveal_strlit("plugin.init");
    reveal_strlit("plugin.start");
    assert("system.ready"@.len() == 12);
    assert("timer.tick"@.len() == 10 && "timer.tick"@[0] == 't');
    assert("core.hello"@.len() == 10 && "core.hello"@[0] == 'c');
    assert("plugin.init"@.len() == 11);
    assert("plugin.start"@.len() == 12);
}

proof fn lemma_push_keeps_order(sent: Seq<EnvelopeView>, x: EnvelopeView)
    requires
        handshake_first(sent),
        !is_ready(x),
    ensures
        handshake_first(sent.push(x)),
{
    assert forall|i: int| 0 <= i < sent.len() + 1 && i != 3 implies !is_ready(
        #[trigger] sent.push(x)[i],
    ) by {
        if i < sent.len() {
            assert(sent.push(x)[i] == sent[i]);
        }
    }
    assert forall|i: int| 0 <= i < 3 implies !is_tick_or_call(#[trigger] sent.push(x)[i]) by {
        assert(sent.push(x)[i] == sent[i]);
    }
}

/// The host's state for one plugin process: its phase, the calls awaiting responses, its
/// subscriptions, and (as a ghost) every envelope the host has written to it.
pub struct PluginSession<T> {
    phase: Phase,
    pending: KeyedTable<T>,
    subscriptions: SubscriptionSet,
    storage: Storage,
    sent: Ghost<Seq<EnvelopeView>>,
}

impl<T> PluginSession<T> {
    pub closed spec fn phase(&self) -> Phase {
        self.phase
    }

    /// The calls awaiting a response, by request id.
    pub closed spec fn pending(&self) -> Map<Seq<char>, T> {
        self.pending@
    }

    pub closed spec fn subscriptions(&self) -> Set<Seq<char>> {
        self.subscriptions@
    }

    /// The plugin's stored values.
    pub closed spec fn stored(&self) -> Map<Seq<char>, Json> {
        self.storage@
    }

    /// Every envelope written to the plugin, in order.
    pub closed spec fn sent(&self) -> Seq<EnvelopeView> {
        self.sent@
    }

    pub closed spec fn wf(&self) -> bool {
        &&& self.pending.wf()
        &&& self.subscriptions.wf()
        &&& self.storage.wf()
        &&& self.phase != Phase::Running ==> self.pending@ == Map::<Seq<char>, T>::empty()
        &&& self.phase == Phase::Spawned ==> self.sent@.len() == 0
        &&& self.phase == Phase::AwaitInit ==> self.sent@ == seq![hello_view()]
        &&& self.phase == Phase::AwaitStart ==> self.sent@.len() == 2 && self.sent@[0]
            == hello_view() && self.sent@[1].kind == Kind::Response
        &&& self.phase == Phase::Running ==> handshake_first(self.sent@)
    }

    /// The state of a freshly spawned plugin.
    pub fn new() -> (r: Self)
        ensures
            r.wf(),
            r.phase() == Phase::Spawned,
            r.sent() == Seq::<EnvelopeView>::empty(),
            r.pending() == Map::<Seq<char>, T>::empty(),
            r.subscriptions() == Set::<Seq<char>>::empty(),
            r.stored() == Map::<Seq<char>, Json>::empty(),
    {
        PluginSession {
            phase: Phase::Spawned,
            pending: KeyedTable::new(),
            subscriptions: SubscriptionSet::new(),
            storage: Storage::new(),
            sent: Ghost(Seq::empty()),
        }
    }

    /// The status that the host reports for this plugin.
    pub fn status(&self) -> (r: PluginStatus)
        ensures
            r == (match self.phase() {
                Phase::Running => PluginStatus::Running,
                Phase::Stopped => PluginStatus::Stopped,
                _ => PluginStatus::Discovered,
            }),
    {
        match self.phase {
            Phase::Running => PluginStatus::Running,
            Phase::Stopped => PluginStatus::Stopped,
            _ => PluginStatus::Discovered,
        }
    }

    /// Whether the plugin has subscribed to `topic`.
    pub fn is_subscribed(&self, topic: &str) -> (r: bool)
        ensures
            r == self.subscriptions().contains(topic@),
    {
        self.subscriptions.contains(topic)
    }

    /// Puts the values stored on an earlier run in place, before the plugin starts.
    pub fn load_storage(&mut self, entries: Vec<(String, JsonValue)>)
        requires
            old(self).wf(),
        ensures
            final(self).wf(),
            final(self).stored() == stored_of(entries@),
            final(self).phase() == old(self).phase(),
            final(self).pending() == old(self).pending(),
            final(self).subscriptions() == old(self).subscriptions(),
            final(self).sent() == old(self).sent(),
    {
        self.storage = Storage::from_entries(entries);
    }

    /// A copy of the stored values, to be written to disk.
    pub fn stored_entries(&self) -> (r: Vec<(String, JsonValue)>)
        requires
            self.wf(),
        ensures
            forall|i: int|
                0 <= i < r@.len() ==> #[trigger] self.stored().contains_key(r@[i].0@)
                    && self.stored()[r@[i].0@] == r@[i].1@,
            forall|k: Seq<char>|
                #[trigger] self.stored().contains_key(k) ==> exists|i: int|
                    0 <= i < r@.len() && r@[i].0@ == k,
            forall|i: int, j: int| 0 <= i < j < r@.len() ==> r@[i].0@ != r@[j].0@,
    {
        self.storage.entries()
    }

    /// Opens the handshake: the `core.hello` event to write to a freshly spawned plugin.
    pub fn hello(&mut self) -> (r: Result<Envelope, LifecycleError>)
        requires
            old(self).wf(),
        ensures
            final(self).wf(),
            final(self).pending() == old(self).pending(),
            final(self).subscriptions() == old(self).subscriptions(),
            final(self).stored() == old(self).stored(),
            match r {
                Ok(e) => old(self).phase() == Phase::Spawned && e@ == hello_view() && final(self).phase() == Phase::AwaitInit && final(self).sent() == old(self).sent().push(e@),
                Err(x) => old(self).phase() != Phase::Spawned && x == LifecycleError::WrongPhase
                    && *final(self) == *old(self),
            },
    {
        if self.phase != Phase::Spawned {
            return Err(LifecycleError::WrongPhase);
        }
        let e = hello_event();
        self.phase = Phase::AwaitInit;
        self.sent = Ghost(self.sent@.push(e@));
        assert(self.sent@ =~= seq![hello_view()]);
        Ok(e)
    }

    /// Takes the next envelope of the handshake. `plugin.init` is answered with `{"ok": true}`;
    /// `plugin.start` too, followed by `system.ready`, and the plugin runs. Anything else
    /// stops the plugin.
    pub fn on_handshake(&mut self, env: Envelope) -> (r: Result<Vec<Envelope>, LifecycleError>)
        requires
            old(self).wf(),
        ensures
            final(self).wf(),
            old(self).phase() == Phase::AwaitInit ==> (if is_handshake_request(
                env@,
                "plugin.init"@,
            ) {
                r is Ok && r->Ok_0@.len() == 1 && r->Ok_0@[0]@ == ok_response(env@.id->0)
                    && final(self).phase() == Phase::AwaitStart && final(self).sent() == old(self).sent().push(r->Ok_0@[0]@)
            } else {
                r == Err::<Vec<Envelope>, LifecycleError>(LifecycleError::HandshakeViolation)
                    && final(self).phase() == Phase::Stopped && final(self).sent() == old(self).sent()
            }),
            old(self).phase() == Phase::AwaitStart ==> (if is_handshake_request(
                env@,
                "plugin.start"@,
            ) {
                r is Ok && r->Ok_0@.len() == 2 && r->Ok_0@[0]@ == ok_response(env@.id->0)
                    && r->Ok_0@[1]@ == ready_view() && final(self).phase() == Phase::Running
                    && final(self).sent() == old(self).sent().push(r->Ok_0@[0]@).push(
                    r->Ok_0@[1]@,
                )
            } else {
                r == Err::<Vec<Envelope>, LifecycleError>(LifecycleError::HandshakeViolation)
                    && final(self).phase() == Phase::Stopped && final(self).sent() == old(self).sent()
            }),
            old(self).phase() != Phase::AwaitInit && old(self).phase() != Phase::AwaitStart ==> r
                == Err::<Vec<Envelope>, LifecycleError>(LifecycleError::WrongPhase) && *final(self)
                == *old(self),
            final(self).subscriptions() == old(self).subscriptions(),
            final(self).stored() == old(self).stored(),
            final(self).pending() == old(self).pending(),
    {
        proof {
            lemma_topics_distinct();
        }
        let expected = match self.phase {
            Phase::AwaitInit => "plugin.init",
            Phase::AwaitStart => "plugin.start",
            _ => {
                return Err(LifecycleError::WrongPhase);
            },
        };
        let fits = match (&env.kind, &env.id, &env.method) {
            (Kind::Request, Some(_), Some(m)) => same_text(m.as_str(), expected),
            _ => false,
        };
        if !fits {
            self.phase = Phase::Stopped;
            return Err(LifecycleError::HandshakeViolation);
        }
        let id = env.id;
        let response = Envelope::response_ok(id, ok_ack());
        let mut out: Vec<Envelope> = Vec::new();
        self.sent = Ghost(self.sent@.push(response@));
        out.push(response);
        if self.phase == Phase::AwaitInit {
            self.phase = Phase::AwaitStart;
        } else {
            let ready = Envelope::event(owned("system.ready"), None);
            self.sent = Ghost(self.sent@.push(ready@));
            out.push(ready);
            self.phase = Phase::Running;
            assert(is_ready(self.sent@[3]));
            assert forall|i: int| 0 <= i < self.sent@.len() && i != 3 implies !is_ready(
                #[trigger] self.sent@[i],
            ) by {
                if i == 0 {
                    assert(self.sent@[0] == hello_view());
                }
            }
            assert forall|i: int| 0 <= i < 3 implies !is_tick_or_call(#[trigger] self.sent@[i]) by {
                if i == 0 {
                    assert(self.sent@[0] == hello_view());
                }
            }
        }
        Ok(out)
    }

    /// The plugin's output ended, could not be read, or held a malformed envelope: the plugin
    /// stops, and every waiting caller's slot is handed back to be failed.
    pub fn on_read_failure(&mut self) -> (r: Vec<T>)
        requires
            old(self).wf(),
        ensures
            final(self).wf(),
            final(self).phase() == Phase::Stopped,
            final(self).pending() == Map::<Seq<char>, T>::empty(),
            final(self).sent() == old(self).sent(),
            r@.len() == old(self).pending().dom().len(),
            final(self).subscriptions() == old(self).subscriptions(),
            final(self).stored() == old(self).stored(),
            forall|k: Seq<char>|
                old(self).pending().contains_key(k) ==> r@.contains(#[trigger] old(self).pending()[k]),
    {
        let slots = self.pending.drain();
        self.phase = Phase::Stopped;
        slots
    }

    /// Handles one envelope that a running plugin sent.
    pub fn on_envelope(&mut self, env: Envelope) -> (r: Incoming<T>)
        requires
            old(self).wf(),
        ensures
            final(self).wf(),
            final(self).phase() == old(self).phase(),
            old(self).phase() != Phase::Running ==> r is NotRunning && *final(self) == *old(self),
            old(self).phase() == Phase::Running ==> match r {
                Incoming::Answer(reply) => env@.kind == Kind::Request && shape_error(env@) is None
                    && answers(
                    old(self).subscriptions(),
                    final(self).subscriptions(),
                    old(self).stored(),
                    final(self).stored(),
                    env@.id->0,
                    env@.method->0,
                    env@.params,
                    reply,
                ) && final(self).pending() == old(self).pending() && final(self).sent() == old(self).sent().push(reply.response@),
                Incoming::Deliver(slot, outcome) => shape_error(env@) is None && env@.kind
                    == Kind::Response && match outcome {
                    Ok(v) => env@.result == Some(v@) && env@.error is None,
                    Err(x) => env@.error == Some(x@) && env@.result is None,
                } && old(self).pending().contains_key(env@.id->0)
                    && slot == old(self).pending()[env@.id->0]
                    && final(self).pending() == old(self).pending().remove(env@.id->0)
                    && final(self).sent() == old(self).sent()
                    && final(self).subscriptions() == old(self).subscriptions()
                    && final(self).stored() == old(self).stored(),
                Incoming::Unmatched => env@.kind == Kind::Response && shape_error(env@) is None
                    && !old(self).pending().contains_key(env@.id->0) && *final(self) == *old(self),
                Incoming::Dropped => env@.kind == Kind::Event && shape_error(env@) is None
                    && *final(self) == *old(self),
                Incoming::Rejected(x) => shape_error(env@) == Some(x) && *final(self) == *old(self),
                Incoming::NotRunning => false,
            },
    {
        if self.phase != Phase::Running {
            return Incoming::NotRunning;
        }
        match classify(env) {
            Err(x) => Incoming::Rejected(x),
            Ok(Message::Event { .. }) => Incoming::Dropped,
            Ok(Message::Request { id, method, params }) => {
                let reply = handle_request(
                    &mut self.subscriptions,
                    &mut self.storage,
                    id,
                    method.as_str(),
                    params,
                );
                proof {
                    lemma_push_keeps_order(self.sent@, reply.response@);
                }
                self.sent = Ghost(self.sent@.push(reply.response@));
                Incoming::Answer(reply)
            },
            Ok(Message::Response { id, outcome }) => {
                match self.pending.remove(id.as_str()) {
                    Some(slot) => Incoming::Deliver(slot, outcome),
                    None => Incoming::Unmatched,
                }
            },
        }
    }

    /// Registers a call to the running plugin under request id `id` and gives the request
    /// to write. The slot is handed back when the call cannot be made: a stopped plugin's
    /// pipe is closed, and a plugin still in its handshake does not run yet.
    pub fn begin_call(&mut self, id: String, method: String, params: JsonValue, slot: T) -> (r:
        Result<Envelope, (CallError, T)>)
        requires
            old(self).wf(),
        ensures
            final(self).wf(),
            final(self).phase() == old(self).phase(),
            final(self).subscriptions() == old(self).subscriptions(),
            final(self).stored() == old(self).stored(),
            match r {
                Ok(req) => old(self).phase() == Phase::Running && !old(self).pending().contains_key(id@)
                    && req@ == (EnvelopeView {
                    id: Some(id@),
                    kind: Kind::Request,
                    method: Some(method@),
                    params: Some(params@),
                    result: None,
                    error: None,
                    topic: None,
                    payload: None,
                }) && final(self).pending() == old(self).pending().insert(id@, slot) && final(self).sent() == old(self).sent().push(req@),
                Err((x, back)) => back == slot && *final(self) == *old(self) && if old(self).phase()
                    == Phase::Stopped {
                    x == CallError::ClosedPipe
                } else if old(self).phase() != Phase::Running {
                    x == CallError::PluginNotRunning
                } else {
                    x == CallError::DuplicateId && old(self).pending().contains_key(id@)
                },
            },
    {
        if self.phase == Phase::Stopped {
            return Err((CallError::ClosedPipe, slot));
        }
        if self.phase != Phase::Running {
            return Err((CallError::PluginNotRunning, slot));
        }
        let key = owned(id.as_str());
        match self.pending.insert(key, slot) {
            Err(back) => Err((CallError::DuplicateId, back)),
            Ok(()) => {
                let req = Envelope::request(id, method, Some(params));
                proof {
                    lemma_push_keeps_order(self.sent@, req@);
                }
                self.sent = Ghost(self.sent@.push(req@));
                Ok(req)
            },
        }
    }

    /// Withdraws a call whose caller stopped waiting; a late response then finds no slot.
    pub fn cancel_call(&mut self, id: &str) -> (r: Option<T>)
        requires
            old(self).wf(),
        ensures
            final(self).wf(),
            final(self).phase() == old(self).phase(),
            final(self).sent() == old(self).sent(),
            final(self).subscriptions() == old(self).subscriptions(),
            final(self).stored() == old(self).stored(),
            final(self).pending() == old(self).pending().remove(id@),
            r == (if old(self).pending().contains_key(id@) {
                Some(old(self).pending()[id@])
            } else {
                None::<T>
            }),
    {
        let r = self.pending.remove(id);
        if self.phase != Phase::Running {
            assert(self.pending@ =~= Map::<Seq<char>, T>::empty());
        }
        r
    }

    /// The `timer.tick` event to write for timer `timer_id`, if the plugin runs.
    pub fn tick(&mut self, timer_id: &str, now_ms: u64) -> (r: Option<Envelope>)
        requires
            old(self).wf(),
        ensures
            final(self).wf(),
            final(self).phase() == old(self).phase(),
            final(self).pending() == old(self).pending(),
            final(self).subscriptions() == old(self).subscriptions(),
            final(self).stored() == old(self).stored(),
            match r {
                Some(e) => old(self).phase() == Phase::Running && e@ == tick_view(timer_id@, now_ms)
                    && final(self).sent() == old(self).sent().push(e@),
                None => old(self).phase() != Phase::Running && final(self).sent() == old(self).sent(),
            },
    {
        if self.phase != Phase::Running {
            return None;
        }
        proof {
            lemma_topics_distinct();
        }
        let e = tick_event(timer_id, now_ms);
        proof {
            lemma_push_keeps_order(self.sent@, e@);
        }
        self.sent = Ghost(self.sent@.push(e@));
        Some(e)
    }
}

/// The `core.hello` event.
pub fn hello_event() -> (r: Envelope)
    ensures
        r@ == hello_view(),
{
    let mut services: Vec<JsonValue> = Vec::new();
    services.push(JsonValue::Str(owned("log")));
    services.push(JsonValue::Str(owned("event")));
    services.push(JsonValue::Str(owned("timer")));
    services.push(JsonValue::Str(owned("storage")));
    let ghost names = seq![
        Json::Str("log"@),
        Json::Str("event"@),
        Json::Str("timer"@),
        Json::Str("storage"@),
    ];
    proof {
        lemma_array_model(services);
        assert(items_model(services@) =~= names);
    }
    let mut entries: Vec<(String, JsonValue)> = Vec::new();
    push_entry(&mut entries, "api_version", JsonValue::Str(owned("1")));
    push_entry(&mut entries, "services", JsonValue::Array(services));
    proof {
        lemma_object_model(entries);
        assert(entries_model(entries@) =~= seq![
            ("api_version"@, Json::Str("1"@)),
            ("services"@, Json::Array(names)),
        ]);
    }
    Envelope::event(owned("core.hello"), Some(JsonValue::Object(entries)))
}

/// What a call returns once its response came: the result, or the plugin's error with its
/// code and message.
pub fn finish_call(outcome: Result<JsonValue, RpcError>) -> (r: Result<JsonValue, CallError>)
    ensures
        match outcome {
            Ok(v) => r == Ok::<JsonValue, CallError>(v),
            Err(x) => match r {
                Err(CallError::MethodError { code, message }) => code == x.code && message@
                    == x.message@,
                _ => false,
            },
        },
{
    match outcome {
        Ok(v) => Ok(v),
        Err(x) => Err(CallError::MethodError { code: x.code, message: x.message }),
    }
}

/// Once the handshake is complete, every timer tick or host request that the plugin receives
/// comes after exactly one `system.ready` event.
pub proof fn lemma_ready_before_traffic(sent: Seq<EnvelopeView>)
    requires
        handshake_first(sent),
    ensures
        forall|j: int|
            0 <= j < sent.len() && is_tick_or_call(#[trigger] sent[j]) ==> 3 < j && is_ready(sent[3])
                && forall|k: int| 0 <= k < j && k != 3 ==> !is_ready(#[trigger] sent[k]),
{
    lemma_topics_distinct();
}

impl<T> PluginSession<T> {
    /// The session of a running plugin has written the handshake first.
    pub proof fn lemma_running_order(&self)
        requires
            self.wf(),
            self.phase() == Phase::Running,
        ensures
            handshake_first(self.sent()),
    {
    }
}

} // verus!
