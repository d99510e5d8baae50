//! The client side of one broker connection, as a state machine: commands
//! and calls going out, frames coming in, and what each frame makes happen.
use vstd::prelude::*;
use vstd::slice::slice_to_vec;
use vstd::string::*;
use vstd::utf8::{
    decode_utf8, encode_utf8, encode_utf8_decode_utf8, encode_utf8_valid_utf8, valid_utf8,
};
use std::collections::VecDeque;

use crate::chunk::{ChunkView, ResponseChunk, REPLY_TYPE_FULL, REPLY_TYPE_PARTIAL};
use crate::error::{Error, ErrorView, error_text};
use crate::prefix_bag::PrefixLookupBag;
use crate::request_id::{
    REQUEST_ID_MASK, decimal, decimal_string, lemma_free_decimal_exists, masked_id,
};
use crate::proto::{
    BroadcastReplyCode, BroadcastRequest, CallReply, CallReplyCode, CallRequest, GsbMessage, Hello,
    ProtocolError, RegisterReply, RegisterReplyCode, RegisterRequest, SubscribeReplyCode, SubscribeRequest,
    UnregisterReplyCode, UnregisterRequest, UnsubscribeReplyCode, UnsubscribeRequest,
    broadcast_reply_code, call_reply_code, register_reply_code, subscribe_reply_code,
    unregister_reply_code, unsubscribe_reply_code,
};

verus! {

/// Who this client is: sent in the first frame after connecting.
pub struct ClientInfo {
    pub name: String,
    pub version: Option<String>,
    pub instance_id: Vec<u8>,
}

/// A broadcast to the subscribers of a topic.
pub struct BcastCall {
    pub caller: String,
    pub topic: String,
    pub body: Vec<u8>,
}

/// The commands whose replies the broker sends back in the order of the
/// requests, each kind in its own queue of waiters.
#[derive(Clone, Copy, Debug, PartialEq, Eq, Structural)]
pub enum CommandKind {
    Register,
    Unregister,
    Subscribe,
    Unsubscribe,
    Broadcast,
}

/// What the driver of the connection has to do after a step.
pub enum Action {
    /// Complete the waiter of a command with its result.
    Resolve { waiter: u64, result: Result<(), Error> },
    /// Push an item into the chunk sink of a call in flight.
    Deliver { sink: u64, item: Result<ResponseChunk, Error> },
    /// Run the local handler for a call that came from the broker.
    Dispatch(CallRequest),
    /// Hand a broadcast to the handler's event hook.
    Event { caller: String, topic: String, data: Vec<u8> },
    /// Write a `Pong` frame; if it cannot be written, close the connection.
    SendPong,
    /// The connection stopped: drop every chunk sink of its calls and tell
    /// the handler that it is disconnected.
    Stop,
}

/// The mathematical form of an [`Action`].
pub enum ActionView {
    Resolve { waiter: u64, result: Result<(), ErrorView> },
    Deliver { sink: u64, item: Result<ChunkView, ErrorView> },
    Dispatch {
        request_id: Seq<char>,
        caller: Seq<char>,
        address: Seq<char>,
        data: Seq<u8>,
        no_reply: bool,
    },
    Event { caller: Seq<char>, topic: Seq<char>, data: Seq<u8> },
    SendPong,
    Stop,
}

pub open spec fn unit_result_view(r: Result<(), Error>) -> Result<(), ErrorView> {
    match r {
        Ok(()) => Ok(()),
        Err(e) => Err(e@),
    }
}

pub open spec fn chunk_result_view(r: Result<ResponseChunk, Error>) -> Result<ChunkView, ErrorView> {
    match r {
        Ok(c) => Ok(c@),
        Err(e) => Err(e@),
    }
}

impl View for Action {
    type V = ActionView;

    open spec fn view(&self) -> ActionView {
        match self {
            Action::Resolve { waiter, result } => ActionView::Resolve {
                waiter: *waiter,
                result: unit_result_view(*result),
            },
            Action::Deliver { sink, item } => ActionView::Deliver {
                sink: *sink,
                item: chunk_result_view(*item),
            },
            Action::Dispatch(m) => ActionView::Dispatch {
                request_id: m.request_id@,
                caller: m.caller@,
                address: m.address@,
                data: m.data@,
                no_reply: m.no_reply,
            },
            Action::Event { caller, topic, data } => ActionView::Event {
                caller: caller@,
                topic: topic@,
                data: data@,
            },
            Action::SendPong => ActionView::SendPong,
            Action::Stop => ActionView::Stop,
        }
    }
}

/// The views of a sequence of actions.
pub open spec fn action_views(a: Seq<Action>) -> Seq<ActionView> {
    a.map_values(|x: Action| x@)
}

/// The mathematical form of a [`Connection`].
pub struct ConnectionView {
    pub register: Seq<u64>,
    pub unregister: Seq<u64>,
    pub subscribe: Seq<u64>,
    pub unsubscribe: Seq<u64>,
    pub broadcast: Seq<u64>,
    /// The chunk sink of each call in flight, by request id.
    pub calls: Map<Seq<char>, u64>,
    /// The broker's `Hello` has arrived.
    pub greeted: bool,
    pub stopped: bool,
}

impl ConnectionView {
    pub open spec fn queue(self, k: CommandKind) -> Seq<u64> {
        match k {
            CommandKind::Register => self.register,
            CommandKind::Unregister => self.unregister,
            CommandKind::Subscribe => self.subscribe,
            CommandKind::Unsubscribe => self.unsubscribe,
            CommandKind::Broadcast => self.broadcast,
        }
    }

    pub open spec fn with_queue(self, k: CommandKind, q: Seq<u64>) -> ConnectionView {
        match k {
            CommandKind::Register => ConnectionView { register: q, ..self },
            CommandKind::Unregister => ConnectionView { unregister: q, ..self },
            CommandKind::Subscribe => ConnectionView { subscribe: q, ..self },
            CommandKind::Unsubscribe => ConnectionView { unsubscribe: q, ..self },
            CommandKind::Broadcast => ConnectionView { broadcast: q, ..self },
        }
    }

    /// The state after the connection stopped: nothing is waited for.
    pub open spec fn stopped_view(self) -> ConnectionView {
        ConnectionView {
            register: Seq::empty(),
            unregister: Seq::empty(),
            subscribe: Seq::empty(),
            unsubscribe: Seq::empty(),
            broadcast: Seq::empty(),
            calls: Map::empty(),
            greeted: self.greeted,
            stopped: true,
        }
    }
}

/// Each waiter of `q`, in order, completed as cancelled.
pub open spec fn cancel_all(q: Seq<u64>) -> Seq<ActionView> {
    q.map_values(|w: u64| ActionView::Resolve { waiter: w, result: Err(ErrorView::Cancelled) })
}

/// What stopping does: every waiter of every queue is cancelled, queue by
/// queue in request order, then the connection stops.
pub open spec fn shutdown_actions(v: ConnectionView) -> Seq<ActionView> {
    cancel_all(v.register) + cancel_all(v.unregister) + cancel_all(v.subscribe) + cancel_all(
        v.unsubscribe,
    ) + cancel_all(v.broadcast) + seq![ActionView::Stop]
}

/// The step from `old` stops the connection.
pub open spec fn shuts_down(old: ConnectionView, new: ConnectionView, acts: Seq<ActionView>) -> bool {
    new == old.stopped_view() && acts == shutdown_actions(old)
}

/// The result that a reply of kind `k` with `code` and `message` completes
/// its waiter with, or `None` for a code that the protocol does not define.
pub open spec fn command_reply(k: CommandKind, code: i32, message: Seq<char>) -> Option<
    Result<(), ErrorView>,
> {
    if code == 0 {
        Some(Ok(()))
    } else {
        match k {
            CommandKind::Register => if code == 400 {
                Some(Err(ErrorView::GsbBadRequest(message)))
            } else if code == 409 {
                Some(Err(ErrorView::GsbAlreadyRegistered(message)))
            } else {
                None
            },
            CommandKind::Unregister => if code == 404 {
                Some(Err(ErrorView::GsbBadRequest("unregister"@)))
            } else {
                None
            },
            CommandKind::Subscribe => if code == 400 {
                Some(Err(ErrorView::GsbBadRequest(message)))
            } else {
                None
            },
            CommandKind::Unsubscribe => if code == 404 {
                Some(Err(ErrorView::GsbBadRequest("unsubscribed"@)))
            } else {
                None
            },
            CommandKind::Broadcast => if code == 400 {
                Some(Err(ErrorView::GsbBadRequest(message)))
            } else {
                None
            },
        }
    }
}

/// A reply of kind `k` decoded as `res` completes the oldest waiter of that
/// kind. An undefined code, or a reply that no request waits for, stops the
/// connection.
pub open spec fn answers(
    old: ConnectionView,
    k: CommandKind,
    res: Option<Result<(), ErrorView>>,
    new: ConnectionView,
    acts: Seq<ActionView>,
) -> bool {
    match res {
        None => shuts_down(old, new, acts),
        Some(x) => if old.queue(k).len() == 0 {
            shuts_down(old, new, acts)
        } else {
            &&& new == old.with_queue(k, old.queue(k).drop_first())
            &&& acts == seq![ActionView::Resolve { waiter: old.queue(k)[0], result: x }]
        },
    }
}

/// The chunk that a call reply with `reply_type` carries.
pub open spec fn reply_chunk(reply_type: i32, data: Seq<u8>) -> ChunkView {
    if reply_type == REPLY_TYPE_PARTIAL {
        ChunkView::Part(data)
    } else {
        ChunkView::Full(data)
    }
}

/// The item that a call reply hands to its caller, or `None` where the code
/// is undefined or an error text is not UTF-8.
pub open spec fn reply_item(code: i32, reply_type: i32, data: Seq<u8>) -> Option<
    Result<ChunkView, ErrorView>,
> {
    if code == 0 {
        Some(Ok(reply_chunk(reply_type, data)))
    } else if (code == 400 || code == 500) && valid_utf8(data) {
        if code == 400 {
            Some(Err(ErrorView::GsbBadRequest(decode_utf8(data))))
        } else {
            Some(Err(ErrorView::GsbFailure(decode_utf8(data))))
        }
    } else {
        None
    }
}

/// A call reply reaches the sink of its call; a reply that ends the response
/// retires the call. A reply to no call in flight is dropped.
pub open spec fn delivers(
    old: ConnectionView,
    id: Seq<char>,
    code: i32,
    reply_type: i32,
    data: Seq<u8>,
    new: ConnectionView,
    acts: Seq<ActionView>,
) -> bool {
    if old.calls.contains_key(id) {
        match reply_item(code, reply_type, data) {
            None => shuts_down(old, new, acts),
            Some(item) => {
                &&& acts == seq![ActionView::Deliver { sink: old.calls[id], item }]
                &&& new == (if reply_type == REPLY_TYPE_PARTIAL {
                    old
                } else {
                    ConnectionView { calls: old.calls.remove(id), ..old }
                })
            },
        }
    } else {
        new == old && acts == Seq::<ActionView>::empty()
    }
}

/// What receiving `item` does to a connection in state `old`.
pub open spec fn handles_as(
    old: ConnectionView,
    item: Result<GsbMessage, ProtocolError>,
    new: ConnectionView,
    acts: Seq<ActionView>,
) -> bool {
    if old.stopped {
        new == old && acts == Seq::<ActionView>::empty()
    } else {
        match item {
            Err(_) => shuts_down(old, new, acts),
            Ok(GsbMessage::RegisterReply(m)) => answers(
                old,
                CommandKind::Register,
                command_reply(CommandKind::Register, m.code, m.message@),
                new,
                acts,
            ),
            Ok(GsbMessage::UnregisterReply(m)) => answers(
                old,
                CommandKind::Unregister,
                command_reply(CommandKind::Unregister, m.code, Seq::empty()),
                new,
                acts,
            ),
            Ok(GsbMessage::SubscribeReply(m)) => answers(
                old,
                CommandKind::Subscribe,
                command_reply(CommandKind::Subscribe, m.code, m.message@),
                new,
                acts,
            ),
            Ok(GsbMessage::UnsubscribeReply(m)) => answers(
                old,
                CommandKind::Unsubscribe,
                command_reply(CommandKind::Unsubscribe, m.code, Seq::empty()),
                new,
                acts,
            ),
            Ok(GsbMessage::BroadcastReply(m)) => answers(
                old,
                CommandKind::Broadcast,
                command_reply(CommandKind::Broadcast, m.code, m.message@),
                new,
                acts,
            ),
            Ok(GsbMessage::CallRequest(m)) => new == old && acts == seq![
                ActionView::Dispatch {
                    request_id: m.request_id@,
                    caller: m.caller@,
                    address: m.address@,
                    data: m.data@,
                    no_reply: m.no_reply,
                },
            ],
            Ok(GsbMessage::CallReply(m)) => delivers(
                old,
                m.request_id@,
                m.code,
                m.reply_type,
                m.data@,
                new,
                acts,
            ),
            Ok(GsbMessage::BroadcastRequest(m)) => new == old && acts == seq![
                ActionView::Event { caller: m.caller@, topic: m.topic@, data: m.data@ },
            ],
            Ok(GsbMessage::Ping) => new == old && acts == seq![ActionView::SendPong],
            Ok(GsbMessage::Hello(_)) => if old.greeted {
                shuts_down(old, new, acts)
            } else {
                new == (ConnectionView { greeted: true, ..old }) && acts == Seq::<
                    ActionView,
                >::empty()
            },
            Ok(_) => shuts_down(old, new, acts),
        }
    }
}

/// A register reply with a code that the protocol does not define stops the
/// connection, and every waiter of every kind fails as cancelled.
pub proof fn lemma_unknown_code_fails_closed(
    old: ConnectionView,
    reply: RegisterReply,
    new: ConnectionView,
    acts: Seq<ActionView>,
)
    requires
        !old.stopped,
        reply.code != 0 && reply.code != 400 && reply.code != 409,
        handles_as(old, Ok(GsbMessage::RegisterReply(reply)), new, acts),
    ensures
        new.stopped,
        new.register.len() == 0 && new.unregister.len() == 0 && new.subscribe.len() == 0
            && new.unsubscribe.len() == 0 && new.broadcast.len() == 0,
        new.calls.dom().len() == 0,
        acts == shutdown_actions(old),
        acts.last() == ActionView::Stop,
{
}

/// Replies to commands of one kind complete the waiters in the order in
/// which the commands were queued: over a run of replies that each carry a
/// defined code, the `i`-th completes the `i`-th waiter of the first state.
pub proof fn lemma_replies_in_request_order(
    states: Seq<ConnectionView>,
    acts: Seq<Seq<ActionView>>,
    k: CommandKind,
    results: Seq<Result<(), ErrorView>>,
)
    requires
        states.len() == results.len() + 1,
        acts.len() == results.len(),
        states[0].queue(k).len() >= results.len(),
        forall|i: int|
            0 <= i < results.len() ==> answers(
                #[trigger] states[i],
                k,
                Some(results[i]),
                states[i + 1],
                acts[i],
            ),
    ensures
        forall|i: int|
            0 <= i < results.len() ==> #[trigger] acts[i] == seq![
                ActionView::Resolve { waiter: states[0].queue(k)[i], result: results[i] },
            ],
{
    let q = states[0].queue(k);
    assert forall|i: int| 0 <= i <= results.len() implies #[trigger] states[i].queue(k) =~= q.subrange(
        i,
        q.len() as int,
    ) by {
        lemma_queue_after(states, acts, k, results, i);
    }
    assert forall|i: int| 0 <= i < results.len() implies #[trigger] acts[i] == seq![
        ActionView::Resolve { waiter: q[i], result: results[i] },
    ] by {
        assert(states[i].queue(k) =~= q.subrange(i, q.len() as int));
        assert(answers(states[i], k, Some(results[i]), states[i + 1], acts[i]));
    }
}

proof fn lemma_queue_after(
    states: Seq<ConnectionView>,
    acts: Seq<Seq<ActionView>>,
    k: CommandKind,
    results: Seq<Result<(), ErrorView>>,
    i: int,
)
    requires
        states.len() == results.len() + 1,
        acts.len() == results.len(),
        states[0].queue(k).len() >= results.len(),
        forall|j: int|
            0 <= j < results.len() ==> answers(
                #[trigger] states[j],
                k,
                Some(results[j]),
                states[j + 1],
                acts[j],
            ),
        0 <= i <= results.len(),
    ensures
        states[i].queue(k) =~= states[0].queue(k).subrange(i, states[0].queue(k).len() as int),
    decreases i,
{
    let q = states[0].queue(k);
    if i == 0 {
    } else {
        lemma_queue_after(states, acts, k, results, i - 1);
        assert(answers(states[i - 1], k, Some(results[i - 1]), states[i], acts[i - 1]));
        assert(states[i - 1].queue(k).len() > 0);
        assert(states[i] == states[i - 1].with_queue(k, states[i - 1].queue(k).drop_first()));
        assert(states[i].queue(k) =~= states[i - 1].queue(k).drop_first());
    }
}

/// A chunk that the relay sends as a call reply arrives at the caller's
/// connection as that very chunk.
pub proof fn lemma_relayed_chunk_arrives(c: ResponseChunk, reply: CallReply)
    requires
        reply.code == 0,
        reply.reply_type == (if c is Full {
            REPLY_TYPE_FULL
        } else {
            REPLY_TYPE_PARTIAL
        }),
        reply.data@ == c.bytes(),
    ensures
        reply_item(reply.code, reply.reply_type, reply.data@) == Some(Ok::<ChunkView, ErrorView>(c@)),
{
}

/// An error that the relay sends as a call reply arrives at the caller's
/// connection as a service failure that carries the error's text.
pub proof fn lemma_relayed_error_arrives(e: Error, reply: CallReply)
    requires
        reply.code == 500,
        reply.data@ == encode_utf8(error_text(e@)),
    ensures
        reply_item(reply.code, reply.reply_type, reply.data@) == Some(
            Err::<ChunkView, ErrorView>(ErrorView::GsbFailure(error_text(e@))),
        ),
{
    encode_utf8_valid_utf8(error_text(e@));
    encode_utf8_decode_utf8(error_text(e@));
}

/// Relies on `String::from_utf8`: it accepts exactly the byte strings that
/// are valid UTF-8, and gives the characters they encode.
#[verifier::external_body]
fn utf8_text(data: Vec<u8>) -> (r: Option<String>)
    ensures
        match r {
            Some(s) => valid_utf8(data@) && s@ == decode_utf8(data@),
            None => !valid_utf8(data@),
        },
{
    String::from_utf8(data).ok()
}

/// The result that a reply of kind `k` completes its waiter with.
fn command_result(k: CommandKind, code: i32, message: String) -> (r: Option<Result<(), Error>>)
    ensures
        match r {
            Some(x) => command_reply(k, code, message@) == Some(unit_result_view(x)),
            None => command_reply(k, code, message@) is None,
        },
{
    proof {
        reveal_strlit("unregister");
        reveal_strlit("unsubscribed");
    }
    match k {
        CommandKind::Register => match register_reply_code(code) {
            None => None,
            Some(RegisterReplyCode::RegisteredOk) => Some(Ok(())),
            Some(RegisterReplyCode::RegisterBadRequest) => Some(Err(Error::GsbBadRequest(message))),
            Some(RegisterReplyCode::RegisterConflict) => Some(
                Err(Error::GsbAlreadyRegistered(message)),
            ),
        },
        CommandKind::Unregister => match unregister_reply_code(code) {
            None => None,
            Some(UnregisterReplyCode::UnregisteredOk) => Some(Ok(())),
            Some(UnregisterReplyCode::NotRegistered) => Some(
                Err(Error::GsbBadRequest(String::from_str("unregister"))),
            ),
        },
        CommandKind::Subscribe => match subscribe_reply_code(code) {
            None => None,
            Some(SubscribeReplyCode::SubscribedOk) => Some(Ok(())),
            Some(SubscribeReplyCode::SubscribeBadRequest) => Some(
                Err(Error::GsbBadRequest(message)),
            ),
        },
        CommandKind::Unsubscribe => match unsubscribe_reply_code(code) {
            None => None,
            Some(UnsubscribeReplyCode::UnsubscribedOk) => Some(Ok(())),
            Some(UnsubscribeReplyCode::NotSubscribed) => Some(
                Err(Error::GsbBadRequest(String::from_str("unsubscribed"))),
            ),
        },
        CommandKind::Broadcast => match broadcast_reply_code(code) {
            None => None,
            Some(BroadcastReplyCode::BroadcastOk) => Some(Ok(())),
            Some(BroadcastReplyCode::BroadcastBadRequest) => Some(
                Err(Error::GsbBadRequest(message)),
            ),
        },
    }
}

/// A request id: the decimal form of a number of at most 53 bits, or, where
/// more calls are in flight than such numbers, of a number no larger than
/// their count.
pub open spec fn is_request_id(id: Seq<char>, in_flight: nat) -> bool {
    exists|n: nat| id == decimal(n) && (n <= REQUEST_ID_MASK || n <= in_flight)
}

/// Relies on `rand::random::<u64>`: a number from the thread's generator.
/// Nothing is known of which.
#[verifier::external_body]
fn random_u64() -> (r: u64) {
    rand::random::<u64>()
}

/// A random number of at most 53 bits.
pub fn gen_id() -> (r: u64)
    ensures
        r <= REQUEST_ID_MASK,
{
    masked_id(random_u64())
}

/// What a unary call over the broker returns, from the first item of its
/// chunk sink (`None` where the sink closed with none): the bytes of a
/// `Full` chunk; an error for a `Part` chunk or a closed sink.
pub fn unary_call_result(first: Option<Result<ResponseChunk, Error>>) -> (r: Result<Vec<u8>, Error>)
    ensures
        match first {
            Some(Ok(ResponseChunk::Full(v))) => r matches Ok(b) && b@ == v@,
            Some(Ok(ResponseChunk::Part(_))) => r matches Err(e) && e@ == ErrorView::GsbFailure(
                "streaming response"@,
            ),
            Some(Err(e)) => r matches Err(e2) && e2@ == e@,
            None => r matches Err(e) && e@ == ErrorView::GsbFailure("unexpected EOS"@),
        },
{
    match first {
        Some(Ok(ResponseChunk::Full(v))) => Ok(v),
        Some(Ok(ResponseChunk::Part(_))) => Err(Error::GsbFailure(String::from_str("streaming response"))),
        Some(Err(e)) => Err(e),
        None => Err(Error::GsbFailure(String::from_str("unexpected EOS"))),
    }
}

/// Whether the text is a semantic version, as `semver` parses one.
pub uninterp spec fn semver_accepts(s: Seq<char>) -> bool;

/// Relies on `semver::Version::parse`: whether it accepts the text. The empty
/// text is refused.
#[verifier::external_body]
fn is_semver(s: &str) -> (r: bool)
    ensures
        r == semver_accepts(s@),
        s@.len() == 0 ==> !r,
{
    semver::Version::parse(s).is_ok()
}

/// Relies on `uuid::Uuid::new_v4` and `Uuid::as_bytes`: the sixteen bytes of
/// a random UUID.
#[verifier::external_body]
fn new_instance_id() -> (r: Vec<u8>)
    ensures
        r@.len() == 16,
{
    uuid::Uuid::new_v4().as_bytes().to_vec()
}

impl ClientInfo {
    /// Information on a client named `name`, of `version` where that is a
    /// semantic version, with a fresh random instance id.
    pub fn new(name: &str, version: &str) -> (r: ClientInfo)
        ensures
            r.name@ == name@,
            r.version is Some <==> semver_accepts(version@),
            r.version matches Some(v) ==> v@ == version@,
            r.instance_id@.len() == 16,
    {
        let accepted = is_semver(version);
        ClientInfo::with_parts(name, version, accepted, new_instance_id())
    }

    /// Information on a client named `name`, whose `version` is kept where
    /// `accepted` says it is a semantic version.
    pub fn with_parts(name: &str, version: &str, accepted: bool, instance_id: Vec<u8>) -> (r:
        ClientInfo)
        ensures
            r.name@ == name@,
            r.version is Some <==> accepted,
            r.version matches Some(v) ==> v@ == version@,
            r.instance_id@ == instance_id@,
    {
        let version = if accepted {
            Some(String::from_str(version))
        } else {
            None
        };
        ClientInfo { name: String::from_str(name), version, instance_id }
    }
}

/// Turns what a local handler answers to a call from the broker into call
/// replies: a chunk goes as it is, an error as a service failure carrying its
/// text, and where the last reply did not end the response, an empty `Full`
/// reply ends it.
pub struct CallReplyRelay {
    request_id: String,
    got_eos: bool,
}

impl CallReplyRelay {
    /// The id of the call being answered.
    pub closed spec fn id(&self) -> Seq<char> {
        self.request_id@
    }

    /// The last reply ended the response.
    pub closed spec fn ended(&self) -> bool {
        self.got_eos
    }

    pub fn new(request_id: String) -> (r: CallReplyRelay)
        ensures
            r.id() == request_id@,
            !r.ended(),
    {
        CallReplyRelay { request_id, got_eos: false }
    }

    /// The reply that carries `item`.
    pub fn reply(&mut self, item: Result<ResponseChunk, Error>) -> (r: CallReply)
        ensures
            final(self).id() == old(self).id(),
            r.request_id@ == old(self).id(),
            match item {
                Ok(c) => r.code == 0 && r.reply_type == (if c is Full {
                    REPLY_TYPE_FULL
                } else {
                    REPLY_TYPE_PARTIAL
                }) && r.data@ == c.bytes() && final(self).ended() == (c is Full),
                Err(e) => r.code == 500 && r.reply_type == REPLY_TYPE_FULL && r.data@ == encode_utf8(
                    error_text(e@),
                ) && final(self).ended(),
            },
    {
        match item {
            Ok(chunk) => {
                let reply_type = chunk.reply_type();
                self.got_eos = chunk.is_full();
                CallReply {
                    request_id: self.request_id.clone(),
                    code: 0,
                    reply_type,
                    data: chunk.into_bytes(),
                }
            },
            Err(e) => {
                self.got_eos = true;
                let text = e.to_text();
                CallReply {
                    request_id: self.request_id.clone(),
                    code: 500,
                    reply_type: REPLY_TYPE_FULL,
                    data: slice_to_vec(text.as_str().as_bytes()),
                }
            },
        }
    }

    /// The reply that ends the response, where the handler's last one did
    /// not.
    pub fn finish(&self) -> (r: Option<CallReply>)
        ensures
            r is None <==> self.ended(),
            r matches Some(m) ==> m.request_id@ == self.id() && m.code == 0 && m.reply_type
                == REPLY_TYPE_FULL && m.data@.len() == 0,
    {
        if self.got_eos {
            None
        } else {
            Some(
                CallReply {
                    request_id: self.request_id.clone(),
                    code: 0,
                    reply_type: REPLY_TYPE_FULL,
                    data: Vec::new(),
                },
            )
        }
    }
}

/// The state machine of one broker connection.
pub struct Connection {
    register_reply: VecDeque<u64>,
    unregister_reply: VecDeque<u64>,
    subscribe_reply: VecDeque<u64>,
    unsubscribe_reply: VecDeque<u64>,
    broadcast_reply: VecDeque<u64>,
    call_reply: PrefixLookupBag<u64>,
    client_info: ClientInfo,
    server_info: Option<Hello>,
    stopped: bool,
}

impl View for Connection {
    type V = ConnectionView;

    closed spec fn view(&self) -> ConnectionView {
        ConnectionView {
            register: self.register_reply@,
            unregister: self.unregister_reply@,
            subscribe: self.subscribe_reply@,
            unsubscribe: self.unsubscribe_reply@,
            broadcast: self.broadcast_reply@,
            calls: self.call_reply@,
            greeted: self.server_info is Some,
            stopped: self.stopped,
        }
    }
}

/// Moves every waiter of `q` into `acts` as cancelled.
fn cancel_waiters(q: &mut VecDeque<u64>, acts: &mut Vec<Action>)
    ensures
        final(q)@ == Seq::<u64>::empty(),
        action_views(final(acts)@) == action_views(old(acts)@) + cancel_all(old(q)@),
{
    let ghost q0 = q@;
    let ghost a0 = action_views(acts@);
    while q.len() > 0
        invariant
            q@.len() <= q0.len(),
            q@ == q0.subrange(q0.len() - q@.len(), q0.len() as int),
            action_views(acts@) == a0 + cancel_all(q0.subrange(0, q0.len() - q@.len())),
        decreases q@.len(),
    {
        let ghost done = q0.len() - q@.len();
        match q.pop_front() {
            Some(w) => {
                let ghost prev = acts@;
                acts.push(Action::Resolve { waiter: w, result: Err(Error::Cancelled) });
                proof {
                    assert(w == q0[done]);
                    assert(q0.subrange(0, done + 1) =~= q0.subrange(0, done).push(w));
                    assert(q@ =~= q0.subrange(done + 1, q0.len() as int));
                    assert(action_views(acts@) =~= action_views(prev).push(
                        ActionView::Resolve { waiter: w, result: Err(ErrorView::Cancelled) },
                    ));
                    assert(cancel_all(q0.subrange(0, done + 1)) =~= cancel_all(
                        q0.subrange(0, done),
                    ).push(ActionView::Resolve { waiter: w, result: Err(ErrorView::Cancelled) }));
                    assert(action_views(acts@) =~= a0 + cancel_all(q0.subrange(0, done + 1)));
                }
            },
            None => {},
        }
    }
    assert(q0.subrange(0, q0.len() as int) =~= q0);
}

impl Connection {
    pub closed spec fn wf(&self) -> bool {
        self.call_reply.wf()
    }

    /// The information this client sends about itself.
    pub closed spec fn info(&self) -> ClientInfo {
        self.client_info
    }

    /// A connection that has sent nothing and received nothing.
    pub fn new(client_info: ClientInfo) -> (r: Connection)
        ensures
            r.wf(),
            r.info() == client_info,
            r@ == (ConnectionView {
                register: Seq::empty(),
                unregister: Seq::empty(),
                subscribe: Seq::empty(),
                unsubscribe: Seq::empty(),
                broadcast: Seq::empty(),
                calls: Map::empty(),
                greeted: false,
                stopped: false,
            }),
    {
        Connection {
            register_reply: VecDeque::new(),
            unregister_reply: VecDeque::new(),
            subscribe_reply: VecDeque::new(),
            unsubscribe_reply: VecDeque::new(),
            broadcast_reply: VecDeque::new(),
            call_reply: PrefixLookupBag::new(),
            client_info,
            server_info: None,
            stopped: false,
        }
    }

    /// Stops the connection: every waiter is cancelled, every call in flight
    /// is forgotten. Called on a protocol violation, and when the peer or
    /// this side closes the transport.
    pub fn close(&mut self) -> (r: Vec<Action>)
        requires
            old(self).wf(),
        ensures
            final(self).wf(),
            shuts_down(old(self)@, final(self)@, action_views(r@)),
    {
        let mut acts: Vec<Action> = Vec::new();
        let ghost v = self@;
        cancel_waiters(&mut self.register_reply, &mut acts);
        cancel_waiters(&mut self.unregister_reply, &mut acts);
        cancel_waiters(&mut self.subscribe_reply, &mut acts);
        cancel_waiters(&mut self.unsubscribe_reply, &mut acts);
        cancel_waiters(&mut self.broadcast_reply, &mut acts);
        let ghost before_stop = acts@;
        acts.push(Action::Stop);
        self.call_reply = PrefixLookupBag::new();
        self.stopped = true;
        proof {
            assert(action_views(acts@) =~= action_views(before_stop).push(ActionView::Stop));
            assert(action_views(Seq::<Action>::empty()) =~= Seq::<ActionView>::empty());
            assert(action_views(acts@) =~= shutdown_actions(v));
            assert(self@ =~= v.stopped_view());
        }
        acts
    }
    /// Takes the oldest waiter of kind `k`, if any.
    fn pop_waiter(&mut self, k: CommandKind) -> (r: Option<u64>)
        requires
            old(self).wf(),
        ensures
            final(self).wf(),
            match r {
                Some(w) => old(self)@.queue(k).len() > 0 && w == old(self)@.queue(k)[0]
                    && final(self)@ == old(self)@.with_queue(k, old(self)@.queue(k).drop_first()),
                None => old(self)@.queue(k).len() == 0 && final(self)@ == old(self)@,
            },
    {
        let r = match k {
            CommandKind::Register => self.register_reply.pop_front(),
            CommandKind::Unregister => self.unregister_reply.pop_front(),
            CommandKind::Subscribe => self.subscribe_reply.pop_front(),
            CommandKind::Unsubscribe => self.unsubscribe_reply.pop_front(),
            CommandKind::Broadcast => self.broadcast_reply.pop_front(),
        };
        proof {
            if r is Some {
                assert(final(self)@ =~= old(self)@.with_queue(k, old(self)@.queue(k).drop_first()));
            } else {
                assert(final(self)@ =~= old(self)@);
            }
        }
        r
    }

    /// Appends `w` to the waiters of kind `k`.
    fn push_waiter(&mut self, k: CommandKind, w: u64)
        requires
            old(self).wf(),
        ensures
            final(self).wf(),
            final(self)@ == old(self)@.with_queue(k, old(self)@.queue(k).push(w)),
    {
        match k {
            CommandKind::Register => self.register_reply.push_back(w),
            CommandKind::Unregister => self.unregister_reply.push_back(w),
            CommandKind::Subscribe => self.subscribe_reply.push_back(w),
            CommandKind::Unsubscribe => self.unsubscribe_reply.push_back(w),
            CommandKind::Broadcast => self.broadcast_reply.push_back(w),
        }
        assert(final(self)@ =~= old(self)@.with_queue(k, old(self)@.queue(k).push(w)));
    }

    /// Completes the oldest waiter of kind `k` with `res`, or stops the
    /// connection where `res` is `None` or no waiter is left.
    fn answer(&mut self, k: CommandKind, res: Option<Result<(), Error>>) -> (r: Vec<Action>)
        requires
            old(self).wf(),
        ensures
            final(self).wf(),
            answers(
                old(self)@,
                k,
                match res {
                    Some(x) => Some(unit_result_view(x)),
                    None => None,
                },
                final(self)@,
                action_views(r@),
            ),
    {
        match res {
            None => self.close(),
            Some(x) => match self.pop_waiter(k) {
                None => self.close(),
                Some(w) => {
                    let mut acts: Vec<Action> = Vec::new();
                    acts.push(Action::Resolve { waiter: w, result: x });
                    assert(action_views(acts@) =~= seq![
                        ActionView::Resolve { waiter: w, result: unit_result_view(x) },
                    ]);
                    acts
                },
            },
        }
    }

    /// Handles a call reply while running.
    fn handle_reply(&mut self, m: CallReply) -> (r: Vec<Action>)
        requires
            old(self).wf(),
            !old(self)@.stopped,
        ensures
            final(self).wf(),
            delivers(old(self)@, m.request_id@, m.code, m.reply_type, m.data@, final(self)@, action_views(r@)),
    {
        let ghost data = m.data@;
        let is_full = m.reply_type != REPLY_TYPE_PARTIAL;
        let found = match self.call_reply.get_exact(&m.request_id) {
            Some(s) => Some(*s),
            None => None,
        };
        match found {
            None => {
                let acts: Vec<Action> = Vec::new();
                assert(action_views(acts@) =~= Seq::<ActionView>::empty());
                acts
            },
            Some(sink) => {
                let item = match call_reply_code(m.code) {
                    None => {
                        return self.close();
                    },
                    Some(CallReplyCode::CallReplyOk) => Ok(
                        if is_full {
                            ResponseChunk::Full(m.data)
                        } else {
                            ResponseChunk::Part(m.data)
                        },
                    ),
                    Some(CallReplyCode::CallReplyBadRequest) => match utf8_text(m.data) {
                        Some(t) => Err(Error::GsbBadRequest(t)),
                        None => {
                            return self.close();
                        },
                    },
                    Some(CallReplyCode::ServiceFailure) => match utf8_text(m.data) {
                        Some(t) => Err(Error::GsbFailure(t)),
                        None => {
                            return self.close();
                        },
                    },
                };
                if is_full {
                    let _ = self.call_reply.remove(&m.request_id);
                }
                let mut acts: Vec<Action> = Vec::new();
                acts.push(Action::Deliver { sink, item });
                proof {
                    assert(action_views(acts@) =~= seq![
                        ActionView::Deliver { sink, item: chunk_result_view(item) },
                    ]);
                    if is_full {
                        assert(final(self)@ =~= (ConnectionView {
                            calls: old(self)@.calls.remove(m.request_id@),
                            ..old(self)@
                        }));
                    }
                }
                acts
            },
        }
    }

    /// Handles one frame read from the transport, or the failure to read one.
    pub fn handle(&mut self, item: Result<GsbMessage, ProtocolError>) -> (r: Vec<Action>)
        requires
            old(self).wf(),
        ensures
            final(self).wf(),
            handles_as(old(self)@, item, final(self)@, action_views(r@)),
    {
        if self.stopped {
            let acts: Vec<Action> = Vec::new();
            assert(action_views(acts@) =~= Seq::<ActionView>::empty());
            return acts;
        }
        let mut acts: Vec<Action> = Vec::new();
        match item {
            Err(_) => self.close(),
            Ok(msg) => match msg {
                GsbMessage::RegisterReply(m) => {
                    let res = command_result(CommandKind::Register, m.code, m.message);
                    self.answer(CommandKind::Register, res)
                },
                GsbMessage::UnregisterReply(m) => {
                    let res = command_result(CommandKind::Unregister, m.code, String::new());
                    self.answer(CommandKind::Unregister, res)
                },
                GsbMessage::SubscribeReply(m) => {
                    let res = command_result(CommandKind::Subscribe, m.code, m.message);
                    self.answer(CommandKind::Subscribe, res)
                },
                GsbMessage::UnsubscribeReply(m) => {
                    let res = command_result(CommandKind::Unsubscribe, m.code, String::new());
                    self.answer(CommandKind::Unsubscribe, res)
                },
                GsbMessage::BroadcastReply(m) => {
                    let res = command_result(CommandKind::Broadcast, m.code, m.message);
                    self.answer(CommandKind::Broadcast, res)
                },
                GsbMessage::CallRequest(m) => {
                    acts.push(Action::Dispatch(m));
                    assert(action_views(acts@) =~= seq![acts@[0]@]);
                    acts
                },
                GsbMessage::CallReply(m) => self.handle_reply(m),
                GsbMessage::BroadcastRequest(m) => {
                    acts.push(Action::Event { caller: m.caller, topic: m.topic, data: m.data });
                    assert(action_views(acts@) =~= seq![acts@[0]@]);
                    acts
                },
                GsbMessage::Ping => {
                    acts.push(Action::SendPong);
                    assert(action_views(acts@) =~= seq![ActionView::SendPong]);
                    acts
                },
                GsbMessage::Hello(h) => {
                    if self.server_info.is_some() {
                        self.close()
                    } else {
                        self.server_info = Some(h);
                        assert(action_views(acts@) =~= Seq::<ActionView>::empty());
                        assert(final(self)@ =~= (ConnectionView { greeted: true, ..old(self)@ }));
                        acts
                    }
                },
                _ => self.close(),
            },
        }
    }

    /// Queues `waiter` for the reply of kind `k` and gives the frame to write.
    fn command(&mut self, k: CommandKind, waiter: u64, frame: GsbMessage) -> (r: GsbMessage)
        requires
            old(self).wf(),
        ensures
            final(self).wf(),
            final(self)@ == old(self)@.with_queue(k, old(self)@.queue(k).push(waiter)),
            r == frame,
    {
        self.push_waiter(k, waiter);
        frame
    }

    /// Asks the broker to route `addr` to this client; `waiter` gets the reply.
    pub fn bind(&mut self, addr: String, waiter: u64) -> (r: GsbMessage)
        requires
            old(self).wf(),
        ensures
            final(self).wf(),
            final(self)@ == old(self)@.with_queue(
                CommandKind::Register,
                old(self)@.register.push(waiter),
            ),
            r matches GsbMessage::RegisterRequest(m) && m.service_id@ == addr@,
    {
        let frame = GsbMessage::RegisterRequest(RegisterRequest { service_id: addr });
        self.command(CommandKind::Register, waiter, frame)
    }

    /// Asks the broker to stop routing `addr` to this client.
    pub fn unbind(&mut self, addr: String, waiter: u64) -> (r: GsbMessage)
        requires
            old(self).wf(),
        ensures
            final(self).wf(),
            final(self)@ == old(self)@.with_queue(
                CommandKind::Unregister,
                old(self)@.unregister.push(waiter),
            ),
            r matches GsbMessage::UnregisterRequest(m) && m.service_id@ == addr@,
    {
        let frame = GsbMessage::UnregisterRequest(UnregisterRequest { service_id: addr });
        self.command(CommandKind::Unregister, waiter, frame)
    }

    /// Asks the broker for the broadcasts of `topic`.
    pub fn subscribe(&mut self, topic: String, waiter: u64) -> (r: GsbMessage)
        requires
            old(self).wf(),
        ensures
            final(self).wf(),
            final(self)@ == old(self)@.with_queue(
                CommandKind::Subscribe,
                old(self)@.subscribe.push(waiter),
            ),
            r matches GsbMessage::SubscribeRequest(m) && m.topic@ == topic@,
    {
        let frame = GsbMessage::SubscribeRequest(SubscribeRequest { topic });
        self.command(CommandKind::Subscribe, waiter, frame)
    }

    /// Asks the broker to stop sending the broadcasts of `topic`.
    pub fn unsubscribe(&mut self, topic: String, waiter: u64) -> (r: GsbMessage)
        requires
            old(self).wf(),
        ensures
            final(self).wf(),
            final(self)@ == old(self)@.with_queue(
                CommandKind::Unsubscribe,
                old(self)@.unsubscribe.push(waiter),
            ),
            r matches GsbMessage::UnsubscribeRequest(m) && m.topic@ == topic@,
    {
        let frame = GsbMessage::UnsubscribeRequest(UnsubscribeRequest { topic });
        self.command(CommandKind::Unsubscribe, waiter, frame)
    }

    /// Broadcasts `msg.body` to the subscribers of `msg.topic`.
    pub fn broadcast(&mut self, msg: BcastCall, waiter: u64) -> (r: GsbMessage)
        requires
            old(self).wf(),
        ensures
            final(self).wf(),
            final(self)@ == old(self)@.with_queue(
                CommandKind::Broadcast,
                old(self)@.broadcast.push(waiter),
            ),
            r matches GsbMessage::BroadcastRequest(m) && m.caller@ == msg.caller@ && m.topic@
                == msg.topic@ && m.data@ == msg.body@,
    {
        let frame = GsbMessage::BroadcastRequest(
            BroadcastRequest { caller: msg.caller, topic: msg.topic, data: msg.body },
        );
        self.command(CommandKind::Broadcast, waiter, frame)
    }

    /// The frame of a command of kind `k` could not be written: its waiter,
    /// the newest of that kind, leaves the queue and fails with
    /// "no connection".
    pub fn write_failed(&mut self, k: CommandKind) -> (r: Vec<Action>)
        requires
            old(self).wf(),
        ensures
            final(self).wf(),
            old(self)@.queue(k).len() == 0 ==> final(self)@ == old(self)@ && r@.len() == 0,
            old(self)@.queue(k).len() > 0 ==> final(self)@ == old(self)@.with_queue(
                k,
                old(self)@.queue(k).drop_last(),
            ) && action_views(r@) == seq![
                ActionView::Resolve {
                    waiter: old(self)@.queue(k).last(),
                    result: Err(ErrorView::GsbFailure("no connection"@)),
                },
            ],
    {
        let w = match k {
            CommandKind::Register => self.register_reply.pop_back(),
            CommandKind::Unregister => self.unregister_reply.pop_back(),
            CommandKind::Subscribe => self.subscribe_reply.pop_back(),
            CommandKind::Unsubscribe => self.unsubscribe_reply.pop_back(),
            CommandKind::Broadcast => self.broadcast_reply.pop_back(),
        };
        let mut acts: Vec<Action> = Vec::new();
        match w {
            Some(w) => {
                acts.push(
                    Action::Resolve {
                        waiter: w,
                        result: Err(Error::GsbFailure(String::from_str("no connection"))),
                    },
                );
                assert(final(self)@ =~= old(self)@.with_queue(k, old(self)@.queue(k).drop_last()));
                assert(action_views(acts@) =~= seq![acts@[0]@]);
            },
            None => {
                assert(final(self)@ =~= old(self)@);
            },
        }
        acts
    }
    /// The `Hello` frame that opens the connection.
    pub fn hello(&self) -> (r: GsbMessage)
        ensures
            r matches GsbMessage::Hello(h) && h.name@ == self.info().name@
                && h.instance_id@ == self.info().instance_id@ && h.version@ == match self.info().version {
                Some(v) => v@,
                None => Seq::<char>::empty(),
            },
    {
        let version = match &self.client_info.version {
            Some(v) => v.clone(),
            None => String::new(),
        };
        GsbMessage::Hello(
            Hello {
                name: self.client_info.name.clone(),
                version,
                instance_id: self.client_info.instance_id.clone(),
            },
        )
    }

    /// The information this client sends about itself.
    pub fn client_info(&self) -> (r: &ClientInfo)
        ensures
            *r == self.info(),
    {
        &self.client_info
    }

    /// An id that no call in flight has: the decimal form of the low 53 bits
    /// of `draw` where that is free, else the first free one of `0, 1, ...`.
    fn fresh_request_id(&self, draw: u64) -> (r: String)
        requires
            self.wf(),
        ensures
            !self@.calls.contains_key(r@),
            is_request_id(r@, self@.calls.len()),
            !self@.calls.contains_key(decimal((draw & REQUEST_ID_MASK) as nat)) ==> r@ == decimal(
                (draw & REQUEST_ID_MASK) as nat,
            ),
    {
        let id = masked_id(draw);
        let s = decimal_string(id);
        if !self.call_reply.contains_key(&s) {
            return s;
        }
        let n = self.call_reply.len();
        proof {
            self.call_reply.lemma_finite();
            lemma_free_decimal_exists(self@.calls.dom(), n as nat);
        }
        let mut c: usize = 0;
        loop
            invariant
                self.wf(),
                n == self@.calls.len(),
                c <= n,
                self@.calls.contains_key(decimal((draw & REQUEST_ID_MASK) as nat)),
                forall|j: nat| j < c ==> self@.calls.contains_key(#[trigger] decimal(j)),
                exists|j: nat| j <= n && !self@.calls.dom().contains(decimal(j)),
            decreases n - c,
        {
            let t = decimal_string(c as u64);
            if !self.call_reply.contains_key(&t) {
                return t;
            }
            if c == n {
                proof {
                    let j = choose|j: nat| j <= n && !self@.calls.dom().contains(decimal(j));
                    if j < c {
                        assert(self@.calls.contains_key(decimal(j)));
                    }
                }
                assert(false);
            }
            c += 1;
        }
    }

    /// Starts a call with an id made from `draw`: the call is written to the
    /// broker and, unless it expects no reply, its replies go to `sink`.
    pub fn call_with_id(
        &mut self,
        draw: u64,
        caller: String,
        addr: String,
        body: Vec<u8>,
        no_reply: bool,
        sink: u64,
    ) -> (r: (String, GsbMessage))
        requires
            old(self).wf(),
        ensures
            final(self).wf(),
            !old(self)@.calls.contains_key(r.0@),
            is_request_id(r.0@, old(self)@.calls.len()),
            !old(self)@.calls.contains_key(decimal((draw & REQUEST_ID_MASK) as nat)) ==> r.0@
                == decimal((draw & REQUEST_ID_MASK) as nat),
            final(self)@ == (if no_reply {
                old(self)@
            } else {
                ConnectionView { calls: old(self)@.calls.insert(r.0@, sink), ..old(self)@ }
            }),
            r.1 matches GsbMessage::CallRequest(m) && m.request_id@ == r.0@ && m.caller@
                == caller@ && m.address@ == addr@ && m.data@ == body@ && m.no_reply == no_reply,
    {
        let request_id = self.fresh_request_id(draw);
        if !no_reply {
            let _ = self.call_reply.insert(request_id.clone(), sink);
            assert(final(self)@ =~= (ConnectionView {
                calls: old(self)@.calls.insert(request_id@, sink),
                ..old(self)@
            }));
        }
        let frame = GsbMessage::CallRequest(
            CallRequest { request_id: request_id.clone(), caller, address: addr, data: body, no_reply },
        );
        (request_id, frame)
    }

    /// Starts a call with a random id. Its replies, unless it expects none,
    /// go to `sink`; [`unary_call_result`] gives its outcome from the first.
    pub fn call(&mut self, caller: String, addr: String, body: Vec<u8>, no_reply: bool, sink: u64) -> (r: (
        String,
        GsbMessage,
    ))
        requires
            old(self).wf(),
        ensures
            final(self).wf(),
            !old(self)@.calls.contains_key(r.0@),
            is_request_id(r.0@, old(self)@.calls.len()),
            final(self)@ == (if no_reply {
                old(self)@
            } else {
                ConnectionView { calls: old(self)@.calls.insert(r.0@, sink), ..old(self)@ }
            }),
            r.1 matches GsbMessage::CallRequest(m) && m.request_id@ == r.0@ && m.caller@
                == caller@ && m.address@ == addr@ && m.data@ == body@ && m.no_reply == no_reply,
    {
        let draw = gen_id();
        self.call_with_id(draw, caller, addr, body, no_reply, sink)
    }

    /// Starts a call whose replies all go, chunk by chunk, to `sink`.
    pub fn call_streaming(&mut self, caller: String, addr: String, body: Vec<u8>, sink: u64) -> (r: (
        String,
        GsbMessage,
    ))
        requires
            old(self).wf(),
        ensures
            final(self).wf(),
            !old(self)@.calls.contains_key(r.0@),
            is_request_id(r.0@, old(self)@.calls.len()),
            final(self)@ == (ConnectionView {
                calls: old(self)@.calls.insert(r.0@, sink),
                ..old(self)@
            }),
            r.1 matches GsbMessage::CallRequest(m) && m.request_id@ == r.0@ && m.caller@
                == caller@ && m.address@ == addr@ && m.data@ == body@ && !m.no_reply,
    {
        let draw = gen_id();
        self.call_with_id(draw, caller, addr, body, false, sink)
    }

    /// The caller of `request_id` gave up: later replies to it are dropped.
    pub fn cancel_call(&mut self, request_id: &String)
        requires
            old(self).wf(),
        ensures
            final(self).wf(),
            final(self)@ == (ConnectionView {
                calls: old(self)@.calls.remove(request_id@),
                ..old(self)@
            }),
    {
        let _ = self.call_reply.remove(request_id);
        assert(final(self)@ =~= (ConnectionView {
            calls: old(self)@.calls.remove(request_id@),
            ..old(self)@
        }));
    }
}

} // verus!
