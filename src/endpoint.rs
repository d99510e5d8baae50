//! What can be bound at an address, and how a call reaches each kind of slot.
use vstd::prelude::*;
use vstd::string::*;

use crate::chunk::{ChunkView, ResponseChunk};
use crate::error::{Error, ErrorView};

verus! {

/// A call in its byte form.
pub struct RpcRawCall {
    pub caller: String,
    pub addr: String,
    pub body: Vec<u8>,
    pub no_reply: bool,
}

impl RpcRawCall {
    pub fn new(caller: &str, addr: &str, body: Vec<u8>, no_reply: bool) -> (r: RpcRawCall)
        ensures
            r.caller@ == caller@,
            r.addr@ == addr@,
            r.body@ == body@,
            r.no_reply == no_reply,
    {
        RpcRawCall {
            caller: String::from_str(caller),
            addr: String::from_str(addr),
            body,
            no_reply,
        }
    }
}

/// A raw unary recipient and a raw streaming recipient bound at one address.
/// Each recipient is named by the number under which the application keeps it.
#[derive(Clone, Copy, Debug, PartialEq, Eq, Structural)]
pub struct DualRawEndpoint {
    pub rpc: u64,
    pub stream: u64,
}

impl DualRawEndpoint {
    pub fn new(rpc: u64, stream: u64) -> (r: Self)
        ensures
            r.rpc == rpc,
            r.stream == stream,
    {
        DualRawEndpoint { rpc, stream }
    }
}

/// What is stored for one bound address. Each recipient is named by the number
/// under which the application keeps it.
pub enum Slot {
    /// A handler of one typed request that gives one typed reply.
    Handler { type_id: String, endpoint: u64 },
    /// A handler of one typed request that gives a stream of typed replies.
    StreamHandler { type_id: String, endpoint: u64 },
    /// A recipient of calls in byte form that gives bytes back.
    Raw { endpoint: u64 },
    /// A raw unary recipient together with a raw streaming one.
    RawDual(DualRawEndpoint),
}

/// The mathematical form of a [`Slot`].
pub enum SlotView {
    Handler { type_id: Seq<char>, endpoint: u64 },
    StreamHandler { type_id: Seq<char>, endpoint: u64 },
    Raw { endpoint: u64 },
    RawDual { rpc: u64, stream: u64 },
}

impl View for Slot {
    type V = SlotView;

    open spec fn view(&self) -> SlotView {
        match self {
            Slot::Handler { type_id, endpoint } => SlotView::Handler {
                type_id: type_id@,
                endpoint: *endpoint,
            },
            Slot::StreamHandler { type_id, endpoint } => SlotView::StreamHandler {
                type_id: type_id@,
                endpoint: *endpoint,
            },
            Slot::Raw { endpoint } => SlotView::Raw { endpoint: *endpoint },
            Slot::RawDual(d) => SlotView::RawDual { rpc: d.rpc, stream: d.stream },
        }
    }
}

/// How a call is handed to a local recipient.
pub enum Delivery {
    /// Decode the body as the handler's request, call it, encode its one reply.
    Handler { endpoint: u64, call: RpcRawCall },
    /// Decode the body, call the streaming handler, encode each reply.
    StreamHandler { endpoint: u64, call: RpcRawCall },
    /// Pass the call as it is to a raw unary recipient.
    Raw { endpoint: u64, call: RpcRawCall },
    /// Pass the call as it is to a raw streaming recipient.
    RawStream { endpoint: u64, call: RpcRawCall },
}

/// The recipient that a call in byte form goes to for a unary reply, or
/// `None` where the slot answers only with a stream.
pub open spec fn unary_recipient(s: SlotView) -> Option<u64> {
    match s {
        SlotView::Handler { endpoint, .. } => Some(endpoint),
        SlotView::StreamHandler { .. } => None,
        SlotView::Raw { endpoint } => Some(endpoint),
        SlotView::RawDual { rpc, .. } => Some(rpc),
    }
}

/// Text of the error given to a unary call on a streaming endpoint.
pub open spec fn streaming_endpoint_text(addr: Seq<char>) -> Seq<char> {
    "non-streaming-request on streaming endpoint: "@ + addr
}

/// `r` is how a slot `s` takes `call` when one reply in bytes is expected.
pub open spec fn sends_as(s: SlotView, call: RpcRawCall, r: Result<Delivery, Error>) -> bool {
    match unary_recipient(s) {
        Some(e) => match r {
            Ok(Delivery::Handler { endpoint, call: c }) => s is Handler && endpoint == e && c
                == call,
            Ok(Delivery::Raw { endpoint, call: c }) => !(s is Handler) && endpoint == e && c
                == call,
            _ => false,
        },
        None => r matches Err(Error::GsbBadRequest(m)) && m@ == streaming_endpoint_text(
            call.addr@,
        ),
    }
}

/// `r` is how a slot `s` takes `call` when a stream of chunks is expected.
pub open spec fn streams_as(s: SlotView, call: RpcRawCall, r: Delivery) -> bool {
    match s {
        SlotView::Handler { endpoint, .. } => r == Delivery::Handler { endpoint, call },
        SlotView::StreamHandler { endpoint, .. } => r == Delivery::StreamHandler { endpoint, call },
        SlotView::Raw { endpoint } => r == Delivery::Raw { endpoint, call },
        SlotView::RawDual { stream, .. } => r == Delivery::RawStream { endpoint: stream, call },
    }
}

/// What a streaming caller gets from one item of a chunk stream: nothing
/// for the end-of-stream marker, else the chunk's bytes or the error.
pub open spec fn payload_view(item: Result<ChunkView, ErrorView>) -> Option<Result<Seq<u8>, ErrorView>> {
    match item {
        Ok(ChunkView::Full(b)) => if b.len() == 0 {
            None
        } else {
            Some(Ok(b))
        },
        Ok(ChunkView::Part(b)) => Some(Ok(b)),
        Err(e) => Some(Err(e)),
    }
}

/// What a streaming caller gets from a whole chunk stream.
pub open spec fn stream_items(chunks: Seq<Result<ChunkView, ErrorView>>) -> Seq<Result<Seq<u8>, ErrorView>>
    decreases chunks.len(),
{
    if chunks.len() == 0 {
        Seq::empty()
    } else {
        let rest = stream_items(chunks.drop_last());
        match payload_view(chunks.last()) {
            None => rest,
            Some(p) => rest.push(p),
        }
    }
}

/// The chunk stream of a streaming handler that replied with `items` and
/// then finished: a `Part` for each, then the end-of-stream marker.
pub open spec fn handler_stream(items: Seq<Seq<u8>>) -> Seq<Result<ChunkView, ErrorView>> {
    items.map_values(|b: Seq<u8>| Ok(ChunkView::Part(b))).push(Ok(ChunkView::Full(Seq::empty())))
}

pub open spec fn chunk_item_view(r: Result<ResponseChunk, Error>) -> Result<ChunkView, ErrorView> {
    match r {
        Ok(c) => Ok(c@),
        Err(e) => Err(e@),
    }
}

pub open spec fn bytes_result_view(r: Result<Vec<u8>, Error>) -> Result<Seq<u8>, ErrorView> {
    match r {
        Ok(b) => Ok(b@),
        Err(e) => Err(e@),
    }
}

/// A streaming handler's items reach a streaming caller as exactly those
/// items, in order: the end-of-stream marker is not among them.
pub proof fn lemma_stream_end_marker(items: Seq<Seq<u8>>)
    ensures
        stream_items(handler_stream(items)) == items.map_values(
            |b: Seq<u8>| Ok::<Seq<u8>, ErrorView>(b),
        ),
    decreases items.len(),
{
    let chunks = handler_stream(items);
    assert(chunks.drop_last() =~= items.map_values(|b: Seq<u8>| Ok(ChunkView::Part(b))));
    lemma_parts_pass(items);
}

proof fn lemma_parts_pass(items: Seq<Seq<u8>>)
    ensures
        stream_items(items.map_values(|b: Seq<u8>| Ok::<ChunkView, ErrorView>(ChunkView::Part(b))))
            == items.map_values(|b: Seq<u8>| Ok::<Seq<u8>, ErrorView>(b)),
    decreases items.len(),
{
    let parts = items.map_values(|b: Seq<u8>| Ok::<ChunkView, ErrorView>(ChunkView::Part(b)));
    if items.len() == 0 {
        assert(items.map_values(|b: Seq<u8>| Ok::<Seq<u8>, ErrorView>(b)) =~= Seq::empty());
    } else {
        lemma_parts_pass(items.drop_last());
        assert(parts.drop_last() =~= items.drop_last().map_values(
            |b: Seq<u8>| Ok::<ChunkView, ErrorView>(ChunkView::Part(b)),
        ));
        assert(items.map_values(|b: Seq<u8>| Ok::<Seq<u8>, ErrorView>(b)) =~= items.drop_last().map_values(
            |b: Seq<u8>| Ok::<Seq<u8>, ErrorView>(b),
        ).push(Ok(items.last())));
    }
}

/// A unary reply as one item of a chunk stream: its bytes as a `Full` chunk.
pub fn unary_chunk(r: Result<Vec<u8>, Error>) -> (c: Result<ResponseChunk, Error>)
    ensures
        chunk_item_view(c) == match bytes_result_view(r) {
            Ok(b) => Ok(ChunkView::Full(b)),
            Err(e) => Err(e),
        },
{
    match r {
        Ok(v) => Ok(ResponseChunk::Full(v)),
        Err(e) => Err(e),
    }
}

/// The chunk stream of a streaming handler that replied with `items`: a
/// `Part` for each, then the end-of-stream marker, or the handler's error
/// where it failed.
pub fn stream_handler_chunks(items: Vec<Vec<u8>>, failure: Option<Error>) -> (r: Vec<
    Result<ResponseChunk, Error>,
>)
    ensures
        r@.len() == items@.len() + 1,
        forall|i: int|
            0 <= i < items@.len() ==> chunk_item_view(#[trigger] r@[i]) == Ok::<ChunkView, ErrorView>(
                ChunkView::Part(items@[i]@),
            ),
        chunk_item_view(r@.last()) == match failure {
            None => Ok(ChunkView::Full(Seq::empty())),
            Some(e) => Err(e@),
        },
        failure is None ==> r@.map_values(|c: Result<ResponseChunk, Error>| chunk_item_view(c))
            == handler_stream(items@.map_values(|b: Vec<u8>| b@)),
{
    let mut r: Vec<Result<ResponseChunk, Error>> = Vec::new();
    let mut items = items;
    let ghost all = items@;
    let mut rest: Vec<Vec<u8>> = Vec::new();
    while items.len() > 0
        invariant
            all =~= items@ + rest@.reverse(),
        decreases items@.len(),
    {
        match items.pop() {
            Some(b) => {
                let ghost before = rest@;
                rest.push(b);
                proof {
                    assert(rest@.reverse() =~= seq![b] + before.reverse());
                }
            },
            None => {},
        }
    }
    while rest.len() > 0
        invariant
            r@.len() + rest@.len() == all.len(),
            rest@.reverse() =~= all.subrange(r@.len() as int, all.len() as int),
            forall|i: int|
                0 <= i < r@.len() ==> chunk_item_view(#[trigger] r@[i]) == Ok::<ChunkView, ErrorView>(
                    ChunkView::Part(all[i]@),
                ),
        decreases rest@.len(),
    {
        let ghost k = r@.len();
        let ghost before = rest@;
        match rest.pop() {
            Some(b) => {
                proof {
                    assert(before.reverse()[0] == b);
                    assert(all.subrange(k as int, all.len() as int)[0] == all[k as int]);
                    assert(rest@.reverse() =~= before.reverse().subrange(1, before.len() as int));
                }
                r.push(Ok(ResponseChunk::Part(b)));
            },
            None => {},
        }
    }
    match failure {
        None => r.push(Ok(ResponseChunk::Full(Vec::new()))),
        Some(e) => r.push(Err(e)),
    }
    proof {
        if failure is None {
            let views = all.map_values(|b: Vec<u8>| b@);
            assert(r@.map_values(|c: Result<ResponseChunk, Error>| chunk_item_view(c))
                =~= handler_stream(views));
        }
    }
    r
}

/// The bytes of a reply to a typed unary call, which are about to be decoded:
/// an empty reply is refused rather than decoded.
pub fn decode_unary_reply(r: Result<Vec<u8>, Error>) -> (res: Result<Vec<u8>, Error>)
    ensures
        bytes_result_view(res) == match bytes_result_view(r) {
            Ok(b) => if b.len() == 0 {
                Err(ErrorView::GsbFailure("empty response from remote service"@))
            } else {
                Ok(b)
            },
            Err(e) => Err(e),
        },
{
    match r {
        Ok(b) => {
            if b.len() == 0 {
                Err(Error::GsbFailure(String::from_str("empty response from remote service")))
            } else {
                Ok(b)
            }
        },
        Err(e) => Err(e),
    }
}

/// What a streaming caller gets from one item of a chunk stream.
pub fn stream_payload(item: Result<ResponseChunk, Error>) -> (r: Option<Result<Vec<u8>, Error>>)
    ensures
        match r {
            Some(p) => payload_view(chunk_item_view(item)) == Some(bytes_result_view(p)),
            None => payload_view(chunk_item_view(item)) is None,
        },
{
    match item {
        Ok(ResponseChunk::Full(b)) => {
            if b.len() == 0 {
                None
            } else {
                Some(Ok(b))
            }
        },
        Ok(ResponseChunk::Part(b)) => Some(Ok(b)),
        Err(e) => Some(Err(e)),
    }
}

/// What a streaming caller gets from a finished chunk stream.
pub fn stream_payloads(chunks: Vec<Result<ResponseChunk, Error>>) -> (r: Vec<Result<Vec<u8>, Error>>)
    ensures
        r@.map_values(|p: Result<Vec<u8>, Error>| bytes_result_view(p)) == stream_items(
            chunks@.map_values(|c: Result<ResponseChunk, Error>| chunk_item_view(c)),
        ),
{
    let ghost all = chunks@;
    let mut chunks = chunks;
    let mut rev: Vec<Result<ResponseChunk, Error>> = Vec::new();
    while chunks.len() > 0
        invariant
            all =~= chunks@ + rev@.reverse(),
        decreases chunks@.len(),
    {
        match chunks.pop() {
            Some(c) => {
                let ghost before = rev@;
                rev.push(c);
                proof {
                    assert(rev@.reverse() =~= seq![c] + before.reverse());
                }
            },
            None => {},
        }
    }
    let mut r: Vec<Result<Vec<u8>, Error>> = Vec::new();
    let ghost mut taken: Seq<Result<ResponseChunk, Error>> = Seq::empty();
    while rev.len() > 0
        invariant
            all =~= taken + rev@.reverse(),
            r@.map_values(|p: Result<Vec<u8>, Error>| bytes_result_view(p)) == stream_items(
                taken.map_values(|c: Result<ResponseChunk, Error>| chunk_item_view(c)),
            ),
        decreases rev@.len(),
    {
        match rev.pop() {
            Some(c) => {
                let ghost before = taken;
                let ghost rbefore = r@;
                proof {
                    taken = taken.push(c);
                    let tv = taken.map_values(|c: Result<ResponseChunk, Error>| chunk_item_view(c));
                    assert(tv.drop_last() =~= before.map_values(
                        |c: Result<ResponseChunk, Error>| chunk_item_view(c),
                    ));
                    assert(tv.last() == chunk_item_view(c));
                }
                match stream_payload(c) {
                    Some(p) => {
                        r.push(p);
                        assert(r@.map_values(|p: Result<Vec<u8>, Error>| bytes_result_view(p))
                            =~= rbefore.map_values(
                            |p: Result<Vec<u8>, Error>| bytes_result_view(p),
                        ).push(bytes_result_view(p)));
                    },
                    None => {},
                }
            },
            None => {},
        }
    }
    assert(taken =~= all);
    r
}

impl Slot {
    pub fn duplicate(&self) -> (r: Slot)
        ensures
            r@ == self@,
    {
        match self {
            Slot::Handler { type_id, endpoint } => Slot::Handler {
                type_id: type_id.clone(),
                endpoint: *endpoint,
            },
            Slot::StreamHandler { type_id, endpoint } => Slot::StreamHandler {
                type_id: type_id.clone(),
                endpoint: *endpoint,
            },
            Slot::Raw { endpoint } => Slot::Raw { endpoint: *endpoint },
            Slot::RawDual(d) => Slot::RawDual(*d),
        }
    }

    /// Routes a call that expects one reply in bytes. A streaming handler
    /// refuses it; a dual slot hands it to its unary side.
    pub fn send(&self, call: RpcRawCall) -> (r: Result<Delivery, Error>)
        ensures
            sends_as(self@, call, r),
    {
        match self {
            Slot::Handler { endpoint, .. } => Ok(Delivery::Handler { endpoint: *endpoint, call }),
            Slot::StreamHandler { .. } => {
                let m = String::from_str("non-streaming-request on streaming endpoint: ").concat(
                    call.addr.as_str(),
                );
                Err(Error::GsbBadRequest(m))
            },
            Slot::Raw { endpoint } => Ok(Delivery::Raw { endpoint: *endpoint, call }),
            Slot::RawDual(d) => Ok(Delivery::Raw { endpoint: d.rpc, call }),
        }
    }

    /// Routes a call that expects a stream of chunks. A dual slot hands it to
    /// its streaming side.
    pub fn send_streaming(&self, call: RpcRawCall) -> (r: Delivery)
        ensures
            streams_as(self@, call, r),
    {
        match self {
            Slot::Handler { endpoint, .. } => Delivery::Handler { endpoint: *endpoint, call },
            Slot::StreamHandler { endpoint, .. } => Delivery::StreamHandler {
                endpoint: *endpoint,
                call,
            },
            Slot::Raw { endpoint } => Delivery::Raw { endpoint: *endpoint, call },
            Slot::RawDual(d) => Delivery::RawStream { endpoint: d.stream, call },
        }
    }
}

} // verus!
