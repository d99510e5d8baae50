//! The local registry of bound services and the decision, for each call,
//! between a local slot and the broker.
use vstd::prelude::*;
use vstd::slice::slice_to_vec;
use vstd::string::*;

use crate::endpoint::{
    Delivery, DualRawEndpoint, RpcRawCall, Slot, SlotView, sends_as, streams_as,
};
use crate::error::Error;
use crate::prefix_bag::{
    PrefixLookupBag, covers, is_longest_match, lemma_longest_match_unique,
    lemma_path_prefix_is_prefix, longest_match,
};

verus! {

/// The address under which a typed service is bound: the base address, a
/// `/`, and the identifier of the message type.
pub open spec fn typed_key(addr: Seq<char>, type_id: Seq<char>) -> Seq<char> {
    addr + seq!['/'] + type_id
}

/// `s` starts with `p`.
pub open spec fn has_prefix(s: Seq<char>, p: Seq<char>) -> bool {
    p.len() <= s.len() && s.subrange(0, p.len() as int) == p
}

/// The prefix that the keys removed by an unbind of `addr` start with: the
/// address itself where it ends with `/`, else the address and a `/`.
pub open spec fn unbind_pattern(addr: Seq<char>) -> Seq<char> {
    if addr.len() > 0 && addr.last() == '/' {
        addr
    } else {
        addr + seq!['/']
    }
}

/// The slot answers typed calls of `type_id` directly, with no encoding.
pub open spec fn is_typed_handler(s: SlotView, type_id: Seq<char>) -> bool {
    s matches SlotView::Handler { type_id: t, .. } && t == type_id
}

/// The slot answers typed streaming calls of `type_id` directly.
pub open spec fn is_typed_stream_handler(s: SlotView, type_id: Seq<char>) -> bool {
    s matches SlotView::StreamHandler { type_id: t, .. } && t == type_id
}

/// The recipient number of a slot's first recipient.
pub open spec fn primary_endpoint(s: SlotView) -> u64 {
    match s {
        SlotView::Handler { endpoint, .. } => endpoint,
        SlotView::StreamHandler { endpoint, .. } => endpoint,
        SlotView::Raw { endpoint } => endpoint,
        SlotView::RawDual { rpc, .. } => rpc,
    }
}

/// `r` is where a typed call to the service key `key` goes: straight to a
/// handler of the very type (`streaming` says which kind), to another local
/// slot, or to the broker where no slot covers the key.
pub open spec fn routes_as(
    m: Map<Seq<char>, Slot>,
    key: Seq<char>,
    type_id: Seq<char>,
    streaming: bool,
    r: Route,
) -> bool {
    match longest_match(m, key) {
        None => r matches Route::Broker { addr } && addr@ == key,
        Some(k) => if (if streaming {
            is_typed_stream_handler(m[k]@, type_id)
        } else {
            is_typed_handler(m[k]@, type_id)
        }) {
            r matches Route::Direct { endpoint, addr } && addr@ == key && endpoint
                == primary_endpoint(m[k]@)
        } else {
            r matches Route::Local { slot, addr } && addr@ == key && slot@ == m[k]@
        },
    }
}

/// `c` is a call from `caller` to `addr` with `body`.
pub open spec fn is_call(
    c: RpcRawCall,
    caller: Seq<char>,
    addr: Seq<char>,
    body: Seq<u8>,
    no_reply: bool,
) -> bool {
    c.caller@ == caller && c.addr@ == addr && c.body@ == body && c.no_reply == no_reply
}

/// A key that is stored is the longest match of itself.
pub proof fn lemma_exact_key_wins<T>(m: Map<Seq<char>, T>, key: Seq<char>)
    requires
        m.contains_key(key),
    ensures
        longest_match(m, key) == Some(key),
{
    assert forall|k: Seq<char>| #[trigger] covers(m, key, k) implies k.len() <= key.len() by {
        lemma_path_prefix_is_prefix(k, key);
    }
    assert(is_longest_match(m, key, key));
    let c = choose|k: Seq<char>| is_longest_match(m, key, k);
    lemma_longest_match_unique(m, key, c, key);
}

/// Once a handler of `type_id` is bound at the typed address, replacing
/// whatever was bound there, a typed call of `type_id` to that address goes
/// to that handler, with no encoding.
pub proof fn lemma_rebind_replaces(
    m: Map<Seq<char>, Slot>,
    addr: Seq<char>,
    type_id: Seq<char>,
    endpoint: u64,
    r: Route,
)
    requires
        m.contains_key(typed_key(addr, type_id)),
        m[typed_key(addr, type_id)]@ == (SlotView::Handler { type_id, endpoint }),
        routes_as(m, typed_key(addr, type_id), type_id, false, r),
    ensures
        r matches Route::Direct { endpoint: e, addr: a } && e == endpoint && a@ == typed_key(
            addr,
            type_id,
        ),
{
    lemma_exact_key_wins(m, typed_key(addr, type_id));
}

/// After an unbind by `pattern`, an address that starts with `pattern` is
/// covered at most by a key shorter than the pattern: nothing below the
/// unbound prefix answers for it.
pub proof fn lemma_unbind_leaves_no_descendant<T>(
    m: Map<Seq<char>, T>,
    pattern: Seq<char>,
    addr: Seq<char>,
)
    requires
        forall|k: Seq<char>| #[trigger] m.contains_key(k) ==> !has_prefix(k, pattern),
        has_prefix(addr, pattern),
    ensures
        longest_match(m, addr) matches Some(k) ==> k.len() < pattern.len(),
{
    if longest_match(m, addr) is Some {
        let k = longest_match(m, addr)->Some_0;
        lemma_path_prefix_is_prefix(k, addr);
        if k.len() >= pattern.len() {
            assert(k.subrange(0, pattern.len() as int) =~= addr.subrange(0, pattern.len() as int));
            assert(has_prefix(k, pattern));
        }
    }
}

/// A notice to the broker that an address was bound or unbound locally.
pub enum UpdateService {
    Add(String),
    Remove(String),
}

/// Where a typed call goes.
pub enum Route {
    /// The slot is a handler of the very message type: hand over the message
    /// itself, with no encoding.
    Direct { endpoint: u64, addr: String },
    /// A local slot of another kind: encode the message and send the bytes.
    Local { slot: Slot, addr: String },
    /// No local slot covers the address: send the encoded message to the broker.
    Broker { addr: String },
}

/// Where a call in byte form goes.
pub enum Dispatch {
    Local(Delivery),
    Broker(RpcRawCall),
}

/// `addr`, a `/`, and `type_id`.
pub fn typed_address(addr: &str, type_id: &str) -> (r: String)
    ensures
        r@ == typed_key(addr@, type_id@),
{
    proof {
        reveal_strlit("/");
    }
    String::from_str(addr).concat("/").concat(type_id)
}

/// Whether `s` starts with `p`.
pub fn has_prefix_exec(s: &str, p: &str) -> (r: bool)
    ensures
        r == has_prefix(s@, p@),
{
    let sl = s.unicode_len();
    let pl = p.unicode_len();
    if pl > sl {
        return false;
    }
    let mut i: usize = 0;
    while i < pl
        invariant
            sl == s@.len(),
            pl == p@.len(),
            pl <= sl,
            i <= pl,
            forall|j: int| 0 <= j < i ==> s@[j] == p@[j],
        decreases pl - i,
    {
        if s.get_char(i) != p.get_char(i) {
            assert(s@.subrange(0, pl as int)[i as int] != p@[i as int]);
            return false;
        }
        i += 1;
    }
    assert(s@.subrange(0, pl as int) =~= p@);
    true
}

/// The prefix that an unbind of `addr` removes keys by.
pub fn unbind_prefix(addr: &str) -> (r: String)
    ensures
        r@ == unbind_pattern(addr@),
{
    let n = addr.unicode_len();
    if n > 0 && addr.get_char(n - 1) == '/' {
        String::from_str(addr)
    } else {
        proof {
            reveal_strlit("/");
        }
        String::from_str(addr).concat("/")
    }
}

/// The registry of locally bound services.
pub struct Router {
    handlers: PrefixLookupBag<Slot>,
}

impl View for Router {
    type V = Map<Seq<char>, Slot>;

    closed spec fn view(&self) -> Map<Seq<char>, Slot> {
        self.handlers@
    }
}

impl Router {
    pub closed spec fn wf(&self) -> bool {
        self.handlers.wf()
    }

    pub fn new() -> (r: Router)
        ensures
            r.wf(),
            r@ == Map::<Seq<char>, Slot>::empty(),
    {
        Router { handlers: PrefixLookupBag::new() }
    }

    fn bind_slot(&mut self, key: String, slot: Slot) -> (r: UpdateService)
        requires
            old(self).wf(),
        ensures
            final(self).wf(),
            final(self)@ == old(self)@.insert(key@, slot),
            r matches UpdateService::Add(a) && a@ == key@,
    {
        let notice = key.clone();
        let _ = self.handlers.insert(key, slot);
        UpdateService::Add(notice)
    }

    /// Binds a handler of typed requests at `addr` + `/` + `type_id`,
    /// replacing what was bound there. Returns the notice for the broker.
    pub fn bind(&mut self, addr: &str, type_id: &str, endpoint: u64) -> (r: UpdateService)
        requires
            old(self).wf(),
        ensures
            final(self).wf(),
            final(self)@.dom() == old(self)@.dom().insert(typed_key(addr@, type_id@)),
            final(self)@[typed_key(addr@, type_id@)]@ == (SlotView::Handler {
                type_id: type_id@,
                endpoint,
            }),
            forall|k: Seq<char>|
                k != typed_key(addr@, type_id@) && #[trigger] old(self)@.contains_key(k)
                    ==> final(self)@[k] == old(self)@[k],
            r matches UpdateService::Add(a) && a@ == typed_key(addr@, type_id@),
    {
        let key = typed_address(addr, type_id);
        let slot = Slot::Handler { type_id: String::from_str(type_id), endpoint };
        self.bind_slot(key, slot)
    }

    /// Binds an actor that takes typed requests; the same as [`Router::bind`].
    pub fn bind_actor(&mut self, addr: &str, type_id: &str, endpoint: u64) -> (r: UpdateService)
        requires
            old(self).wf(),
        ensures
            final(self).wf(),
            final(self)@.dom() == old(self)@.dom().insert(typed_key(addr@, type_id@)),
            final(self)@[typed_key(addr@, type_id@)]@ == (SlotView::Handler {
                type_id: type_id@,
                endpoint,
            }),
            forall|k: Seq<char>|
                k != typed_key(addr@, type_id@) && #[trigger] old(self)@.contains_key(k)
                    ==> final(self)@[k] == old(self)@[k],
            r matches UpdateService::Add(a) && a@ == typed_key(addr@, type_id@),
    {
        self.bind(addr, type_id, endpoint)
    }

    /// Binds a streaming handler at `addr` + `/` + `type_id`.
    pub fn bind_stream(&mut self, addr: &str, type_id: &str, endpoint: u64) -> (r: UpdateService)
        requires
            old(self).wf(),
        ensures
            final(self).wf(),
            final(self)@.dom() == old(self)@.dom().insert(typed_key(addr@, type_id@)),
            final(self)@[typed_key(addr@, type_id@)]@ == (SlotView::StreamHandler {
                type_id: type_id@,
                endpoint,
            }),
            forall|k: Seq<char>|
                k != typed_key(addr@, type_id@) && #[trigger] old(self)@.contains_key(k)
                    ==> final(self)@[k] == old(self)@[k],
            r matches UpdateService::Add(a) && a@ == typed_key(addr@, type_id@),
    {
        let key = typed_address(addr, type_id);
        let slot = Slot::StreamHandler { type_id: String::from_str(type_id), endpoint };
        self.bind_slot(key, slot)
    }

    /// Binds a streaming actor; the same as [`Router::bind_stream`].
    pub fn bind_stream_actor(&mut self, addr: &str, type_id: &str, endpoint: u64) -> (r:
        UpdateService)
        requires
            old(self).wf(),
        ensures
            final(self).wf(),
            final(self)@.dom() == old(self)@.dom().insert(typed_key(addr@, type_id@)),
            final(self)@[typed_key(addr@, type_id@)]@ == (SlotView::StreamHandler {
                type_id: type_id@,
                endpoint,
            }),
            forall|k: Seq<char>|
                k != typed_key(addr@, type_id@) && #[trigger] old(self)@.contains_key(k)
                    ==> final(self)@[k] == old(self)@[k],
            r matches UpdateService::Add(a) && a@ == typed_key(addr@, type_id@),
    {
        self.bind_stream(addr, type_id, endpoint)
    }

    /// Binds a raw recipient at `addr` itself.
    pub fn bind_raw(&mut self, addr: &str, endpoint: u64) -> (r: UpdateService)
        requires
            old(self).wf(),
        ensures
            final(self).wf(),
            final(self)@.dom() == old(self)@.dom().insert(addr@),
            final(self)@[addr@]@ == (SlotView::Raw { endpoint }),
            forall|k: Seq<char>|
                k != addr@ && #[trigger] old(self)@.contains_key(k) ==> final(self)@[k]
                    == old(self)@[k],
            r matches UpdateService::Add(a) && a@ == addr@,
    {
        self.bind_slot(String::from_str(addr), Slot::Raw { endpoint })
    }

    /// Binds a raw unary recipient and a raw streaming one at `addr` itself.
    pub fn bind_raw_dual(&mut self, addr: &str, dual: DualRawEndpoint) -> (r: UpdateService)
        requires
            old(self).wf(),
        ensures
            final(self).wf(),
            final(self)@.dom() == old(self)@.dom().insert(addr@),
            final(self)@[addr@]@ == (SlotView::RawDual { rpc: dual.rpc, stream: dual.stream }),
            forall|k: Seq<char>|
                k != addr@ && #[trigger] old(self)@.contains_key(k) ==> final(self)@[k]
                    == old(self)@[k],
            r matches UpdateService::Add(a) && a@ == addr@,
    {
        self.bind_slot(String::from_str(addr), Slot::RawDual(dual))
    }

    /// The slot whose key is the longest one covering `addr`, if any.
    fn lookup(&self, addr: &str) -> (r: Option<Slot>)
        requires
            self.wf(),
        ensures
            match longest_match(self@, addr@) {
                Some(k) => r matches Some(s) && s@ == self@[k]@,
                None => r is None,
            },
    {
        match self.handlers.get(addr) {
            Some(s) => Some(s.duplicate()),
            None => None,
        }
    }
    fn route(&self, addr: &str, type_id: &str, streaming: bool) -> (r: Route)
        requires
            self.wf(),
        ensures
            routes_as(self@, typed_key(addr@, type_id@), type_id@, streaming, r),
    {
        let key = typed_address(addr, type_id);
        match self.lookup(key.as_str()) {
            None => Route::Broker { addr: key },
            Some(slot) => {
                let wanted = String::from_str(type_id);
                let direct = match &slot {
                    Slot::Handler { type_id: t, .. } => !streaming && *t == wanted,
                    Slot::StreamHandler { type_id: t, .. } => streaming && *t == wanted,
                    _ => false,
                };
                if direct {
                    let endpoint = match &slot {
                        Slot::Handler { endpoint, .. } => *endpoint,
                        Slot::StreamHandler { endpoint, .. } => *endpoint,
                        Slot::Raw { endpoint } => *endpoint,
                        Slot::RawDual(d) => d.rpc,
                    };
                    Route::Direct { endpoint, addr: key }
                } else {
                    Route::Local { slot, addr: key }
                }
            },
        }
    }

    /// Where a typed call of `type_id` to `addr` goes.
    pub fn forward(&self, addr: &str, type_id: &str) -> (r: Route)
        requires
            self.wf(),
        ensures
            routes_as(self@, typed_key(addr@, type_id@), type_id@, false, r),
    {
        self.route(addr, type_id, false)
    }

    /// Where a typed call of `type_id` to `addr` that expects no reply goes.
    pub fn push(&self, addr: &str, type_id: &str) -> (r: Route)
        requires
            self.wf(),
        ensures
            routes_as(self@, typed_key(addr@, type_id@), type_id@, false, r),
    {
        self.route(addr, type_id, false)
    }

    /// Where a typed streaming call of `type_id` to `addr` goes.
    pub fn streaming_forward(&self, addr: &str, type_id: &str) -> (r: Route)
        requires
            self.wf(),
        ensures
            routes_as(self@, typed_key(addr@, type_id@), type_id@, true, r),
    {
        self.route(addr, type_id, true)
    }

    /// Routes a call in byte form that expects one reply: to the slot that
    /// covers `addr`, or to the broker.
    pub fn forward_bytes(&self, addr: &str, caller: &str, msg: Vec<u8>, no_reply: bool) -> (r:
        Result<Dispatch, Error>)
        requires
            self.wf(),
        ensures
            match longest_match(self@, addr@) {
                None => r matches Ok(Dispatch::Broker(c)) && is_call(
                    c,
                    caller@,
                    addr@,
                    msg@,
                    no_reply,
                ),
                Some(k) => exists|c: RpcRawCall|
                    is_call(c, caller@, addr@, msg@, no_reply) && sends_as(
                        self@[k]@,
                        c,
                        match r {
                            Ok(Dispatch::Local(d)) => Ok(d),
                            Ok(Dispatch::Broker(_)) => Err(Error::Cancelled),
                            Err(e) => Err(e),
                        },
                    ),
            },
    {
        let call = RpcRawCall::new(caller, addr, msg, no_reply);
        match self.lookup(addr) {
            None => Ok(Dispatch::Broker(call)),
            Some(slot) => {
                let ghost c = call;
                let sent = slot.send(call);
                let r = match sent {
                    Ok(d) => Ok(Dispatch::Local(d)),
                    Err(e) => Err(e),
                };
                proof {
                    let k = longest_match(self@, addr@)->Some_0;
                    assert(is_call(c, caller@, addr@, msg@, no_reply));
                    assert(sends_as(
                        self@[k]@,
                        c,
                        match r {
                            Ok(Dispatch::Local(d)) => Ok(d),
                            Ok(Dispatch::Broker(_)) => Err(Error::Cancelled),
                            Err(e) => Err(e),
                        },
                    ));
                }
                r
            },
        }
    }

    /// Routes a call in byte form that expects a stream of chunks.
    pub fn streaming_forward_bytes(&self, addr: &str, caller: &str, msg: Vec<u8>) -> (r: Dispatch)
        requires
            self.wf(),
        ensures
            match longest_match(self@, addr@) {
                None => r matches Dispatch::Broker(c) && is_call(c, caller@, addr@, msg@, false),
                Some(k) => r matches Dispatch::Local(d) && exists|c: RpcRawCall|
                    is_call(c, caller@, addr@, msg@, false) && streams_as(self@[k]@, c, d),
            },
    {
        let call = RpcRawCall::new(caller, addr, msg, false);
        match self.lookup(addr) {
            None => Dispatch::Broker(call),
            Some(slot) => Dispatch::Local(slot.send_streaming(call)),
        }
    }

    /// Routes a call that arrived from the broker to a local slot. Without a
    /// slot that covers `addr` the call fails with `NoEndpoint`, never going
    /// back to the broker. A call that expects no reply goes as a unary call,
    /// any other as a streaming one.
    pub fn forward_bytes_local(&self, addr: &str, caller: &str, msg: &[u8], no_reply: bool) -> (r:
        Result<Delivery, Error>)
        requires
            self.wf(),
        ensures
            match longest_match(self@, addr@) {
                None => r matches Err(Error::NoEndpoint(a)) && a@ == addr@,
                Some(k) => exists|c: RpcRawCall|
                    is_call(c, caller@, addr@, msg@, no_reply) && if no_reply {
                        sends_as(self@[k]@, c, r)
                    } else {
                        r matches Ok(d) && streams_as(self@[k]@, c, d)
                    },
            },
    {
        match self.lookup(addr) {
            None => Err(Error::NoEndpoint(String::from_str(addr))),
            Some(slot) => {
                let call = RpcRawCall::new(caller, addr, slice_to_vec(msg), no_reply);
                let ghost c = call;
                let r = if no_reply {
                    slot.send(call)
                } else {
                    Ok(slot.send_streaming(call))
                };
                proof {
                    let k = longest_match(self@, addr@)->Some_0;
                    assert(is_call(c, caller@, addr@, msg@, no_reply));
                    if no_reply {
                        assert(sends_as(self@[k]@, c, r));
                    } else {
                        assert(r matches Ok(d) && streams_as(self@[k]@, c, d));
                    }
                }
                r
            },
        }
    }
    /// Removes every slot whose key starts with `addr` followed by `/` (or
    /// with `addr` itself where it ends with `/`). Returns the removed keys,
    /// once each: a `Remove` notice for the broker is owed for each, and the
    /// unbind succeeded in removing something where the list is not empty.
    pub fn unbind(&mut self, addr: &str) -> (r: Vec<String>)
        requires
            old(self).wf(),
        ensures
            final(self).wf(),
            forall|k: Seq<char>| #[trigger]
                final(self)@.contains_key(k) <==> old(self)@.contains_key(k) && !has_prefix(
                    k,
                    unbind_pattern(addr@),
                ),
            forall|k: Seq<char>| #[trigger]
                final(self)@.contains_key(k) ==> final(self)@[k] == old(self)@[k],
            forall|i: int|
                0 <= i < r@.len() ==> old(self)@.contains_key(#[trigger] r@[i]@) && has_prefix(
                    r@[i]@,
                    unbind_pattern(addr@),
                ),
            forall|k: Seq<char>|
                #[trigger] old(self)@.contains_key(k) && has_prefix(k, unbind_pattern(addr@))
                    ==> exists|i: int| 0 <= i < r@.len() && r@[i]@ == k,
            forall|i: int, j: int| 0 <= i < j < r@.len() ==> #[trigger] r@[i]@ != #[trigger] r@[j]@,
    {
        let pattern = unbind_prefix(addr);
        let keys = self.handlers.keys();
        let mut removed: Vec<String> = Vec::new();
        let ghost pat = unbind_pattern(addr@);
        let mut i: usize = 0;
        while i < keys.len()
            invariant
                self.wf(),
                pattern@ == pat,
                i <= keys@.len(),
                forall|a: int| 0 <= a < keys@.len() ==> old(self)@.contains_key(#[trigger] keys@[a]@),
                forall|k: Seq<char>| #[trigger]
                    old(self)@.contains_key(k) ==> exists|a: int| 0 <= a < keys@.len() && keys@[a]@ == k,
                forall|a: int, b: int|
                    0 <= a < b < keys@.len() ==> #[trigger] keys@[a]@ != #[trigger] keys@[b]@,
                forall|k: Seq<char>| #[trigger]
                    self@.contains_key(k) <==> old(self)@.contains_key(k) && !(has_prefix(k, pat)
                        && exists|a: int| 0 <= a < i && keys@[a]@ == k),
                forall|k: Seq<char>| #[trigger] self@.contains_key(k) ==> self@[k] == old(self)@[k],
                forall|b: int|
                    0 <= b < removed@.len() ==> has_prefix(#[trigger] removed@[b]@, pat) && exists|
                        a: int,
                    | 0 <= a < i && keys@[a]@ == removed@[b]@,
                forall|a: int|
                    0 <= a < i && has_prefix(#[trigger] keys@[a]@, pat) ==> exists|b: int|
                        0 <= b < removed@.len() && removed@[b]@ == keys@[a]@,
                forall|b: int, c: int|
                    0 <= b < c < removed@.len() ==> #[trigger] removed@[b]@ != #[trigger] removed@[c]@,
            decreases keys@.len() - i,
        {
            let key = &keys[i];
            if has_prefix_exec(key.as_str(), pattern.as_str()) {
                let ghost before = self@;
                let ghost removed_before = removed@;
                let _ = self.handlers.remove(key);
                removed.push(key.clone());
                proof {
                    assert forall|b: int| 0 <= b < removed_before.len() implies removed_before[b]@
                        != keys@[i as int]@ by {
                        let a = choose|a: int| 0 <= a < i && keys@[a]@ == removed_before[b]@;
                        assert(keys@[a]@ != keys@[i as int]@);
                    }
                    assert forall|k: Seq<char>| #[trigger] self@.contains_key(k) <==> old(
                        self,
                    )@.contains_key(k) && !(has_prefix(k, pat) && exists|a: int|
                        0 <= a < i + 1 && keys@[a]@ == k) by {
                        if k == keys@[i as int]@ {
                            assert(!self@.contains_key(k));
                        } else {
                            if exists|a: int| 0 <= a < i + 1 && keys@[a]@ == k {
                                let a = choose|a: int| 0 <= a < i + 1 && keys@[a]@ == k;
                                assert(a < i);
                            }
                        }
                    }
                    assert forall|b: int|
                        0 <= b < removed@.len() implies has_prefix(#[trigger] removed@[b]@, pat)
                        && exists|a: int| 0 <= a < i + 1 && keys@[a]@ == removed@[b]@ by {
                        if b < removed_before.len() {
                            assert(removed@[b] == removed_before[b]);
                            let a = choose|a: int| 0 <= a < i && keys@[a]@ == removed_before[b]@;
                            assert(keys@[a]@ == removed@[b]@);
                        } else {
                            assert(keys@[i as int]@ == removed@[b]@);
                        }
                    }
                    assert forall|a: int|
                        0 <= a < i + 1 && has_prefix(#[trigger] keys@[a]@, pat) implies exists|b: int|
                        0 <= b < removed@.len() && removed@[b]@ == keys@[a]@ by {
                        if a < i {
                            let b = choose|b: int|
                                0 <= b < removed_before.len() && removed_before[b]@ == keys@[a]@;
                            assert(removed@[b] == removed_before[b]);
                        } else {
                            assert(removed@[removed_before.len() as int]@ == keys@[a]@);
                        }
                    }
                    assert forall|b: int, c: int|
                        0 <= b < c < removed@.len() implies #[trigger] removed@[b]@
                        != #[trigger] removed@[c]@ by {
                        if c < removed_before.len() {
                            assert(removed_before[b]@ != removed_before[c]@);
                        } else {
                            assert(removed@[b] == removed_before[b]);
                        }
                    }
                }
            } else {
                proof {
                    assert forall|k: Seq<char>| #[trigger] self@.contains_key(k) <==> old(
                        self,
                    )@.contains_key(k) && !(has_prefix(k, pat) && exists|a: int|
                        0 <= a < i + 1 && keys@[a]@ == k) by {
                        if exists|a: int| 0 <= a < i + 1 && keys@[a]@ == k {
                            let a = choose|a: int| 0 <= a < i + 1 && keys@[a]@ == k;
                            if a == i {
                                if has_prefix(k, pat) {
                                    assert(false);
                                }
                            }
                        }
                    }
                }
            }
            i += 1;
        }
        proof {
            assert forall|k: Seq<char>|
                #[trigger] old(self)@.contains_key(k) && has_prefix(k, pat) implies exists|b: int|
                0 <= b < removed@.len() && removed@[b]@ == k by {
                let a = choose|a: int| 0 <= a < keys@.len() && keys@[a]@ == k;
                assert(has_prefix(keys@[a]@, pat));
            }
            assert forall|b: int|
                0 <= b < removed@.len() implies old(self)@.contains_key(#[trigger] removed@[b]@)
                && has_prefix(removed@[b]@, pat) by {
                let a = choose|a: int| 0 <= a < keys@.len() && keys@[a]@ == removed@[b]@;
                assert(old(self)@.contains_key(keys@[a]@));
            }
            assert forall|k: Seq<char>| #[trigger] self@.contains_key(k) <==> old(
                self,
            )@.contains_key(k) && !has_prefix(k, pat) by {
                if old(self)@.contains_key(k) && has_prefix(k, pat) {
                    let a = choose|a: int| 0 <= a < keys@.len() && keys@[a]@ == k;
                    assert(exists|a: int| 0 <= a < i && keys@[a]@ == k);
                }
            }
        }
        removed
    }
}

} // verus!
