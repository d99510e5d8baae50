use ya_service_bus::connection::{gen_id, unary_call_result};
use ya_service_bus::proto::{
    BroadcastRequest, CallReply, CallRequest, GsbMessage, Hello, ProtocolError, RegisterReply,
    UnregisterReply,
};
use ya_service_bus::request_id::decimal_string;
use ya_service_bus::{Action, BcastCall, CallReplyRelay, ClientInfo, CommandKind, Connection, Error, ResponseChunk};

fn client() -> Connection {
    Connection::new(ClientInfo::new("test", "1.0.0"))
}

fn resolved(acts: &[Action]) -> Vec<(u64, Result<(), String>)> {
    acts.iter()
        .filter_map(|a| match a {
            Action::Resolve { waiter, result } => Some((*waiter, result.as_ref().map(|_| ()).map_err(|e| e.to_text()))),
            _ => None,
        })
        .collect()
}

#[test]
fn register_replies_resolve_in_request_order() {
    let mut conn = client();
    for (w, addr) in [(1u64, "/b1"), (2, "/b2"), (3, "/b3")] {
        match conn.bind(addr.to_string(), w) {
            GsbMessage::RegisterRequest(r) => assert_eq!(r.service_id, addr),
            _ => panic!("register request expected"),
        }
    }
    let mut order = Vec::new();
    for code in [0, 409, 400] {
        let acts = conn.handle(Ok(GsbMessage::RegisterReply(RegisterReply { code, message: "m".to_string() })));
        order.extend(resolved(&acts));
    }
    assert_eq!(order, vec![
        (1, Ok(())),
        (2, Err("GSB already registered: m".to_string())),
        (3, Err("GSB bad request: m".to_string())),
    ]);
}

#[test]
fn unknown_code_fails_closed() {
    let mut conn = client();
    conn.bind("/a".to_string(), 1);
    conn.subscribe("t".to_string(), 2);
    let acts = conn.handle(Ok(GsbMessage::RegisterReply(RegisterReply { code: 123, message: String::new() })));
    assert_eq!(resolved(&acts), vec![(1, Err("Cancelled".to_string())), (2, Err("Cancelled".to_string()))]);
    assert!(matches!(acts.last(), Some(Action::Stop)));
    assert!(conn.handle(Ok(GsbMessage::Ping)).is_empty());
}

#[test]
fn unmatched_reply_stops() {
    let mut conn = client();
    let acts = conn.handle(Ok(GsbMessage::UnregisterReply(UnregisterReply { code: 0 })));
    assert_eq!(acts.len(), 1);
    assert!(matches!(acts[0], Action::Stop));
}

#[test]
fn unregister_not_registered_is_bad_request() {
    let mut conn = client();
    conn.unbind("/a".to_string(), 4);
    let acts = conn.handle(Ok(GsbMessage::UnregisterReply(UnregisterReply { code: 404 })));
    assert_eq!(resolved(&acts), vec![(4, Err("GSB bad request: unregister".to_string()))]);
}

#[test]
fn second_hello_stops() {
    let mut conn = client();
    let hello = || GsbMessage::Hello(Hello { name: "broker".to_string(), version: "1".to_string(), instance_id: vec![] });
    assert!(conn.handle(Ok(hello())).is_empty());
    let acts = conn.handle(Ok(hello()));
    assert!(matches!(acts.last(), Some(Action::Stop)));
}

#[test]
fn protocol_error_stops() {
    let mut conn = client();
    let acts = conn.handle(Err(ProtocolError { message: "bad frame".to_string() }));
    assert!(matches!(acts.last(), Some(Action::Stop)));
}

#[test]
fn ping_pong_and_events() {
    let mut conn = client();
    assert!(matches!(conn.handle(Ok(GsbMessage::Ping))[0], Action::SendPong));
    let acts = conn.handle(Ok(GsbMessage::BroadcastRequest(BroadcastRequest {
        caller: "c".to_string(),
        topic: "t".to_string(),
        data: vec![1],
    })));
    assert!(matches!(acts[0], Action::Event { ref topic, .. } if topic == "t"));
    let acts = conn.handle(Ok(GsbMessage::CallRequest(CallRequest {
        request_id: "r1".to_string(),
        caller: "c".to_string(),
        address: "/x".to_string(),
        data: vec![],
        no_reply: true,
    })));
    assert!(matches!(acts[0], Action::Dispatch(ref m) if m.no_reply && m.request_id == "r1"));
    assert!(matches!(conn.handle(Ok(GsbMessage::Pong)).last(), Some(Action::Stop)));
}

#[test]
fn streamed_call_replies_in_order_and_retire_on_full() {
    let mut conn = client();
    let (id, _) = conn.call_streaming("me".to_string(), "/s".to_string(), vec![], 3);
    let reply = |t: i32, d: Vec<u8>| Ok(GsbMessage::CallReply(CallReply { request_id: id.clone(), code: 0, reply_type: t, data: d }));
    let a = conn.handle(reply(1, vec![1]));
    assert!(matches!(a[0], Action::Deliver { sink: 3, item: Ok(ResponseChunk::Part(ref v)) } if v == &vec![1]));
    let a = conn.handle(reply(0, vec![]));
    assert!(matches!(a[0], Action::Deliver { sink: 3, item: Ok(ResponseChunk::Full(ref v)) } if v.is_empty()));
    assert!(conn.handle(reply(0, vec![])).is_empty());
}

#[test]
fn error_replies_carry_text() {
    let mut conn = client();
    let (id, _) = conn.call_with_id(5, "me".to_string(), "/s".to_string(), vec![], false, 1);
    let acts = conn.handle(Ok(GsbMessage::CallReply(CallReply { request_id: id, code: 500, reply_type: 0, data: b"down".to_vec() })));
    match unary_call_result(match acts.into_iter().next() { Some(Action::Deliver { item, .. }) => Some(item), _ => None }) {
        Err(Error::GsbFailure(m)) => assert_eq!(m, "down"),
        _ => panic!("service failure expected"),
    }
    let (id, _) = conn.call_with_id(6, "me".to_string(), "/s".to_string(), vec![], false, 1);
    let acts = conn.handle(Ok(GsbMessage::CallReply(CallReply { request_id: id, code: 400, reply_type: 0, data: vec![0xff] })));
    assert!(matches!(acts.last(), Some(Action::Stop)));
}

#[test]
fn request_ids_are_unique_and_short() {
    let mut conn = client();
    let mut ids = std::collections::HashSet::new();
    for sink in 0..200u64 {
        let (id, _) = conn.call_with_id(42, "me".to_string(), "/s".to_string(), vec![], false, sink);
        assert!(ids.insert(id));
    }
    assert!(ids.contains("42"));
    for _ in 0..200 {
        let (id, _) = conn.call("me".to_string(), "/s".to_string(), vec![], false, 0);
        assert!(id.parse::<u64>().unwrap() < (1u64 << 53));
        assert!(ids.insert(id));
    }
    assert!(gen_id() < (1u64 << 53));
    assert_eq!(decimal_string(1234567890), "1234567890");
    assert_eq!(decimal_string(0), "0");
}

#[test]
fn cancelled_call_drops_late_reply() {
    let mut conn = client();
    let (id, _) = conn.call_with_id(8, "me".to_string(), "/s".to_string(), vec![], false, 1);
    conn.cancel_call(&id);
    assert!(conn.handle(Ok(GsbMessage::CallReply(CallReply { request_id: id, code: 0, reply_type: 0, data: vec![1] }))).is_empty());
}

#[test]
fn write_failure_fails_the_waiter() {
    let mut conn = client();
    conn.broadcast(BcastCall { caller: "me".to_string(), topic: "t".to_string(), body: vec![] }, 9);
    let acts = conn.write_failed(CommandKind::Broadcast);
    assert_eq!(resolved(&acts), vec![(9, Err("GSB failure: no connection".to_string()))]);
    assert!(conn.write_failed(CommandKind::Broadcast).is_empty());
}

#[test]
fn relay_ends_stream_once() {
    let mut relay = CallReplyRelay::new("r".to_string());
    let p = relay.reply(Ok(ResponseChunk::Part(vec![1])));
    assert_eq!((p.code, p.reply_type, p.data), (0, 1, vec![1]));
    let end = relay.finish().unwrap();
    assert_eq!((end.code, end.reply_type, end.data.len()), (0, 0, 0));
    let e = relay.reply(Err(Error::GsbFailure("x".to_string())));
    assert_eq!((e.code, e.reply_type), (500, 0));
    assert_eq!(e.data, b"GSB failure: x".to_vec());
    assert!(relay.finish().is_none());
}

#[test]
fn client_info_and_hello() {
    let info = ClientInfo::new("me", "0.4.1");
    assert_eq!(info.instance_id.len(), 16);
    assert_eq!(info.version.as_deref(), Some("0.4.1"));
    assert!(ClientInfo::new("me", "not a version").version.is_none());
    assert!(ClientInfo::new("me", "").version.is_none());
    let conn = Connection::new(info);
    match conn.hello() {
        GsbMessage::Hello(h) => {
            assert_eq!(h.name, "me");
            assert_eq!(h.version, "0.4.1");
            assert_eq!(h.instance_id.len(), 16);
        }
        _ => panic!("hello expected"),
    }
}

#[test]
fn client_info_keeps_only_accepted_versions() {
    let info = ClientInfo::with_parts("me", "1.2.3", true, vec![7; 16]);
    assert_eq!(info.version.as_deref(), Some("1.2.3"));
    assert_eq!(info.instance_id, vec![7; 16]);
    assert!(ClientInfo::with_parts("me", "x", false, vec![]).version.is_none());
}
