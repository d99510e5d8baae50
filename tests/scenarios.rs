use ya_service_bus::connection::unary_call_result;
use ya_service_bus::endpoint::{decode_unary_reply, stream_handler_chunks, stream_payloads};
use ya_service_bus::proto::{CallReply, GsbMessage};
use ya_service_bus::{
    Action, ClientInfo, Connection, Error, ResponseChunk, Route, Router,
};

fn echo(msg: String) -> Result<String, String> {
    Ok(msg)
}

fn client() -> Connection {
    Connection::new(ClientInfo::new("test", "1.0.0"))
}

fn delivered(acts: Vec<Action>) -> Option<Result<ResponseChunk, Error>> {
    let mut first = None;
    for a in acts {
        if let Action::Deliver { item, .. } = a {
            if first.is_none() {
                first = Some(item);
            }
        }
    }
    first
}

#[test]
fn local_roundtrip() {
    let mut router = Router::new();
    router.bind("/echo", "Echo", 1);
    let reply = match router.forward("/echo", "Echo") {
        Route::Direct { endpoint, addr } => {
            assert_eq!(endpoint, 1);
            assert_eq!(addr, "/echo/Echo");
            echo("hi".to_string())
        }
        _ => panic!("a handler of the same type is called directly"),
    };
    assert_eq!(reply, Ok("hi".to_string()));
}

#[test]
fn unknown_address() {
    let router = Router::new();
    match router.forward_bytes_local("/nope", "me", &[], false) {
        Err(Error::NoEndpoint(addr)) => assert_eq!(addr, "/nope"),
        _ => panic!("expected NoEndpoint"),
    }
}

#[test]
fn streaming_happy_path() {
    let mut router = Router::new();
    router.bind_stream("/count", "Count", 5);
    match router.streaming_forward("/count", "Count") {
        Route::Direct { endpoint, .. } => assert_eq!(endpoint, 5),
        _ => panic!("a streaming handler of the same type is called directly"),
    }
    let items: Vec<Vec<u8>> = vec![
        rmp_serde::to_vec(&1u32).unwrap(),
        rmp_serde::to_vec(&2u32).unwrap(),
        rmp_serde::to_vec(&3u32).unwrap(),
    ];
    let chunks = stream_handler_chunks(items, None);
    assert_eq!(chunks.len(), 4);
    let got: Vec<u32> = stream_payloads(chunks)
        .into_iter()
        .map(|p| rmp_serde::from_slice::<u32>(&p.unwrap()).unwrap())
        .collect();
    assert_eq!(got, vec![1, 2, 3]);
}

#[test]
fn broker_call_roundtrip() {
    let router = Router::new();
    let addr = match router.forward("/svc", "Int") {
        Route::Broker { addr } => addr,
        _ => panic!("no local slot: the call goes to the broker"),
    };
    let mut conn = client();
    let body = rmp_serde::to_vec(&0i64).unwrap();
    let (id, frame) = conn.call_with_id(7, "local".to_string(), addr, body, false, 9);
    assert_eq!(id, "7");
    assert!(matches!(frame, GsbMessage::CallRequest(ref m) if m.address == "/svc/Int"));
    let acts = conn.handle(Ok(GsbMessage::CallReply(CallReply {
        request_id: id,
        code: 0,
        reply_type: 0,
        data: rmp_serde::to_vec(&42i64).unwrap(),
    })));
    let bytes = decode_unary_reply(unary_call_result(delivered(acts))).unwrap();
    let value: Result<i64, String> = Ok(rmp_serde::from_slice(&bytes).unwrap());
    assert_eq!(value, Ok(42));
}

#[test]
fn empty_remote_reply() {
    let mut conn = client();
    let (id, _) = conn.call_with_id(11, "local".to_string(), "/svc/Int".to_string(), vec![], false, 1);
    let acts = conn.handle(Ok(GsbMessage::CallReply(CallReply {
        request_id: id,
        code: 0,
        reply_type: 0,
        data: vec![],
    })));
    match decode_unary_reply(unary_call_result(delivered(acts))) {
        Err(Error::GsbFailure(m)) => assert_eq!(m, "empty response from remote service"),
        _ => panic!("expected a failure"),
    }
}

#[test]
fn partial_on_unary_call() {
    let mut conn = client();
    let (id, _) = conn.call_with_id(12, "local".to_string(), "/svc/Int".to_string(), vec![], false, 1);
    let acts = conn.handle(Ok(GsbMessage::CallReply(CallReply {
        request_id: id,
        code: 0,
        reply_type: 1,
        data: vec![1, 2],
    })));
    match unary_call_result(delivered(acts)) {
        Err(Error::GsbFailure(m)) => assert_eq!(m, "streaming response"),
        _ => panic!("expected a failure"),
    }
}
