use ya_service_bus::endpoint::{decode_unary_reply, stream_payload, unary_chunk};
use ya_service_bus::prefix_bag::is_path_prefix_exec;
use ya_service_bus::router::{typed_address, unbind_prefix};
use ya_service_bus::{
    Delivery, Dispatch, DualRawEndpoint, Error, PrefixLookupBag, ResponseChunk, Route, Router,
    RpcRawCall, Slot, UpdateService,
};

#[test]
fn longest_prefix_respects_path_boundaries() {
    let mut bag: PrefixLookupBag<u32> = PrefixLookupBag::new();
    bag.insert("/a".to_string(), 1);
    bag.insert("/a/b".to_string(), 2);
    assert_eq!(bag.get("/a/b/Foo"), Some(&2));
    assert_eq!(bag.get("/a/x"), Some(&1));
    assert_eq!(bag.get("/a"), Some(&1));
    assert_eq!(bag.get("/abc"), None);
    assert_eq!(bag.get("/"), None);
    assert_eq!(bag.len(), 2);
}

#[test]
fn bag_insert_replaces_and_remove_returns() {
    let mut bag: PrefixLookupBag<u32> = PrefixLookupBag::new();
    assert_eq!(bag.insert("/k".to_string(), 1), None);
    assert_eq!(bag.insert("/k".to_string(), 2), Some(1));
    assert_eq!(bag.len(), 1);
    assert_eq!(bag.get_exact(&"/k".to_string()), Some(&2));
    assert_eq!(bag.remove(&"/k".to_string()), Some(2));
    assert_eq!(bag.remove(&"/k".to_string()), None);
    assert!(!bag.contains_key(&"/k".to_string()));
    assert!(bag.keys().is_empty());
}

#[test]
fn path_prefix_check() {
    assert!(is_path_prefix_exec("/a", "/a"));
    assert!(is_path_prefix_exec("/a", "/a/b"));
    assert!(!is_path_prefix_exec("/a", "/ab"));
    assert!(!is_path_prefix_exec("/a/b", "/a"));
}

#[test]
fn typed_address_appends_type_id() {
    assert_eq!(typed_address("/svc", "Ping"), "/svc/Ping");
    assert_eq!(unbind_prefix("/svc"), "/svc/");
    assert_eq!(unbind_prefix("/svc/"), "/svc/");
}

#[test]
fn rebind_replaces() {
    let mut router = Router::new();
    router.bind("/svc", "Echo", 1);
    let notice = router.bind("/svc", "Echo", 2);
    assert!(matches!(notice, UpdateService::Add(ref a) if a == "/svc/Echo"));
    match router.forward("/svc", "Echo") {
        Route::Direct { endpoint, .. } => assert_eq!(endpoint, 2),
        _ => panic!("the second handler answers"),
    }
}

#[test]
fn unbind_removes_exactly_the_subtree() {
    let mut router = Router::new();
    router.bind("/svc", "A", 1);
    router.bind("/svc/inner", "B", 2);
    router.bind("/svcx", "A", 3);
    let mut removed = router.unbind("/svc");
    removed.sort();
    assert_eq!(removed, vec!["/svc/A".to_string(), "/svc/inner/B".to_string()]);
    assert!(matches!(router.forward("/svc", "A"), Route::Broker { .. }));
    assert!(matches!(router.forward("/svc/inner", "B"), Route::Broker { .. }));
    assert!(matches!(router.forward("/svcx", "A"), Route::Direct { endpoint: 3, .. }));
    assert!(router.unbind("/svc").is_empty());
}

#[test]
fn typed_call_to_other_slot_goes_encoded() {
    let mut router = Router::new();
    router.bind_raw("/raw", 4);
    match router.forward("/raw", "Echo") {
        Route::Local { slot, addr } => {
            assert_eq!(addr, "/raw/Echo");
            let call = RpcRawCall::new("me", &addr, vec![1], false);
            assert!(matches!(slot.send(call), Ok(Delivery::Raw { endpoint: 4, .. })));
        }
        _ => panic!("the raw slot covers the typed address"),
    }
}

#[test]
fn unary_call_on_streaming_endpoint_is_refused() {
    let slot = Slot::StreamHandler { type_id: "Count".to_string(), endpoint: 1 };
    let call = RpcRawCall::new("me", "/count/Count", vec![], false);
    match slot.send(call) {
        Err(Error::GsbBadRequest(m)) => {
            assert_eq!(m, "non-streaming-request on streaming endpoint: /count/Count")
        }
        _ => panic!("expected a bad request"),
    }
}

#[test]
fn dual_slot_splits_unary_and_streaming() {
    let mut router = Router::new();
    router.bind_raw_dual("/dual", DualRawEndpoint::new(7, 8));
    match router.forward_bytes("/dual", "me", vec![1], false) {
        Ok(Dispatch::Local(Delivery::Raw { endpoint, call })) => {
            assert_eq!(endpoint, 7);
            assert_eq!(call.body, vec![1]);
        }
        _ => panic!("unary side expected"),
    }
    match router.streaming_forward_bytes("/dual/x", "me", vec![2]) {
        Dispatch::Local(Delivery::RawStream { endpoint, call }) => {
            assert_eq!(endpoint, 8);
            assert_eq!(call.addr, "/dual/x");
        }
        _ => panic!("streaming side expected"),
    }
    assert!(matches!(router.forward_bytes("/other", "me", vec![], true), Ok(Dispatch::Broker(ref c)) if c.no_reply));
}

#[test]
fn local_push_on_stream_handler_fails() {
    let mut router = Router::new();
    router.bind_stream("/s", "T", 1);
    assert!(matches!(
        router.forward_bytes_local("/s/T", "me", &[1], true),
        Err(Error::GsbBadRequest(_))
    ));
    assert!(matches!(
        router.forward_bytes_local("/s/T", "me", &[1], false),
        Ok(Delivery::StreamHandler { endpoint: 1, .. })
    ));
}

#[test]
fn end_marker_is_filtered() {
    assert!(stream_payload(Ok(ResponseChunk::Full(vec![]))).is_none());
    assert!(matches!(stream_payload(Ok(ResponseChunk::Part(vec![]))), Some(Ok(ref v)) if v.is_empty()));
    assert!(matches!(stream_payload(Ok(ResponseChunk::Full(vec![3]))), Some(Ok(ref v)) if v == &vec![3]));
    assert!(matches!(stream_payload(Err(Error::Cancelled)), Some(Err(Error::Cancelled))));
    assert!(matches!(unary_chunk(Ok(vec![5])), Ok(ResponseChunk::Full(ref v)) if v == &vec![5]));
    assert!(matches!(decode_unary_reply(Ok(vec![9])), Ok(ref v) if v == &vec![9]));
}

#[test]
fn error_texts() {
    assert_eq!(Error::NoEndpoint("/x".to_string()).to_text(), "No service registered under given address '/x'.");
    assert_eq!(Error::GsbFailure("boom".to_string()).to_text(), "GSB failure: boom");
    assert_eq!(Error::Cancelled.to_text(), "Cancelled");
    assert!(matches!(
        Error::from_addr("/a".to_string(), ya_service_bus::MailboxFailure::Timeout),
        Error::Timeout(ref a) if a == "/a"
    ));
}
