//! The messages of the bus protocol, and the strict decoding of reply codes.
use vstd::prelude::*;

verus! {

/// The first message each side sends.
pub struct Hello {
    pub name: String,
    pub version: String,
    pub instance_id: Vec<u8>,
}

pub struct RegisterRequest {
    pub service_id: String,
}

pub struct RegisterReply {
    pub code: i32,
    pub message: String,
}

pub struct UnregisterRequest {
    pub service_id: String,
}

pub struct UnregisterReply {
    pub code: i32,
}

pub struct SubscribeRequest {
    pub topic: String,
}

pub struct SubscribeReply {
    pub code: i32,
    pub message: String,
}

pub struct UnsubscribeRequest {
    pub topic: String,
}

pub struct UnsubscribeReply {
    pub code: i32,
}

pub struct BroadcastRequest {
    pub caller: String,
    pub topic: String,
    pub data: Vec<u8>,
}

pub struct BroadcastReply {
    pub code: i32,
    pub message: String,
}

pub struct CallRequest {
    pub request_id: String,
    pub caller: String,
    pub address: String,
    pub data: Vec<u8>,
    pub no_reply: bool,
}

pub struct CallReply {
    pub request_id: String,
    pub code: i32,
    pub reply_type: i32,
    pub data: Vec<u8>,
}

/// One frame of the protocol.
pub enum GsbMessage {
    Hello(Hello),
    RegisterRequest(RegisterRequest),
    RegisterReply(RegisterReply),
    UnregisterRequest(UnregisterRequest),
    UnregisterReply(UnregisterReply),
    SubscribeRequest(SubscribeRequest),
    SubscribeReply(SubscribeReply),
    UnsubscribeRequest(UnsubscribeRequest),
    UnsubscribeReply(UnsubscribeReply),
    BroadcastRequest(BroadcastRequest),
    BroadcastReply(BroadcastReply),
    CallRequest(CallRequest),
    CallReply(CallReply),
    Ping,
    Pong,
}

/// A frame that could not be read from the transport.
pub struct ProtocolError {
    pub message: String,
}

#[derive(Clone, Copy, Debug, PartialEq, Eq, Structural)]
pub enum RegisterReplyCode {
    RegisteredOk,
    RegisterBadRequest,
    RegisterConflict,
}

#[derive(Clone, Copy, Debug, PartialEq, Eq, Structural)]
pub enum UnregisterReplyCode {
    UnregisteredOk,
    NotRegistered,
}

#[derive(Clone, Copy, Debug, PartialEq, Eq, Structural)]
pub enum SubscribeReplyCode {
    SubscribedOk,
    SubscribeBadRequest,
}

#[derive(Clone, Copy, Debug, PartialEq, Eq, Structural)]
pub enum UnsubscribeReplyCode {
    UnsubscribedOk,
    NotSubscribed,
}

#[derive(Clone, Copy, Debug, PartialEq, Eq, Structural)]
pub enum BroadcastReplyCode {
    BroadcastOk,
    BroadcastBadRequest,
}

#[derive(Clone, Copy, Debug, PartialEq, Eq, Structural)]
pub enum CallReplyCode {
    CallReplyOk,
    CallReplyBadRequest,
    ServiceFailure,
}

pub fn register_reply_code(code: i32) -> (r: Option<RegisterReplyCode>)
    ensures
        r == (if code == 0 {
            Some(RegisterReplyCode::RegisteredOk)
        } else if code == 400 {
            Some(RegisterReplyCode::RegisterBadRequest)
        } else if code == 409 {
            Some(RegisterReplyCode::RegisterConflict)
        } else {
            None
        }),
{
    match code {
        0 => Some(RegisterReplyCode::RegisteredOk),
        400 => Some(RegisterReplyCode::RegisterBadRequest),
        409 => Some(RegisterReplyCode::RegisterConflict),
        _ => None,
    }
}

pub fn unregister_reply_code(code: i32) -> (r: Option<UnregisterReplyCode>)
    ensures
        r == (if code == 0 {
            Some(UnregisterReplyCode::UnregisteredOk)
        } else if code == 404 {
            Some(UnregisterReplyCode::NotRegistered)
        } else {
            None
        }),
{
    match code {
        0 => Some(UnregisterReplyCode::UnregisteredOk),
        404 => Some(UnregisterReplyCode::NotRegistered),
        _ => None,
    }
}

pub fn subscribe_reply_code(code: i32) -> (r: Option<SubscribeReplyCode>)
    ensures
        r == (if code == 0 {
            Some(SubscribeReplyCode::SubscribedOk)
        } else if code == 400 {
            Some(SubscribeReplyCode::SubscribeBadRequest)
        } else {
            None
        }),
{
    match code {
        0 => Some(SubscribeReplyCode::SubscribedOk),
        400 => Some(SubscribeReplyCode::SubscribeBadRequest),
        _ => None,
    }
}

pub fn unsubscribe_reply_code(code: i32) -> (r: Option<UnsubscribeReplyCode>)
    ensures
        r == (if code == 0 {
            Some(UnsubscribeReplyCode::UnsubscribedOk)
        } else if code == 404 {
            Some(UnsubscribeReplyCode::NotSubscribed)
        } else {
            None
        }),
{
    match code {
        0 => Some(UnsubscribeReplyCode::UnsubscribedOk),
        404 => Some(UnsubscribeReplyCode::NotSubscribed),
        _ => None,
    }
}

pub fn broadcast_reply_code(code: i32) -> (r: Option<BroadcastReplyCode>)
    ensures
        r == (if code == 0 {
            Some(BroadcastReplyCode::BroadcastOk)
        } else if code == 400 {
            Some(BroadcastReplyCode::BroadcastBadRequest)
        } else {
            None
        }),
{
    match code {
        0 => Some(BroadcastReplyCode::BroadcastOk),
        400 => Some(BroadcastReplyCode::BroadcastBadRequest),
        _ => None,
    }
}

pub fn call_reply_code(code: i32) -> (r: Option<CallReplyCode>)
    ensures
        r == (if code == 0 {
            Some(CallReplyCode::CallReplyOk)
        } else if code == 400 {
            Some(CallReplyCode::CallReplyBadRequest)
        } else if code == 500 {
            Some(CallReplyCode::ServiceFailure)
        } else {
            None
        }),
{
    match code {
        0 => Some(CallReplyCode::CallReplyOk),
        400 => Some(CallReplyCode::CallReplyBadRequest),
        500 => Some(CallReplyCode::ServiceFailure),
        _ => None,
    }
}

} // verus!
