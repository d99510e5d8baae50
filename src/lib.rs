//! Routing core of a service bus client: a registry of local services keyed
//! by hierarchical addresses, the decisions that route a call to a local slot
//! or to a remote broker, and the state machine of the broker connection.
pub mod chunk;
pub mod connection;
pub mod endpoint;
pub mod error;
pub mod prefix_bag;
pub mod proto;
pub mod request_id;
pub mod router;

pub use chunk::ResponseChunk;
pub use connection::{Action, BcastCall, CallReplyRelay, ClientInfo, CommandKind, Connection};
pub use endpoint::{Delivery, DualRawEndpoint, RpcRawCall, Slot};
pub use error::{Error, MailboxFailure};
pub use prefix_bag::PrefixLookupBag;
pub use router::{Dispatch, Route, Router, UpdateService};
