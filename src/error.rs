//! Errors surfaced by routing operations.
use vstd::prelude::*;
use vstd::string::*;

verus! {

/// How a message could not reach a local actor's mailbox.
#[derive(Clone, Copy, Debug, PartialEq, Eq, Structural)]
pub enum MailboxFailure {
    /// The mailbox was closed before the message could be delivered.
    Closed,
    /// The actor did not answer in time.
    Timeout,
}

/// The error taxonomy of the bus.
#[derive(Debug)]
pub enum Error {
    /// No slot is bound for the address, and no remote fallback is allowed.
    NoEndpoint(String),
    /// The peer rejected the request, or the request misused an endpoint.
    GsbBadRequest(String),
    /// The broker refused a registration because the address is taken.
    GsbAlreadyRegistered(String),
    /// The remote service failed, or the protocol was broken.
    GsbFailure(String),
    /// The waiter was dropped, or its channel closed, before completion.
    Cancelled,
    /// The mailbox of the local recipient bound at the address was closed.
    Closed(String),
    /// The local recipient bound at the address did not answer in time.
    Timeout(String),
    /// A payload could not be encoded or decoded.
    EncodingProblem(String),
}

/// The mathematical form of an [`Error`].
pub enum ErrorView {
    NoEndpoint(Seq<char>),
    GsbBadRequest(Seq<char>),
    GsbAlreadyRegistered(Seq<char>),
    GsbFailure(Seq<char>),
    Cancelled,
    Closed(Seq<char>),
    Timeout(Seq<char>),
    EncodingProblem(Seq<char>),
}

impl View for Error {
    type V = ErrorView;

    open spec fn view(&self) -> ErrorView {
        match self {
            Error::NoEndpoint(s) => ErrorView::NoEndpoint(s@),
            Error::GsbBadRequest(s) => ErrorView::GsbBadRequest(s@),
            Error::GsbAlreadyRegistered(s) => ErrorView::GsbAlreadyRegistered(s@),
            Error::GsbFailure(s) => ErrorView::GsbFailure(s@),
            Error::Cancelled => ErrorView::Cancelled,
            Error::Closed(s) => ErrorView::Closed(s@),
            Error::Timeout(s) => ErrorView::Timeout(s@),
            Error::EncodingProblem(s) => ErrorView::EncodingProblem(s@),
        }
    }
}

/// The text that describes an error.
pub open spec fn error_text(e: ErrorView) -> Seq<char> {
    match e {
        ErrorView::NoEndpoint(a) => "No service registered under given address '"@ + a + "'."@,
        ErrorView::GsbBadRequest(m) => "GSB bad request: "@ + m,
        ErrorView::GsbAlreadyRegistered(m) => "GSB already registered: "@ + m,
        ErrorView::GsbFailure(m) => "GSB failure: "@ + m,
        ErrorView::Cancelled => "Cancelled"@,
        ErrorView::Closed(a) => "Called service `"@ + a + "` is unavailable"@,
        ErrorView::Timeout(a) => "Timeout calling `"@ + a + "` service"@,
        ErrorView::EncodingProblem(m) => "Encoding problem: "@ + m,
    }
}

impl Error {
    /// The text that describes the error.
    pub fn to_text(&self) -> (r: String)
        ensures
            r@ == error_text(self@),
    {
        match self {
            Error::NoEndpoint(a) => String::from_str("No service registered under given address '").concat(
                a.as_str(),
            ).concat("'."),
            Error::GsbBadRequest(m) => String::from_str("GSB bad request: ").concat(m.as_str()),
            Error::GsbAlreadyRegistered(m) => String::from_str("GSB already registered: ").concat(
                m.as_str(),
            ),
            Error::GsbFailure(m) => String::from_str("GSB failure: ").concat(m.as_str()),
            Error::Cancelled => String::from_str("Cancelled"),
            Error::Closed(a) => String::from_str("Called service `").concat(a.as_str()).concat(
                "` is unavailable",
            ),
            Error::Timeout(a) => String::from_str("Timeout calling `").concat(a.as_str()).concat(
                "` service",
            ),
            Error::EncodingProblem(m) => String::from_str("Encoding problem: ").concat(m.as_str()),
        }
    }

    /// Annotates a mailbox failure with the address that was being reached.
    pub fn from_addr(addr: String, e: MailboxFailure) -> (r: Error)
        ensures
            r == (match e {
                MailboxFailure::Closed => Error::Closed(addr),
                MailboxFailure::Timeout => Error::Timeout(addr),
            }),
    {
        match e {
            MailboxFailure::Closed => Error::Closed(addr),
            MailboxFailure::Timeout => Error::Timeout(addr),
        }
    }
}

} // verus!
