use vstd::prelude::*;

verus! {

/// The transport-level failure causes the routing layer distinguishes.
#[derive(Debug, PartialEq, Eq, Structural)]
pub enum TransportError {
    SendBadMessage,
    RecvBadMessage,
    BindFailed,
    ConnectionDrop,
    AlreadyConnected,
    PeerNotFound,
    PeerBusy,
    UnknownRoute,
    InvalidAddress,
    Capacity,
    Encoding,
    Protocol,
    InvalidData,
    GenericIo,
}

/// A WebSocket connection worker's error: a wrapped transport failure, or
/// a failure of the HTTP or TLS layer under the socket.
#[derive(Debug, PartialEq, Eq, Structural)]
pub enum WebSocketError {
    Transport(TransportError),
    Http,
    Tls,
}

/// Where an error originated.
#[derive(Debug, PartialEq, Eq, Structural)]
pub enum ErrorOrigin {
    Node,
    Transport,
    Api,
}

/// The broad class an error belongs to.
#[derive(Debug, PartialEq, Eq, Structural)]
pub enum ErrorKind {
    Io,
    Protocol,
    Invalid,
    Internal,
}

/// The node runtime's uniform error value: an origin and a kind, the
/// shape every component's failures are folded into at its boundary.
#[derive(Debug, PartialEq, Eq, Structural)]
pub struct CoreError {
    pub origin: ErrorOrigin,
    pub kind: ErrorKind,
}

impl CoreError {
    pub fn new(origin: ErrorOrigin, kind: ErrorKind) -> (r: CoreError)
        ensures
            r.origin == origin,
            r.kind == kind,
    {
        CoreError { origin, kind }
    }
}

/// How a WebSocket error folds into the uniform error: transport failures
/// are I/O, HTTP and TLS failures are protocol failures, and all originate
/// at the transport.
pub open spec fn spec_core_error_of_websocket(err: WebSocketError) -> CoreError {
    match err {
        WebSocketError::Transport(_) => CoreError {
            origin: ErrorOrigin::Transport,
            kind: ErrorKind::Io,
        },
        WebSocketError::Http => CoreError { origin: ErrorOrigin::Transport, kind: ErrorKind::Protocol },
        WebSocketError::Tls => CoreError { origin: ErrorOrigin::Transport, kind: ErrorKind::Protocol },
    }
}

impl From<WebSocketError> for CoreError {
    fn from(err: WebSocketError) -> (r: CoreError) {
        let kind = match err {
            WebSocketError::Transport(_) => ErrorKind::Io,
            WebSocketError::Http => ErrorKind::Protocol,
            WebSocketError::Tls => ErrorKind::Protocol,
        };
        CoreError::new(ErrorOrigin::Transport, kind)
    }
}

impl vstd::std_specs::convert::FromSpecImpl<WebSocketError> for CoreError {
    open spec fn obeys_from_spec() -> bool {
        true
    }

    open spec fn from_spec(err: WebSocketError) -> CoreError {
        spec_core_error_of_websocket(err)
    }
}

/// tungstenite's error type, declared so that it can cross this module's
/// signatures; its value is opaque here and is read only by the
/// classification below.
#[verifier::external_type_specification]
#[verifier::external_body]
pub struct ExTungsteniteError(tokio_tungstenite::tungstenite::Error);

/// The variants of tungstenite's error, named so that verified code can
/// case on what the classification found.
#[derive(Debug, PartialEq, Eq, Structural)]
pub enum TungsteniteKind {
    ConnectionClosed,
    AlreadyClosed,
    Io,
    Tls,
    Capacity,
    Protocol,
    WriteBufferFull,
    Utf8,
    AttackAttempt,
    Url,
}

/// Relies on tungstenite::Error: tells its variants apart, one arm each,
/// dropping their payloads.
#[verifier::external_body]
fn classify_tungstenite(e: &tokio_tungstenite::tungstenite::Error) -> TungsteniteKind {
    match e {
        tokio_tungstenite::tungstenite::Error::ConnectionClosed => TungsteniteKind::ConnectionClosed,
        tokio_tungstenite::tungstenite::Error::AlreadyClosed => TungsteniteKind::AlreadyClosed,
        tokio_tungstenite::tungstenite::Error::Io(_) => TungsteniteKind::Io,
        tokio_tungstenite::tungstenite::Error::Tls(_) => TungsteniteKind::Tls,
        tokio_tungstenite::tungstenite::Error::Capacity(_) => TungsteniteKind::Capacity,
        tokio_tungstenite::tungstenite::Error::Protocol(_) => TungsteniteKind::Protocol,
        tokio_tungstenite::tungstenite::Error::WriteBufferFull(_) => TungsteniteKind::WriteBufferFull,
        tokio_tungstenite::tungstenite::Error::Utf8 => TungsteniteKind::Utf8,
        tokio_tungstenite::tungstenite::Error::AttackAttempt => TungsteniteKind::AttackAttempt,
        tokio_tungstenite::tungstenite::Error::Url(_) => TungsteniteKind::Url,
    }
}

/// How each tungstenite failure maps into the WebSocket error taxonomy:
/// closed connections are drops, I/O stays I/O, bad URLs are invalid
/// addresses, full write buffers refuse the message, and protocol-level
/// misbehaviour — an attack attempt among it — is a protocol failure.
pub open spec fn spec_websocket_error_of_kind(kind: TungsteniteKind) -> WebSocketError {
    match kind {
        TungsteniteKind::ConnectionClosed => WebSocketError::Transport(
            TransportError::ConnectionDrop,
        ),
        TungsteniteKind::AlreadyClosed => WebSocketError::Transport(TransportError::ConnectionDrop),
        TungsteniteKind::Io => WebSocketError::Transport(TransportError::GenericIo),
        TungsteniteKind::Tls => WebSocketError::Tls,
        TungsteniteKind::Capacity => WebSocketError::Transport(TransportError::Capacity),
        TungsteniteKind::Protocol => WebSocketError::Transport(TransportError::Protocol),
        TungsteniteKind::WriteBufferFull => WebSocketError::Transport(
            TransportError::SendBadMessage,
        ),
        TungsteniteKind::Utf8 => WebSocketError::Transport(TransportError::Encoding),
        TungsteniteKind::AttackAttempt => WebSocketError::Transport(TransportError::Protocol),
        TungsteniteKind::Url => WebSocketError::Transport(TransportError::InvalidAddress),
    }
}

impl WebSocketError {
    /// Map one classified tungstenite failure.
    pub fn of_kind(kind: TungsteniteKind) -> (r: WebSocketError)
        ensures
            r == spec_websocket_error_of_kind(kind),
    {
        match kind {
            TungsteniteKind::ConnectionClosed => WebSocketError::Transport(
                TransportError::ConnectionDrop,
            ),
            TungsteniteKind::AlreadyClosed => WebSocketError::Transport(
                TransportError::ConnectionDrop,
            ),
            TungsteniteKind::Io => WebSocketError::Transport(TransportError::GenericIo),
            TungsteniteKind::Tls => WebSocketError::Tls,
            TungsteniteKind::Capacity => WebSocketError::Transport(TransportError::Capacity),
            TungsteniteKind::Protocol => WebSocketError::Transport(TransportError::Protocol),
            TungsteniteKind::WriteBufferFull => WebSocketError::Transport(
                TransportError::SendBadMessage,
            ),
            TungsteniteKind::Utf8 => WebSocketError::Transport(TransportError::Encoding),
            TungsteniteKind::AttackAttempt => WebSocketError::Transport(TransportError::Protocol),
            TungsteniteKind::Url => WebSocketError::Transport(TransportError::InvalidAddress),
        }
    }

    /// Fold a tungstenite failure into the taxonomy: whatever the
    /// classification found, the result is its mapped error.
    pub fn from_tungstenite(e: &tokio_tungstenite::tungstenite::Error) -> (r: WebSocketError)
        ensures
            exists|kind: TungsteniteKind| r == spec_websocket_error_of_kind(kind),
    {
        let kind = classify_tungstenite(e);
        let r = WebSocketError::of_kind(kind);
        proof {
            assert(r == spec_websocket_error_of_kind(kind));
        }
        r
    }
}

/// futures-channel's send error, declared so that the conversion below can
/// take it; its value is opaque here and is dropped unread.
#[verifier::external_type_specification]
#[verifier::external_body]
pub struct ExSendError(futures_channel::mpsc::SendError);

/// futures-channel's try-send error, which carries the unsent value; it is
/// opaque here and is dropped unread, value and all.
#[verifier::external_type_specification]
#[verifier::external_body]
#[verifier::reject_recursive_types(T)]
pub struct ExTrySendError<T>(futures_channel::mpsc::TrySendError<T>);

impl From<futures_channel::mpsc::SendError> for WebSocketError {
    /// A failed channel send is a generic I/O failure of the transport,
    /// whatever its cause.
    fn from(e: futures_channel::mpsc::SendError) -> (r: WebSocketError) {
        let _ = e;
        WebSocketError::Transport(TransportError::GenericIo)
    }
}

impl vstd::std_specs::convert::FromSpecImpl<futures_channel::mpsc::SendError> for WebSocketError {
    open spec fn obeys_from_spec() -> bool {
        true
    }

    open spec fn from_spec(e: futures_channel::mpsc::SendError) -> WebSocketError {
        WebSocketError::Transport(TransportError::GenericIo)
    }
}

impl<T> From<futures_channel::mpsc::TrySendError<T>> for WebSocketError {
    /// A failed try-send is a generic I/O failure of the transport; the
    /// unsent value is dropped with the error.
    fn from(e: futures_channel::mpsc::TrySendError<T>) -> (r: WebSocketError) {
        let _ = e;
        WebSocketError::Transport(TransportError::GenericIo)
    }
}

impl<T> vstd::std_specs::convert::FromSpecImpl<futures_channel::mpsc::TrySendError<T>> for WebSocketError {
    open spec fn obeys_from_spec() -> bool {
        true
    }

    open spec fn from_spec(e: futures_channel::mpsc::TrySendError<T>) -> WebSocketError {
        WebSocketError::Transport(TransportError::GenericIo)
    }
}

} // verus!
