use routing_core::errors::{
    CoreError, ErrorKind, ErrorOrigin, TransportError, TungsteniteKind, WebSocketError,
};

#[test]
fn websocket_errors_fold_into_the_uniform_error() {
    let io: CoreError = WebSocketError::Transport(TransportError::GenericIo).into();
    assert_eq!(io.origin, ErrorOrigin::Transport);
    assert_eq!(io.kind, ErrorKind::Io);
    let http: CoreError = WebSocketError::Http.into();
    assert_eq!(http.kind, ErrorKind::Protocol);
    let tls: CoreError = WebSocketError::Tls.into();
    assert_eq!(tls.kind, ErrorKind::Protocol);
}

#[test]
fn tungstenite_kinds_map_to_transport_causes() {
    assert_eq!(
        WebSocketError::of_kind(TungsteniteKind::ConnectionClosed),
        WebSocketError::Transport(TransportError::ConnectionDrop)
    );
    assert_eq!(
        WebSocketError::of_kind(TungsteniteKind::AlreadyClosed),
        WebSocketError::Transport(TransportError::ConnectionDrop)
    );
    assert_eq!(
        WebSocketError::of_kind(TungsteniteKind::Io),
        WebSocketError::Transport(TransportError::GenericIo)
    );
    assert_eq!(
        WebSocketError::of_kind(TungsteniteKind::Url),
        WebSocketError::Transport(TransportError::InvalidAddress)
    );
    assert_eq!(
        WebSocketError::of_kind(TungsteniteKind::Capacity),
        WebSocketError::Transport(TransportError::Capacity)
    );
    assert_eq!(
        WebSocketError::of_kind(TungsteniteKind::Utf8),
        WebSocketError::Transport(TransportError::Encoding)
    );
    assert_eq!(
        WebSocketError::of_kind(TungsteniteKind::WriteBufferFull),
        WebSocketError::Transport(TransportError::SendBadMessage)
    );
    assert_eq!(WebSocketError::of_kind(TungsteniteKind::Tls), WebSocketError::Tls);
}

#[test]
fn from_tungstenite_error_to_transport_error() {
    let ts_err = tokio_tungstenite::tungstenite::Error::ConnectionClosed;
    let ws_err = WebSocketError::from_tungstenite(&ts_err);
    assert_eq!(ws_err, WebSocketError::Transport(TransportError::ConnectionDrop));
    let err: CoreError = ws_err.into();
    assert_eq!(err.origin, ErrorOrigin::Transport);
    assert_eq!(err.kind, ErrorKind::Io);
}

#[test]
fn from_channel_send_errors_to_websocket_error() {
    // force a try-send failure on a full bounded channel
    let (mut tx, _rx) = futures_channel::mpsc::channel::<u8>(0);
    let try_err = match tx.try_send(1) {
        Err(e) => e,
        Ok(()) => match tx.try_send(2) {
            Err(e) => e,
            Ok(()) => panic!("a zero-capacity channel cannot accept two sends"),
        },
    };
    let ws: WebSocketError = {
        let send_err = try_err.into_send_error();
        send_err.into()
    };
    assert_eq!(ws, WebSocketError::Transport(TransportError::GenericIo));

    let (mut tx, rx) = futures_channel::mpsc::channel::<u8>(0);
    drop(rx);
    let try_err = tx.try_send(1).expect_err("sending to a dropped receiver fails");
    let ws: WebSocketError = try_err.into();
    assert_eq!(ws, WebSocketError::Transport(TransportError::GenericIo));
}
