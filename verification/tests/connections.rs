use chat_relay::message::{MessageType, SocketMessage};
use chat_relay::sockets::chat::lobby_socket::ChatWs;
use chat_relay::sockets::info::info_socket::InfoWS;
use chat_relay::sockets::{
    heartbeat, CloseReason, Frame, Heartbeat, ProtocolError, Reaction, WsMessage, CLIENT_TIMEOUT,
    HEARTBEAT_INTERVAL, NANOS_PER_SECOND,
};

const SECOND: u128 = 1_000_000_000;

#[test]
fn timing_constants() {
    assert_eq!(HEARTBEAT_INTERVAL, 5);
    assert_eq!(CLIENT_TIMEOUT, 10);
    assert_eq!(NANOS_PER_SECOND, SECOND);
}

#[test]
fn heartbeat_stops_only_after_more_than_the_timeout() {
    assert_eq!(heartbeat(0, 0), Heartbeat::Ping);
    assert_eq!(heartbeat(3 * SECOND, 8 * SECOND), Heartbeat::Ping);
    assert_eq!(heartbeat(3 * SECOND, 13 * SECOND), Heartbeat::Ping);
    assert_eq!(heartbeat(3 * SECOND, 13 * SECOND + 1), Heartbeat::Stop);
    assert_eq!(heartbeat(0, u128::MAX), Heartbeat::Stop);
    assert_eq!(heartbeat(20 * SECOND, 5 * SECOND), Heartbeat::Ping);
}

#[test]
fn room_connection_announces_itself_and_takes_its_leave() {
    let ws = ChatWs::new("r1".to_string(), 7, 0);
    let connect = ws.started("channel");
    assert_eq!(connect.addr, "channel");
    assert_eq!(connect.room_id, "r1");
    assert_eq!(connect.id, 7);
    let disconnect = ws.stopping();
    assert_eq!(disconnect.room_id, "r1");
    assert_eq!(disconnect.id, 7);
    assert!(matches!(ws.connected(true), Reaction::Nothing));
    assert!(matches!(ws.connected(false), Reaction::Stop));
}

#[test]
fn room_connection_forwards_hub_events_verbatim() {
    let ws = ChatWs::new("r1".to_string(), 7, 0);
    match ws.deliver(WsMessage("{\"x\":1}".to_string())) {
        Reaction::Text(text) => assert_eq!(text, "{\"x\":1}"),
        other => panic!("unexpected {:?}", other),
    }
}

#[test]
fn room_connection_handles_each_frame() {
    let mut ws = ChatWs::new("r1".to_string(), 7, 0);

    match ws.handle(Ok(Frame::Ping(vec![1, 2, 3])), 4 * SECOND) {
        Reaction::Pong(payload) => assert_eq!(payload, vec![1, 2, 3]),
        other => panic!("unexpected {:?}", other),
    }
    assert_eq!(ws.hb(14 * SECOND), Heartbeat::Ping);
    assert_eq!(ws.hb(14 * SECOND + 1), Heartbeat::Stop);

    assert!(matches!(ws.handle(Ok(Frame::Pong(vec![])), 9 * SECOND), Reaction::Nothing));
    assert_eq!(ws.hb(19 * SECOND), Heartbeat::Ping);

    match ws.handle(Ok(Frame::Binary(vec![9, 8])), 30 * SECOND) {
        Reaction::Binary(payload) => assert_eq!(payload, vec![9, 8]),
        other => panic!("unexpected {:?}", other),
    }
    assert_eq!(ws.hb(19 * SECOND + 1), Heartbeat::Stop);

    assert!(matches!(ws.handle(Ok(Frame::Nop), 30 * SECOND), Reaction::Nothing));
    assert!(matches!(ws.handle(Ok(Frame::Continuation), 30 * SECOND), Reaction::Stop));
    assert!(matches!(ws.handle(Err(ProtocolError), 30 * SECOND), Reaction::Stop));
    assert_eq!(ws.hb(19 * SECOND), Heartbeat::Ping);

    match ws.handle(Ok(Frame::Close(None)), 30 * SECOND) {
        Reaction::Close(None) => {}
        other => panic!("unexpected {:?}", other),
    }
    let reason = CloseReason { code: 1000, description: Some("bye".to_string()) };
    match ws.handle(Ok(Frame::Close(Some(reason))), 30 * SECOND) {
        Reaction::Close(Some(reason)) => {
            assert_eq!(reason.code, 1000);
            assert_eq!(reason.description, Some("bye".to_string()));
        }
        other => panic!("unexpected {:?}", other),
    }
}

#[test]
fn room_connection_forwards_text_to_the_hub() {
    let mut ws = ChatWs::new("r1".to_string(), 7, 0);
    let record = SocketMessage::dated(
        "hi".to_string(),
        MessageType::JOIN,
        Some(99),
        "2001-02-03 04:05:06".to_string(),
    );
    match ws.handle(Ok(Frame::Text(Some(record))), SECOND) {
        Reaction::Forward(msg) => {
            assert_eq!(msg.id, 7);
            assert_eq!(msg.room_id, "r1");
            assert_eq!(msg.msg, "hi");
        }
        other => panic!("unexpected {:?}", other),
    }
    match ws.handle(Ok(Frame::Text(None)), SECOND) {
        Reaction::Forward(msg) => {
            assert_eq!(msg.id, 7);
            assert_eq!(msg.room_id, "r1");
            assert_eq!(msg.msg, "");
        }
        other => panic!("unexpected {:?}", other),
    }
    assert_eq!(ws.hb(10 * SECOND), Heartbeat::Ping);
    assert_eq!(ws.hb(10 * SECOND + 1), Heartbeat::Stop);
}

#[test]
fn notification_connection_announces_itself_and_takes_its_leave() {
    let ws = InfoWS::new(3, 0);
    let connect = ws.started("channel");
    assert_eq!(connect.addr, "channel");
    assert_eq!(connect.user_id, 3);
    assert_eq!(ws.stopping().user_id, 3);
    assert!(matches!(ws.connected(true), Reaction::Nothing));
    assert!(matches!(ws.connected(false), Reaction::Stop));
    match ws.deliver(WsMessage("note".to_string())) {
        Reaction::Text(text) => assert_eq!(text, "note"),
        other => panic!("unexpected {:?}", other),
    }
}

#[test]
fn notification_connection_handles_each_frame() {
    let mut ws = InfoWS::new(3, 0);
    match ws.handle(Ok(Frame::Ping(vec![7])), 2 * SECOND) {
        Reaction::Pong(payload) => assert_eq!(payload, vec![7]),
        other => panic!("unexpected {:?}", other),
    }
    assert_eq!(ws.hb(12 * SECOND), Heartbeat::Ping);
    assert_eq!(ws.hb(12 * SECOND + 1), Heartbeat::Stop);
    assert!(matches!(ws.handle(Ok(Frame::Pong(vec![])), 5 * SECOND), Reaction::Nothing));
    assert_eq!(ws.hb(15 * SECOND), Heartbeat::Ping);
    match ws.handle(Ok(Frame::Binary(vec![1])), 40 * SECOND) {
        Reaction::Binary(payload) => assert_eq!(payload, vec![1]),
        other => panic!("unexpected {:?}", other),
    }
    assert!(matches!(ws.handle(Ok(Frame::Text(None)), 40 * SECOND), Reaction::Nothing));
    assert!(matches!(ws.handle(Ok(Frame::Nop), 40 * SECOND), Reaction::Nothing));
    assert!(matches!(ws.handle(Ok(Frame::Continuation), 40 * SECOND), Reaction::Stop));
    assert!(matches!(ws.handle(Err(ProtocolError), 40 * SECOND), Reaction::Stop));
    assert!(matches!(ws.handle(Ok(Frame::Close(None)), 40 * SECOND), Reaction::Close(None)));
    assert_eq!(ws.hb(15 * SECOND + 1), Heartbeat::Stop);
}
