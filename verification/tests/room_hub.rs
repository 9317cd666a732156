use chat_relay::db::chat_message_db::InsertError;
use chat_relay::message::MessageType;
use chat_relay::sockets::chat::lobby_actor::{
    room_deleted_body, write_failed_body, ChatDeleted, ClientActorMessage, Connect, Delivery,
    Disconnect, Lobby,
};

const DATE: &str = "2024-05-06 07:08:09";

fn connect(hub: &mut Lobby<&'static str>, room: &str, id: i64, addr: &'static str) -> Vec<Delivery> {
    let out = hub.connect_at(Connect { addr, room_id: room.to_string(), id }, DATE.to_string());
    assert!(out.evicted.is_none());
    out.deliveries
}

fn disconnect(hub: &mut Lobby<&'static str>, room: &str, id: i64) -> Vec<Delivery> {
    hub.disconnect_at(Disconnect { room_id: room.to_string(), id }, DATE.to_string())
}

fn say(
    hub: &Lobby<&'static str>,
    room: &str,
    id: i64,
    text: &str,
    stored: Result<String, InsertError>,
) -> Vec<Delivery> {
    hub.client_message_at(
        ClientActorMessage { id, msg: text.to_string(), room_id: room.to_string() },
        stored,
        DATE.to_string(),
    )
}

fn expect_delivery(
    delivery: &Delivery,
    target: i64,
    kind: MessageType,
    body: &str,
    origin: Option<i64>,
) {
    assert_eq!(delivery.target, target);
    assert_eq!(delivery.message.message_type, kind);
    assert_eq!(delivery.message.message, body);
    assert_eq!(delivery.message.id, origin);
    assert_eq!(delivery.message.date, DATE);
}

#[test]
fn new_hub_knows_no_room_and_no_session() {
    let hub: Lobby<&'static str> = Lobby::new();
    assert_eq!(hub.room_count(), 0);
    assert!(!hub.has_room(&"r1".to_string()));
    assert!(hub.members(&"r1".to_string()).is_empty());
    assert!(hub.session(&1).is_none());
}

#[test]
fn two_users_join_and_leave_a_room() {
    let mut hub: Lobby<&'static str> = Lobby::new();
    let r1 = "r1".to_string();

    let out = connect(&mut hub, "r1", 1, "c1");
    assert_eq!(hub.members(&r1), vec![1]);
    assert_eq!(hub.room_count(), 1);
    assert_eq!(out.len(), 1);
    expect_delivery(&out[0], 1, MessageType::INIT, "[1]", Some(1));

    let out = connect(&mut hub, "r1", 2, "c2");
    assert_eq!(hub.members(&r1), vec![1, 2]);
    assert_eq!(out.len(), 2);
    expect_delivery(&out[0], 1, MessageType::JOIN, "2", Some(2));
    expect_delivery(&out[1], 2, MessageType::INIT, "[1,2]", Some(2));

    let out = disconnect(&mut hub, "r1", 1);
    assert_eq!(out.len(), 1);
    expect_delivery(&out[0], 2, MessageType::LEAVE, "1", Some(1));
    assert_eq!(hub.members(&r1), vec![2]);
    assert!(hub.has_room(&r1));
    assert!(hub.session(&1).is_none());
    assert_eq!(hub.session(&2), Some(&"c2"));

    let out = disconnect(&mut hub, "r1", 2);
    assert!(out.is_empty());
    assert!(!hub.has_room(&r1));
    assert_eq!(hub.room_count(), 0);
    assert!(hub.members(&r1).is_empty());
}

#[test]
fn refused_write_notifies_the_sender_alone() {
    let mut hub: Lobby<&'static str> = Lobby::new();
    connect(&mut hub, "r1", 1, "c1");
    connect(&mut hub, "r1", 2, "c2");
    connect(&mut hub, "r1", 3, "c3");

    let out = say(&hub, "r1", 1, "hi", Err(InsertError::Constraint));
    assert_eq!(out.len(), 1);
    expect_delivery(&out[0], 1, MessageType::CHAT_DELETED, "Chat \"r1\" foi deletado!", None);
    assert!(out.iter().all(|d| d.message.message_type != MessageType::TEXT));
    assert_eq!(hub.members(&"r1".to_string()), vec![1, 2, 3]);
}

#[test]
fn any_failed_write_notifies_the_sender_alone() {
    let mut hub: Lobby<&'static str> = Lobby::new();
    connect(&mut hub, "r1", 1, "c1");
    connect(&mut hub, "r1", 2, "c2");

    let out = say(&hub, "r1", 2, "hi", Err(InsertError::Other));
    assert_eq!(out.len(), 1);
    expect_delivery(&out[0], 2, MessageType::CHAT_DELETED, "Chat \"r1\" foi deletado!", None);
}

#[test]
fn failed_write_of_a_user_without_session_sends_nothing() {
    let mut hub: Lobby<&'static str> = Lobby::new();
    connect(&mut hub, "r1", 1, "c1");
    let out = say(&hub, "r1", 9, "hi", Err(InsertError::Constraint));
    assert!(out.is_empty());
}

#[test]
fn kept_message_reaches_every_other_member() {
    let mut hub: Lobby<&'static str> = Lobby::new();
    connect(&mut hub, "r1", 1, "c1");
    connect(&mut hub, "r1", 2, "c2");
    connect(&mut hub, "r1", 3, "c3");
    connect(&mut hub, "r2", 4, "c4");

    let out = say(&hub, "r1", 2, "hello there", Ok("m-1".to_string()));
    assert_eq!(out.len(), 2);
    expect_delivery(&out[0], 1, MessageType::TEXT, "hello there", Some(2));
    expect_delivery(&out[1], 3, MessageType::TEXT, "hello there", Some(2));
    assert!(out.iter().all(|d| d.target != 2));
}

#[test]
fn kept_message_to_an_unknown_room_reaches_nobody() {
    let mut hub: Lobby<&'static str> = Lobby::new();
    connect(&mut hub, "r1", 1, "c1");
    let out = say(&hub, "nowhere", 1, "hi", Ok("m-1".to_string()));
    assert!(out.is_empty());
}

#[test]
fn join_is_never_sent_to_the_newcomer() {
    let mut hub: Lobby<&'static str> = Lobby::new();
    connect(&mut hub, "r1", 1, "c1");
    connect(&mut hub, "r1", 2, "c2");
    let out = hub.connect_at(
        Connect { addr: "c2b", room_id: "r1".to_string(), id: 2 },
        DATE.to_string(),
    );
    let joins: Vec<&Delivery> = out
        .deliveries
        .iter()
        .filter(|d| d.message.message_type == MessageType::JOIN)
        .collect();
    assert_eq!(joins.len(), 1);
    assert_eq!(joins[0].target, 1);
    assert!(joins.iter().all(|d| d.target != 2));
}

#[test]
fn second_connect_evicts_the_first_session() {
    let mut hub: Lobby<&'static str> = Lobby::new();
    connect(&mut hub, "r1", 1, "old");
    connect(&mut hub, "r1", 2, "c2");

    let out = hub.connect_at(
        Connect { addr: "new", room_id: "r1".to_string(), id: 1 },
        DATE.to_string(),
    );
    let evicted = out.evicted.expect("the old session is evicted");
    assert_eq!(evicted.channel, "old");
    assert_eq!(evicted.notice.message_type, MessageType::DISCONNECTED);
    assert_eq!(evicted.notice.message, "Logado de outra localizacao");
    assert_eq!(evicted.notice.id, Some(1));
    assert_eq!(evicted.notice.date, DATE);

    assert_eq!(hub.session(&1), Some(&"new"));
    assert_eq!(hub.members(&"r1".to_string()), vec![1, 2]);
    assert_eq!(out.deliveries.len(), 2);
    expect_delivery(&out.deliveries[0], 2, MessageType::JOIN, "1", Some(1));
    expect_delivery(&out.deliveries[1], 1, MessageType::INIT, "[1,2]", Some(1));
}

#[test]
fn second_disconnect_is_a_no_op() {
    let mut hub: Lobby<&'static str> = Lobby::new();
    connect(&mut hub, "r1", 1, "c1");
    connect(&mut hub, "r1", 2, "c2");

    let first = disconnect(&mut hub, "r1", 1);
    assert_eq!(first.len(), 1);
    let second = disconnect(&mut hub, "r1", 1);
    assert!(second.is_empty());
    assert_eq!(hub.members(&"r1".to_string()), vec![2]);
    assert_eq!(hub.session(&2), Some(&"c2"));
    assert_eq!(hub.room_count(), 1);
}

#[test]
fn disconnect_without_session_changes_nothing() {
    let mut hub: Lobby<&'static str> = Lobby::new();
    connect(&mut hub, "r1", 1, "c1");
    let out = disconnect(&mut hub, "r1", 5);
    assert!(out.is_empty());
    assert_eq!(hub.members(&"r1".to_string()), vec![1]);
}

#[test]
fn disconnect_from_an_unknown_room_only_drops_the_session() {
    let mut hub: Lobby<&'static str> = Lobby::new();
    connect(&mut hub, "r1", 1, "c1");
    let out = disconnect(&mut hub, "elsewhere", 1);
    assert!(out.is_empty());
    assert!(hub.session(&1).is_none());
    assert_eq!(hub.members(&"r1".to_string()), vec![1]);
}

#[test]
fn room_with_another_member_outlives_a_stranger_leaving() {
    let mut hub: Lobby<&'static str> = Lobby::new();
    connect(&mut hub, "r1", 1, "c1");
    connect(&mut hub, "r2", 2, "c2");
    let out = disconnect(&mut hub, "r1", 2);
    assert_eq!(out.len(), 1);
    expect_delivery(&out[0], 1, MessageType::LEAVE, "2", Some(2));
    assert_eq!(hub.members(&"r1".to_string()), vec![1]);
    assert!(hub.has_room(&"r1".to_string()));
}

#[test]
fn room_exists_while_someone_is_connected() {
    let mut hub: Lobby<&'static str> = Lobby::new();
    let r = "r".to_string();
    connect(&mut hub, "r", 1, "a");
    connect(&mut hub, "r", 2, "b");
    connect(&mut hub, "r", 3, "c");
    disconnect(&mut hub, "r", 2);
    assert!(hub.has_room(&r));
    assert_eq!(hub.members(&r), vec![1, 3]);
    disconnect(&mut hub, "r", 1);
    disconnect(&mut hub, "r", 3);
    assert!(!hub.has_room(&r));
    connect(&mut hub, "r", 2, "b2");
    assert!(hub.has_room(&r));
    assert_eq!(hub.members(&r), vec![2]);
    disconnect(&mut hub, "r", 2);
    disconnect(&mut hub, "r", 2);
    assert!(!hub.has_room(&r));
    assert_eq!(hub.room_count(), 0);
}

#[test]
fn removed_room_notifies_every_member_and_is_forgotten() {
    let mut hub: Lobby<&'static str> = Lobby::new();
    connect(&mut hub, "r1", 1, "c1");
    connect(&mut hub, "r1", 2, "c2");
    connect(&mut hub, "r2", 3, "c3");

    let out = hub.chat_deleted_at(ChatDeleted { chat_id: "r1".to_string() }, DATE.to_string());
    assert_eq!(out.len(), 2);
    expect_delivery(&out[0], 1, MessageType::CHAT_DELETED, "Chat \"r1\" deletado.", None);
    expect_delivery(&out[1], 2, MessageType::CHAT_DELETED, "Chat \"r1\" deletado.", None);
    assert!(!hub.has_room(&"r1".to_string()));
    assert!(hub.has_room(&"r2".to_string()));
    assert_eq!(hub.session(&1), Some(&"c1"));

    let again = hub.chat_deleted_at(ChatDeleted { chat_id: "r1".to_string() }, DATE.to_string());
    assert!(again.is_empty());
}

#[test]
fn room_names_are_quoted_with_escapes_in_notices() {
    let mut hub: Lobby<&'static str> = Lobby::new();
    connect(&mut hub, "a\"b\n", 1, "c1");
    let out = say(&hub, "a\"b\n", 1, "hi", Err(InsertError::Constraint));
    assert_eq!(out.len(), 1);
    assert_eq!(out[0].message.message, "Chat \"a\\\"b\\n\" foi deletado!");
}

#[test]
fn member_without_session_is_skipped() {
    let mut hub: Lobby<&'static str> = Lobby::new();
    connect(&mut hub, "r1", 1, "c1");
    connect(&mut hub, "r1", 2, "c2");
    let moved = hub.connect_at(
        Connect { addr: "c1b", room_id: "r2".to_string(), id: 1 },
        DATE.to_string(),
    );
    assert_eq!(moved.evicted.expect("the session in r1 is evicted").channel, "c1");
    disconnect(&mut hub, "r2", 1);
    assert!(hub.session(&1).is_none());
    assert_eq!(hub.members(&"r1".to_string()), vec![1, 2]);

    let out = connect(&mut hub, "r1", 3, "c3");
    assert_eq!(out.len(), 2);
    expect_delivery(&out[0], 2, MessageType::JOIN, "3", Some(3));
    expect_delivery(&out[1], 3, MessageType::INIT, "[1,2,3]", Some(3));
}

#[test]
fn send_message_addresses_only_known_sessions() {
    let mut hub: Lobby<&'static str> = Lobby::new();
    connect(&mut hub, "r1", 7, "c7");
    let message = chat_relay::message::SocketMessage::dated(
        "x".to_string(),
        MessageType::TEXT,
        None,
        DATE.to_string(),
    );
    let sent = hub.send_message(message.clone(), &7).expect("7 has a session");
    expect_delivery(&sent, 7, MessageType::TEXT, "x", None);
    assert!(hub.send_message(message, &8).is_none());
}

#[test]
fn handlers_that_read_the_clock_agree_with_the_dated_ones() {
    let mut hub: Lobby<&'static str> = Lobby::new();
    let out = hub.handle_connect(Connect { addr: "c1", room_id: "r1".to_string(), id: 1 });
    assert!(out.evicted.is_none());
    assert_eq!(out.deliveries.len(), 1);
    assert_eq!(out.deliveries[0].message.message, "[1]");
    let out = hub.handle_connect(Connect { addr: "c2", room_id: "r1".to_string(), id: 2 });
    assert_eq!(out.deliveries.len(), 2);
    assert_eq!(out.deliveries[0].message.date, out.deliveries[1].message.date);

    let kept = hub.handle_client_message(
        ClientActorMessage { id: 1, msg: "hi".to_string(), room_id: "r1".to_string() },
        Ok("id".to_string()),
    );
    assert_eq!(kept.len(), 1);
    assert_eq!(kept[0].target, 2);
    assert_eq!(kept[0].message.message_type, MessageType::TEXT);
    assert_eq!(kept[0].message.message, "hi");

    let left = hub.handle_disconnect(Disconnect { room_id: "r1".to_string(), id: 1 });
    assert_eq!(left.len(), 1);
    assert_eq!(left[0].message.message_type, MessageType::LEAVE);
    let gone = hub.handle_chat_deleted(ChatDeleted { chat_id: "r1".to_string() });
    assert_eq!(gone.len(), 1);
    assert_eq!(gone[0].target, 2);
    assert!(!hub.has_room(&"r1".to_string()));
}

#[test]
fn insert_request_carries_the_message() {
    let msg = ClientActorMessage { id: 4, msg: "text".to_string(), room_id: "room".to_string() };
    let request = msg.insert_request(DATE.to_string());
    assert_eq!(request.chat_id, "room");
    assert_eq!(request.user_id, 4);
    assert_eq!(request.message, "text");
    assert_eq!(request.date_created, DATE);
}

#[test]
fn new_message_is_a_text_event_of_the_sender() {
    let msg = ClientActorMessage { id: 4, msg: "old".to_string(), room_id: "room".to_string() };
    let event = msg.new_message("fresh".to_string());
    assert_eq!(event.message_type, MessageType::TEXT);
    assert_eq!(event.message, "fresh");
    assert_eq!(event.id, Some(4));
}

#[test]
fn member_list_is_a_json_array_of_integers() {
    let mut hub: Lobby<&'static str> = Lobby::new();
    let out = connect(&mut hub, "r", -5, "a");
    assert_eq!(out[0].message.message, "[-5]");
    let out = connect(&mut hub, "r", 10, "b");
    expect_delivery(&out[0], -5, MessageType::JOIN, "10", Some(10));
    assert_eq!(out[1].message.message, "[-5,10]");
    let out = connect(&mut hub, "r", i64::MIN, "c");
    assert_eq!(out[2].message.message, "[-5,10,-9223372036854775808]");
    expect_delivery(&out[0], -5, MessageType::JOIN, "-9223372036854775808", Some(i64::MIN));
    let out = connect(&mut hub, "r", i64::MAX, "d");
    assert_eq!(
        out[3].message.message,
        "[-5,10,-9223372036854775808,9223372036854775807]"
    );
}

#[test]
fn notice_bodies_wrap_the_quoted_room_name() {
    assert_eq!(write_failed_body("\"r1\""), "Chat \"r1\" foi deletado!");
    assert_eq!(write_failed_body(""), "Chat  foi deletado!");
    assert_eq!(room_deleted_body("\"r1\""), "Chat \"r1\" deletado.");
    assert_eq!(room_deleted_body("x y"), "Chat x y deletado.");
}
