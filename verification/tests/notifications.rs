use chat_relay::sockets::info::info_actor::{
    ChatCreated, ChatDeleted, Connect, Disconnect, Info, InfoMessage, MessageType, Notification,
};

const DATE: &str = "2024-05-06 07:08:09";

fn targets(out: &[Notification]) -> Vec<i64> {
    let mut ids: Vec<i64> = out.iter().map(|n| n.target).collect();
    ids.sort();
    ids
}

fn hub_of(ids: &[i64]) -> Info<String> {
    let mut hub = Info::new();
    for id in ids {
        hub.handle_connect(Connect { user_id: *id, addr: format!("c{}", id) });
    }
    hub
}

#[test]
fn created_room_is_announced_to_everyone_else() {
    let hub = hub_of(&[1, 2, 3, 4]);
    let out = hub.chat_created_at(
        ChatCreated { user_id: 2, room_id: "room-9".to_string() },
        DATE.to_string(),
    );
    assert_eq!(targets(&out), vec![1, 3, 4]);
    for n in &out {
        assert_eq!(n.message.message_type, MessageType::ChatCreated);
        assert_eq!(n.message.message, "room-9");
        assert_eq!(n.message.id, None);
        assert_eq!(n.message.date, DATE);
    }
}

#[test]
fn removed_room_is_announced_to_everyone_else() {
    let hub = hub_of(&[1, 2, 3]);
    let out = hub.chat_deleted_at(
        ChatDeleted { user_id: 3, room_id: "room-9".to_string() },
        DATE.to_string(),
    );
    assert_eq!(targets(&out), vec![1, 2]);
    for n in &out {
        assert_eq!(n.message.message_type, MessageType::ChatRemoved);
        assert_eq!(n.message.message, "room-9");
        assert_eq!(n.message.id, None);
        assert_eq!(n.message.date, DATE);
    }
}

#[test]
fn originator_without_session_changes_nothing() {
    let hub = hub_of(&[1, 2]);
    let out = hub.chat_created_at(
        ChatCreated { user_id: 9, room_id: "r".to_string() },
        DATE.to_string(),
    );
    assert_eq!(targets(&out), vec![1, 2]);
}

#[test]
fn empty_hub_announces_to_nobody() {
    let hub: Info<String> = Info::new();
    assert!(hub
        .chat_created_at(ChatCreated { user_id: 1, room_id: "r".to_string() }, DATE.to_string())
        .is_empty());
    assert!(hub.handle_chat_deleted(ChatDeleted { user_id: 1, room_id: "r".to_string() }).is_empty());
}

#[test]
fn last_connect_wins_and_disconnect_forgets() {
    let mut hub: Info<String> = Info::new();
    hub.handle_connect(Connect { user_id: 1, addr: "first".to_string() });
    hub.handle_connect(Connect { user_id: 1, addr: "second".to_string() });
    assert_eq!(hub.session(&1), Some(&"second".to_string()));
    hub.handle_disconnect(Disconnect { user_id: 1 });
    assert!(hub.session(&1).is_none());
    hub.handle_disconnect(Disconnect { user_id: 1 });
    assert!(hub.session(&1).is_none());
}

#[test]
fn disconnected_user_is_no_longer_notified() {
    let mut hub = hub_of(&[1, 2, 3]);
    hub.handle_disconnect(Disconnect { user_id: 2 });
    let out = hub.handle_chat_created(ChatCreated { user_id: 1, room_id: "r".to_string() });
    assert_eq!(targets(&out), vec![3]);
    assert_eq!(out[0].message.message_type, MessageType::ChatCreated);
    assert_eq!(out[0].message.message, "r");
}

#[test]
fn notification_goes_only_to_a_known_session() {
    let hub = hub_of(&[5]);
    let message = InfoMessage {
        message_type: MessageType::ChatRemoved,
        message: "r".to_string(),
        id: None,
        date: DATE.to_string(),
    };
    let sent = hub.send_message(message.clone(), &5).expect("5 has a session");
    assert_eq!(sent.target, 5);
    assert_eq!(sent.message.message, "r");
    assert!(hub.send_message(message, &6).is_none());
}
