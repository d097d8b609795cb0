use lobby::decode::{decode_command, read_frame_message, FrameKind};
use lobby::message::RecvMessage;

fn dec(s: &str) -> Option<RecvMessage> {
    decode_command(&s.to_string())
}

#[test]
fn heartbeat_is_recognised() {
    assert!(matches!(dec("heartbeat"), Some(RecvMessage::Heartbeat)));
}

#[test]
fn server_commands_are_decoded() {
    match dec("[\"server\",\"key\",\"[\\\"K1\\\",3]\"]") {
        Some(RecvMessage::Key(k)) => assert_eq!(k, "K1"),
        _ => panic!(),
    }
    match dec("[\"server\",\"changeAvatar\",\"a_much_too_long_name\",\"img\"]") {
        Some(RecvMessage::ChangeAvatar(n, a)) => {
            assert_eq!(n, "a_much_too_l");
            assert_eq!(a, "img");
        },
        _ => panic!(),
    }
    match dec("[\"server\",\"create\",\"K\",\"nick\",\"av\"]") {
        Some(RecvMessage::Create(k, n, a)) => assert_eq!((k.as_str(), n.as_str(), a.as_str()), ("K", "nick", "av")),
        _ => panic!(),
    }
    match dec("[\"server\",\"config\",{\"max\":4}]") {
        Some(RecvMessage::Config(c)) => assert_eq!(c, "{\"max\":4}"),
        _ => panic!(),
    }
    match dec("[\"server\",\"enter\",\"K\",\"a_long_nickname_kept\",\"av\"]") {
        Some(RecvMessage::Enter(k, n, a)) => {
            assert_eq!(k, "K");
            assert_eq!(n, "a_long_nickname_kept");
            assert_eq!(a, "av");
        },
        _ => panic!(),
    }
    match dec("[\"server\",\"send\",\"w2\",\"hello\"]") {
        Some(RecvMessage::Send(w, m)) => assert_eq!((w.as_str(), m.as_str()), ("w2", "hello")),
        _ => panic!(),
    }
    match dec("[\"server\",\"status\",\"busy\"]") {
        Some(RecvMessage::Status(s)) => assert_eq!(s, "busy"),
        _ => panic!(),
    }
    match dec("[\"server\",\"close\",\"w3\"]") {
        Some(RecvMessage::Close(w)) => assert_eq!(w, "w3"),
        _ => panic!(),
    }
    assert!(matches!(dec("[\"server\",\"dance\"]"), Some(RecvMessage::PlaceHolder)));
}

#[test]
fn other_commands_go_to_the_owner_escaped() {
    match dec("[\"move\",\"a\\\\b\"]") {
        Some(RecvMessage::ForwardToOwner(m)) => assert_eq!(m, "[\\\"move\\\",\\\"a\\\\\\\\b\\\"]"),
        _ => panic!(),
    }
}

#[test]
fn unreadable_commands_are_refused() {
    assert!(dec("not json").is_none());
    assert!(dec("[]").is_none());
    assert!(dec("[\"server\"]").is_none());
    assert!(dec("[\"server\",\"key\"]").is_none());
    assert!(dec("[\"server\",\"key\",\"nope\"]").is_none());
    assert!(dec("[\"server\",\"create\",\"K\",\"n\"]").is_none());
    assert!(dec("[\"server\",\"changeAvatar\",\"ééééééé\",\"a\"]").is_some());
    assert!(dec("[\"server\",\"changeAvatar\",\"aéééééé\",\"a\"]").is_none());
    assert!(dec("[\"server\",\"send\",\"w\"]").is_none());
    assert!(dec("[\"server\",\"status\"]").is_none());
    assert!(dec("[\"server\",\"config\"]").is_none());
}

#[test]
fn frames_are_read() {
    assert!(matches!(read_frame_message(FrameKind::Close, vec![]), Some(RecvMessage::SessionClose)));
    assert!(matches!(read_frame_message(FrameKind::Other, vec![1, 2]), Some(RecvMessage::PlaceHolder)));
    assert!(matches!(read_frame_message(FrameKind::Text, vec![0xff, 0xfe]), Some(RecvMessage::PlaceHolder)));
    assert!(matches!(read_frame_message(FrameKind::Text, b"heartbeat".to_vec()), Some(RecvMessage::Heartbeat)));
    assert!(read_frame_message(FrameKind::Text, b"{".to_vec()).is_none());
}
