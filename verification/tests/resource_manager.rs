use lobby::message::{ControlMessage, SendMessage};
use lobby::resource_manager::{RMCMessage, ResourceManager, RmAction};
use lobby::types::{Room, SessionItem, SessionState};
use tokio::sync::{mpsc, oneshot};

fn item(wsid: &str, room: Option<&str>) -> (SessionItem, mpsc::Receiver<ControlMessage>) {
    let (tx, rx) = mpsc::channel(4);
    let mut state = SessionState::new(wsid.to_string());
    state.room_id = room.map(|r| r.to_string());
    (SessionItem { controller: tx, state }, rx)
}

fn room(owner: &str, key: &str, config: Option<&str>) -> Room {
    let mut r = Room::new(SessionState::new(owner.to_string()), key.to_string());
    r.config = config.map(|c| c.to_string());
    r
}

fn get_room(rm: &mut ResourceManager, key: &str) -> Option<Option<Room>> {
    let (tx, _rx) = oneshot::channel();
    match rm.handle(RMCMessage::GetRoom(key.to_string(), tx)) {
        RmAction::ReplyRoom(_, r) => Some(r),
        RmAction::Nothing => None,
        _ => panic!("unexpected action"),
    }
}

fn get_room_by_key(rm: &mut ResourceManager, key: &str) -> Option<Option<Room>> {
    let (tx, _rx) = oneshot::channel();
    match rm.handle(RMCMessage::GetRoomByKey(key.to_string(), tx)) {
        RmAction::ReplyRoom(_, r) => Some(r),
        RmAction::Nothing => None,
        _ => panic!("unexpected action"),
    }
}

fn text_reply(rm: &mut ResourceManager, rooms: bool) -> String {
    let (tx, _rx) = oneshot::channel();
    let msg = if rooms { RMCMessage::GetRoomList(tx) } else { RMCMessage::GetSessionList(tx) };
    match rm.handle(msg) {
        RmAction::ReplyText(_, t) => t,
        _ => panic!("unexpected action"),
    }
}

#[test]
fn a_stored_room_is_read_back() {
    let mut rm = ResourceManager::new();
    assert!(matches!(rm.handle(RMCMessage::InsertRoom("o1".into(), room("o1", "K", None))), RmAction::Nothing));
    let r = get_room(&mut rm, "o1").unwrap().unwrap();
    assert_eq!(r.key, "K");
    assert_eq!(get_room(&mut rm, "o2").unwrap().map(|r| r.key), None);
    rm.handle(RMCMessage::InsertRoom("o1".into(), room("o1", "K2", Some("c"))));
    assert_eq!(get_room(&mut rm, "o1").unwrap().unwrap().key, "K2");
    rm.handle(RMCMessage::RemoveRoom("o1".into()));
    assert!(get_room(&mut rm, "o1").unwrap().is_none());
}

#[test]
fn rooms_are_found_by_key() {
    let mut rm = ResourceManager::new();
    // an empty directory answers "none"
    assert!(matches!(get_room_by_key(&mut rm, "K"), Some(None)));
    rm.handle(RMCMessage::InsertRoom("o1".into(), room("o1", "A", None)));
    rm.handle(RMCMessage::InsertRoom("o2".into(), room("o2", "B", Some("c"))));
    assert_eq!(get_room_by_key(&mut rm, "B").unwrap().unwrap().owner.wsid, "o2");
    // a directory without that key does not answer at all
    assert!(get_room_by_key(&mut rm, "Z").is_none());
}

#[test]
fn only_configured_rooms_are_listed() {
    let mut rm = ResourceManager::new();
    assert_eq!(text_reply(&mut rm, true), "[]");
    rm.handle(RMCMessage::InsertRoom("o1".into(), room("o1", "A", None)));
    assert_eq!(text_reply(&mut rm, true), "[]");
    rm.handle(RMCMessage::InsertRoom("o2".into(), room("o2", "B", Some("{}"))));
    rm.handle(RMCMessage::InsertRoom("o3".into(), room("o3", "C", Some("[1]"))));
    assert_eq!(text_reply(&mut rm, true), "[[null,null,{},1,B], [null,null,[1],1,C]]");
}

#[test]
fn sessions_are_listed_and_updated() {
    let mut rm = ResourceManager::new();
    assert_eq!(text_reply(&mut rm, false), "[]");
    let (a, _ra) = item("a", None);
    let (b, _rb) = item("b", Some("R"));
    rm.handle(RMCMessage::InsertSession("a".into(), a));
    rm.handle(RMCMessage::InsertSession("b".into(), b));
    assert_eq!(text_reply(&mut rm, false), "[[null,null,true,null,\"a\",null], [null,null,false,null,\"b\",null]]");
    let mut st = SessionState::new("a".into());
    st.status = Some("s".into());
    rm.handle(RMCMessage::UpdateSessionState("a".into(), st));
    assert_eq!(text_reply(&mut rm, false), "[[null,null,true,\"s\",\"a\",null], [null,null,false,null,\"b\",null]]");
    // an unknown session is not added by an update
    rm.handle(RMCMessage::UpdateSessionState("zz".into(), SessionState::new("zz".into())));
    let (tx, _rx) = oneshot::channel();
    match rm.handle(RMCMessage::GetSessionState("zz".into(), tx)) {
        RmAction::ReplyState(_, s) => assert!(s.is_none()),
        _ => panic!(),
    }
    let (tx, _rx) = oneshot::channel();
    match rm.handle(RMCMessage::GetSessionState("a".into(), tx)) {
        RmAction::ReplyState(_, s) => assert_eq!(s.unwrap().status.as_deref(), Some("s")),
        _ => panic!(),
    }
    rm.handle(RMCMessage::RemoveSession("a".into()));
    assert_eq!(text_reply(&mut rm, false), "[[null,null,false,null,\"b\",null]]");
}

#[test]
fn update_keeps_the_controller() {
    let mut rm = ResourceManager::new();
    let (a, mut ra) = item("a", None);
    rm.handle(RMCMessage::InsertSession("a".into(), a));
    rm.handle(RMCMessage::UpdateSessionState("a".into(), SessionState::new("a".into())));
    let c = rm.controller(&"a".to_string()).unwrap();
    c.try_send(ControlMessage::Heartbeat).ok().unwrap();
    assert!(matches!(ra.try_recv(), Ok(ControlMessage::Heartbeat)));
    assert!(rm.controller(&"b".to_string()).is_none());
}

#[test]
fn room_players_are_the_sessions_in_the_room() {
    let mut rm = ResourceManager::new();
    for (w, r) in [("a", Some("R")), ("b", None), ("c", Some("R")), ("d", Some("S"))] {
        let (it, _rx) = item(w, r);
        rm.handle(RMCMessage::InsertSession(w.into(), it));
    }
    let (tx, _rx) = oneshot::channel();
    match rm.handle(RMCMessage::GetRoomPlayersByKey("R".into(), tx)) {
        RmAction::ReplyPlayers(_, ids) => assert_eq!(ids, vec!["a", "c"]),
        _ => panic!(),
    }
}

#[test]
fn messages_go_to_known_sessions() {
    let mut rm = ResourceManager::new();
    let (a, _ra) = item("a", None);
    let (b, _rb) = item("b", None);
    rm.handle(RMCMessage::InsertSession("a".into(), a));
    rm.handle(RMCMessage::InsertSession("b".into(), b));
    match rm.handle(RMCMessage::SendSessionMessage("b".into(), SendMessage::SelfClose)) {
        RmAction::Notify(to, SendMessage::SelfClose) => assert_eq!(to, "b"),
        _ => panic!(),
    }
    assert!(matches!(rm.handle(RMCMessage::SendSessionMessage("x".into(), SendMessage::SelfClose)), RmAction::Nothing));
    assert!(matches!(rm.handle(RMCMessage::CloseSession("a".into())), RmAction::Close(ref k) if k == "a"));
    assert!(matches!(rm.handle(RMCMessage::CloseSession("x".into())), RmAction::Nothing));
    match rm.handle(RMCMessage::BroadcastMessage(SendMessage::UpdateRooms)) {
        RmAction::Broadcast(ids, SendMessage::UpdateRooms) => assert_eq!(ids, vec!["a", "b"]),
        _ => panic!(),
    }
    assert!(matches!(rm.handle(RMCMessage::_Close), RmAction::Stop));
}

#[test]
fn a_stored_room_survives_unrelated_requests() {
    let mut rm = ResourceManager::new();
    rm.handle(RMCMessage::InsertRoom("o1".into(), room("o1", "K", Some("c"))));
    rm.handle(RMCMessage::InsertRoom("o2".into(), room("o2", "L", None)));
    rm.handle(RMCMessage::RemoveRoom("o2".into()));
    rm.handle(RMCMessage::RemoveRoom("zz".into()));
    let (a, _ra) = item("a", Some("K"));
    rm.handle(RMCMessage::InsertSession("a".into(), a));
    rm.handle(RMCMessage::BroadcastMessage(SendMessage::UpdateRooms));
    let _ = text_reply(&mut rm, true);
    let r = get_room(&mut rm, "o1").unwrap().unwrap();
    assert_eq!((r.key.as_str(), r.config.as_deref()), ("K", Some("c")));
    // a later store under the same key is read back in its place
    rm.handle(RMCMessage::InsertRoom("o1".into(), room("o1", "K2", None)));
    rm.handle(RMCMessage::RemoveSession("a".into()));
    assert_eq!(get_room(&mut rm, "o1").unwrap().unwrap().key, "K2");
}
