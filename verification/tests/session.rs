use lobby::message::{ControlMessage, RecvMessage, SendMessage};
use lobby::resource_manager::RMCMessage;
use lobby::session::{Effect, Next, RmQuery, Session, SessionEvent, Step};
use lobby::types::{Room, SessionState};

fn show_send(m: &SendMessage) -> String {
    format!("{:?}", m)
}

fn show(e: &Effect) -> String {
    match e {
        Effect::Write(t) => format!("write {}", t),
        Effect::SignalClose => "signal close".to_string(),
        Effect::Post(m) => match m {
            RMCMessage::InsertRoom(k, r) => format!("insert room {} key={} config={:?} owner={}", k, r.key, r.config, r.owner.wsid),
            RMCMessage::RemoveRoom(k) => format!("remove room {}", k),
            RMCMessage::UpdateSessionState(k, s) => format!(
                "update {} nick={:?} avatar={:?} room={:?} status={:?} key={:?}",
                k, s.nickname, s.avatar, s.room_id, s.status, s.online_key
            ),
            RMCMessage::RemoveSession(k) => format!("remove session {}", k),
            RMCMessage::SendSessionMessage(k, m) => format!("notify {} {}", k, show_send(m)),
            RMCMessage::CloseSession(k) => format!("close session {}", k),
            RMCMessage::BroadcastMessage(m) => format!("broadcast {}", show_send(m)),
            _ => "other".to_string(),
        },
    }
}

fn shows(s: &Step) -> Vec<String> {
    s.effects.iter().map(show).collect()
}

fn ask(s: &Step) -> String {
    match &s.next {
        Next::Ask(q) => match q {
            RmQuery::GetRoom(k) => format!("room {}", k),
            RmQuery::GetRoomByKey(k) => format!("room by key {}", k),
            RmQuery::GetRoomList => "room list".to_string(),
            RmQuery::GetRoomPlayersByKey(k) => format!("players {}", k),
            RmQuery::GetSessionState(k) => format!("state {}", k),
            RmQuery::GetSessionList => "session list".to_string(),
        },
        Next::Wait => "wait".to_string(),
        Next::Abort => "abort".to_string(),
        Next::Finish => "finish".to_string(),
    }
}

fn recv(s: &mut Session, m: RecvMessage) -> Step {
    let e = SessionEvent::Received(m);
    assert!(s.expects(&e));
    s.step(e)
}

fn reply(s: &mut Session, e: SessionEvent) -> Step {
    assert!(s.expects(&e));
    s.step(e)
}

fn room(owner: &str, key: &str, config: Option<&str>) -> Room {
    let mut r = Room::new(SessionState::new(owner.to_string()), key.to_string());
    r.config = config.map(|c| c.to_string());
    r
}

#[test]
fn a_new_session_sends_the_room_list() {
    let mut s = Session::new();
    let me = s.get_wsid();
    assert_eq!(me.len(), 36);
    let st = s.step(SessionEvent::Started);
    assert!(st.effects.is_empty());
    assert_eq!(ask(&st), "room list");
    assert!(!s.expects(&SessionEvent::Started));
    let st = reply(&mut s, SessionEvent::TextReply("[R]".into()));
    assert_eq!(ask(&st), "session list");
    let st = reply(&mut s, SessionEvent::TextReply("[S]".into()));
    assert_eq!(shows(&st), vec![format!("write [\"roomlist\",[R],[],[S],\"{}\"]", me)]);
    assert_eq!(ask(&st), "wait");
    assert!(s.idle());
    assert_eq!(s.get_wsid(), me);
    assert_eq!(s.get_state().wsid, me);
}

#[test]
fn creating_a_room_needs_the_online_key() {
    let mut s = Session::new();
    let me = s.get_wsid();
    // without a key the connection is given up
    let st = recv(&mut s, RecvMessage::Create("K".into(), "n".into(), "a".into()));
    assert!(st.effects.is_empty());
    assert_eq!(ask(&st), "abort");

    let mut s = Session::new();
    let me2 = s.get_wsid();
    let st = recv(&mut s, RecvMessage::Key("K".into()));
    assert_eq!(shows(&st), vec![format!("update {} nick=None avatar=None room=None status=None key=Some(\"K\")", me2)]);
    let st = recv(&mut s, RecvMessage::Create("other".into(), "n".into(), "a".into()));
    assert!(st.effects.is_empty());
    assert_eq!(ask(&st), "wait");
    assert!(s.get_state().room_id.is_none());
    let st = recv(&mut s, RecvMessage::Create("K".into(), "n".into(), "a".into()));
    assert_eq!(
        shows(&st),
        vec![
            format!("update {} nick=Some(\"n\") avatar=Some(\"a\") room=Some(\"K\") status=None key=Some(\"K\")", me2),
            format!("insert room {} key=K config=None owner={}", me2, me2),
        ]
    );
    assert_eq!(ask(&st), format!("room {}", me2));
    let st = reply(&mut s, SessionEvent::RoomReply(Some(room(&me2, "K", None))));
    assert_eq!(shows(&st), vec!["write [\"createroom\",K]".to_string()]);
    assert_eq!(s.get_state().room_id.as_deref(), Some("K"));
    let _ = me;
}

#[test]
fn configuring_a_room() {
    let mut s = Session::new();
    let me = s.get_wsid();
    let st = recv(&mut s, RecvMessage::Config("{\"m\":1}".into()));
    assert_eq!(ask(&st), format!("room {}", me));
    let st = reply(&mut s, SessionEvent::RoomReply(Some(room(&me, "K", None))));
    assert_eq!(
        shows(&st),
        vec![format!("insert room {} key=K config=Some(\"{{\\\"m\\\":1}}\") owner={}", me, me), "broadcast UpdateRooms".to_string()]
    );
    let st = recv(&mut s, RecvMessage::Config("x".into()));
    assert_eq!(ask(&st), format!("room {}", me));
    let st = reply(&mut s, SessionEvent::RoomReply(None));
    assert!(st.effects.is_empty());
    assert_eq!(ask(&st), "wait");
}

#[test]
fn entering_a_room() {
    let mut s = Session::new();
    let me = s.get_wsid();
    let st = recv(&mut s, RecvMessage::Enter("K".into(), "nick".into(), "av".into()));
    assert_eq!(ask(&st), "room by key K");
    let st = reply(&mut s, SessionEvent::RoomReply(Some(room("owner", "K", Some("{}")))));
    assert_eq!(
        shows(&st),
        vec![
            format!("notify owner OnConnection(\"{}\")", me),
            format!("update {} nick=Some(\"nick\") avatar=Some(\"av\") room=Some(\"K\") status=None key=None", me),
            "broadcast UpdateRooms".to_string(),
        ]
    );
    // a room without configuration cannot be entered
    let st = recv(&mut s, RecvMessage::Enter("L".into(), "nick".into(), "av".into()));
    assert_eq!(ask(&st), "room by key L");
    let st = reply(&mut s, SessionEvent::RoomReply(Some(room("owner", "L", None))));
    assert_eq!(
        shows(&st),
        vec![
            "write enterroomfailed".to_string(),
            format!("update {} nick=Some(\"nick\") avatar=Some(\"av\") room=None status=None key=None", me),
            "broadcast UpdateRooms".to_string(),
        ]
    );
    // nor can a room that does not exist
    let st = recv(&mut s, RecvMessage::Enter("M".into(), "n2".into(), "av".into()));
    let _ = st;
    let st = reply(&mut s, SessionEvent::RoomReply(None));
    assert_eq!(shows(&st)[0], "write enterroomfailed");
    assert_eq!(s.get_state().nickname.as_deref(), Some("n2"));
}

#[test]
fn heartbeats_are_checked() {
    let mut s = Session::new();
    let me = s.get_wsid();
    let tick = || SessionEvent::Control(ControlMessage::Heartbeat);
    let st = s.step(tick());
    assert_eq!(shows(&st), vec!["write heartbeat".to_string()]);
    let st = recv(&mut s, RecvMessage::Heartbeat);
    assert!(st.effects.is_empty());
    let st = s.step(tick());
    assert_eq!(shows(&st), vec!["write heartbeat".to_string()]);
    let st = s.step(tick());
    assert_eq!(
        shows(&st),
        vec![
            format!("remove session {}", me),
            format!("remove room {}", me),
            "broadcast UpdateRooms".to_string(),
            "signal close".to_string(),
        ]
    );
    assert_eq!(ask(&st), "finish");
}

#[test]
fn an_owner_closes_its_room() {
    let mut s = Session::new();
    let me = s.get_wsid();
    recv(&mut s, RecvMessage::Key("K".into()));
    let st = recv(&mut s, RecvMessage::Create("K".into(), "n".into(), "a".into()));
    assert_eq!(ask(&st), format!("room {}", me));
    reply(&mut s, SessionEvent::RoomReply(Some(room(&me, "K", None))));
    let st = recv(&mut s, RecvMessage::SessionClose);
    assert_eq!(ask(&st), "room by key K");
    let st = reply(&mut s, SessionEvent::RoomReply(Some(room(&me, "K", None))));
    assert_eq!(ask(&st), "players K");
    let st = reply(&mut s, SessionEvent::PlayersReply(vec![me.clone(), "x".into(), "y".into()]));
    assert_eq!(
        shows(&st),
        vec![
            "notify x SelfClose".to_string(),
            "notify y SelfClose".to_string(),
            format!("remove session {}", me),
            format!("remove room {}", me),
            "broadcast UpdateRooms".to_string(),
            "signal close".to_string(),
        ]
    );
    assert_eq!(ask(&st), "wait");
}

#[test]
fn a_member_leaving_tells_the_owner() {
    let mut s = Session::new();
    let me = s.get_wsid();
    recv(&mut s, RecvMessage::Enter("K".into(), "n".into(), "a".into()));
    reply(&mut s, SessionEvent::RoomReply(Some(room("boss", "K", Some("c")))));
    let st = s.step(SessionEvent::ReadFailed);
    assert_eq!(ask(&st), "room by key K");
    let st = reply(&mut s, SessionEvent::RoomReply(Some(room("boss", "K", Some("c")))));
    assert_eq!(
        shows(&st),
        vec![
            format!("notify boss OnClose(\"{}\")", me),
            format!("remove session {}", me),
            format!("remove room {}", me),
            "broadcast UpdateRooms".to_string(),
            "signal close".to_string(),
        ]
    );
    assert_eq!(ask(&st), "finish");
}

#[test]
fn owners_relay_and_kick() {
    let mut s = Session::new();
    let me = s.get_wsid();
    let st = recv(&mut s, RecvMessage::Send("w2".into(), "hi".into()));
    assert_eq!(ask(&st), "state w2");
    let mut w2 = SessionState::new("w2".into());
    w2.room_id = Some("K".into());
    let st = reply(&mut s, SessionEvent::StateReply(Some(w2.clone())));
    assert_eq!(ask(&st), "room by key K");
    let st = reply(&mut s, SessionEvent::RoomReply(Some(room(&me, "K", Some("c")))));
    assert_eq!(shows(&st), vec!["notify w2 Plain(\"hi\")".to_string()]);
    // not the owner: nothing is relayed
    recv(&mut s, RecvMessage::Send("w2".into(), "hi".into()));
    reply(&mut s, SessionEvent::StateReply(Some(w2.clone())));
    let st = reply(&mut s, SessionEvent::RoomReply(Some(room("boss", "K", Some("c")))));
    assert!(st.effects.is_empty());
    // kicking
    let st = recv(&mut s, RecvMessage::Close("w2".into()));
    assert_eq!(ask(&st), "state w2");
    reply(&mut s, SessionEvent::StateReply(Some(w2)));
    let st = reply(&mut s, SessionEvent::RoomReply(Some(room(&me, "K", Some("c")))));
    assert_eq!(shows(&st), vec!["close session w2".to_string()]);
    // an addressee outside any room is left alone
    recv(&mut s, RecvMessage::Close("w3".into()));
    let st = reply(&mut s, SessionEvent::StateReply(Some(SessionState::new("w3".into()))));
    assert!(st.effects.is_empty());
    assert_eq!(ask(&st), "wait");
}

#[test]
fn members_forward_to_the_owner() {
    let mut s = Session::new();
    let me = s.get_wsid();
    let st = recv(&mut s, RecvMessage::ForwardToOwner("m".into()));
    assert!(st.effects.is_empty());
    assert_eq!(ask(&st), "wait");
    recv(&mut s, RecvMessage::Enter("K".into(), "n".into(), "a".into()));
    reply(&mut s, SessionEvent::RoomReply(Some(room("boss", "K", Some("c")))));
    let st = recv(&mut s, RecvMessage::ForwardToOwner("m".into()));
    assert_eq!(ask(&st), "room by key K");
    let st = reply(&mut s, SessionEvent::RoomReply(Some(room("boss", "K", Some("c")))));
    assert_eq!(shows(&st), vec![format!("notify boss OnMessage(\"{}\", \"m\")", me)]);
}

#[test]
fn status_and_avatar_are_reported() {
    let mut s = Session::new();
    let me = s.get_wsid();
    let st = recv(&mut s, RecvMessage::Status("busy".into()));
    assert_eq!(
        shows(&st),
        vec![
            format!("update {} nick=None avatar=None room=None status=Some(\"busy\") key=None", me),
            "broadcast UpdateClients".to_string(),
        ]
    );
    let st = recv(&mut s, RecvMessage::ChangeAvatar("n".into(), "p".into()));
    assert_eq!(
        shows(&st),
        vec![
            format!("update {} nick=Some(\"n\") avatar=Some(\"p\") room=None status=Some(\"busy\") key=None", me),
            "broadcast UpdateClients".to_string(),
        ]
    );
}

#[test]
fn outgoing_messages_are_written() {
    let mut s = Session::new();
    let me = s.get_wsid();
    let cases: Vec<(SendMessage, &str)> = vec![
        (SendMessage::EnterRoomFailed, "enterroomfailed"),
        (SendMessage::OnConnection("w".into()), "[\"onconnection\",\"w\"]"),
        (SendMessage::Plain("raw text".into()), "raw text"),
        (SendMessage::OnMessage("w".into(), "m".into()), "[\"onmessage\",\"w\",\"m\"]"),
        (SendMessage::SelfClose, "[\"selfclose\"]"),
        (SendMessage::OnClose("w".into()), "[\"onclose\",\"w\"]"),
        (SendMessage::Heartbeat, "heartbeat"),
    ];
    for (m, text) in cases {
        let st = s.send(m);
        assert_eq!(shows(&st), vec![format!("write {}", text)]);
    }
    let st = s.step(SessionEvent::Control(ControlMessage::Send(SendMessage::UpdateClients)));
    assert_eq!(ask(&st), "session list");
    let st = reply(&mut s, SessionEvent::TextReply("[x]".into()));
    assert_eq!(shows(&st), vec!["write [\"updateclients\",[x]]".to_string()]);
    let st = s.send(SendMessage::UpdateRooms);
    assert_eq!(ask(&st), "room list");
    reply(&mut s, SessionEvent::TextReply("[r]".into()));
    let st = reply(&mut s, SessionEvent::TextReply("[s]".into()));
    assert_eq!(shows(&st), vec!["write [\"updaterooms\",[r],[s]]".to_string()]);
    // a message that is not supported closes the session and gives up
    let st = s.send(SendMessage::_Denied);
    assert_eq!(shows(&st).len(), 4);
    assert_eq!(shows(&st)[0], format!("remove session {}", me));
    assert_eq!(ask(&st), "abort");
}

#[test]
fn unsupported_client_messages_close_and_give_up() {
    let mut s = Session::new();
    let st = recv(&mut s, RecvMessage::PlaceHolder);
    assert_eq!(shows(&st).len(), 4);
    assert_eq!(ask(&st), "abort");
    let st = s.step(SessionEvent::Control(ControlMessage::Close));
    assert_eq!(ask(&st), "finish");
}

#[test]
fn a_session_ends_only_when_told_to() {
    let mut s = Session::new();
    for e in [
        SessionEvent::Received(RecvMessage::Heartbeat),
        SessionEvent::Received(RecvMessage::Status("x".into())),
        SessionEvent::Control(ControlMessage::Heartbeat),
        SessionEvent::Received(RecvMessage::Heartbeat),
        SessionEvent::Control(ControlMessage::Heartbeat),
        SessionEvent::Received(RecvMessage::SessionClose),
    ] {
        let st = s.step(e);
        assert_ne!(ask(&st), "finish");
    }
    let st = s.step(SessionEvent::Control(ControlMessage::Close));
    assert_eq!(ask(&st), "finish");
}
