use vstd::prelude::*;
use vstd::string::*;
use crate::message::{ControlMessage, RecvMessage, SendMessage};
use crate::resource_manager::RMCMessage;
use crate::types::{Room, SessionState};

verus! {

// ---------------------------------------------------------------- what a session says

/// `["roomlist",ROOMS,[],SESSIONS,"WSID"]`
pub open spec fn roomlist_text(rooms: Seq<char>, sessions: Seq<char>, wsid: Seq<char>) -> Seq<char> {
    "[\"roomlist\","@ + rooms + ",[],"@ + sessions + ",\""@ + wsid + "\"]"@
}

/// `["updateclients",SESSIONS]`
pub open spec fn updateclients_text(sessions: Seq<char>) -> Seq<char> {
    "[\"updateclients\","@ + sessions + "]"@
}

/// `["createroom",KEY]`
pub open spec fn createroom_text(key: Seq<char>) -> Seq<char> {
    "[\"createroom\","@ + key + "]"@
}

/// `["updaterooms",ROOMS,SESSIONS]`
pub open spec fn updaterooms_text(rooms: Seq<char>, sessions: Seq<char>) -> Seq<char> {
    "[\"updaterooms\","@ + rooms + ","@ + sessions + "]"@
}

/// `enterroomfailed`
pub open spec fn enterroomfailed_text() -> Seq<char> {
    "enterroomfailed"@
}

/// `["onconnection","WSID"]`
pub open spec fn onconnection_text(wsid: Seq<char>) -> Seq<char> {
    "[\"onconnection\",\""@ + wsid + "\"]"@
}

/// `["onmessage","WSID","MESSAGE"]`
pub open spec fn onmessage_text(wsid: Seq<char>, message: Seq<char>) -> Seq<char> {
    "[\"onmessage\",\""@ + wsid + "\",\""@ + message + "\"]"@
}

/// `["selfclose"]`
pub open spec fn selfclose_text() -> Seq<char> {
    "[\"selfclose\"]"@
}

/// `["onclose","WSID"]`
pub open spec fn onclose_text(wsid: Seq<char>) -> Seq<char> {
    "[\"onclose\",\""@ + wsid + "\"]"@
}

/// `heartbeat`
pub open spec fn heartbeat_text() -> Seq<char> {
    "heartbeat"@
}

fn text2(a: &str, b: &str) -> (r: String)
    ensures
        r@ == a@ + b@,
{
    let mut r = String::new();
    r.append(a);
    r.append(b);
    assert(r@ =~= a@ + b@);
    r
}

fn text3(a: &str, b: &str, c: &str) -> (r: String)
    ensures
        r@ == a@ + b@ + c@,
{
    let mut r = text2(a, b);
    r.append(c);
    r
}

fn text5(a: &str, b: &str, c: &str, d: &str, e: &str) -> (r: String)
    ensures
        r@ == a@ + b@ + c@ + d@ + e@,
{
    let mut r = text3(a, b, c);
    r.append(d);
    r.append(e);
    r
}

// ---------------------------------------------------------------- the machine

/// What a session waits for from the resource manager, and why.
pub enum Task {
    /// Nothing: the session waits for the client or its control channel.
    Idle,
    /// Sending the room list: the rooms are asked for.
    RoomListRooms,
    /// Sending the room list: the rooms are known, the sessions are asked for.
    RoomListSessions(String),
    /// Sending the client list: the sessions are asked for.
    ClientsSessions,
    /// Confirming a new room: the client's own room is asked for.
    CreatedRoom,
    /// Sending the room update: the rooms are asked for.
    RoomsRooms,
    /// Sending the room update: the rooms are known, the sessions are asked for.
    RoomsSessions(String),
    /// Storing this configuration in the client's own room, which is asked for.
    ConfigRoom(String),
    /// Entering the room with this key, which is asked for.
    EnterRoom(String),
    /// Relaying this message: the addressee's state is asked for.
    RelayState(String),
    /// Relaying this message to this session: the addressee's room is asked for.
    RelayRoom(String, String),
    /// Forwarding this message: the client's room is asked for.
    ForwardRoom(String),
    /// Closing the session with this id: its state is asked for.
    KickState(String),
    /// Closing the session with this id: its room is asked for.
    KickRoom(String),
    /// Closing this session: its room, with this key, is asked for.
    CloseRoom(String, AfterClose),
    /// Closing this session, owner of its room: the room's members are asked for.
    ClosePlayers(AfterClose),
}

/// What a session does once it has closed.
#[derive(PartialEq, Eq, Structural, Clone, Copy)]
pub enum AfterClose {
    /// Go on serving the connection.
    Resume,
    /// Give up the connection as the handling of an unsupported message.
    Abort,
    /// The connection is over.
    Finish,
}

/// A question for the resource manager.
pub enum RmQuery {
    GetRoom(String),
    GetRoomByKey(String),
    GetRoomList,
    GetRoomPlayersByKey(String),
    GetSessionState(String),
    GetSessionList,
}

/// Something that happened to a session.
pub enum SessionEvent {
    /// The connection is up.
    Started,
    /// The client sent this.
    Received(RecvMessage),
    /// This came on the session's control channel.
    Control(ControlMessage),
    /// Reading from the client failed.
    ReadFailed,
    /// The answer to `GetRoom` or `GetRoomByKey`.
    RoomReply(Option<Room>),
    /// The answer to `GetSessionState`.
    StateReply(Option<SessionState>),
    /// The answer to `GetRoomPlayersByKey`.
    PlayersReply(Vec<String>),
    /// The answer to `GetRoomList` or `GetSessionList`.
    TextReply(String),
}

/// Something a session does.
pub enum Effect {
    /// Send this to the resource manager, expecting no answer.
    Post(RMCMessage),
    /// Write this text frame to the client.
    Write(String),
    /// Put `Close` on the session's own control channel.
    SignalClose,
}

/// An effect, its text taken as characters.
pub enum EffectView {
    Post(RMCMessage),
    Write(Seq<char>),
    SignalClose,
}

impl View for Effect {
    type V = EffectView;

    open spec fn view(&self) -> EffectView {
        match self {
            Effect::Post(m) => EffectView::Post(*m),
            Effect::Write(t) => EffectView::Write(t@),
            Effect::SignalClose => EffectView::SignalClose,
        }
    }
}

/// How a session goes on after a step.
pub enum Next {
    /// Wait for the client or the control channel.
    Wait,
    /// Ask the resource manager this, and hand its answer back.
    Ask(RmQuery),
    /// Give up the connection.
    Abort,
    /// The connection is over.
    Finish,
}

/// The effects of one step, in order, and how the session goes on.
pub struct Step {
    pub effects: Vec<Effect>,
    pub next: Next,
}

/// A session's state as the protocol sees it.
pub struct SessionModel {
    pub state: SessionState,
    pub last_beat: bool,
    pub task: Task,
}

/// The model after a step, its effects and how it goes on.
pub type Outcome = (SessionModel, Seq<EffectView>, Next);

/// The decisions of one client connection.
pub struct Session {
    state: SessionState,
    last_beat: bool,
    task: Task,
}

// ---------------------------------------------------------------- the protocol, stated

/// The effects, their texts taken as characters.
pub open spec fn views(fx: Seq<Effect>) -> Seq<EffectView> {
    fx.map_values(|e: Effect| e@)
}

/// The model with another task.
pub open spec fn with_task(s: SessionModel, task: Task) -> SessionModel {
    SessionModel { state: s.state, last_beat: s.last_beat, task }
}

/// The model with another session state.
pub open spec fn with_state(s: SessionModel, state: SessionState) -> SessionModel {
    SessionModel { state, last_beat: s.last_beat, task: s.task }
}

/// Reporting the session's state to the resource manager.
pub open spec fn update_of(s: SessionModel) -> EffectView {
    EffectView::Post(RMCMessage::UpdateSessionState(s.state.wsid, s.state))
}

/// Asking the resource manager to hand `m` to every session.
pub open spec fn broadcast_of(m: SendMessage) -> EffectView {
    EffectView::Post(RMCMessage::BroadcastMessage(m))
}

/// Asking the resource manager to hand `m` to the session `to`.
pub open spec fn notify_of(to: String, m: SendMessage) -> EffectView {
    EffectView::Post(RMCMessage::SendSessionMessage(to, m))
}

/// How `after` goes on once the session has closed.
pub open spec fn after_next(after: AfterClose) -> Next {
    match after {
        AfterClose::Resume => Next::Wait,
        AfterClose::Abort => Next::Abort,
        AfterClose::Finish => Next::Finish,
    }
}

/// The last part of closing: the session and its room leave, everybody is
/// told of the rooms, and the session's own channel gets `Close`.
pub open spec fn close_finish_spec(s: SessionModel, after: AfterClose) -> Outcome {
    (
        with_task(s, Task::Idle),
        seq![
            EffectView::Post(RMCMessage::RemoveSession(s.state.wsid)),
            EffectView::Post(RMCMessage::RemoveRoom(s.state.wsid)),
            broadcast_of(SendMessage::UpdateRooms),
            EffectView::SignalClose,
        ],
        after_next(after),
    )
}

/// Closing: a session in a room first looks the room up.
pub open spec fn close_spec(s: SessionModel, after: AfterClose) -> Outcome {
    match s.state.room_id {
        Some(r) => (with_task(s, Task::CloseRoom(r, after)), Seq::empty(), Next::Ask(RmQuery::GetRoomByKey(r))),
        None => close_finish_spec(s, after),
    }
}

/// `SelfClose` for each of `ids` but `wsid`, in order.
pub open spec fn self_close_posts(ids: Seq<String>, wsid: Seq<char>) -> Seq<EffectView>
    decreases ids.len(),
{
    if ids.len() == 0 {
        Seq::empty()
    } else if ids.last()@ != wsid {
        self_close_posts(ids.drop_last(), wsid).push(notify_of(ids.last(), SendMessage::SelfClose))
    } else {
        self_close_posts(ids.drop_last(), wsid)
    }
}

/// Sending `msg` to the client: what it needs is asked for first.
pub open spec fn send_spec(s: SessionModel, msg: SendMessage) -> Outcome {
    match msg {
        SendMessage::RoomList => (with_task(s, Task::RoomListRooms), Seq::empty(), Next::Ask(RmQuery::GetRoomList)),
        SendMessage::UpdateClients => (
            with_task(s, Task::ClientsSessions),
            Seq::empty(),
            Next::Ask(RmQuery::GetSessionList),
        ),
        SendMessage::CreateRoom => (
            with_task(s, Task::CreatedRoom),
            Seq::empty(),
            Next::Ask(RmQuery::GetRoom(s.state.wsid)),
        ),
        SendMessage::UpdateRooms => (with_task(s, Task::RoomsRooms), Seq::empty(), Next::Ask(RmQuery::GetRoomList)),
        SendMessage::EnterRoomFailed => (s, seq![EffectView::Write(enterroomfailed_text())], Next::Wait),
        SendMessage::OnConnection(w) => (s, seq![EffectView::Write(onconnection_text(w@))], Next::Wait),
        SendMessage::Plain(t) => (s, seq![EffectView::Write(t@)], Next::Wait),
        SendMessage::OnMessage(w, m) => (s, seq![EffectView::Write(onmessage_text(w@, m@))], Next::Wait),
        SendMessage::SelfClose => (s, seq![EffectView::Write(selfclose_text())], Next::Wait),
        SendMessage::OnClose(w) => (s, seq![EffectView::Write(onclose_text(w@))], Next::Wait),
        SendMessage::Heartbeat => (s, seq![EffectView::Write(heartbeat_text())], Next::Wait),
        _ => close_spec(s, AfterClose::Abort),
    }
}

/// The state after the client named itself.
pub open spec fn named(st: SessionState, nickname: String, avatar: String) -> SessionState {
    SessionState { nickname: Some(nickname), avatar: Some(avatar), ..st }
}

/// Handling a client message.
pub open spec fn dispatch_spec(s: SessionModel, m: RecvMessage) -> Outcome {
    match m {
        RecvMessage::Key(k) => {
            let s2 = with_state(s, SessionState { online_key: Some(k), ..s.state });
            (s2, seq![update_of(s2)], Next::Wait)
        },
        RecvMessage::ChangeAvatar(n, a) => {
            let s2 = with_state(s, named(s.state, n, a));
            (s2, seq![update_of(s2), broadcast_of(SendMessage::UpdateClients)], Next::Wait)
        },
        RecvMessage::SessionClose => close_spec(s, AfterClose::Resume),
        RecvMessage::Create(key, n, a) => match s.state.online_key {
            None => (s, Seq::empty(), Next::Abort),
            Some(ok) => if key@ == ok@ {
                let owner = named(s.state, n, a);
                let room = Room { people_number: 1, owner, key, config: None };
                let s2 = with_state(s, SessionState { room_id: Some(key), ..owner });
                let sent = send_spec(s2, SendMessage::CreateRoom);
                (
                    sent.0,
                    seq![update_of(s2), EffectView::Post(RMCMessage::InsertRoom(s.state.wsid, room))]
                        + sent.1,
                    sent.2,
                )
            } else {
                (s, Seq::empty(), Next::Wait)
            },
        },
        RecvMessage::Config(c) => (
            with_task(s, Task::ConfigRoom(c)),
            Seq::empty(),
            Next::Ask(RmQuery::GetRoom(s.state.wsid)),
        ),
        RecvMessage::Enter(key, n, a) => (
            SessionModel { state: named(s.state, n, a), last_beat: s.last_beat, task: Task::EnterRoom(key) },
            Seq::empty(),
            Next::Ask(RmQuery::GetRoomByKey(key)),
        ),
        RecvMessage::Send(id, msg) => (
            with_task(s, Task::RelayState(msg)),
            Seq::empty(),
            Next::Ask(RmQuery::GetSessionState(id)),
        ),
        RecvMessage::ForwardToOwner(msg) => match s.state.room_id {
            Some(r) => (with_task(s, Task::ForwardRoom(msg)), Seq::empty(), Next::Ask(RmQuery::GetRoomByKey(r))),
            None => (s, Seq::empty(), Next::Wait),
        },
        RecvMessage::Status(st) => {
            let s2 = with_state(s, SessionState { status: Some(st), ..s.state });
            (s2, seq![update_of(s2), broadcast_of(SendMessage::UpdateClients)], Next::Wait)
        },
        RecvMessage::Close(key) => (
            with_task(s, Task::KickState(key)),
            Seq::empty(),
            Next::Ask(RmQuery::GetSessionState(key)),
        ),
        _ => close_spec(s, AfterClose::Abort),
    }
}

/// Handling an event of the connection while nothing is pending.
pub open spec fn input_spec(s: SessionModel, e: SessionEvent) -> Outcome {
    match e {
        SessionEvent::Started => send_spec(s, SendMessage::RoomList),
        SessionEvent::Received(RecvMessage::Heartbeat) => (
            SessionModel { last_beat: true, ..s },
            Seq::empty(),
            Next::Wait,
        ),
        SessionEvent::Received(m) => dispatch_spec(s, m),
        SessionEvent::Control(ControlMessage::Send(m)) => send_spec(s, m),
        SessionEvent::Control(ControlMessage::Heartbeat) => if s.last_beat {
            (
                SessionModel { last_beat: false, ..s },
                seq![EffectView::Write(heartbeat_text())],
                Next::Wait,
            )
        } else {
            close_spec(s, AfterClose::Finish)
        },
        SessionEvent::Control(ControlMessage::Close) => close_spec(s, AfterClose::Finish),
        SessionEvent::ReadFailed => close_spec(s, AfterClose::Finish),
        _ => (s, Seq::empty(), Next::Wait),
    }
}

/// Taking in the resource manager's answer to the pending question.
pub open spec fn reply_spec(s: SessionModel, e: SessionEvent) -> Outcome {
    let s0 = with_task(s, Task::Idle);
    let me = s.state.wsid;
    match (s.task, e) {
        (Task::RoomListRooms, SessionEvent::TextReply(r)) => (
            with_task(s, Task::RoomListSessions(r)),
            Seq::empty(),
            Next::Ask(RmQuery::GetSessionList),
        ),
        (Task::RoomListSessions(r), SessionEvent::TextReply(x)) => (
            s0,
            seq![EffectView::Write(roomlist_text(r@, x@, me@))],
            Next::Wait,
        ),
        (Task::ClientsSessions, SessionEvent::TextReply(x)) => (
            s0,
            seq![EffectView::Write(updateclients_text(x@))],
            Next::Wait,
        ),
        (Task::CreatedRoom, SessionEvent::RoomReply(r)) => match r {
            Some(room) => (s0, seq![EffectView::Write(createroom_text(room.key@))], Next::Wait),
            None => (s0, Seq::empty(), Next::Abort),
        },
        (Task::RoomsRooms, SessionEvent::TextReply(r)) => (
            with_task(s, Task::RoomsSessions(r)),
            Seq::empty(),
            Next::Ask(RmQuery::GetSessionList),
        ),
        (Task::RoomsSessions(r), SessionEvent::TextReply(x)) => (
            s0,
            seq![EffectView::Write(updaterooms_text(r@, x@))],
            Next::Wait,
        ),
        (Task::ConfigRoom(c), SessionEvent::RoomReply(r)) => match r {
            Some(room) => (
                s0,
                seq![
                    EffectView::Post(RMCMessage::InsertRoom(me, Room { config: Some(c), ..room })),
                    broadcast_of(SendMessage::UpdateRooms),
                ],
                Next::Wait,
            ),
            None => (s0, Seq::empty(), Next::Wait),
        },
        (Task::EnterRoom(key), SessionEvent::RoomReply(r)) => match r {
            Some(room) => if room.config is Some {
                let s1 = with_state(s0, SessionState { room_id: Some(key), status: None, ..s.state });
                (
                    s1,
                    seq![
                        notify_of(room.owner.wsid, SendMessage::OnConnection(me)),
                        update_of(s1),
                        broadcast_of(SendMessage::UpdateRooms),
                    ],
                    Next::Wait,
                )
            } else {
                let s1 = with_state(s0, SessionState { room_id: None, status: None, ..s.state });
                (
                    s1,
                    seq![
                        EffectView::Write(enterroomfailed_text()),
                        update_of(s1),
                        broadcast_of(SendMessage::UpdateRooms),
                    ],
                    Next::Wait,
                )
            },
            None => (
                s0,
                seq![
                    EffectView::Write(enterroomfailed_text()),
                    update_of(s0),
                    broadcast_of(SendMessage::UpdateRooms),
                ],
                Next::Wait,
            ),
        },
        (Task::RelayState(msg), SessionEvent::StateReply(r)) => match r {
            Some(st) => match st.room_id {
                Some(rid) => (
                    with_task(s, Task::RelayRoom(st.wsid, msg)),
                    Seq::empty(),
                    Next::Ask(RmQuery::GetRoomByKey(rid)),
                ),
                None => (s0, Seq::empty(), Next::Wait),
            },
            None => (s0, Seq::empty(), Next::Wait),
        },
        (Task::RelayRoom(target, msg), SessionEvent::RoomReply(r)) => match r {
            Some(room) => if room.owner.wsid@ == me@ {
                (s0, seq![notify_of(target, SendMessage::Plain(msg))], Next::Wait)
            } else {
                (s0, Seq::empty(), Next::Wait)
            },
            None => (s0, Seq::empty(), Next::Wait),
        },
        (Task::ForwardRoom(msg), SessionEvent::RoomReply(r)) => match r {
            Some(room) => (s0, seq![notify_of(room.owner.wsid, SendMessage::OnMessage(me, msg))], Next::Wait),
            None => (s0, Seq::empty(), Next::Wait),
        },
        (Task::KickState(key), SessionEvent::StateReply(r)) => match r {
            Some(st) => match st.room_id {
                Some(rid) => (with_task(s, Task::KickRoom(key)), Seq::empty(), Next::Ask(RmQuery::GetRoomByKey(rid))),
                None => (s0, Seq::empty(), Next::Wait),
            },
            None => (s0, Seq::empty(), Next::Wait),
        },
        (Task::KickRoom(key), SessionEvent::RoomReply(r)) => match r {
            Some(room) => if room.owner.wsid@ == me@ {
                (s0, seq![EffectView::Post(RMCMessage::CloseSession(key))], Next::Wait)
            } else {
                (s0, Seq::empty(), Next::Wait)
            },
            None => (s0, Seq::empty(), Next::Wait),
        },
        (Task::CloseRoom(r, after), SessionEvent::RoomReply(found)) => match found {
            Some(room) => if room.owner.wsid@ == me@ {
                (with_task(s, Task::ClosePlayers(after)), Seq::empty(), Next::Ask(RmQuery::GetRoomPlayersByKey(r)))
            } else {
                let fin = close_finish_spec(s0, after);
                (fin.0, seq![notify_of(room.owner.wsid, SendMessage::OnClose(me))] + fin.1, fin.2)
            },
            None => close_finish_spec(s0, after),
        },
        (Task::ClosePlayers(after), SessionEvent::PlayersReply(ids)) => {
            let fin = close_finish_spec(s0, after);
            (fin.0, self_close_posts(ids@, me@) + fin.1, fin.2)
        },
        _ => (s, Seq::empty(), Next::Wait),
    }
}

/// Whether `e` is what a session in model `s` can take: an event of the
/// connection when nothing is pending, else the answer to its question.
pub open spec fn accepts(s: SessionModel, e: SessionEvent) -> bool {
    match s.task {
        Task::Idle => e is Started || e is Received || e is Control || e is ReadFailed,
        Task::RoomListRooms | Task::RoomListSessions(_) | Task::ClientsSessions | Task::RoomsRooms
        | Task::RoomsSessions(_) => e is TextReply,
        Task::RelayState(_) | Task::KickState(_) => e is StateReply,
        Task::ClosePlayers(_) => e is PlayersReply,
        _ => e is RoomReply,
    }
}

/// One step of the protocol.
pub open spec fn transition(s: SessionModel, e: SessionEvent) -> Outcome {
    if s.task is Idle {
        input_spec(s, e)
    } else {
        reply_spec(s, e)
    }
}

/// The model is `m`, the effects `fx0` grew by those of `o` into `fx`, and
/// `next` is how `o` goes on.
pub open spec fn follows(m: SessionModel, fx0: Seq<Effect>, fx: Seq<Effect>, next: Next, o: Outcome) -> bool {
    &&& m == o.0
    &&& views(fx) == views(fx0) + o.1
    &&& next == o.2
}

proof fn lemma_views_push(fx: Seq<Effect>, e: Effect)
    ensures
        views(fx.push(e)) == views(fx).push(e@),
{
    assert(views(fx.push(e)) =~= views(fx).push(e@));
}

fn push_effect(fx: &mut Vec<Effect>, e: Effect)
    ensures
        views(final(fx)@) == views(old(fx)@).push(e@),
{
    proof {
        lemma_views_push(old(fx)@, e);
    }
    fx.push(e);
}

fn write_text(fx: &mut Vec<Effect>, text: String)
    ensures
        views(final(fx)@) == views(old(fx)@).push(EffectView::Write(text@)),
{
    push_effect(fx, Effect::Write(text));
}

impl Session {
    /// The protocol's view of this session.
    pub closed spec fn model(&self) -> SessionModel {
        SessionModel { state: self.state, last_beat: self.last_beat, task: self.task }
    }

    /// A new session with a fresh random id, not in a room, with the
    /// heartbeat answered and nothing pending.
    pub fn new() -> (s: Session)
        ensures
            crate::util::is_uuid_v4_text(s.model().state.wsid@),
            s.model().state.nickname is None,
            s.model().state.avatar is None,
            s.model().state.room_id is None,
            s.model().state.status is None,
            s.model().state.online_key is None,
            s.model().last_beat,
            s.model().task is Idle,
    {
        let wsid = crate::util::generate_wsid();
        Session { state: SessionState::new(wsid), last_beat: true, task: Task::Idle }
    }

    /// A copy of the session's state.
    pub fn get_state(&self) -> (r: SessionState)
        ensures
            r == self.model().state,
    {
        self.state.clone()
    }

    /// The session's id.
    pub fn get_wsid(&self) -> (r: String)
        ensures
            r == self.model().state.wsid,
    {
        self.state.wsid.clone()
    }

    /// Whether the client has answered the last heartbeat tick.
    pub fn last_beat(&self) -> (r: bool)
        ensures
            r == self.model().last_beat,
    {
        self.last_beat
    }

    /// Whether nothing is pending.
    pub fn idle(&self) -> (r: bool)
        ensures
            r == (self.model().task is Idle),
    {
        self.task.is_idle()
    }

    /// Whether the session can take `e` now.
    pub fn expects(&self, e: &SessionEvent) -> (r: bool)
        ensures
            r == accepts(self.model(), *e),
    {
        match &self.task {
            Task::Idle => match e {
                SessionEvent::Started | SessionEvent::Received(_) | SessionEvent::Control(_)
                | SessionEvent::ReadFailed => true,
                _ => false,
            },
            Task::RoomListRooms | Task::RoomListSessions(_) | Task::ClientsSessions | Task::RoomsRooms
            | Task::RoomsSessions(_) => match e {
                SessionEvent::TextReply(_) => true,
                _ => false,
            },
            Task::RelayState(_) | Task::KickState(_) => match e {
                SessionEvent::StateReply(_) => true,
                _ => false,
            },
            Task::ClosePlayers(_) => match e {
                SessionEvent::PlayersReply(_) => true,
                _ => false,
            },
            _ => match e {
                SessionEvent::RoomReply(_) => true,
                _ => false,
            },
        }
    }

    fn take_task(&mut self) -> (t: Task)
        ensures
            t == old(self).task,
            final(self).model() == with_task(old(self).model(), Task::Idle),
    {
        let mut t = Task::Idle;
        std::mem::swap(&mut t, &mut self.task);
        t
    }

    fn update_effect(&self) -> (e: Effect)
        ensures
            e@ == update_of(self.model()),
    {
        Effect::Post(RMCMessage::UpdateSessionState(self.state.wsid.clone(), self.state.clone()))
    }

    fn close_finish(&mut self, after: AfterClose, fx: &mut Vec<Effect>) -> (r: Next)
        requires
            old(self).task is Idle,
        ensures
            follows(final(self).model(), old(fx)@, final(fx)@, r, close_finish_spec(old(self).model(), after)),
    {
        push_effect(fx, Effect::Post(RMCMessage::RemoveSession(self.state.wsid.clone())));
        push_effect(fx, Effect::Post(RMCMessage::RemoveRoom(self.state.wsid.clone())));
        push_effect(fx, Effect::Post(RMCMessage::BroadcastMessage(SendMessage::UpdateRooms)));
        push_effect(fx, Effect::SignalClose);
        assert(self.model() == with_task(old(self).model(), Task::Idle));
        assert(views(fx@) =~= views(old(fx)@) + close_finish_spec(old(self).model(), after).1);
        match after {
            AfterClose::Resume => Next::Wait,
            AfterClose::Abort => Next::Abort,
            AfterClose::Finish => Next::Finish,
        }
    }

    fn close(&mut self, after: AfterClose, fx: &mut Vec<Effect>) -> (r: Next)
        requires
            old(self).task is Idle,
        ensures
            follows(final(self).model(), old(fx)@, final(fx)@, r, close_spec(old(self).model(), after)),
    {
        match &self.state.room_id {
            Some(r) => {
                let r = r.clone();
                self.task = Task::CloseRoom(r.clone(), after);
                assert(views(fx@) =~= views(old(fx)@) + Seq::<EffectView>::empty());
                Next::Ask(RmQuery::GetRoomByKey(r))
            },
            None => self.close_finish(after, fx),
        }
    }

    fn send_into(&mut self, msg: SendMessage, fx: &mut Vec<Effect>) -> (r: Next)
        requires
            old(self).task is Idle,
        ensures
            follows(final(self).model(), old(fx)@, final(fx)@, r, send_spec(old(self).model(), msg)),
    {
        let ghost m = msg;
        match msg {
            SendMessage::RoomList => {
                self.task = Task::RoomListRooms;
                assert(views(fx@) =~= views(old(fx)@) + Seq::<EffectView>::empty());
                Next::Ask(RmQuery::GetRoomList)
            },
            SendMessage::UpdateClients => {
                self.task = Task::ClientsSessions;
                assert(views(fx@) =~= views(old(fx)@) + Seq::<EffectView>::empty());
                Next::Ask(RmQuery::GetSessionList)
            },
            SendMessage::CreateRoom => {
                self.task = Task::CreatedRoom;
                assert(views(fx@) =~= views(old(fx)@) + Seq::<EffectView>::empty());
                Next::Ask(RmQuery::GetRoom(self.state.wsid.clone()))
            },
            SendMessage::UpdateRooms => {
                self.task = Task::RoomsRooms;
                assert(views(fx@) =~= views(old(fx)@) + Seq::<EffectView>::empty());
                Next::Ask(RmQuery::GetRoomList)
            },
            SendMessage::EnterRoomFailed => {
                write_text(fx, "enterroomfailed".to_owned());
                assert(views(fx@) =~= views(old(fx)@) + send_spec(old(self).model(), m).1);
                Next::Wait
            },
            SendMessage::OnConnection(w) => {
                let t = text3("[\"onconnection\",\"", w.as_str(), "\"]");
                write_text(fx, t);
                assert(views(fx@) =~= views(old(fx)@) + send_spec(old(self).model(), m).1);
                Next::Wait
            },
            SendMessage::Plain(t) => {
                write_text(fx, t);
                assert(views(fx@) =~= views(old(fx)@) + send_spec(old(self).model(), m).1);
                Next::Wait
            },
            SendMessage::OnMessage(w, message) => {
                let t = text5("[\"onmessage\",\"", w.as_str(), "\",\"", message.as_str(), "\"]");
                write_text(fx, t);
                assert(views(fx@) =~= views(old(fx)@) + send_spec(old(self).model(), m).1);
                Next::Wait
            },
            SendMessage::SelfClose => {
                write_text(fx, "[\"selfclose\"]".to_owned());
                assert(views(fx@) =~= views(old(fx)@) + send_spec(old(self).model(), m).1);
                Next::Wait
            },
            SendMessage::OnClose(w) => {
                let t = text3("[\"onclose\",\"", w.as_str(), "\"]");
                write_text(fx, t);
                assert(views(fx@) =~= views(old(fx)@) + send_spec(old(self).model(), m).1);
                Next::Wait
            },
            SendMessage::Heartbeat => {
                write_text(fx, "heartbeat".to_owned());
                assert(views(fx@) =~= views(old(fx)@) + send_spec(old(self).model(), m).1);
                Next::Wait
            },
            _ => self.close(AfterClose::Abort, fx),
        }
    }

    fn dispatch(&mut self, m: RecvMessage, fx: &mut Vec<Effect>) -> (r: Next)
        requires
            old(self).task is Idle,
        ensures
            follows(final(self).model(), old(fx)@, final(fx)@, r, dispatch_spec(old(self).model(), m)),
    {
        let ghost gm = m;
        match m {
            RecvMessage::Key(online_key) => {
                self.state.online_key = Some(online_key);
                let e = self.update_effect();
                push_effect(fx, e);
                assert(views(fx@) =~= views(old(fx)@) + dispatch_spec(old(self).model(), gm).1);
                Next::Wait
            },
            RecvMessage::ChangeAvatar(name, avatar) => {
                self.state.nickname = Some(name);
                self.state.avatar = Some(avatar);
                let e = self.update_effect();
                push_effect(fx, e);
                push_effect(fx, Effect::Post(RMCMessage::BroadcastMessage(SendMessage::UpdateClients)));
                assert(views(fx@) =~= views(old(fx)@) + dispatch_spec(old(self).model(), gm).1);
                Next::Wait
            },
            RecvMessage::SessionClose => self.close(AfterClose::Resume, fx),
            RecvMessage::Create(key, nickname, avatar) => {
                let matches = match &self.state.online_key {
                    Some(ok) => Some(key.eq(ok)),
                    None => None,
                };
                match matches {
                    None => {
                        assert(views(fx@) =~= views(old(fx)@) + Seq::<EffectView>::empty());
                        Next::Abort
                    },
                    Some(false) => {
                        assert(views(fx@) =~= views(old(fx)@) + Seq::<EffectView>::empty());
                        Next::Wait
                    },
                    Some(true) => {
                        self.state.nickname = Some(nickname);
                        self.state.avatar = Some(avatar);
                        let room = Room::new(self.state.clone(), key.clone());
                        self.state.room_id = Some(key);
                        let e = self.update_effect();
                        push_effect(fx, e);
                        push_effect(fx, Effect::Post(RMCMessage::InsertRoom(self.state.wsid.clone(), room)));
                        let r = self.send_into(SendMessage::CreateRoom, fx);
                        assert(views(fx@) =~= views(old(fx)@) + dispatch_spec(old(self).model(), gm).1);
                        r
                    },
                }
            },
            RecvMessage::Config(config) => {
                self.task = Task::ConfigRoom(config);
                assert(views(fx@) =~= views(old(fx)@) + Seq::<EffectView>::empty());
                Next::Ask(RmQuery::GetRoom(self.state.wsid.clone()))
            },
            RecvMessage::Enter(key, nickname, avatar) => {
                self.state.nickname = Some(nickname);
                self.state.avatar = Some(avatar);
                let k = key.clone();
                self.task = Task::EnterRoom(key);
                assert(views(fx@) =~= views(old(fx)@) + Seq::<EffectView>::empty());
                Next::Ask(RmQuery::GetRoomByKey(k))
            },
            RecvMessage::Send(id, message) => {
                self.task = Task::RelayState(message);
                assert(views(fx@) =~= views(old(fx)@) + Seq::<EffectView>::empty());
                Next::Ask(RmQuery::GetSessionState(id))
            },
            RecvMessage::ForwardToOwner(message) => {
                match &self.state.room_id {
                    Some(room_id) => {
                        let room_id = room_id.clone();
                        self.task = Task::ForwardRoom(message);
                        assert(views(fx@) =~= views(old(fx)@) + Seq::<EffectView>::empty());
                        Next::Ask(RmQuery::GetRoomByKey(room_id))
                    },
                    None => {
                        assert(views(fx@) =~= views(old(fx)@) + Seq::<EffectView>::empty());
                        Next::Wait
                    },
                }
            },
            RecvMessage::Status(new_status) => {
                self.state.status = Some(new_status);
                let e = self.update_effect();
                push_effect(fx, e);
                push_effect(fx, Effect::Post(RMCMessage::BroadcastMessage(SendMessage::UpdateClients)));
                assert(views(fx@) =~= views(old(fx)@) + dispatch_spec(old(self).model(), gm).1);
                Next::Wait
            },
            RecvMessage::Close(key) => {
                let k = key.clone();
                self.task = Task::KickState(key);
                assert(views(fx@) =~= views(old(fx)@) + Seq::<EffectView>::empty());
                Next::Ask(RmQuery::GetSessionState(k))
            },
            _ => self.close(AfterClose::Abort, fx),
        }
    }

    fn self_close_all(&self, ids: Vec<String>, fx: &mut Vec<Effect>)
        ensures
            views(final(fx)@) == views(old(fx)@) + self_close_posts(ids@, self.model().state.wsid@),
    {
        let n = ids.len();
        let mut i: usize = 0;
        while i < n
            invariant
                i <= n,
                n == ids@.len(),
                views(fx@) == views(old(fx)@) + self_close_posts(ids@.take(i as int), self.model().state.wsid@),
            decreases n - i,
        {
            let ghost before = fx@;
            proof {
                assert(ids@.take(i + 1).drop_last() =~= ids@.take(i as int));
                assert(ids@.take(i + 1).last() == ids@[i as int]);
            }
            if !ids[i].eq(&self.state.wsid) {
                push_effect(fx, Effect::Post(RMCMessage::SendSessionMessage(ids[i].clone(), SendMessage::SelfClose)));
            }
            assert(views(fx@) =~= views(old(fx)@) + self_close_posts(ids@.take(i + 1), self.model().state.wsid@));
            i = i + 1;
        }
        assert(ids@.take(n as int) =~= ids@);
    }

    fn on_input(&mut self, e: SessionEvent, fx: &mut Vec<Effect>) -> (r: Next)
        requires
            old(self).task is Idle,
        ensures
            follows(final(self).model(), old(fx)@, final(fx)@, r, input_spec(old(self).model(), e)),
    {
        match e {
            SessionEvent::Started => self.send_into(SendMessage::RoomList, fx),
            SessionEvent::Received(m) => {
                match m {
                    RecvMessage::Heartbeat => {
                        self.last_beat = true;
                        assert(views(fx@) =~= views(old(fx)@) + Seq::<EffectView>::empty());
                        Next::Wait
                    },
                    _ => self.dispatch(m, fx),
                }
            },
            SessionEvent::Control(c) => {
                match c {
                    ControlMessage::Send(m) => self.send_into(m, fx),
                    ControlMessage::Heartbeat => {
                        if self.last_beat {
                            self.last_beat = false;
                            write_text(fx, "heartbeat".to_owned());
                            assert(views(fx@) =~= views(old(fx)@) + input_spec(old(self).model(), e).1);
                            Next::Wait
                        } else {
                            self.close(AfterClose::Finish, fx)
                        }
                    },
                    ControlMessage::Close => self.close(AfterClose::Finish, fx),
                }
            },
            SessionEvent::ReadFailed => self.close(AfterClose::Finish, fx),
            _ => {
                assert(views(fx@) =~= views(old(fx)@) + Seq::<EffectView>::empty());
                Next::Wait
            },
        }
    }

    #[verifier::rlimit(40)]
    fn on_reply(&mut self, e: SessionEvent, fx: &mut Vec<Effect>) -> (r: Next)
        requires
            !(old(self).task is Idle),
        ensures
            follows(final(self).model(), old(fx)@, final(fx)@, r, reply_spec(old(self).model(), e)),
    {
        let ghost s = old(self).model();
        let ghost ge = e;
        let task = self.take_task();
        match (task, e) {
            (Task::RoomListRooms, SessionEvent::TextReply(r)) => {
                self.task = Task::RoomListSessions(r);
                assert(views(fx@) =~= views(old(fx)@) + Seq::<EffectView>::empty());
                Next::Ask(RmQuery::GetSessionList)
            },
            (Task::RoomListSessions(r), SessionEvent::TextReply(x)) => {
                let mut t = text5("[\"roomlist\",", r.as_str(), ",[],", x.as_str(), ",\"");
                t.append(self.state.wsid.as_str());
                t.append("\"]");
                write_text(fx, t);
                assert(views(fx@) =~= views(old(fx)@) + reply_spec(s, ge).1);
                Next::Wait
            },
            (Task::ClientsSessions, SessionEvent::TextReply(x)) => {
                write_text(fx, text3("[\"updateclients\",", x.as_str(), "]"));
                assert(views(fx@) =~= views(old(fx)@) + reply_spec(s, ge).1);
                Next::Wait
            },
            (Task::CreatedRoom, SessionEvent::RoomReply(found)) => {
                match found {
                    Some(room) => {
                        write_text(fx, text3("[\"createroom\",", room.key.as_str(), "]"));
                        assert(views(fx@) =~= views(old(fx)@) + reply_spec(s, ge).1);
                        Next::Wait
                    },
                    None => {
                        assert(views(fx@) =~= views(old(fx)@) + Seq::<EffectView>::empty());
                        Next::Abort
                    },
                }
            },
            (Task::RoomsRooms, SessionEvent::TextReply(r)) => {
                self.task = Task::RoomsSessions(r);
                assert(views(fx@) =~= views(old(fx)@) + Seq::<EffectView>::empty());
                Next::Ask(RmQuery::GetSessionList)
            },
            (Task::RoomsSessions(r), SessionEvent::TextReply(x)) => {
                write_text(fx, text5("[\"updaterooms\",", r.as_str(), ",", x.as_str(), "]"));
                assert(views(fx@) =~= views(old(fx)@) + reply_spec(s, ge).1);
                Next::Wait
            },
            (Task::ConfigRoom(config), SessionEvent::RoomReply(found)) => {
                match found {
                    Some(room) => {
                        let mut room = room;
                        room.config = Some(config);
                        push_effect(fx, Effect::Post(RMCMessage::InsertRoom(self.state.wsid.clone(), room)));
                        push_effect(fx, Effect::Post(RMCMessage::BroadcastMessage(SendMessage::UpdateRooms)));
                        assert(views(fx@) =~= views(old(fx)@) + reply_spec(s, ge).1);
                    },
                    None => {
                        assert(views(fx@) =~= views(old(fx)@) + Seq::<EffectView>::empty());
                    },
                }
                Next::Wait
            },
            (Task::EnterRoom(key), SessionEvent::RoomReply(found)) => {
                match found {
                    Some(room) => {
                        self.state.room_id = Some(key);
                        self.state.status = None;
                        if room.config.is_some() {
                            push_effect(
                                fx,
                                Effect::Post(
                                    RMCMessage::SendSessionMessage(
                                        room.owner.wsid,
                                        SendMessage::OnConnection(self.state.wsid.clone()),
                                    ),
                                ),
                            );
                        } else {
                            self.state.room_id = None;
                            write_text(fx, "enterroomfailed".to_owned());
                        }
                    },
                    None => {
                        write_text(fx, "enterroomfailed".to_owned());
                    },
                }
                let e = self.update_effect();
                push_effect(fx, e);
                push_effect(fx, Effect::Post(RMCMessage::BroadcastMessage(SendMessage::UpdateRooms)));
                assert(views(fx@) =~= views(old(fx)@) + reply_spec(s, ge).1);
                Next::Wait
            },
            (Task::RelayState(message), SessionEvent::StateReply(found)) => {
                match found {
                    Some(st) => {
                        match st.room_id {
                            Some(room_id) => {
                                self.task = Task::RelayRoom(st.wsid, message);
                                assert(views(fx@) =~= views(old(fx)@) + Seq::<EffectView>::empty());
                                Next::Ask(RmQuery::GetRoomByKey(room_id))
                            },
                            None => {
                                assert(views(fx@) =~= views(old(fx)@) + Seq::<EffectView>::empty());
                                Next::Wait
                            },
                        }
                    },
                    None => {
                        assert(views(fx@) =~= views(old(fx)@) + Seq::<EffectView>::empty());
                        Next::Wait
                    },
                }
            },
            (Task::RelayRoom(target, message), SessionEvent::RoomReply(found)) => {
                match found {
                    Some(room) => {
                        if room.owner.wsid.eq(&self.state.wsid) {
                            push_effect(
                                fx,
                                Effect::Post(RMCMessage::SendSessionMessage(target, SendMessage::Plain(message))),
                            );
                            assert(views(fx@) =~= views(old(fx)@) + reply_spec(s, ge).1);
                        } else {
                            assert(views(fx@) =~= views(old(fx)@) + Seq::<EffectView>::empty());
                        }
                    },
                    None => {
                        assert(views(fx@) =~= views(old(fx)@) + Seq::<EffectView>::empty());
                    },
                }
                Next::Wait
            },
            (Task::ForwardRoom(message), SessionEvent::RoomReply(found)) => {
                match found {
                    Some(room) => {
                        push_effect(
                            fx,
                            Effect::Post(
                                RMCMessage::SendSessionMessage(
                                    room.owner.wsid,
                                    SendMessage::OnMessage(self.state.wsid.clone(), message),
                                ),
                            ),
                        );
                        assert(views(fx@) =~= views(old(fx)@) + reply_spec(s, ge).1);
                    },
                    None => {
                        assert(views(fx@) =~= views(old(fx)@) + Seq::<EffectView>::empty());
                    },
                }
                Next::Wait
            },
            (Task::KickState(key), SessionEvent::StateReply(found)) => {
                match found {
                    Some(st) => {
                        match st.room_id {
                            Some(room_id) => {
                                self.task = Task::KickRoom(key);
                                assert(views(fx@) =~= views(old(fx)@) + Seq::<EffectView>::empty());
                                Next::Ask(RmQuery::GetRoomByKey(room_id))
                            },
                            None => {
                                assert(views(fx@) =~= views(old(fx)@) + Seq::<EffectView>::empty());
                                Next::Wait
                            },
                        }
                    },
                    None => {
                        assert(views(fx@) =~= views(old(fx)@) + Seq::<EffectView>::empty());
                        Next::Wait
                    },
                }
            },
            (Task::KickRoom(key), SessionEvent::RoomReply(found)) => {
                match found {
                    Some(room) => {
                        if room.owner.wsid.eq(&self.state.wsid) {
                            push_effect(fx, Effect::Post(RMCMessage::CloseSession(key)));
                            assert(views(fx@) =~= views(old(fx)@) + reply_spec(s, ge).1);
                        } else {
                            assert(views(fx@) =~= views(old(fx)@) + Seq::<EffectView>::empty());
                        }
                    },
                    None => {
                        assert(views(fx@) =~= views(old(fx)@) + Seq::<EffectView>::empty());
                    },
                }
                Next::Wait
            },
            (Task::CloseRoom(room_id, after), SessionEvent::RoomReply(found)) => {
                match found {
                    Some(room) => {
                        if room.owner.wsid.eq(&self.state.wsid) {
                            self.task = Task::ClosePlayers(after);
                            assert(views(fx@) =~= views(old(fx)@) + Seq::<EffectView>::empty());
                            Next::Ask(RmQuery::GetRoomPlayersByKey(room_id))
                        } else {
                            push_effect(
                                fx,
                                Effect::Post(
                                    RMCMessage::SendSessionMessage(
                                        room.owner.wsid,
                                        SendMessage::OnClose(self.state.wsid.clone()),
                                    ),
                                ),
                            );
                            let r = self.close_finish(after, fx);
                            assert(views(fx@) =~= views(old(fx)@) + reply_spec(s, ge).1);
                            r
                        }
                    },
                    None => self.close_finish(after, fx),
                }
            },
            (Task::ClosePlayers(after), SessionEvent::PlayersReply(ids)) => {
                self.self_close_all(ids, fx);
                let r = self.close_finish(after, fx);
                assert(views(fx@) =~= views(old(fx)@) + reply_spec(s, ge).1);
                r
            },
            (t, _) => {
                self.task = t;
                assert(views(fx@) =~= views(old(fx)@) + Seq::<EffectView>::empty());
                Next::Wait
            },
        }
    }

    /// Takes one event and says what to do: the effects, in order, then
    /// how to go on.
    pub fn step(&mut self, e: SessionEvent) -> (r: Step)
        requires
            accepts(old(self).model(), e),
        ensures
            follows(final(self).model(), Seq::empty(), r.effects@, r.next, transition(old(self).model(), e)),
    {
        let mut fx: Vec<Effect> = Vec::new();
        let next = if self.task.is_idle() {
            self.on_input(e, &mut fx)
        } else {
            self.on_reply(e, &mut fx)
        };
        assert(views(Seq::<Effect>::empty()) =~= Seq::<EffectView>::empty());
        Step { effects: fx, next }
    }
}

impl Session {
    /// Sends `msg` to the client, when nothing is pending: the effects, in
    /// order, then how to go on.
    pub fn send(&mut self, msg: SendMessage) -> (r: Step)
        requires
            old(self).model().task is Idle,
        ensures
            follows(final(self).model(), Seq::empty(), r.effects@, r.next, send_spec(old(self).model(), msg)),
    {
        let mut fx: Vec<Effect> = Vec::new();
        let next = self.send_into(msg, &mut fx);
        assert(views(Seq::<Effect>::empty()) =~= Seq::<EffectView>::empty());
        Step { effects: fx, next }
    }
}

impl Task {
    /// Whether nothing is pending.
    pub fn is_idle(&self) -> (r: bool)
        ensures
            r == (*self is Idle),
    {
        match self {
            Task::Idle => true,
            _ => false,
        }
    }
}

// ---------------------------------------------------------------- laws

/// Whether `e` is an answer to `q`.
pub open spec fn answers(q: RmQuery, e: SessionEvent) -> bool {
    match q {
        RmQuery::GetRoom(_) | RmQuery::GetRoomByKey(_) => e is RoomReply,
        RmQuery::GetSessionState(_) => e is StateReply,
        RmQuery::GetRoomPlayersByKey(_) => e is PlayersReply,
        RmQuery::GetRoomList | RmQuery::GetSessionList => e is TextReply,
    }
}

/// A session never changes its id.
pub proof fn law_wsid_is_stable(s: SessionModel, e: SessionEvent)
    ensures
        transition(s, e).0.state.wsid == s.state.wsid,
{
}

/// After every step the session can go on: when it asks the resource
/// manager something it takes exactly the answers to that question, and
/// otherwise it has nothing pending.
pub proof fn law_session_never_stuck(s: SessionModel, e: SessionEvent)
    requires
        accepts(s, e),
    ensures
        transition(s, e).2 matches Next::Ask(q) ==> forall|e2: SessionEvent|
            #![trigger accepts(transition(s, e).0, e2)]
            accepts(transition(s, e).0, e2) <==> answers(q, e2),
        !(transition(s, e).2 is Ask) ==> transition(s, e).0.task is Idle,
{
}

/// Whenever the connection ends, the session has taken itself and its room
/// out of the resource manager, told everybody of the rooms, and closed its
/// own control channel, in this order, as its last effects.
pub proof fn law_finish_releases(s: SessionModel, e: SessionEvent)
    requires
        accepts(s, e),
        transition(s, e).2 is Finish,
    ensures
        ({
            let fx = transition(s, e).1;
            &&& fx.len() >= 4
            &&& fx[fx.len() - 4] == EffectView::Post(RMCMessage::RemoveSession(s.state.wsid))
            &&& fx[fx.len() - 3] == EffectView::Post(RMCMessage::RemoveRoom(s.state.wsid))
            &&& fx[fx.len() - 2] == broadcast_of(SendMessage::UpdateRooms)
            &&& fx[fx.len() - 1] == EffectView::SignalClose
        }),
{
}

/// Whether the session is closing and will then end the connection.
pub open spec fn closing_for_good(t: Task) -> bool {
    match t {
        Task::CloseRoom(_, after) => after == AfterClose::Finish,
        Task::ClosePlayers(after) => after == AfterClose::Finish,
        _ => false,
    }
}

/// Whether a room was found and carries a configuration.
pub open spec fn configured(found: Option<Room>) -> bool {
    match found {
        Some(room) => room.config is Some,
        None => false,
    }
}

/// A heartbeat tick is answered once; a second tick with no heartbeat from
/// the client in between closes the connection, and a heartbeat from the
/// client re-arms it.
pub proof fn law_heartbeat(s: SessionModel)
    requires
        s.task is Idle,
        s.last_beat,
    ensures
        ({
            let tick = SessionEvent::Control(ControlMessage::Heartbeat);
            let o1 = transition(s, tick);
            let o2 = transition(o1.0, tick);
            &&& o1.1 == seq![EffectView::Write(heartbeat_text())]
            &&& o1.2 is Wait
            &&& o2.2 is Finish || closing_for_good(o2.0.task)
            &&& transition(o1.0, SessionEvent::Received(RecvMessage::Heartbeat)).0 == s
        }),
{
}

/// A room is opened only under the client's own online key: a `create`
/// with another key changes nothing and does nothing.
pub proof fn law_create_needs_online_key(s: SessionModel, key: String, n: String, a: String)
    requires
        s.task is Idle,
        s.state.online_key matches Some(ok) && ok@ != key@,
    ensures
        transition(s, SessionEvent::Received(RecvMessage::Create(key, n, a))) == (s, Seq::<EffectView>::empty(), Next::Wait),
{
}

/// A client that enters an existing room is in it afterwards exactly when the
/// room carries a configuration, and then the room's owner is told; otherwise
/// the client is told that entering failed.
pub proof fn law_enter_needs_configured_room(s: SessionModel, key: String, found: Option<Room>)
    requires
        s.task matches Task::EnterRoom(k) && k == key,
    ensures
        ({
            let o = transition(s, SessionEvent::RoomReply(found));
            &&& configured(found) ==> o.0.state.room_id == Some(key)
            &&& found is Some && !configured(found) ==> o.0.state.room_id is None
            &&& found is None ==> o.0.state.room_id == s.state.room_id
            &&& configured(found) ==> o.1[0] == notify_of(
                found.unwrap().owner.wsid,
                SendMessage::OnConnection(s.state.wsid),
            )
            &&& !configured(found) ==> o.1[0] == EffectView::Write(enterroomfailed_text())
        }),
{
}

/// Opening a room under the client's online key stores the room under the
/// client's id, and once the resource manager has stored it, the client is
/// told `["createroom",KEY]`.
pub proof fn law_created_room_is_confirmed(
    s: SessionModel,
    rooms: crate::registry::Entries<Room>,
    key: String,
    n: String,
    a: String,
)
    requires
        s.task is Idle,
        s.state.online_key matches Some(ok) && ok@ == key@,
        crate::registry::distinct_keys(rooms),
    ensures
        ({
            let o = transition(s, SessionEvent::Received(RecvMessage::Create(key, n, a)));
            let room = Room { people_number: 1, owner: named(s.state, n, a), key, config: None };
            let stored = crate::registry::put(rooms, s.state.wsid@, room);
            let answer = crate::registry::lookup(stored, s.state.wsid@);
            &&& o.1[1] == EffectView::Post(RMCMessage::InsertRoom(s.state.wsid, room))
            &&& o.2 == Next::Ask(RmQuery::GetRoom(s.state.wsid))
            &&& o.0.state.room_id == Some(key)
            &&& transition(o.0, SessionEvent::RoomReply(answer)).1 == seq![
                EffectView::Write(createroom_text(key@)),
            ]
        }),
{
    let room = Room { people_number: 1, owner: named(s.state, n, a), key, config: None };
    crate::registry::law_lookup_put(rooms, s.state.wsid@, room, s.state.wsid@);
}

/// Whether `e` ends the connection of a session in model `s`: reading from
/// the client failed, `Close` came on the control channel, or a heartbeat
/// tick came while the previous one is still unanswered.
pub open spec fn ends_connection(s: SessionModel, e: SessionEvent) -> bool {
    &&& s.task is Idle
    &&& match e {
        SessionEvent::ReadFailed => true,
        SessionEvent::Control(ControlMessage::Close) => true,
        SessionEvent::Control(ControlMessage::Heartbeat) => !s.last_beat,
        _ => false,
    }
}

/// One step ends the connection, or starts closing for good, only on an
/// event that ends the connection or while the session is already closing
/// for good.
pub proof fn law_finish_only_on_end(s: SessionModel, e: SessionEvent)
    ensures
        transition(s, e).2 is Finish || closing_for_good(transition(s, e).0.task) ==> ends_connection(s, e)
            || closing_for_good(s.task),
{
}

/// The model after one step.
#[verifier::opaque]
pub open spec fn next_model(s: SessionModel, e: SessionEvent) -> SessionModel {
    transition(s, e).0
}

/// Whether one step ends the connection.
#[verifier::opaque]
pub open spec fn finishes(s: SessionModel, e: SessionEvent) -> bool {
    transition(s, e).2 is Finish
}

/// The model after the events `es`, in order.
pub open spec fn model_after(s: SessionModel, es: Seq<SessionEvent>) -> SessionModel
    decreases es.len(),
{
    if es.len() == 0 {
        s
    } else {
        next_model(model_after(s, es.drop_last()), es.last())
    }
}

proof fn lemma_step_stays_open(s: SessionModel, e: SessionEvent)
    requires
        !closing_for_good(s.task),
        !ends_connection(s, e),
    ensures
        !finishes(s, e),
        !closing_for_good(next_model(s, e).task),
{
    reveal(next_model);
    reveal(finishes);
    law_finish_only_on_end(s, e);
}

/// A connection ends only after reading failed, `Close` came on the control
/// channel, or a heartbeat tick went unanswered: over any run of events with
/// none of these, no step ends the connection and the session is not
/// closing for good.
pub proof fn law_session_ends_only_on_request(s: SessionModel, es: Seq<SessionEvent>)
    requires
        !closing_for_good(s.task),
        forall|i: int| 0 <= i < es.len() ==> !ends_connection(model_after(s, es.take(i)), #[trigger] es[i]),
    ensures
        forall|i: int| 0 <= i < es.len() ==> !finishes(model_after(s, es.take(i)), #[trigger] es[i]),
        !closing_for_good(model_after(s, es).task),
    decreases es.len(),
{
    if es.len() > 0 {
        let n = es.len() - 1;
        let d = es.drop_last();
        assert(es.take(n) =~= d);
        assert forall|i: int| 0 <= i < d.len() implies #[trigger] d.take(i) == es.take(i) && d[i] == es[i] by {
            assert(d.take(i) =~= es.take(i));
        }
        assert forall|i: int| 0 <= i < d.len() implies !ends_connection(model_after(s, d.take(i)), #[trigger] d[i]) by {
            assert(d.take(i) == es.take(i) && d[i] == es[i]);
        }
        law_session_ends_only_on_request(s, d);
        assert(!ends_connection(model_after(s, es.take(n)), es[n]));
        lemma_step_stays_open(model_after(s, d), es[n]);
        assert forall|i: int| 0 <= i < es.len() implies !finishes(model_after(s, es.take(i)), #[trigger] es[i]) by {
            if i < n {
                assert(d.take(i) == es.take(i) && d[i] == es[i]);
            }
        }
    }
}

/// Heartbeats from the client are never handled as messages: they only mark
/// the last tick as answered; every other client message is handled.
pub proof fn law_client_heartbeats_not_dispatched(s: SessionModel, m: RecvMessage)
    requires
        s.task is Idle,
    ensures
        transition(s, SessionEvent::Received(RecvMessage::Heartbeat)) == (
            SessionModel { last_beat: true, ..s },
            Seq::<EffectView>::empty(),
            Next::Wait,
        ),
        !(m is Heartbeat) ==> transition(s, SessionEvent::Received(m)) == dispatch_spec(s, m),
{
}

/// Whether an id is not `me`.
pub open spec fn other_than(me: Seq<char>) -> spec_fn(String) -> bool {
    |id: String| id@ != me
}

/// Telling the session `id` to leave its room.
pub open spec fn told_to_leave() -> spec_fn(String) -> EffectView {
    |id: String| EffectView::Post(RMCMessage::SendSessionMessage(id, SendMessage::SelfClose))
}

proof fn lemma_self_close_posts(ids: Seq<String>, me: Seq<char>)
    ensures
        self_close_posts(ids, me) == ids.filter(other_than(me)).map_values(told_to_leave()),
    decreases ids.len(),
{
    broadcast use Seq::lemma_filter_push;
    if ids.len() > 0 {
        let d = ids.drop_last();
        lemma_self_close_posts(d, me);
        assert(d.push(ids.last()) =~= ids);
        let f = d.filter(other_than(me));
        if ids.last()@ != me {
            assert(ids.filter(other_than(me)) == f.push(ids.last()));
            assert(f.push(ids.last()).map_values(told_to_leave()) =~= f.map_values(told_to_leave()).push(
                told_to_leave()(ids.last()),
            ));
        } else {
            assert(ids.filter(other_than(me)) == f);
        }
    }
}

/// When a room owner closes, every member in the answer to the members
/// question but the owner itself is told to leave, in the answer's order,
/// wherever the owner stands in it; then the session and its room leave,
/// everybody is told of the rooms, and the control channel gets `Close`.
pub proof fn law_owner_close_tells_every_member(s: SessionModel, after: AfterClose, ids: Vec<String>)
    requires
        s.task == Task::ClosePlayers(after),
    ensures
        ({
            let o = transition(s, SessionEvent::PlayersReply(ids));
            let me = s.state.wsid;
            &&& o.1 == ids@.filter(other_than(me@)).map_values(told_to_leave()) + seq![
                EffectView::Post(RMCMessage::RemoveSession(me)),
                EffectView::Post(RMCMessage::RemoveRoom(me)),
                EffectView::Post(RMCMessage::BroadcastMessage(SendMessage::UpdateRooms)),
                EffectView::SignalClose,
            ]
            &&& o.0.task is Idle
            &&& o.0.state == s.state
        }),
{
    lemma_self_close_posts(ids@, s.state.wsid@);
}

/// Only the owner of the addressee's room may relay to, or close, a member:
/// for anybody else the answer changes nothing and does nothing. A member's
/// forwarded message always goes to the owner of its room.
pub proof fn law_only_owner_commands_members(s: SessionModel, room: Room)
    ensures
        s.task matches Task::KickRoom(key) ==> transition(s, SessionEvent::RoomReply(Some(room))) == (
            SessionModel { task: Task::Idle, ..s },
            if room.owner.wsid@ == s.state.wsid@ {
                seq![EffectView::Post(RMCMessage::CloseSession(key))]
            } else {
                Seq::<EffectView>::empty()
            },
            Next::Wait,
        ),
        s.task matches Task::RelayRoom(target, msg) ==> transition(s, SessionEvent::RoomReply(Some(room)))
            == (
            SessionModel { task: Task::Idle, ..s },
            if room.owner.wsid@ == s.state.wsid@ {
                seq![EffectView::Post(RMCMessage::SendSessionMessage(target, SendMessage::Plain(msg)))]
            } else {
                Seq::<EffectView>::empty()
            },
            Next::Wait,
        ),
        s.task matches Task::ForwardRoom(msg) ==> transition(s, SessionEvent::RoomReply(Some(room))) == (
            SessionModel { task: Task::Idle, ..s },
            seq![
                EffectView::Post(
                    RMCMessage::SendSessionMessage(room.owner.wsid, SendMessage::OnMessage(s.state.wsid, msg)),
                ),
            ],
            Next::Wait,
        ),
{
}

/// Configuring stores the client's own room back with the newly sent
/// configuration, whatever configuration it held before, everything else
/// of the room unchanged, and tells everybody of the rooms.
pub proof fn law_config_replaces_configuration(s: SessionModel, room: Room)
    ensures
        s.task matches Task::ConfigRoom(c) ==> transition(s, SessionEvent::RoomReply(Some(room))) == (
            SessionModel { task: Task::Idle, ..s },
            seq![
                EffectView::Post(
                    RMCMessage::InsertRoom(
                        s.state.wsid,
                        Room {
                            people_number: room.people_number,
                            owner: room.owner,
                            key: room.key,
                            config: Some(c),
                        },
                    ),
                ),
                EffectView::Post(RMCMessage::BroadcastMessage(SendMessage::UpdateRooms)),
            ],
            Next::Wait,
        ),
{
}

} // verus!
