use vstd::prelude::*;

verus! {

/// A client message, decoded from one websocket frame.
#[derive(Debug)]
pub enum RecvMessage {
    /// Open a room: room key, nickname, avatar.
    Create(String, String, String),
    /// Join a room: room key, nickname, avatar.
    Enter(String, String, String),
    /// New nickname and avatar.
    ChangeAvatar(String, String),
    _Server,
    /// The client's online key.
    Key(String),
    _Events,
    /// The configuration of the room this client owns.
    Config(String),
    /// A free-form status.
    Status(String),
    /// From a room owner to one of its members: member id, message.
    Send(String, String),
    /// From a room owner: close the session with this id.
    Close(String),
    /// The client closed the connection.
    SessionClose,
    /// Anything else, escaped, for the owner of the client's room.
    ForwardToOwner(String),
    Heartbeat,
    PlaceHolder,
}

/// A client message, its texts taken as characters.
pub enum RecvView {
    Create(Seq<char>, Seq<char>, Seq<char>),
    Enter(Seq<char>, Seq<char>, Seq<char>),
    ChangeAvatar(Seq<char>, Seq<char>),
    _Server,
    Key(Seq<char>),
    _Events,
    Config(Seq<char>),
    Status(Seq<char>),
    Send(Seq<char>, Seq<char>),
    Close(Seq<char>),
    SessionClose,
    ForwardToOwner(Seq<char>),
    Heartbeat,
    PlaceHolder,
}

impl View for RecvMessage {
    type V = RecvView;

    open spec fn view(&self) -> RecvView {
        match self {
            RecvMessage::Create(a, b, c) => RecvView::Create(a@, b@, c@),
            RecvMessage::Enter(a, b, c) => RecvView::Enter(a@, b@, c@),
            RecvMessage::ChangeAvatar(a, b) => RecvView::ChangeAvatar(a@, b@),
            RecvMessage::_Server => RecvView::_Server,
            RecvMessage::Key(a) => RecvView::Key(a@),
            RecvMessage::_Events => RecvView::_Events,
            RecvMessage::Config(a) => RecvView::Config(a@),
            RecvMessage::Status(a) => RecvView::Status(a@),
            RecvMessage::Send(a, b) => RecvView::Send(a@, b@),
            RecvMessage::Close(a) => RecvView::Close(a@),
            RecvMessage::SessionClose => RecvView::SessionClose,
            RecvMessage::ForwardToOwner(a) => RecvView::ForwardToOwner(a@),
            RecvMessage::Heartbeat => RecvView::Heartbeat,
            RecvMessage::PlaceHolder => RecvView::PlaceHolder,
        }
    }
}

/// A message to be written to a client.
#[derive(Debug)]
pub enum SendMessage {
    CreateRoom,
    EnterRoomFailed,
    OnConnection(String),
    _ReloadRoom,
    _Denied,
    _EventDenied,
    UpdateRooms,
    UpdateClients,
    _UpdateEvents,
    RoomList,
    OnMessage(String, String),
    SelfClose,
    OnClose(String),
    Heartbeat,
    Plain(String),
}

impl Clone for SendMessage {
    fn clone(&self) -> (r: Self)
        ensures
            r == *self,
    {
        match self {
            SendMessage::CreateRoom => SendMessage::CreateRoom,
            SendMessage::EnterRoomFailed => SendMessage::EnterRoomFailed,
            SendMessage::OnConnection(w) => SendMessage::OnConnection(w.clone()),
            SendMessage::_ReloadRoom => SendMessage::_ReloadRoom,
            SendMessage::_Denied => SendMessage::_Denied,
            SendMessage::_EventDenied => SendMessage::_EventDenied,
            SendMessage::UpdateRooms => SendMessage::UpdateRooms,
            SendMessage::UpdateClients => SendMessage::UpdateClients,
            SendMessage::_UpdateEvents => SendMessage::_UpdateEvents,
            SendMessage::RoomList => SendMessage::RoomList,
            SendMessage::OnMessage(w, m) => SendMessage::OnMessage(w.clone(), m.clone()),
            SendMessage::SelfClose => SendMessage::SelfClose,
            SendMessage::OnClose(w) => SendMessage::OnClose(w.clone()),
            SendMessage::Heartbeat => SendMessage::Heartbeat,
            SendMessage::Plain(t) => SendMessage::Plain(t.clone()),
        }
    }
}

/// A message on a session's own control channel.
pub enum ControlMessage {
    Send(SendMessage),
    Heartbeat,
    Close,
}

} // verus!
