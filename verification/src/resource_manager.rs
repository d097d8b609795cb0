use vstd::prelude::*;
use crate::message::SendMessage;
use crate::registry::{Entries, Registry, distinct_keys, lookup, put, without};
use crate::text::push_char;
use crate::types::{
    ControlChannelSender, Room, SessionItem, SessionState, joined, list_text, room_text, state_text,
};

verus! {

/// A request to the resource manager. Requests that expect an answer carry
/// the channel on which it is to be sent.
pub enum RMCMessage {
    InsertRoom(String, Room),
    GetRoom(String, tokio::sync::oneshot::Sender<Option<Room>>),
    GetRoomByKey(String, tokio::sync::oneshot::Sender<Option<Room>>),
    GetRoomList(tokio::sync::oneshot::Sender<String>),
    GetRoomPlayersByKey(String, tokio::sync::oneshot::Sender<Vec<String>>),
    RemoveRoom(String),
    InsertSession(String, SessionItem),
    UpdateSessionState(String, SessionState),
    GetSessionState(String, tokio::sync::oneshot::Sender<Option<SessionState>>),
    RemoveSession(String),
    GetSessionList(tokio::sync::oneshot::Sender<String>),
    SendSessionMessage(String, SendMessage),
    CloseSession(String),
    BroadcastMessage(SendMessage),
    _Close,
}

/// What the resource manager's owner has to do after a request was handled.
pub enum RmAction {
    /// Nothing; a reply channel that came with the request is dropped unanswered.
    Nothing,
    ReplyRoom(tokio::sync::oneshot::Sender<Option<Room>>, Option<Room>),
    ReplyText(tokio::sync::oneshot::Sender<String>, String),
    ReplyPlayers(tokio::sync::oneshot::Sender<Vec<String>>, Vec<String>),
    ReplyState(tokio::sync::oneshot::Sender<Option<SessionState>>, Option<SessionState>),
    /// Hand this message to the session with this id.
    Notify(String, SendMessage),
    /// Tell the session with this id to close.
    Close(String),
    /// Hand this message to each of these sessions, in this order.
    Broadcast(Vec<String>, SendMessage),
    /// Stop serving requests.
    Stop,
}

// ---------------------------------------------------------------- the model

/// The listing entries of the rooms that carry a configuration, in order.
pub open spec fn listed_rooms(e: Entries<Room>) -> Seq<Seq<char>>
    decreases e.len(),
{
    if e.len() == 0 {
        Seq::empty()
    } else if e.last().1.config is Some {
        listed_rooms(e.drop_last()).push(room_text(e.last().1))
    } else {
        listed_rooms(e.drop_last())
    }
}

/// The listing entries of all sessions, in order.
pub open spec fn listed_sessions(e: Entries<SessionItem>) -> Seq<Seq<char>>
    decreases e.len(),
{
    if e.len() == 0 {
        Seq::empty()
    } else {
        listed_sessions(e.drop_last()).push(state_text(e.last().1.state))
    }
}

/// The ids of the sessions whose room is `key`, in order.
pub open spec fn players(e: Entries<SessionItem>, key: Seq<char>) -> Seq<Seq<char>>
    decreases e.len(),
{
    if e.len() == 0 {
        Seq::empty()
    } else if e.last().1.state.room_id.deep_view() == Some(key) {
        players(e.drop_last(), key).push(e.last().1.state.wsid@)
    } else {
        players(e.drop_last(), key)
    }
}

/// The first room, in directory order, whose key is `key`.
pub open spec fn first_room_with_key(e: Entries<Room>, key: Seq<char>) -> Option<Room>
    decreases e.len(),
{
    if e.len() == 0 {
        None
    } else if e[0].1.key@ == key {
        Some(e[0].1)
    } else {
        first_room_with_key(e.drop_first(), key)
    }
}

/// The sessions with the state of `k` replaced, its controller kept; nothing
/// changes when `k` is unknown.
pub open spec fn with_state(e: Entries<SessionItem>, k: Seq<char>, state: SessionState) -> Entries<
    SessionItem,
> {
    match lookup(e, k) {
        Some(item) => put(e, k, SessionItem { controller: item.controller, state }),
        None => e,
    }
}

proof fn lemma_joined_push(items: Seq<Seq<char>>, x: Seq<char>)
    ensures
        joined(items.push(x)) == if items.len() == 0 {
            x
        } else {
            joined(items) + seq![',', ' '] + x
        },
{
    assert(items.push(x).drop_last() =~= items);
    if items.len() == 0 {
        assert(items.push(x)[0] == x);
    }
}

proof fn lemma_first_room(e: Entries<Room>, key: Seq<char>, i: int)
    requires
        0 <= i <= e.len(),
        forall|j: int| 0 <= j < i ==> #[trigger] e[j].1.key@ != key,
    ensures
        i == e.len() ==> first_room_with_key(e, key) is None,
        i < e.len() && e[i].1.key@ == key ==> first_room_with_key(e, key) == Some(e[i].1),
    decreases i,
{
    if i > 0 {
        let d = e.drop_first();
        assert forall|j: int| 0 <= j < i - 1 implies #[trigger] d[j].1.key@ != key by {
            assert(d[j] == e[j + 1]);
        }
        assert(e[0].1.key@ != key);
        lemma_first_room(d, key, i - 1);
        if i < e.len() {
            assert(d[i - 1] == e[i]);
        }
    }
}

/// The room directory after `msg` was served.
pub open spec fn rooms_after(rooms: Entries<Room>, msg: RMCMessage) -> Entries<Room> {
    match msg {
        RMCMessage::InsertRoom(k, room) => put(rooms, k@, room),
        RMCMessage::RemoveRoom(k) => without(rooms, k@),
        _ => rooms,
    }
}

/// The room directory after the requests `msgs` were served, in order.
pub open spec fn rooms_after_run(rooms: Entries<Room>, msgs: Seq<RMCMessage>) -> Entries<Room>
    decreases msgs.len(),
{
    if msgs.len() == 0 {
        rooms
    } else {
        rooms_after(rooms_after_run(rooms, msgs.drop_last()), msgs.last())
    }
}

/// Whether `msg` stores or removes the room under `k`.
pub open spec fn writes_room(msg: RMCMessage, k: Seq<char>) -> bool {
    match msg {
        RMCMessage::InsertRoom(k2, _) => k2@ == k,
        RMCMessage::RemoveRoom(k2) => k2@ == k,
        _ => false,
    }
}

/// The session table after `msg` was served.
pub open spec fn sessions_after(sessions: Entries<SessionItem>, msg: RMCMessage) -> Entries<SessionItem> {
    match msg {
        RMCMessage::InsertSession(k, item) => put(sessions, k@, item),
        RMCMessage::UpdateSessionState(k, state) => with_state(sessions, k@, state),
        RMCMessage::RemoveSession(k) => without(sessions, k@),
        _ => sessions,
    }
}

/// The session table after the requests `msgs` were served, in order.
pub open spec fn sessions_after_run(sessions: Entries<SessionItem>, msgs: Seq<RMCMessage>) -> Entries<
    SessionItem,
>
    decreases msgs.len(),
{
    if msgs.len() == 0 {
        sessions
    } else {
        sessions_after(sessions_after_run(sessions, msgs.drop_last()), msgs.last())
    }
}

/// Whether `msg` stores, updates or removes the session `k`.
pub open spec fn writes_session(msg: RMCMessage, k: Seq<char>) -> bool {
    match msg {
        RMCMessage::InsertSession(k2, _) => k2@ == k,
        RMCMessage::UpdateSessionState(k2, _) => k2@ == k,
        RMCMessage::RemoveSession(k2) => k2@ == k,
        _ => false,
    }
}

/// A room that was stored is read back as stored, whatever requests come in
/// between, as long as none of them stores or removes a room under the same
/// key; a later store under that key is read back in its place.
pub proof fn law_room_read_after_write(rooms: Entries<Room>, k: Seq<char>, room: Room, msgs: Seq<RMCMessage>)
    requires
        forall|i: int| 0 <= i < msgs.len() ==> !writes_room(#[trigger] msgs[i], k),
    ensures
        lookup(rooms_after_run(put(rooms, k, room), msgs), k) == Some(room),
    decreases msgs.len(),
{
    if msgs.len() > 0 {
        let d = msgs.drop_last();
        assert forall|i: int| 0 <= i < d.len() implies !writes_room(#[trigger] d[i], k) by {
            assert(d[i] == msgs[i]);
        }
        law_room_read_after_write(rooms, k, room, d);
        let before = rooms_after_run(put(rooms, k, room), d);
        assert(!writes_room(msgs[msgs.len() - 1], k));
        match msgs.last() {
            RMCMessage::InsertRoom(k2, r2) => {
                crate::registry::law_lookup_put(before, k2@, r2, k);
            },
            RMCMessage::RemoveRoom(k2) => {
                crate::registry::law_lookup_without(before, k2@, k);
            },
            _ => {},
        }
    } else {
        crate::registry::law_lookup_put(rooms, k, room, k);
    }
}

/// A session that was stored keeps its controller and state, whatever
/// requests come in between, as long as none of them stores, updates or
/// removes that session.
pub proof fn law_session_read_after_write(
    sessions: Entries<SessionItem>,
    k: Seq<char>,
    item: SessionItem,
    msgs: Seq<RMCMessage>,
)
    requires
        forall|i: int| 0 <= i < msgs.len() ==> !writes_session(#[trigger] msgs[i], k),
    ensures
        lookup(sessions_after_run(put(sessions, k, item), msgs), k) == Some(item),
    decreases msgs.len(),
{
    if msgs.len() > 0 {
        let d = msgs.drop_last();
        assert forall|i: int| 0 <= i < d.len() implies !writes_session(#[trigger] d[i], k) by {
            assert(d[i] == msgs[i]);
        }
        law_session_read_after_write(sessions, k, item, d);
        let before = sessions_after_run(put(sessions, k, item), d);
        assert(!writes_session(msgs[msgs.len() - 1], k));
        match msgs.last() {
            RMCMessage::InsertSession(k2, it2) => {
                crate::registry::law_lookup_put(before, k2@, it2, k);
            },
            RMCMessage::UpdateSessionState(k2, st) => {
                if let Some(old_item) = lookup(before, k2@) {
                    crate::registry::law_lookup_put(
                        before,
                        k2@,
                        SessionItem { controller: old_item.controller, state: st },
                        k,
                    );
                }
            },
            RMCMessage::RemoveSession(k2) => {
                crate::registry::law_lookup_without(before, k2@, k);
            },
            _ => {},
        }
    } else {
        crate::registry::law_lookup_put(sessions, k, item, k);
    }
}

/// Looking a room up by its key finds a room with that key, the first one
/// in directory order, and finds none exactly when no room has that key.
pub proof fn law_room_by_key(e: Entries<Room>, key: Seq<char>)
    ensures
        first_room_with_key(e, key) is None <==> forall|i: int| 0 <= i < e.len() ==> #[trigger] e[i].1.key@ != key,
        first_room_with_key(e, key) matches Some(r) ==> r.key@ == key && exists|i: int|
            0 <= i < e.len() && #[trigger] e[i].1 == r && forall|j: int| 0 <= j < i ==> #[trigger] e[j].1.key@ != key,
    decreases e.len(),
{
    if e.len() > 0 {
        let d = e.drop_first();
        law_room_by_key(d, key);
        assert forall|i: int| 0 < i < e.len() implies #[trigger] e[i] == d[i - 1] by {}
        if e[0].1.key@ != key {
            if first_room_with_key(d, key) is Some {
                let i = choose|i: int|
                    0 <= i < d.len() && #[trigger] d[i].1 == first_room_with_key(d, key).unwrap() && forall|j: int|
                        0 <= j < i ==> #[trigger] d[j].1.key@ != key;
                assert(e[i + 1].1 == first_room_with_key(e, key).unwrap());
                assert forall|j: int| 0 <= j < i + 1 implies #[trigger] e[j].1.key@ != key by {
                    if j > 0 {
                        assert(e[j] == d[j - 1]);
                    }
                }
            }
        } else {
            assert(e[0].1 == first_room_with_key(e, key).unwrap());
        }
    }
}

/// Reporting a session's state replaces that state only: the controller and
/// every other session stay, and an unknown session is not added.
pub proof fn law_update_state(e: Entries<SessionItem>, k: Seq<char>, state: SessionState, other: Seq<char>)
    requires
        distinct_keys(e),
    ensures
        distinct_keys(with_state(e, k, state)),
        lookup(e, k) matches Some(item) ==> lookup(with_state(e, k, state), k) == Some(
            SessionItem { controller: item.controller, state },
        ),
        lookup(e, k) is None ==> with_state(e, k, state) == e,
        other != k ==> lookup(with_state(e, k, state), other) == lookup(e, other),
{
    if let Some(item) = lookup(e, k) {
        crate::registry::law_lookup_put(e, k, SessionItem { controller: item.controller, state }, other);
    }
}

/// The members of a room are the ids of exactly those sessions whose room
/// it is.
pub proof fn law_players(e: Entries<SessionItem>, key: Seq<char>)
    ensures
        forall|id: Seq<char>|
            #![trigger players(e, key).contains(id)]
            players(e, key).contains(id) <==> exists|i: int|
                0 <= i < e.len() && #[trigger] e[i].1.state.wsid@ == id && e[i].1.state.room_id.deep_view() == Some(key),
    decreases e.len(),
{
    if e.len() > 0 {
        let d = e.drop_last();
        law_players(d, key);
        assert forall|i: int| 0 <= i < d.len() implies #[trigger] d[i] == e[i] by {}
        assert forall|id: Seq<char>|
            #![trigger players(e, key).contains(id)]
            players(e, key).contains(id) <==> exists|i: int|
                0 <= i < e.len() && #[trigger] e[i].1.state.wsid@ == id && e[i].1.state.room_id.deep_view() == Some(key) by {
            let last = e.last().1.state;
            if players(e, key).contains(id) {
                if last.room_id.deep_view() == Some(key) && last.wsid@ == id {
                    assert(e[e.len() - 1].1.state.wsid@ == id);
                } else if players(d, key).contains(id) {
                    let i = choose|i: int|
                        0 <= i < d.len() && #[trigger] d[i].1.state.wsid@ == id && d[i].1.state.room_id.deep_view() == Some(key);
                    assert(e[i] == d[i]);
                } else {
                    assert(last.room_id.deep_view() == Some(key));
                    let p = players(d, key);
                    assert(players(e, key) == p.push(last.wsid@));
                    let j = choose|j: int| 0 <= j < players(e, key).len() && players(e, key)[j] == id;
                    if j < p.len() {
                        assert(p[j] == id);
                        assert(p.contains(id));
                    }
                }
            }
            if exists|i: int|
                0 <= i < e.len() && #[trigger] e[i].1.state.wsid@ == id && e[i].1.state.room_id.deep_view() == Some(key) {
                let i = choose|i: int|
                    0 <= i < e.len() && #[trigger] e[i].1.state.wsid@ == id && e[i].1.state.room_id.deep_view() == Some(key);
                if i == e.len() - 1 {
                    assert(players(e, key) == players(d, key).push(id));
                    assert(players(e, key)[players(d, key).len() as int] == id);
                } else {
                    assert(d[i] == e[i]);
                    assert(players(d, key).contains(id));
                    let j = choose|j: int| 0 <= j < players(d, key).len() && players(d, key)[j] == id;
                    if last.room_id.deep_view() == Some(key) {
                        assert(players(e, key)[j] == id);
                    }
                }
            }
        }
    }
}

/// The room directory and the session table that all sessions share.
pub struct ResourceManager {
    rooms: Registry<Room>,
    sessions: Registry<SessionItem>,
}

impl ResourceManager {
    /// The rooms, keyed by their owner's session id.
    pub closed spec fn rooms(&self) -> Entries<Room> {
        self.rooms.entries()
    }

    /// The sessions, keyed by their id.
    pub closed spec fn sessions(&self) -> Entries<SessionItem> {
        self.sessions.entries()
    }

    #[verifier::type_invariant]
    closed spec fn inv(self) -> bool {
        &&& distinct_keys(self.rooms())
        &&& distinct_keys(self.sessions())
    }

    /// An empty directory and an empty session table.
    pub fn new() -> (r: Self)
        ensures
            r.rooms().len() == 0,
            r.sessions().len() == 0,
            distinct_keys(r.rooms()),
            distinct_keys(r.sessions()),
    {
        ResourceManager { rooms: Registry::new(), sessions: Registry::new() }
    }

    fn take_rooms(&mut self) -> (r: Registry<Room>)
        ensures
            r.entries() == old(self).rooms(),
            final(self).rooms().len() == 0,
            final(self).sessions() == old(self).sessions(),
    {
        proof {
            use_type_invariant(&*self);
        }
        let mut r = Registry::new();
        std::mem::swap(&mut r, &mut self.rooms);
        r
    }

    fn restore_rooms(&mut self, rooms: Registry<Room>)
        requires
            distinct_keys(rooms.entries()),
        ensures
            final(self).rooms() == rooms.entries(),
            final(self).sessions() == old(self).sessions(),
    {
        proof {
            use_type_invariant(&*self);
        }
        let mut rooms = rooms;
        std::mem::swap(&mut rooms, &mut self.rooms);
    }

    fn take_sessions(&mut self) -> (r: Registry<SessionItem>)
        ensures
            r.entries() == old(self).sessions(),
            final(self).sessions().len() == 0,
            final(self).rooms() == old(self).rooms(),
    {
        proof {
            use_type_invariant(&*self);
        }
        let mut r = Registry::new();
        std::mem::swap(&mut r, &mut self.sessions);
        r
    }

    fn restore_sessions(&mut self, sessions: Registry<SessionItem>)
        requires
            distinct_keys(sessions.entries()),
        ensures
            final(self).sessions() == sessions.entries(),
            final(self).rooms() == old(self).rooms(),
    {
        proof {
            use_type_invariant(&*self);
        }
        let mut sessions = sessions;
        std::mem::swap(&mut sessions, &mut self.sessions);
    }

    /// The control channel of the session `wsid`, if it is known.
    pub fn controller(&self, wsid: &String) -> (r: Option<&ControlChannelSender>)
        ensures
            r matches Some(c) ==> lookup(self.sessions(), wsid@) matches Some(item) && *c
                == item.controller,
            r is None ==> lookup(self.sessions(), wsid@) is None,
    {
        match self.sessions.get(wsid) {
            Some(item) => Some(&item.controller),
            None => None,
        }
    }

    /// The listing of the rooms that carry a configuration.
    fn room_list(&self) -> (r: String)
        ensures
            r@ == list_text(listed_rooms(self.rooms())),
    {
        let n = self.rooms.len();
        let mut out = String::new();
        push_char(&mut out, '[');
        let mut i: usize = 0;
        let mut empty = true;
        while i < n
            invariant
                i <= n,
                n == self.rooms().len(),
                out@ == seq!['['] + joined(listed_rooms(self.rooms().take(i as int))),
                empty == (listed_rooms(self.rooms().take(i as int)).len() == 0),
            decreases n - i,
        {
            let (_k, room) = self.rooms.entry(i);
            let ghost before = listed_rooms(self.rooms().take(i as int));
            proof {
                assert(self.rooms().take(i + 1).drop_last() =~= self.rooms().take(i as int));
                assert(self.rooms().take(i + 1).last() == self.rooms()[i as int]);
            }
            if room.config.is_some() {
                if !empty {
                    push_char(&mut out, ',');
                    push_char(&mut out, ' ');
                }
                room.push_listing(&mut out);
                empty = false;
                proof {
                    lemma_joined_push(before, room_text(*room));
                }
            }
            assert(out@ =~= seq!['['] + joined(listed_rooms(self.rooms().take(i + 1))));
            i = i + 1;
        }
        push_char(&mut out, ']');
        assert(self.rooms().take(n as int) =~= self.rooms());
        assert(out@ =~= list_text(listed_rooms(self.rooms())));
        out
    }

    /// The listing of all sessions.
    fn session_list(&self) -> (r: String)
        ensures
            r@ == list_text(listed_sessions(self.sessions())),
    {
        let n = self.sessions.len();
        let mut out = String::new();
        push_char(&mut out, '[');
        let mut i: usize = 0;
        while i < n
            invariant
                i <= n,
                n == self.sessions().len(),
                out@ == seq!['['] + joined(listed_sessions(self.sessions().take(i as int))),
            decreases n - i,
        {
            let (_k, item) = self.sessions.entry(i);
            let ghost before = listed_sessions(self.sessions().take(i as int));
            proof {
                assert(self.sessions().take(i + 1).drop_last() =~= self.sessions().take(i as int));
                assert(self.sessions().take(i + 1).last() == self.sessions()[i as int]);
            }
            if i > 0 {
                push_char(&mut out, ',');
                push_char(&mut out, ' ');
            }
            item.state.push_listing(&mut out);
            proof {
                lemma_joined_push(before, state_text(item.state));
            }
            assert(out@ =~= seq!['['] + joined(listed_sessions(self.sessions().take(i + 1))));
            i = i + 1;
        }
        push_char(&mut out, ']');
        assert(self.sessions().take(n as int) =~= self.sessions());
        assert(out@ =~= list_text(listed_sessions(self.sessions())));
        out
    }

    /// The ids of the sessions that are in room `key`.
    fn room_players(&self, key: &String) -> (r: Vec<String>)
        ensures
            r@.map_values(|s: String| s@) == players(self.sessions(), key@),
    {
        let n = self.sessions.len();
        let mut out: Vec<String> = Vec::new();
        let mut i: usize = 0;
        while i < n
            invariant
                i <= n,
                n == self.sessions().len(),
                out@.map_values(|s: String| s@) == players(self.sessions().take(i as int), key@),
            decreases n - i,
        {
            let (_k, item) = self.sessions.entry(i);
            proof {
                assert(self.sessions().take(i + 1).drop_last() =~= self.sessions().take(i as int));
                assert(self.sessions().take(i + 1).last() == self.sessions()[i as int]);
            }
            let ghost before = out@;
            let ghost e = self.sessions().take(i + 1);
            assert(e.last().1 == *item);
            if let Some(room_id) = &item.state.room_id {
                if room_id.eq(key) {
                    out.push(item.state.wsid.clone());
                    assert(out@.map_values(|s: String| s@) =~= before.map_values(|s: String| s@).push(
                        item.state.wsid@,
                    ));
                    assert(e.last().1.state.room_id.deep_view() == Some(key@));
                } else {
                    assert(e.last().1.state.room_id.deep_view() != Some(key@));
                }
            } else {
                assert(e.last().1.state.room_id.deep_view() != Some(key@));
            }
            assert(out@.map_values(|s: String| s@) =~= players(self.sessions().take(i + 1), key@));
            i = i + 1;
        }
        assert(self.sessions().take(n as int) =~= self.sessions());
        out
    }

    /// The first room whose key is `key`.
    fn room_by_key(&self, key: &String) -> (r: Option<Room>)
        ensures
            r == first_room_with_key(self.rooms(), key@),
    {
        let n = self.rooms.len();
        let mut i: usize = 0;
        while i < n
            invariant
                i <= n,
                n == self.rooms().len(),
                forall|j: int| 0 <= j < i ==> #[trigger] self.rooms()[j].1.key@ != key@,
            decreases n - i,
        {
            let (_k, room) = self.rooms.entry(i);
            if room.key == *key {
                proof {
                    lemma_first_room(self.rooms(), key@, i as int);
                }
                return Some(room.clone());
            }
            i = i + 1;
        }
        proof {
            lemma_first_room(self.rooms(), key@, i as int);
        }
        None
    }

    /// The ids of all sessions, in order.
    fn session_ids(&self) -> (r: Vec<String>)
        ensures
            r@.map_values(|s: String| s@) == crate::registry::keys(self.sessions()),
    {
        let n = self.sessions.len();
        let mut out: Vec<String> = Vec::new();
        let mut i: usize = 0;
        while i < n
            invariant
                i <= n,
                n == self.sessions().len(),
                out@.map_values(|s: String| s@) == crate::registry::keys(self.sessions().take(i as int)),
            decreases n - i,
        {
            let (k, _item) = self.sessions.entry(i);
            let ghost before = out@;
            out.push(k.clone());
            proof {
                assert(self.sessions().take(i + 1) =~= self.sessions().take(i as int).push(self.sessions()[i as int]));
                assert(out@.map_values(|s: String| s@) =~= before.map_values(|s: String| s@).push(k@));
            }
            assert(out@.map_values(|s: String| s@) =~= crate::registry::keys(self.sessions().take(i + 1)));
            i = i + 1;
        }
        assert(self.sessions().take(n as int) =~= self.sessions());
        out
    }

    /// Serves one request: updates the directory or the session table and
    /// says what is to be sent, and to whom.
    pub fn handle(&mut self, msg: RMCMessage) -> (act: RmAction)
        ensures
            distinct_keys(final(self).rooms()),
            distinct_keys(final(self).sessions()),
            final(self).rooms() == rooms_after(old(self).rooms(), msg),
            final(self).sessions() == sessions_after(old(self).sessions(), msg),
            match msg {
                RMCMessage::InsertRoom(k, room) => {
                    &&& final(self).rooms() == put(old(self).rooms(), k@, room)
                    &&& final(self).sessions() == old(self).sessions()
                    &&& act is Nothing
                },
                RMCMessage::GetRoom(k, tx) => {
                    &&& final(self).rooms() == old(self).rooms()
                    &&& final(self).sessions() == old(self).sessions()
                    &&& act == RmAction::ReplyRoom(tx, lookup(old(self).rooms(), k@))
                },
                RMCMessage::GetRoomByKey(k, tx) => {
                    &&& final(self).rooms() == old(self).rooms()
                    &&& final(self).sessions() == old(self).sessions()
                    &&& if old(self).rooms().len() == 0 {
                        act == RmAction::ReplyRoom(tx, None)
                    } else {
                        match first_room_with_key(old(self).rooms(), k@) {
                            Some(room) => act == RmAction::ReplyRoom(tx, Some(room)),
                            None => act is Nothing,
                        }
                    }
                },
                RMCMessage::GetRoomList(tx) => {
                    &&& final(self).rooms() == old(self).rooms()
                    &&& final(self).sessions() == old(self).sessions()
                    &&& act matches RmAction::ReplyText(t, text) && t == tx && text@ == list_text(
                        listed_rooms(old(self).rooms()),
                    )
                },
                RMCMessage::GetRoomPlayersByKey(k, tx) => {
                    &&& final(self).rooms() == old(self).rooms()
                    &&& final(self).sessions() == old(self).sessions()
                    &&& act matches RmAction::ReplyPlayers(t, ids) && t == tx && ids@.map_values(
                        |s: String| s@,
                    ) == players(old(self).sessions(), k@)
                },
                RMCMessage::RemoveRoom(k) => {
                    &&& final(self).rooms() == without(old(self).rooms(), k@)
                    &&& final(self).sessions() == old(self).sessions()
                    &&& act is Nothing
                },
                RMCMessage::InsertSession(k, item) => {
                    &&& final(self).rooms() == old(self).rooms()
                    &&& final(self).sessions() == put(old(self).sessions(), k@, item)
                    &&& act is Nothing
                },
                RMCMessage::UpdateSessionState(k, state) => {
                    &&& final(self).rooms() == old(self).rooms()
                    &&& final(self).sessions() == with_state(old(self).sessions(), k@, state)
                    &&& act is Nothing
                },
                RMCMessage::GetSessionState(k, tx) => {
                    &&& final(self).rooms() == old(self).rooms()
                    &&& final(self).sessions() == old(self).sessions()
                    &&& act == RmAction::ReplyState(
                        tx,
                        match lookup(old(self).sessions(), k@) {
                            Some(item) => Some(item.state),
                            None => None,
                        },
                    )
                },
                RMCMessage::RemoveSession(k) => {
                    &&& final(self).rooms() == old(self).rooms()
                    &&& final(self).sessions() == without(old(self).sessions(), k@)
                    &&& act is Nothing
                },
                RMCMessage::GetSessionList(tx) => {
                    &&& final(self).rooms() == old(self).rooms()
                    &&& final(self).sessions() == old(self).sessions()
                    &&& act matches RmAction::ReplyText(t, text) && t == tx && text@ == list_text(
                        listed_sessions(old(self).sessions()),
                    )
                },
                RMCMessage::SendSessionMessage(k, m) => {
                    &&& final(self).rooms() == old(self).rooms()
                    &&& final(self).sessions() == old(self).sessions()
                    &&& if lookup(old(self).sessions(), k@) is Some {
                        act == RmAction::Notify(k, m)
                    } else {
                        act is Nothing
                    }
                },
                RMCMessage::CloseSession(k) => {
                    &&& final(self).rooms() == old(self).rooms()
                    &&& final(self).sessions() == old(self).sessions()
                    &&& if lookup(old(self).sessions(), k@) is Some {
                        act == RmAction::Close(k)
                    } else {
                        act is Nothing
                    }
                },
                RMCMessage::BroadcastMessage(m) => {
                    &&& final(self).rooms() == old(self).rooms()
                    &&& final(self).sessions() == old(self).sessions()
                    &&& act matches RmAction::Broadcast(ids, m2) && m2 == m && ids@.map_values(
                        |s: String| s@,
                    ) == crate::registry::keys(old(self).sessions())
                },
                RMCMessage::_Close => {
                    &&& final(self).rooms() == old(self).rooms()
                    &&& final(self).sessions() == old(self).sessions()
                    &&& act is Stop
                },
            },
    {
        proof {
            use_type_invariant(&*self);
        }
        match msg {
            RMCMessage::InsertRoom(key, room) => {
                let mut rooms = self.take_rooms();
                rooms.put(key, room);
                self.restore_rooms(rooms);
                RmAction::Nothing
            },
            RMCMessage::GetRoom(key, tx) => {
                let found = match self.rooms.get(&key) {
                    Some(room) => Some(room.clone()),
                    None => None,
                };
                RmAction::ReplyRoom(tx, found)
            },
            RMCMessage::GetRoomByKey(key, tx) => {
                if self.rooms.len() == 0 {
                    RmAction::ReplyRoom(tx, None)
                } else {
                    match self.room_by_key(&key) {
                        Some(room) => RmAction::ReplyRoom(tx, Some(room)),
                        None => RmAction::Nothing,
                    }
                }
            },
            RMCMessage::GetRoomList(tx) => RmAction::ReplyText(tx, self.room_list()),
            RMCMessage::GetRoomPlayersByKey(key, tx) => RmAction::ReplyPlayers(
                tx,
                self.room_players(&key),
            ),
            RMCMessage::RemoveRoom(key) => {
                let mut rooms = self.take_rooms();
                rooms.remove(&key);
                self.restore_rooms(rooms);
                RmAction::Nothing
            },
            RMCMessage::InsertSession(key, item) => {
                let mut sessions = self.take_sessions();
                sessions.put(key, item);
                self.restore_sessions(sessions);
                RmAction::Nothing
            },
            RMCMessage::UpdateSessionState(key, state) => {
                match self.sessions.position(&key) {
                    Some(i) => {
                        let mut sessions = self.take_sessions();
                        proof {
                            crate::registry::lemma_put_shape(
                                sessions.entries(),
                                key@,
                                SessionItem { controller: sessions.entries()[i as int].1.controller, state },
                            );
                            crate::registry::lemma_lookup_index(sessions.entries(), key@);
                        }
                        let (k, item) = sessions.remove_at(i);
                        let SessionItem { controller, state: _ } = item;
                        sessions.insert_at(i, k, SessionItem { controller, state });
                        assert(sessions.entries() =~= with_state(old(self).sessions(), key@, state));
                        self.restore_sessions(sessions);
                    },
                    None => {
                        proof {
                            crate::registry::lemma_lookup_index(self.sessions(), key@);
                        }
                    },
                }
                RmAction::Nothing
            },
            RMCMessage::GetSessionState(key, tx) => {
                let found = match self.sessions.get(&key) {
                    Some(item) => Some(item.state.clone()),
                    None => None,
                };
                RmAction::ReplyState(tx, found)
            },
            RMCMessage::RemoveSession(key) => {
                let mut sessions = self.take_sessions();
                sessions.remove(&key);
                self.restore_sessions(sessions);
                RmAction::Nothing
            },
            RMCMessage::GetSessionList(tx) => RmAction::ReplyText(tx, self.session_list()),
            RMCMessage::SendSessionMessage(key, message) => {
                if self.sessions.get(&key).is_some() {
                    RmAction::Notify(key, message)
                } else {
                    RmAction::Nothing
                }
            },
            RMCMessage::CloseSession(key) => {
                if self.sessions.get(&key).is_some() {
                    RmAction::Close(key)
                } else {
                    RmAction::Nothing
                }
            },
            RMCMessage::BroadcastMessage(message) => RmAction::Broadcast(
                self.session_ids(),
                message,
            ),
            RMCMessage::_Close => RmAction::Stop,
        }
    }
}

} // verus!
