use vstd::prelude::*;
use vstd::string::*;
use vstd::seq_lib::lemma_concat_associative;
use crate::message::ControlMessage;
use crate::text::{decimal, push_char, push_decimal};

verus! {

/// What the server knows of one connected client.
pub struct SessionState {
    pub nickname: Option<String>,
    pub avatar: Option<String>,
    pub room_id: Option<String>,
    pub status: Option<String>,
    pub wsid: String,
    pub online_key: Option<String>,
}

impl SessionState {
    /// A fresh session: only its id is known.
    pub fn new(wsid: String) -> (s: SessionState)
        ensures
            s.wsid == wsid,
            s.nickname is None,
            s.avatar is None,
            s.online_key is None,
            s.room_id is None,
            s.status is None,
    {
        SessionState {
            nickname: None,
            avatar: None,
            online_key: None,
            room_id: None,
            status: None,
            wsid,
        }
    }
}

impl Clone for SessionState {
    fn clone(&self) -> (r: Self)
        ensures
            r == *self,
    {
        SessionState {
            nickname: self.nickname.clone(),
            avatar: self.avatar.clone(),
            room_id: self.room_id.clone(),
            status: self.status.clone(),
            wsid: self.wsid.clone(),
            online_key: self.online_key.clone(),
        }
    }
}

/// A room, opened by its owner and listed once it carries a configuration.
pub struct Room {
    pub people_number: u32,
    pub owner: SessionState,
    pub key: String,
    pub config: Option<String>,
}

impl Room {
    /// A new room holds its owner only and has no configuration yet.
    pub fn new(owner: SessionState, key: String) -> (r: Room)
        ensures
            r.people_number == 1,
            r.owner == owner,
            r.key == key,
            r.config is None,
    {
        Room { people_number: 1, owner, key, config: None }
    }
}

impl Clone for Room {
    fn clone(&self) -> (r: Self)
        ensures
            r == *self,
    {
        Room {
            people_number: self.people_number,
            owner: self.owner.clone(),
            key: self.key.clone(),
            config: self.config.clone(),
        }
    }
}

/// The sending half of a session's control channel.
pub type ControlChannelSender = tokio::sync::mpsc::Sender<ControlMessage>;

/// A session as the resource manager keeps it: how to reach it and what it
/// last reported.
pub struct SessionItem {
    pub controller: ControlChannelSender,
    pub state: SessionState,
}

// ---------------------------------------------------------------- listings

/// `"null"`.
pub open spec fn null_text() -> Seq<char> {
    seq!['n', 'u', 'l', 'l']
}

/// `text` in double quotes.
pub open spec fn quoted(text: Seq<char>) -> Seq<char> {
    seq!['"'] + text + seq!['"']
}

/// An optional text as it appears in a listing: `null` when absent, else the
/// text itself, quoted when `quote` is set.
pub open spec fn null_or(text: Option<Seq<char>>, quote: bool) -> Seq<char> {
    match text {
        Some(s) => if quote {
            quoted(s)
        } else {
            s
        },
        None => null_text(),
    }
}

/// `true` or `false`.
pub open spec fn bool_text(b: bool) -> Seq<char> {
    if b {
        seq!['t', 'r', 'u', 'e']
    } else {
        seq!['f', 'a', 'l', 's', 'e']
    }
}

/// Items between brackets, separated by a comma and a space.
pub open spec fn list_text(items: Seq<Seq<char>>) -> Seq<char> {
    seq!['['] + joined(items) + seq![']']
}

/// Items separated by a comma and a space.
pub open spec fn joined(items: Seq<Seq<char>>) -> Seq<char>
    decreases items.len(),
{
    if items.len() == 0 {
        Seq::empty()
    } else if items.len() == 1 {
        items[0]
    } else {
        joined(items.drop_last()) + seq![',', ' '] + items.last()
    }
}

/// A session as listed to clients:
/// `[nickname,avatar,not_in_room,status,"wsid",online_key]`.
pub open spec fn state_text(s: SessionState) -> Seq<char> {
    seq!['['] + null_or(s.nickname.deep_view(), true) + seq![','] + null_or(s.avatar.deep_view(), true)
        + seq![','] + bool_text(s.room_id is None) + seq![','] + null_or(s.status.deep_view(), true)
        + seq![','] + quoted(s.wsid@) + seq![','] + null_or(s.online_key.deep_view(), false)
        + seq![']']
}

/// A room as listed to clients:
/// `[owner_nickname,owner_avatar,config,people_number,key]`.
pub open spec fn room_text(r: Room) -> Seq<char> {
    seq!['['] + null_or(r.owner.nickname.deep_view(), true) + seq![','] + null_or(
        r.owner.avatar.deep_view(),
        true,
    ) + seq![','] + null_or(r.config.deep_view(), false) + seq![','] + decimal(r.people_number as nat)
        + seq![','] + r.key@ + seq![']']
}

/// Appends an optional text as `null_or` writes it.
pub fn push_null_or(out: &mut String, text: &Option<String>, quote: bool)
    ensures
        final(out)@ == old(out)@ + null_or(text.deep_view(), quote),
{
    match text {
        Some(s) => {
            if quote {
                push_char(out, '"');
                out.append(s.as_str());
                push_char(out, '"');
            } else {
                out.append(s.as_str());
            }
        },
        None => {
            proof {
                reveal_strlit("null");
            }
            out.append("null");
        },
    }
    assert(out@ =~= old(out)@ + null_or(text.deep_view(), quote));
}

/// An optional text as it appears in a listing: `null` when absent, else the
/// text itself, quoted when `quote` is set.
pub fn none2null(text: &Option<String>, quote: bool) -> (r: String)
    ensures
        r@ == null_or(text.deep_view(), quote),
{
    let mut r = String::new();
    push_null_or(&mut r, text, quote);
    assert(r@ =~= null_or(text.deep_view(), quote));
    r
}

impl SessionState {
    /// Appends this session's listing entry.
    #[verifier::rlimit(40)]
    pub fn push_listing(&self, out: &mut String)
        ensures
            final(out)@ == old(out)@ + state_text(*self),
    {
        let ghost start = out@;
        push_char(out, '[');
        push_null_or(out, &self.nickname, true);
        push_char(out, ',');
        push_null_or(out, &self.avatar, true);
        push_char(out, ',');
        let ghost mid = out@;
        assert(mid =~= start + seq!['['] + null_or(self.nickname.deep_view(), true) + seq![',']
            + null_or(self.avatar.deep_view(), true) + seq![',']);
        if self.room_id.is_none() {
            proof {
                reveal_strlit("true");
            }
            out.append("true");
        } else {
            proof {
                reveal_strlit("false");
            }
            out.append("false");
        }
        push_char(out, ',');
        push_null_or(out, &self.status, true);
        push_char(out, ',');
        let ghost mid2 = out@;
        assert(mid2 =~= mid + bool_text(self.room_id is None) + seq![','] + null_or(
            self.status.deep_view(),
            true,
        ) + seq![',']);
        push_char(out, '"');
        out.append(self.wsid.as_str());
        push_char(out, '"');
        push_char(out, ',');
        push_null_or(out, &self.online_key, false);
        push_char(out, ']');
        assert(out@ =~= mid2 + quoted(self.wsid@) + seq![','] + null_or(
            self.online_key.deep_view(),
            false,
        ) + seq![']']);
        assert(out@ =~= old(out)@ + state_text(*self));
    }
}

impl Room {
    /// Appends this room's listing entry.
    pub fn push_listing(&self, out: &mut String)
        ensures
            final(out)@ == old(out)@ + room_text(*self),
    {
        let ghost start = out@;
        push_char(out, '[');
        push_null_or(out, &self.owner.nickname, true);
        push_char(out, ',');
        push_null_or(out, &self.owner.avatar, true);
        push_char(out, ',');
        let ghost mid = out@;
        assert(mid =~= start + seq!['['] + null_or(self.owner.nickname.deep_view(), true) + seq![
            ',',
        ] + null_or(self.owner.avatar.deep_view(), true) + seq![',']);
        push_null_or(out, &self.config, false);
        push_char(out, ',');
        push_decimal(out, self.people_number);
        push_char(out, ',');
        out.append(self.key.as_str());
        push_char(out, ']');
        assert(out@ =~= mid + null_or(self.config.deep_view(), false) + seq![','] + decimal(
            self.people_number as nat,
        ) + seq![','] + self.key@ + seq![']']);
        assert(out@ =~= old(out)@ + room_text(*self));
    }
}

// ---------------------------------------------------------------- laws of the listings

/// `t1` is `t0` with one occurrence of `a` replaced by `b`.
pub open spec fn replaced(t0: Seq<char>, t1: Seq<char>, a: Seq<char>, b: Seq<char>) -> bool {
    exists|x: Seq<char>, y: Seq<char>|
        #![trigger x + a + y, x + b + y]
        t0 == x + a + y && t1 == x + b + y
}

proof fn lemma_replaced(x: Seq<char>, a: Seq<char>, b: Seq<char>, y: Seq<char>, t0: Seq<char>, t1: Seq<char>)
    requires
        t0 =~= x + a + y,
        t1 =~= x + b + y,
    ensures
        replaced(t0, t1, a, b),
{
    assert(t0 == x + a + y && t1 == x + b + y);
}

proof fn lemma_state_nickname(s: SessionState, v: String)
    ensures
        replaced(state_text(SessionState { nickname: None, ..s }), state_text(SessionState { nickname: Some(v), ..s }), null_text(), quoted(v@)),
{
    let t0 = SessionState { nickname: None, ..s };
    let t1 = SessionState { nickname: Some(v), ..s };
    let ah = seq!['['] + null_text();
    let ay2 = seq![','];
    let aq2 = ah + ay2;
    lemma_concat_associative(ah, ay2, null_or(t0.avatar.deep_view(), true));
    let ay3 = ay2 + null_or(t0.avatar.deep_view(), true);
    let aq3 = aq2 + null_or(t0.avatar.deep_view(), true);
    assert(aq3 == ah + ay3);
    lemma_concat_associative(ah, ay3, seq![',']);
    let ay4 = ay3 + seq![','];
    let aq4 = aq3 + seq![','];
    assert(aq4 == ah + ay4);
    lemma_concat_associative(ah, ay4, bool_text(t0.room_id is None));
    let ay5 = ay4 + bool_text(t0.room_id is None);
    let aq5 = aq4 + bool_text(t0.room_id is None);
    assert(aq5 == ah + ay5);
    lemma_concat_associative(ah, ay5, seq![',']);
    let ay6 = ay5 + seq![','];
    let aq6 = aq5 + seq![','];
    assert(aq6 == ah + ay6);
    lemma_concat_associative(ah, ay6, null_or(t0.status.deep_view(), true));
    let ay7 = ay6 + null_or(t0.status.deep_view(), true);
    let aq7 = aq6 + null_or(t0.status.deep_view(), true);
    assert(aq7 == ah + ay7);
    lemma_concat_associative(ah, ay7, seq![',']);
    let ay8 = ay7 + seq![','];
    let aq8 = aq7 + seq![','];
    assert(aq8 == ah + ay8);
    lemma_concat_associative(ah, ay8, quoted(t0.wsid@));
    let ay9 = ay8 + quoted(t0.wsid@);
    let aq9 = aq8 + quoted(t0.wsid@);
    assert(aq9 == ah + ay9);
    lemma_concat_associative(ah, ay9, seq![',']);
    let ay10 = ay9 + seq![','];
    let aq10 = aq9 + seq![','];
    assert(aq10 == ah + ay10);
    lemma_concat_associative(ah, ay10, null_or(t0.online_key.deep_view(), false));
    let ay11 = ay10 + null_or(t0.online_key.deep_view(), false);
    let aq11 = aq10 + null_or(t0.online_key.deep_view(), false);
    assert(aq11 == ah + ay11);
    lemma_concat_associative(ah, ay11, seq![']']);
    let ay12 = ay11 + seq![']'];
    let aq12 = aq11 + seq![']'];
    assert(aq12 == ah + ay12);
    assert(state_text(t0) == aq12);
    let bh = seq!['['] + quoted(v@);
    let by2 = seq![','];
    let bq2 = bh + by2;
    lemma_concat_associative(bh, by2, null_or(t1.avatar.deep_view(), true));
    let by3 = by2 + null_or(t1.avatar.deep_view(), true);
    let bq3 = bq2 + null_or(t1.avatar.deep_view(), true);
    assert(bq3 == bh + by3);
    lemma_concat_associative(bh, by3, seq![',']);
    let by4 = by3 + seq![','];
    let bq4 = bq3 + seq![','];
    assert(bq4 == bh + by4);
    lemma_concat_associative(bh, by4, bool_text(t1.room_id is None));
    let by5 = by4 + bool_text(t1.room_id is None);
    let bq5 = bq4 + bool_text(t1.room_id is None);
    assert(bq5 == bh + by5);
    lemma_concat_associative(bh, by5, seq![',']);
    let by6 = by5 + seq![','];
    let bq6 = bq5 + seq![','];
    assert(bq6 == bh + by6);
    lemma_concat_associative(bh, by6, null_or(t1.status.deep_view(), true));
    let by7 = by6 + null_or(t1.status.deep_view(), true);
    let bq7 = bq6 + null_or(t1.status.deep_view(), true);
    assert(bq7 == bh + by7);
    lemma_concat_associative(bh, by7, seq![',']);
    let by8 = by7 + seq![','];
    let bq8 = bq7 + seq![','];
    assert(bq8 == bh + by8);
    lemma_concat_associative(bh, by8, quoted(t1.wsid@));
    let by9 = by8 + quoted(t1.wsid@);
    let bq9 = bq8 + quoted(t1.wsid@);
    assert(bq9 == bh + by9);
    lemma_concat_associative(bh, by9, seq![',']);
    let by10 = by9 + seq![','];
    let bq10 = bq9 + seq![','];
    assert(bq10 == bh + by10);
    lemma_concat_associative(bh, by10, null_or(t1.online_key.deep_view(), false));
    let by11 = by10 + null_or(t1.online_key.deep_view(), false);
    let bq11 = bq10 + null_or(t1.online_key.deep_view(), false);
    assert(bq11 == bh + by11);
    lemma_concat_associative(bh, by11, seq![']']);
    let by12 = by11 + seq![']'];
    let bq12 = bq11 + seq![']'];
    assert(bq12 == bh + by12);
    assert(state_text(t1) == bq12);
    assert(seq!['['] == seq!['[']);
    assert(ay12 == by12);
    lemma_replaced(seq!['['], null_text(), quoted(v@), ay12, state_text(t0), state_text(t1));
}

proof fn lemma_state_avatar(s: SessionState, v: String)
    ensures
        replaced(state_text(SessionState { avatar: None, ..s }), state_text(SessionState { avatar: Some(v), ..s }), null_text(), quoted(v@)),
{
    let t0 = SessionState { avatar: None, ..s };
    let t1 = SessionState { avatar: Some(v), ..s };
    let ah = ((seq!['['] + null_or(t0.nickname.deep_view(), true)) + seq![',']) + null_text();
    let ay4 = seq![','];
    let aq4 = ah + ay4;
    lemma_concat_associative(ah, ay4, bool_text(t0.room_id is None));
    let ay5 = ay4 + bool_text(t0.room_id is None);
    let aq5 = aq4 + bool_text(t0.room_id is None);
    assert(aq5 == ah + ay5);
    lemma_concat_associative(ah, ay5, seq![',']);
    let ay6 = ay5 + seq![','];
    let aq6 = aq5 + seq![','];
    assert(aq6 == ah + ay6);
    lemma_concat_associative(ah, ay6, null_or(t0.status.deep_view(), true));
    let ay7 = ay6 + null_or(t0.status.deep_view(), true);
    let aq7 = aq6 + null_or(t0.status.deep_view(), true);
    assert(aq7 == ah + ay7);
    lemma_concat_associative(ah, ay7, seq![',']);
    let ay8 = ay7 + seq![','];
    let aq8 = aq7 + seq![','];
    assert(aq8 == ah + ay8);
    lemma_concat_associative(ah, ay8, quoted(t0.wsid@));
    let ay9 = ay8 + quoted(t0.wsid@);
    let aq9 = aq8 + quoted(t0.wsid@);
    assert(aq9 == ah + ay9);
    lemma_concat_associative(ah, ay9, seq![',']);
    let ay10 = ay9 + seq![','];
    let aq10 = aq9 + seq![','];
    assert(aq10 == ah + ay10);
    lemma_concat_associative(ah, ay10, null_or(t0.online_key.deep_view(), false));
    let ay11 = ay10 + null_or(t0.online_key.deep_view(), false);
    let aq11 = aq10 + null_or(t0.online_key.deep_view(), false);
    assert(aq11 == ah + ay11);
    lemma_concat_associative(ah, ay11, seq![']']);
    let ay12 = ay11 + seq![']'];
    let aq12 = aq11 + seq![']'];
    assert(aq12 == ah + ay12);
    assert(state_text(t0) == aq12);
    let bh = ((seq!['['] + null_or(t1.nickname.deep_view(), true)) + seq![',']) + quoted(v@);
    let by4 = seq![','];
    let bq4 = bh + by4;
    lemma_concat_associative(bh, by4, bool_text(t1.room_id is None));
    let by5 = by4 + bool_text(t1.room_id is None);
    let bq5 = bq4 + bool_text(t1.room_id is None);
    assert(bq5 == bh + by5);
    lemma_concat_associative(bh, by5, seq![',']);
    let by6 = by5 + seq![','];
    let bq6 = bq5 + seq![','];
    assert(bq6 == bh + by6);
    lemma_concat_associative(bh, by6, null_or(t1.status.deep_view(), true));
    let by7 = by6 + null_or(t1.status.deep_view(), true);
    let bq7 = bq6 + null_or(t1.status.deep_view(), true);
    assert(bq7 == bh + by7);
    lemma_concat_associative(bh, by7, seq![',']);
    let by8 = by7 + seq![','];
    let bq8 = bq7 + seq![','];
    assert(bq8 == bh + by8);
    lemma_concat_associative(bh, by8, quoted(t1.wsid@));
    let by9 = by8 + quoted(t1.wsid@);
    let bq9 = bq8 + quoted(t1.wsid@);
    assert(bq9 == bh + by9);
    lemma_concat_associative(bh, by9, seq![',']);
    let by10 = by9 + seq![','];
    let bq10 = bq9 + seq![','];
    assert(bq10 == bh + by10);
    lemma_concat_associative(bh, by10, null_or(t1.online_key.deep_view(), false));
    let by11 = by10 + null_or(t1.online_key.deep_view(), false);
    let bq11 = bq10 + null_or(t1.online_key.deep_view(), false);
    assert(bq11 == bh + by11);
    lemma_concat_associative(bh, by11, seq![']']);
    let by12 = by11 + seq![']'];
    let bq12 = bq11 + seq![']'];
    assert(bq12 == bh + by12);
    assert(state_text(t1) == bq12);
    assert(((seq!['['] + null_or(t0.nickname.deep_view(), true)) + seq![',']) == ((seq!['['] + null_or(t1.nickname.deep_view(), true)) + seq![',']));
    assert(ay12 == by12);
    lemma_replaced(((seq!['['] + null_or(t0.nickname.deep_view(), true)) + seq![',']), null_text(), quoted(v@), ay12, state_text(t0), state_text(t1));
}

proof fn lemma_state_status(s: SessionState, v: String)
    ensures
        replaced(state_text(SessionState { status: None, ..s }), state_text(SessionState { status: Some(v), ..s }), null_text(), quoted(v@)),
{
    let t0 = SessionState { status: None, ..s };
    let t1 = SessionState { status: Some(v), ..s };
    let ah = ((((((seq!['['] + null_or(t0.nickname.deep_view(), true)) + seq![',']) + null_or(t0.avatar.deep_view(), true)) + seq![',']) + bool_text(t0.room_id is None)) + seq![',']) + null_text();
    let ay8 = seq![','];
    let aq8 = ah + ay8;
    lemma_concat_associative(ah, ay8, quoted(t0.wsid@));
    let ay9 = ay8 + quoted(t0.wsid@);
    let aq9 = aq8 + quoted(t0.wsid@);
    assert(aq9 == ah + ay9);
    lemma_concat_associative(ah, ay9, seq![',']);
    let ay10 = ay9 + seq![','];
    let aq10 = aq9 + seq![','];
    assert(aq10 == ah + ay10);
    lemma_concat_associative(ah, ay10, null_or(t0.online_key.deep_view(), false));
    let ay11 = ay10 + null_or(t0.online_key.deep_view(), false);
    let aq11 = aq10 + null_or(t0.online_key.deep_view(), false);
    assert(aq11 == ah + ay11);
    lemma_concat_associative(ah, ay11, seq![']']);
    let ay12 = ay11 + seq![']'];
    let aq12 = aq11 + seq![']'];
    assert(aq12 == ah + ay12);
    assert(state_text(t0) == aq12);
    let bh = ((((((seq!['['] + null_or(t1.nickname.deep_view(), true)) + seq![',']) + null_or(t1.avatar.deep_view(), true)) + seq![',']) + bool_text(t1.room_id is None)) + seq![',']) + quoted(v@);
    let by8 = seq![','];
    let bq8 = bh + by8;
    lemma_concat_associative(bh, by8, quoted(t1.wsid@));
    let by9 = by8 + quoted(t1.wsid@);
    let bq9 = bq8 + quoted(t1.wsid@);
    assert(bq9 == bh + by9);
    lemma_concat_associative(bh, by9, seq![',']);
    let by10 = by9 + seq![','];
    let bq10 = bq9 + seq![','];
    assert(bq10 == bh + by10);
    lemma_concat_associative(bh, by10, null_or(t1.online_key.deep_view(), false));
    let by11 = by10 + null_or(t1.online_key.deep_view(), false);
    let bq11 = bq10 + null_or(t1.online_key.deep_view(), false);
    assert(bq11 == bh + by11);
    lemma_concat_associative(bh, by11, seq![']']);
    let by12 = by11 + seq![']'];
    let bq12 = bq11 + seq![']'];
    assert(bq12 == bh + by12);
    assert(state_text(t1) == bq12);
    assert(((((((seq!['['] + null_or(t0.nickname.deep_view(), true)) + seq![',']) + null_or(t0.avatar.deep_view(), true)) + seq![',']) + bool_text(t0.room_id is None)) + seq![',']) == ((((((seq!['['] + null_or(t1.nickname.deep_view(), true)) + seq![',']) + null_or(t1.avatar.deep_view(), true)) + seq![',']) + bool_text(t1.room_id is None)) + seq![',']));
    assert(ay12 == by12);
    lemma_replaced(((((((seq!['['] + null_or(t0.nickname.deep_view(), true)) + seq![',']) + null_or(t0.avatar.deep_view(), true)) + seq![',']) + bool_text(t0.room_id is None)) + seq![',']), null_text(), quoted(v@), ay12, state_text(t0), state_text(t1));
}

proof fn lemma_state_online_key(s: SessionState, v: String)
    ensures
        replaced(state_text(SessionState { online_key: None, ..s }), state_text(SessionState { online_key: Some(v), ..s }), null_text(), v@),
{
    let t0 = SessionState { online_key: None, ..s };
    let t1 = SessionState { online_key: Some(v), ..s };
    let ah = ((((((((((seq!['['] + null_or(t0.nickname.deep_view(), true)) + seq![',']) + null_or(t0.avatar.deep_view(), true)) + seq![',']) + bool_text(t0.room_id is None)) + seq![',']) + null_or(t0.status.deep_view(), true)) + seq![',']) + quoted(t0.wsid@)) + seq![',']) + null_text();
    let ay12 = seq![']'];
    let aq12 = ah + ay12;
    assert(state_text(t0) == aq12);
    let bh = ((((((((((seq!['['] + null_or(t1.nickname.deep_view(), true)) + seq![',']) + null_or(t1.avatar.deep_view(), true)) + seq![',']) + bool_text(t1.room_id is None)) + seq![',']) + null_or(t1.status.deep_view(), true)) + seq![',']) + quoted(t1.wsid@)) + seq![',']) + v@;
    let by12 = seq![']'];
    let bq12 = bh + by12;
    assert(state_text(t1) == bq12);
    assert(((((((((((seq!['['] + null_or(t0.nickname.deep_view(), true)) + seq![',']) + null_or(t0.avatar.deep_view(), true)) + seq![',']) + bool_text(t0.room_id is None)) + seq![',']) + null_or(t0.status.deep_view(), true)) + seq![',']) + quoted(t0.wsid@)) + seq![',']) == ((((((((((seq!['['] + null_or(t1.nickname.deep_view(), true)) + seq![',']) + null_or(t1.avatar.deep_view(), true)) + seq![',']) + bool_text(t1.room_id is None)) + seq![',']) + null_or(t1.status.deep_view(), true)) + seq![',']) + quoted(t1.wsid@)) + seq![',']));
    assert(ay12 == by12);
    lemma_replaced(((((((((((seq!['['] + null_or(t0.nickname.deep_view(), true)) + seq![',']) + null_or(t0.avatar.deep_view(), true)) + seq![',']) + bool_text(t0.room_id is None)) + seq![',']) + null_or(t0.status.deep_view(), true)) + seq![',']) + quoted(t0.wsid@)) + seq![',']), null_text(), v@, ay12, state_text(t0), state_text(t1));
}

/// In a session's listing entry a present nickname, avatar or status is
/// written as a double-quoted string in place of `null`, and a present
/// online key as it is.
pub proof fn law_session_listing_quoting(s: SessionState, v: String)
    ensures
        replaced(
            state_text(SessionState { nickname: None, ..s }),
            state_text(SessionState { nickname: Some(v), ..s }),
            null_text(),
            quoted(v@),
        ),
        replaced(
            state_text(SessionState { avatar: None, ..s }),
            state_text(SessionState { avatar: Some(v), ..s }),
            null_text(),
            quoted(v@),
        ),
        replaced(
            state_text(SessionState { status: None, ..s }),
            state_text(SessionState { status: Some(v), ..s }),
            null_text(),
            quoted(v@),
        ),
        replaced(
            state_text(SessionState { online_key: None, ..s }),
            state_text(SessionState { online_key: Some(v), ..s }),
            null_text(),
            v@,
        ),
{
    lemma_state_nickname(s, v);
    lemma_state_avatar(s, v);
    lemma_state_status(s, v);
    lemma_state_online_key(s, v);
}

proof fn lemma_room_nickname(r: Room, v: String)
    ensures
        replaced(room_text(Room { owner: SessionState { nickname: None, ..r.owner }, ..r }), room_text(Room { owner: SessionState { nickname: Some(v), ..r.owner }, ..r }), null_text(), quoted(v@)),
{
    let t0 = Room { owner: SessionState { nickname: None, ..r.owner }, ..r };
    let t1 = Room { owner: SessionState { nickname: Some(v), ..r.owner }, ..r };
    let ah = seq!['['] + null_text();
    let ay2 = seq![','];
    let aq2 = ah + ay2;
    lemma_concat_associative(ah, ay2, null_or(t0.owner.avatar.deep_view(), true));
    let ay3 = ay2 + null_or(t0.owner.avatar.deep_view(), true);
    let aq3 = aq2 + null_or(t0.owner.avatar.deep_view(), true);
    assert(aq3 == ah + ay3);
    lemma_concat_associative(ah, ay3, seq![',']);
    let ay4 = ay3 + seq![','];
    let aq4 = aq3 + seq![','];
    assert(aq4 == ah + ay4);
    lemma_concat_associative(ah, ay4, null_or(t0.config.deep_view(), false));
    let ay5 = ay4 + null_or(t0.config.deep_view(), false);
    let aq5 = aq4 + null_or(t0.config.deep_view(), false);
    assert(aq5 == ah + ay5);
    lemma_concat_associative(ah, ay5, seq![',']);
    let ay6 = ay5 + seq![','];
    let aq6 = aq5 + seq![','];
    assert(aq6 == ah + ay6);
    lemma_concat_associative(ah, ay6, decimal(t0.people_number as nat));
    let ay7 = ay6 + decimal(t0.people_number as nat);
    let aq7 = aq6 + decimal(t0.people_number as nat);
    assert(aq7 == ah + ay7);
    lemma_concat_associative(ah, ay7, seq![',']);
    let ay8 = ay7 + seq![','];
    let aq8 = aq7 + seq![','];
    assert(aq8 == ah + ay8);
    lemma_concat_associative(ah, ay8, t0.key@);
    let ay9 = ay8 + t0.key@;
    let aq9 = aq8 + t0.key@;
    assert(aq9 == ah + ay9);
    lemma_concat_associative(ah, ay9, seq![']']);
    let ay10 = ay9 + seq![']'];
    let aq10 = aq9 + seq![']'];
    assert(aq10 == ah + ay10);
    assert(room_text(t0) == aq10);
    let bh = seq!['['] + quoted(v@);
    let by2 = seq![','];
    let bq2 = bh + by2;
    lemma_concat_associative(bh, by2, null_or(t1.owner.avatar.deep_view(), true));
    let by3 = by2 + null_or(t1.owner.avatar.deep_view(), true);
    let bq3 = bq2 + null_or(t1.owner.avatar.deep_view(), true);
    assert(bq3 == bh + by3);
    lemma_concat_associative(bh, by3, seq![',']);
    let by4 = by3 + seq![','];
    let bq4 = bq3 + seq![','];
    assert(bq4 == bh + by4);
    lemma_concat_associative(bh, by4, null_or(t1.config.deep_view(), false));
    let by5 = by4 + null_or(t1.config.deep_view(), false);
    let bq5 = bq4 + null_or(t1.config.deep_view(), false);
    assert(bq5 == bh + by5);
    lemma_concat_associative(bh, by5, seq![',']);
    let by6 = by5 + seq![','];
    let bq6 = bq5 + seq![','];
    assert(bq6 == bh + by6);
    lemma_concat_associative(bh, by6, decimal(t1.people_number as nat));
    let by7 = by6 + decimal(t1.people_number as nat);
    let bq7 = bq6 + decimal(t1.people_number as nat);
    assert(bq7 == bh + by7);
    lemma_concat_associative(bh, by7, seq![',']);
    let by8 = by7 + seq![','];
    let bq8 = bq7 + seq![','];
    assert(bq8 == bh + by8);
    lemma_concat_associative(bh, by8, t1.key@);
    let by9 = by8 + t1.key@;
    let bq9 = bq8 + t1.key@;
    assert(bq9 == bh + by9);
    lemma_concat_associative(bh, by9, seq![']']);
    let by10 = by9 + seq![']'];
    let bq10 = bq9 + seq![']'];
    assert(bq10 == bh + by10);
    assert(room_text(t1) == bq10);
    assert(seq!['['] == seq!['[']);
    assert(ay10 == by10);
    lemma_replaced(seq!['['], null_text(), quoted(v@), ay10, room_text(t0), room_text(t1));
}

proof fn lemma_room_avatar(r: Room, v: String)
    ensures
        replaced(room_text(Room { owner: SessionState { avatar: None, ..r.owner }, ..r }), room_text(Room { owner: SessionState { avatar: Some(v), ..r.owner }, ..r }), null_text(), quoted(v@)),
{
    let t0 = Room { owner: SessionState { avatar: None, ..r.owner }, ..r };
    let t1 = Room { owner: SessionState { avatar: Some(v), ..r.owner }, ..r };
    let ah = ((seq!['['] + null_or(t0.owner.nickname.deep_view(), true)) + seq![',']) + null_text();
    let ay4 = seq![','];
    let aq4 = ah + ay4;
    lemma_concat_associative(ah, ay4, null_or(t0.config.deep_view(), false));
    let ay5 = ay4 + null_or(t0.config.deep_view(), false);
    let aq5 = aq4 + null_or(t0.config.deep_view(), false);
    assert(aq5 == ah + ay5);
    lemma_concat_associative(ah, ay5, seq![',']);
    let ay6 = ay5 + seq![','];
    let aq6 = aq5 + seq![','];
    assert(aq6 == ah + ay6);
    lemma_concat_associative(ah, ay6, decimal(t0.people_number as nat));
    let ay7 = ay6 + decimal(t0.people_number as nat);
    let aq7 = aq6 + decimal(t0.people_number as nat);
    assert(aq7 == ah + ay7);
    lemma_concat_associative(ah, ay7, seq![',']);
    let ay8 = ay7 + seq![','];
    let aq8 = aq7 + seq![','];
    assert(aq8 == ah + ay8);
    lemma_concat_associative(ah, ay8, t0.key@);
    let ay9 = ay8 + t0.key@;
    let aq9 = aq8 + t0.key@;
    assert(aq9 == ah + ay9);
    lemma_concat_associative(ah, ay9, seq![']']);
    let ay10 = ay9 + seq![']'];
    let aq10 = aq9 + seq![']'];
    assert(aq10 == ah + ay10);
    assert(room_text(t0) == aq10);
    let bh = ((seq!['['] + null_or(t1.owner.nickname.deep_view(), true)) + seq![',']) + quoted(v@);
    let by4 = seq![','];
    let bq4 = bh + by4;
    lemma_concat_associative(bh, by4, null_or(t1.config.deep_view(), false));
    let by5 = by4 + null_or(t1.config.deep_view(), false);
    let bq5 = bq4 + null_or(t1.config.deep_view(), false);
    assert(bq5 == bh + by5);
    lemma_concat_associative(bh, by5, seq![',']);
    let by6 = by5 + seq![','];
    let bq6 = bq5 + seq![','];
    assert(bq6 == bh + by6);
    lemma_concat_associative(bh, by6, decimal(t1.people_number as nat));
    let by7 = by6 + decimal(t1.people_number as nat);
    let bq7 = bq6 + decimal(t1.people_number as nat);
    assert(bq7 == bh + by7);
    lemma_concat_associative(bh, by7, seq![',']);
    let by8 = by7 + seq![','];
    let bq8 = bq7 + seq![','];
    assert(bq8 == bh + by8);
    lemma_concat_associative(bh, by8, t1.key@);
    let by9 = by8 + t1.key@;
    let bq9 = bq8 + t1.key@;
    assert(bq9 == bh + by9);
    lemma_concat_associative(bh, by9, seq![']']);
    let by10 = by9 + seq![']'];
    let bq10 = bq9 + seq![']'];
    assert(bq10 == bh + by10);
    assert(room_text(t1) == bq10);
    assert(((seq!['['] + null_or(t0.owner.nickname.deep_view(), true)) + seq![',']) == ((seq!['['] + null_or(t1.owner.nickname.deep_view(), true)) + seq![',']));
    assert(ay10 == by10);
    lemma_replaced(((seq!['['] + null_or(t0.owner.nickname.deep_view(), true)) + seq![',']), null_text(), quoted(v@), ay10, room_text(t0), room_text(t1));
}

proof fn lemma_room_config(r: Room, v: String)
    ensures
        replaced(room_text(Room { config: None, ..r }), room_text(Room { config: Some(v), ..r }), null_text(), v@),
{
    let t0 = Room { config: None, ..r };
    let t1 = Room { config: Some(v), ..r };
    let ah = ((((seq!['['] + null_or(t0.owner.nickname.deep_view(), true)) + seq![',']) + null_or(t0.owner.avatar.deep_view(), true)) + seq![',']) + null_text();
    let ay6 = seq![','];
    let aq6 = ah + ay6;
    lemma_concat_associative(ah, ay6, decimal(t0.people_number as nat));
    let ay7 = ay6 + decimal(t0.people_number as nat);
    let aq7 = aq6 + decimal(t0.people_number as nat);
    assert(aq7 == ah + ay7);
    lemma_concat_associative(ah, ay7, seq![',']);
    let ay8 = ay7 + seq![','];
    let aq8 = aq7 + seq![','];
    assert(aq8 == ah + ay8);
    lemma_concat_associative(ah, ay8, t0.key@);
    let ay9 = ay8 + t0.key@;
    let aq9 = aq8 + t0.key@;
    assert(aq9 == ah + ay9);
    lemma_concat_associative(ah, ay9, seq![']']);
    let ay10 = ay9 + seq![']'];
    let aq10 = aq9 + seq![']'];
    assert(aq10 == ah + ay10);
    assert(room_text(t0) == aq10);
    let bh = ((((seq!['['] + null_or(t1.owner.nickname.deep_view(), true)) + seq![',']) + null_or(t1.owner.avatar.deep_view(), true)) + seq![',']) + v@;
    let by6 = seq![','];
    let bq6 = bh + by6;
    lemma_concat_associative(bh, by6, decimal(t1.people_number as nat));
    let by7 = by6 + decimal(t1.people_number as nat);
    let bq7 = bq6 + decimal(t1.people_number as nat);
    assert(bq7 == bh + by7);
    lemma_concat_associative(bh, by7, seq![',']);
    let by8 = by7 + seq![','];
    let bq8 = bq7 + seq![','];
    assert(bq8 == bh + by8);
    lemma_concat_associative(bh, by8, t1.key@);
    let by9 = by8 + t1.key@;
    let bq9 = bq8 + t1.key@;
    assert(bq9 == bh + by9);
    lemma_concat_associative(bh, by9, seq![']']);
    let by10 = by9 + seq![']'];
    let bq10 = bq9 + seq![']'];
    assert(bq10 == bh + by10);
    assert(room_text(t1) == bq10);
    assert(((((seq!['['] + null_or(t0.owner.nickname.deep_view(), true)) + seq![',']) + null_or(t0.owner.avatar.deep_view(), true)) + seq![',']) == ((((seq!['['] + null_or(t1.owner.nickname.deep_view(), true)) + seq![',']) + null_or(t1.owner.avatar.deep_view(), true)) + seq![',']));
    assert(ay10 == by10);
    lemma_replaced(((((seq!['['] + null_or(t0.owner.nickname.deep_view(), true)) + seq![',']) + null_or(t0.owner.avatar.deep_view(), true)) + seq![',']), null_text(), v@, ay10, room_text(t0), room_text(t1));
}

/// In a room's listing entry the owner's present nickname and avatar are
/// written as double-quoted strings in place of `null`, and a present
/// configuration as it is.
pub proof fn law_room_listing_quoting(r: Room, v: String)
    ensures
        replaced(
            room_text(Room { owner: SessionState { nickname: None, ..r.owner }, ..r }),
            room_text(Room { owner: SessionState { nickname: Some(v), ..r.owner }, ..r }),
            null_text(),
            quoted(v@),
        ),
        replaced(
            room_text(Room { owner: SessionState { avatar: None, ..r.owner }, ..r }),
            room_text(Room { owner: SessionState { avatar: Some(v), ..r.owner }, ..r }),
            null_text(),
            quoted(v@),
        ),
        replaced(
            room_text(Room { config: None, ..r }),
            room_text(Room { config: Some(v), ..r }),
            null_text(),
            v@,
        ),
{
    lemma_room_nickname(r, v);
    lemma_room_avatar(r, v);
    lemma_room_config(r, v);
}

} // verus!
