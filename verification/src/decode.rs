use vstd::prelude::*;
use vstd::string::*;
use vstd::utf8::*;
use crate::message::{RecvMessage, RecvView};
use crate::util::{
    law_trim_idempotent, law_unescape_escape, unescape_json,
    command_tokens, escape_json, espace_json, json_array_items, nickname_cuttable, token_has_key,
    token_key, trim_nickname, trimmed, try_parse_command, try_parse_key,
};

verus! {

/// What kind of websocket frame arrived.
pub enum FrameKind {
    Close,
    Text,
    Other,
}

/// Decodes bytes as UTF-8: the std function `String::from_utf8`, which
/// fails exactly on bytes that are not UTF-8.
#[verifier::external_body]
fn utf8_text(bytes: Vec<u8>) -> (r: Option<String>)
    ensures
        r is Some <==> valid_utf8(bytes@),
        r matches Some(s) ==> s@ == decode_utf8(bytes@),
{
    String::from_utf8(bytes).ok()
}

fn text_is(s: &String, lit: &str) -> (r: bool)
    ensures
        r == (s@ == lit@),
{
    let l = lit.to_owned();
    s.eq(&l)
}

/// The tokens of a command that is a JSON array.
pub open spec fn tokens_of(cmd: Seq<char>) -> Seq<Seq<char>> {
    command_tokens(json_array_items(cmd).unwrap())
}

/// Whether the bytes of `cmd` after `["server","config",` and before the
/// last byte form a text.
pub open spec fn config_cuttable(cmd: Seq<char>) -> bool {
    let b = encode_utf8(cmd);
    &&& b.len() >= 20
    &&& is_char_boundary(b, 19)
    &&& is_char_boundary(b, b.len() - 1)
}

/// The configuration carried by `["server","config",CONFIG]`: the bytes
/// after the first 19 and before the last one.
pub open spec fn config_of(cmd: Seq<char>) -> Seq<char> {
    let b = encode_utf8(cmd);
    decode_utf8(b.subrange(19, b.len() - 1))
}

/// Whether a `server` command with tokens `t` has what its kind reads.
pub open spec fn server_command_complete(cmd: Seq<char>, t: Seq<Seq<char>>) -> bool {
    &&& t.len() >= 2
    &&& t[1] == "key"@ ==> t.len() >= 3 && token_has_key(t[2])
    &&& t[1] == "changeAvatar"@ ==> t.len() >= 4 && nickname_cuttable(t[2])
    &&& t[1] == "create"@ ==> t.len() >= 5 && nickname_cuttable(t[3])
    &&& t[1] == "config"@ ==> config_cuttable(cmd)
    &&& t[1] == "enter"@ ==> t.len() >= 5
    &&& t[1] == "send"@ ==> t.len() >= 4
    &&& t[1] == "status"@ ==> t.len() >= 3
    &&& t[1] == "close"@ ==> t.len() >= 3
}

/// Whether a text frame can be read as a client message: it is `heartbeat`,
/// or a non-empty JSON array, complete where it is a `server` command.
pub open spec fn decodable(cmd: Seq<char>) -> bool {
    ||| cmd == "heartbeat"@
    ||| {
        &&& json_array_items(cmd) is Some
        &&& tokens_of(cmd).len() >= 1
        &&& tokens_of(cmd)[0] == "server"@ ==> server_command_complete(cmd, tokens_of(cmd))
    }
}

/// The message in a `server` command with tokens `t`.
pub open spec fn server_command(cmd: Seq<char>, t: Seq<Seq<char>>) -> RecvView {
    if t[1] == "key"@ {
        RecvView::Key(token_key(t[2]))
    } else if t[1] == "changeAvatar"@ {
        RecvView::ChangeAvatar(trimmed(t[2]), t[3])
    } else if t[1] == "create"@ {
        RecvView::Create(t[2], trimmed(t[3]), t[4])
    } else if t[1] == "config"@ {
        RecvView::Config(config_of(cmd))
    } else if t[1] == "enter"@ {
        RecvView::Enter(t[2], t[3], t[4])
    } else if t[1] == "send"@ {
        RecvView::Send(t[2], t[3])
    } else if t[1] == "status"@ {
        RecvView::Status(t[2])
    } else if t[1] == "close"@ {
        RecvView::Close(t[2])
    } else {
        RecvView::PlaceHolder
    }
}

/// The message in a decodable text frame: `heartbeat`, a `server` command,
/// or anything else, escaped, for the owner of the client's room.
pub open spec fn decoded(cmd: Seq<char>) -> RecvView {
    if cmd == "heartbeat"@ {
        RecvView::Heartbeat
    } else if tokens_of(cmd)[0] == "server"@ {
        server_command(cmd, tokens_of(cmd))
    } else {
        RecvView::ForwardToOwner(escape_json(cmd))
    }
}

fn can_trim(name: &String) -> (r: bool)
    ensures
        r == nickname_cuttable(name@),
{
    let s = name.as_str();
    proof {
        assert(s.spec_bytes() == encode_utf8(name@));
    }
    s.as_bytes().len() <= 12 || s.is_char_boundary(12)
}

fn config_slice(cmd: &String) -> (r: Option<String>)
    ensures
        r is Some <==> config_cuttable(cmd@),
        r matches Some(c) ==> c@ == config_of(cmd@),
{
    broadcast use encode_utf8_decode_utf8, encode_utf8_valid_utf8, valid_utf8_split,
        is_char_boundary_start_end_of_seq;

    let s = cmd.as_str();
    let ghost b = encode_utf8(cmd@);
    assert(s.spec_bytes() == b);
    let n = s.as_bytes().len();
    if n < 20 || !s.is_char_boundary(19) || !s.is_char_boundary(n - 1) {
        return None;
    }
    let (head, _tail) = s.split_at(n - 1);
    proof {
        let hb = b.subrange(0, n - 1);
        assert(head.spec_bytes() =~= hb);
        assert(valid_utf8(hb));
        if 19 < n - 1 {
            is_char_boundary_iff_not_is_continuation_byte(b, 19);
            is_char_boundary_iff_not_is_continuation_byte(hb, 19);
            assert(hb[19] == b[19]);
        }
        assert(is_char_boundary(hb, 19));
    }
    let (_front, mid) = head.split_at(19);
    proof {
        assert(mid.spec_bytes() =~= b.subrange(19, n - 1));
        assert(decode_utf8(encode_utf8(mid@)) == mid@);
    }
    Some(mid.to_owned())
}

/// Reads a text frame as a client message; `None` where it cannot be read
/// (it is not `heartbeat` and not a non-empty JSON array, or a `server`
/// command lacks what its kind reads).
pub fn decode_command(cmd: &String) -> (r: Option<RecvMessage>)
    ensures
        r is Some <==> decodable(cmd@),
        r matches Some(m) ==> m@ == decoded(cmd@),
{
    proof {
        reveal_strlit("key");
        reveal_strlit("changeAvatar");
        reveal_strlit("create");
        reveal_strlit("config");
        reveal_strlit("enter");
        reveal_strlit("send");
        reveal_strlit("status");
        reveal_strlit("close");
        assert("key"@.len() == 3);
        assert("changeAvatar"@.len() == 12);
        assert("create"@.len() == 6);
        assert("config"@.len() == 6);
        assert("enter"@.len() == 5);
        assert("send"@.len() == 4);
        assert("status"@.len() == 6);
        assert("close"@.len() == 5);
        assert("create"@[1] != "config"@[1]);
        assert("create"@[0] != "status"@[0]);
        assert("config"@[0] != "status"@[0]);
        assert("enter"@[0] != "close"@[0]);
    }
    if text_is(cmd, "heartbeat") {
        return Some(RecvMessage::Heartbeat);
    }
    let tokens = match try_parse_command(cmd.as_str()) {
        Some(t) => t,
        None => return None,
    };
    let ghost t = tokens_of(cmd@);
    proof {
        assert forall|i: int| 0 <= i < tokens@.len() implies #[trigger] tokens@[i]@ == t[i] by {
            assert(tokens@.map_values(|s: String| s@)[i] == tokens@[i]@);
        }
        assert(tokens@.len() == t.len()) by {
            assert(tokens@.map_values(|s: String| s@).len() == tokens@.len());
        }
    }
    if tokens.len() == 0 {
        return None;
    }
    if !text_is(&tokens[0], "server") {
        return Some(RecvMessage::ForwardToOwner(espace_json(cmd.as_str())));
    }
    if tokens.len() < 2 {
        return None;
    }
    let kind = &tokens[1];
    if text_is(kind, "key") {
        if tokens.len() < 3 {
            return None;
        }
        match try_parse_key(tokens[2].as_str()) {
            Some(k) => Some(RecvMessage::Key(k)),
            None => None,
        }
    } else if text_is(kind, "changeAvatar") {
        if tokens.len() < 4 || !can_trim(&tokens[2]) {
            return None;
        }
        assert(t[1] == "changeAvatar"@);
        Some(RecvMessage::ChangeAvatar(trim_nickname(tokens[2].as_str()), tokens[3].clone()))
    } else if text_is(kind, "create") {
        if tokens.len() < 5 || !can_trim(&tokens[3]) {
            return None;
        }
        Some(RecvMessage::Create(tokens[2].clone(), trim_nickname(tokens[3].as_str()), tokens[4].clone()))
    } else if text_is(kind, "config") {
        match config_slice(cmd) {
            Some(c) => Some(RecvMessage::Config(c)),
            None => None,
        }
    } else if text_is(kind, "enter") {
        if tokens.len() < 5 {
            return None;
        }
        Some(RecvMessage::Enter(tokens[2].clone(), tokens[3].clone(), tokens[4].clone()))
    } else if text_is(kind, "send") {
        if tokens.len() < 4 {
            return None;
        }
        Some(RecvMessage::Send(tokens[2].clone(), tokens[3].clone()))
    } else if text_is(kind, "status") {
        if tokens.len() < 3 {
            return None;
        }
        Some(RecvMessage::Status(tokens[2].clone()))
    } else if text_is(kind, "close") {
        if tokens.len() < 3 {
            return None;
        }
        Some(RecvMessage::Close(tokens[2].clone()))
    } else {
        Some(RecvMessage::PlaceHolder)
    }
}

/// Reads one websocket frame as a client message: a close frame closes the
/// session, a text frame is decoded, anything else (and text that is not
/// UTF-8) is a placeholder. `None` where a text frame cannot be read.
pub fn read_frame_message(kind: FrameKind, payload: Vec<u8>) -> (r: Option<RecvMessage>)
    ensures
        kind is Close ==> r == Some(RecvMessage::SessionClose),
        kind is Other ==> r == Some(RecvMessage::PlaceHolder),
        kind is Text && !valid_utf8(payload@) ==> r == Some(RecvMessage::PlaceHolder),
        kind is Text && valid_utf8(payload@) ==> {
            &&& r is Some <==> decodable(decode_utf8(payload@))
            &&& r matches Some(m) ==> m@ == decoded(decode_utf8(payload@))
        },
{
    match kind {
        FrameKind::Close => Some(RecvMessage::SessionClose),
        FrameKind::Text => match utf8_text(payload) {
            Some(cmd) => decode_command(&cmd),
            None => Some(RecvMessage::PlaceHolder),
        },
        FrameKind::Other => Some(RecvMessage::PlaceHolder),
    }
}

/// Anything that is not a `server` command reaches the room owner as a text
/// that reads back as exactly what the client sent.
pub proof fn law_forwarded_text_reads_back(cmd: Seq<char>)
    requires
        decodable(cmd),
        cmd != "heartbeat"@,
        tokens_of(cmd)[0] != "server"@,
    ensures
        decoded(cmd) matches RecvView::ForwardToOwner(m) && unescape_json(m) == cmd,
{
    law_unescape_escape(cmd);
}

/// Nicknames taken from `changeAvatar` and `create` commands are at most
/// twelve bytes long.
pub proof fn law_decoded_nicknames_are_short(cmd: Seq<char>)
    requires
        decodable(cmd),
    ensures
        decoded(cmd) matches RecvView::ChangeAvatar(n, _) ==> encode_utf8(n).len() <= 12,
        decoded(cmd) matches RecvView::Create(_, n, _) ==> encode_utf8(n).len() <= 12,
{
    reveal_strlit("heartbeat");
    reveal_strlit("server");
    if cmd != "heartbeat"@ && tokens_of(cmd)[0] == "server"@ {
        let t = tokens_of(cmd);
        if t[1] == "changeAvatar"@ {
            law_trim_idempotent(t[2]);
        }
        if t[1] == "create"@ {
            law_trim_idempotent(t[3]);
        }
    }
}

proof fn lemma_kinds_distinct()
    ensures
        "key"@ != "changeAvatar"@,
        "key"@ != "create"@,
        "key"@ != "config"@,
        "key"@ != "enter"@,
        "key"@ != "send"@,
        "key"@ != "status"@,
        "key"@ != "close"@,
        "changeAvatar"@ != "create"@,
        "changeAvatar"@ != "config"@,
        "changeAvatar"@ != "enter"@,
        "changeAvatar"@ != "send"@,
        "changeAvatar"@ != "status"@,
        "changeAvatar"@ != "close"@,
        "create"@ != "config"@,
        "create"@ != "enter"@,
        "create"@ != "send"@,
        "create"@ != "status"@,
        "create"@ != "close"@,
        "config"@ != "enter"@,
        "config"@ != "send"@,
        "config"@ != "status"@,
        "config"@ != "close"@,
        "enter"@ != "send"@,
        "enter"@ != "status"@,
        "enter"@ != "close"@,
        "send"@ != "status"@,
        "send"@ != "close"@,
        "status"@ != "close"@,
{
    reveal_strlit("key");
    reveal_strlit("changeAvatar");
    reveal_strlit("create");
    reveal_strlit("config");
    reveal_strlit("enter");
    reveal_strlit("send");
    reveal_strlit("status");
    reveal_strlit("close");
    assert("key"@.len() == 3);
    assert("changeAvatar"@.len() == 12);
    assert("create"@.len() == 6);
    assert("config"@.len() == 6);
    assert("enter"@.len() == 5);
    assert("send"@.len() == 4);
    assert("status"@.len() == 6);
    assert("close"@.len() == 5);
    assert("create"@[1] != "config"@[1]);
    assert("create"@[0] != "status"@[0]);
    assert("config"@[0] != "status"@[0]);
    assert("enter"@[0] != "close"@[0]);
}

/// A `server` command's message carries the command's tokens as sent, the
/// third token onwards in order; only a nickname (the third token of
/// `changeAvatar`, the fourth of `create`) is cut to twelve bytes, and is
/// kept whole when it is no longer than that.
pub proof fn law_server_command_fields(cmd: Seq<char>)
    requires
        decodable(cmd),
        cmd != "heartbeat"@,
        tokens_of(cmd)[0] == "server"@,
    ensures
        ({
            let t = tokens_of(cmd);
            &&& t[1] == "key"@ ==> decoded(cmd) == RecvView::Key(json_array_items(t[2]).unwrap()[0].1)
            &&& t[1] == "changeAvatar"@ ==> (decoded(cmd) matches RecvView::ChangeAvatar(n, a)
                && a == t[3] && n == trimmed(t[2]) && (encode_utf8(t[2]).len() <= 12 ==> n == t[2]))
            &&& t[1] == "create"@ ==> (decoded(cmd) matches RecvView::Create(k, n, a) && k == t[2]
                && n == trimmed(t[3]) && a == t[4] && (encode_utf8(t[3]).len() <= 12 ==> n == t[3]))
            &&& t[1] == "enter"@ ==> decoded(cmd) == RecvView::Enter(t[2], t[3], t[4])
            &&& t[1] == "send"@ ==> decoded(cmd) == RecvView::Send(t[2], t[3])
            &&& t[1] == "status"@ ==> decoded(cmd) == RecvView::Status(t[2])
            &&& t[1] == "close"@ ==> decoded(cmd) == RecvView::Close(t[2])
        }),
{
    lemma_kinds_distinct();
}

} // verus!
