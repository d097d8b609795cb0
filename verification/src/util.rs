use vstd::prelude::*;
use vstd::string::*;
use vstd::utf8::*;
use crate::text::{chars_of, push_char};

verus! {

// ---------------------------------------------------------------- escaping

/// How one character is written inside a JSON string literal by this server:
/// a backslash and a double quote get a backslash in front, nothing else changes.
pub open spec fn escape_char(c: char) -> Seq<char> {
    if c == '\\' {
        seq!['\\', '\\']
    } else if c == '"' {
        seq!['\\', '"']
    } else {
        seq![c]
    }
}

/// `s` with every backslash and double quote escaped.
pub open spec fn escape_json(s: Seq<char>) -> Seq<char>
    decreases s.len(),
{
    if s.len() == 0 {
        Seq::empty()
    } else {
        escape_char(s[0]) + escape_json(s.drop_first())
    }
}

/// Reads back a text written by `escape_json`: a backslash stands for the
/// character after it.
pub open spec fn unescape_json(s: Seq<char>) -> Seq<char>
    decreases s.len(),
{
    if s.len() == 0 {
        Seq::empty()
    } else if s[0] == '\\' && s.len() >= 2 {
        seq![s[1]] + unescape_json(s.subrange(2, s.len() as int))
    } else {
        seq![s[0]] + unescape_json(s.drop_first())
    }
}

/// Escaping a text made of two parts escapes each part on its own.
pub proof fn law_escape_concat(a: Seq<char>, b: Seq<char>)
    ensures
        escape_json(a + b) == escape_json(a) + escape_json(b),
    decreases a.len(),
{
    if a.len() == 0 {
        assert(a + b =~= b);
    } else {
        law_escape_concat(a.drop_first(), b);
        assert((a + b).drop_first() =~= a.drop_first() + b);
        assert(escape_json(a + b) =~= escape_char(a[0]) + escape_json(a.drop_first() + b));
    }
}

proof fn lemma_escape_push(a: Seq<char>, c: char)
    ensures
        escape_json(a.push(c)) == escape_json(a) + escape_char(c),
{
    law_escape_concat(a, seq![c]);
    assert(a + seq![c] =~= a.push(c));
    assert(seq![c].drop_first() =~= Seq::<char>::empty());
    assert(seq![c][0] == c);
    assert(escape_json(seq![c].drop_first()) == Seq::<char>::empty());
    assert(escape_json(seq![c]) =~= escape_char(c));
}

/// The number of backslashes and double quotes in `s`.
pub open spec fn special_count(s: Seq<char>) -> nat
    decreases s.len(),
{
    if s.len() == 0 {
        0
    } else {
        (if s[0] == '\\' || s[0] == '"' {
            1nat
        } else {
            0nat
        }) + special_count(s.drop_first())
    }
}

proof fn lemma_encode_concat(a: Seq<char>, b: Seq<char>)
    ensures
        encode_utf8(a + b) == encode_utf8(a) + encode_utf8(b),
    decreases a.len(),
{
    if a.len() == 0 {
        assert(a + b =~= b);
        assert(encode_utf8(a) =~= Seq::<u8>::empty());
        assert(encode_utf8(a) + encode_utf8(b) =~= encode_utf8(b));
    } else {
        lemma_encode_concat(a.drop_first(), b);
        assert((a + b).drop_first() =~= a.drop_first() + b);
        assert((a + b)[0] == a[0]);
        assert(encode_utf8(a + b) =~= encode_utf8(a) + encode_utf8(b));
    }
}

/// Escaping makes a text longer by one character, and one byte, for each
/// backslash and double quote in it.
pub proof fn law_escape_length(s: Seq<char>)
    ensures
        escape_json(s).len() == s.len() + special_count(s),
        encode_utf8(escape_json(s)).len() == encode_utf8(s).len() + special_count(s),
    decreases s.len(),
{
    if s.len() > 0 {
        let c = s[0];
        let t = s.drop_first();
        law_escape_length(t);
        lemma_encode_concat(escape_char(c), escape_json(t));
        lemma_encode_concat(seq![c], t);
        assert(seq![c] + t =~= s);
        assert(seq![c].drop_first() =~= Seq::<char>::empty());
        assert(seq![c][0] == c);
        assert(encode_utf8(Seq::<char>::empty()) =~= Seq::<u8>::empty());
        assert(encode_utf8(seq![c].drop_first()) =~= Seq::<u8>::empty());
        assert(encode_utf8(seq![c]) =~= encode_scalar(c as u32));
        if c == '\\' || c == '"' {
            let e = escape_char(c);
            assert(e.drop_first() =~= seq![c]);
            assert(e[0] == '\\');
            assert(encode_utf8(e) == encode_scalar('\\' as u32) + encode_utf8(seq![c]));
            assert(encode_scalar('\\' as u32).len() == 1);
            assert(encode_scalar(c as u32).len() == 1);
        } else {
            assert(escape_char(c) == seq![c]);
        }
    }
}

/// Reading back an escaped text gives back the text that was escaped.
pub proof fn law_unescape_escape(s: Seq<char>)
    ensures
        unescape_json(escape_json(s)) == s,
    decreases s.len(),
{
    if s.len() > 0 {
        law_unescape_escape(s.drop_first());
        let e = escape_json(s);
        let rest = escape_json(s.drop_first());
        if s[0] == '\\' || s[0] == '"' {
            assert(e.subrange(2, e.len() as int) =~= rest);
        } else {
            assert(e.drop_first() =~= rest);
        }
        assert(seq![s[0]] + s.drop_first() =~= s);
    }
}

/// Escapes backslashes and double quotes so that `text` can stand inside a
/// JSON string literal.
pub fn espace_json(text: &str) -> (r: String)
    ensures
        r@ == escape_json(text@),
{
    let cs = chars_of(text);
    let mut out = String::new();
    let mut i: usize = 0;
    while i < cs.len()
        invariant
            i <= cs.len(),
            out@ == escape_json(cs@.take(i as int)),
        decreases cs.len() - i,
    {
        let c = cs[i];
        proof {
            lemma_escape_push(cs@.take(i as int), c);
            assert(cs@.take(i as int).push(c) =~= cs@.take(i + 1));
        }
        if c == '\\' {
            push_char(&mut out, '\\');
            push_char(&mut out, '\\');
        } else if c == '"' {
            push_char(&mut out, '\\');
            push_char(&mut out, '"');
        } else {
            push_char(&mut out, c);
        }
        assert(out@ =~= escape_json(cs@.take(i + 1)));
        i = i + 1;
    }
    assert(cs@.take(cs.len() as int) =~= cs@);
    out
}

// ---------------------------------------------------------------- nicknames

/// The longest nickname kept, in bytes of UTF-8.
pub const MAX_NICKNAME_BYTES: usize = 12;

/// Whether `trim_nickname` can cut `name`: it is short enough, or its first
/// `MAX_NICKNAME_BYTES` bytes end on a character boundary.
pub open spec fn nickname_cuttable(name: Seq<char>) -> bool {
    encode_utf8(name).len() <= 12 || is_char_boundary(encode_utf8(name), 12)
}

/// A nickname cut to its first `MAX_NICKNAME_BYTES` bytes.
pub open spec fn trimmed(name: Seq<char>) -> Seq<char> {
    if encode_utf8(name).len() > 12 {
        decode_utf8(encode_utf8(name).subrange(0, 12))
    } else {
        name
    }
}

/// Cuts a nickname to its first twelve bytes. The cut must fall on a
/// character boundary.
pub fn trim_nickname(name: &str) -> (r: String)
    requires
        nickname_cuttable(name@),
    ensures
        r@ == trimmed(name@),
        encode_utf8(r@).len() <= 12,
{
    broadcast use encode_utf8_decode_utf8, decode_utf8_encode_utf8, encode_utf8_valid_utf8, valid_utf8_split;
    assert(name.spec_bytes() == encode_utf8(name@));
    if name.as_bytes().len() > MAX_NICKNAME_BYTES {
        let (head, _tail) = name.split_at(MAX_NICKNAME_BYTES);
        proof {
            assert(encode_utf8(head@) =~= encode_utf8(name@).subrange(0, 12));
            assert(decode_utf8(encode_utf8(head@)) == head@);
        }
        head.to_owned()
    } else {
        name.to_owned()
    }
}

/// Cutting a nickname twice is cutting it once.
pub proof fn law_trim_idempotent(name: Seq<char>)
    requires
        nickname_cuttable(name),
    ensures
        nickname_cuttable(trimmed(name)),
        trimmed(trimmed(name)) == trimmed(name),
        encode_utf8(trimmed(name)).len() <= 12,
{
    broadcast use encode_utf8_decode_utf8, decode_utf8_encode_utf8, encode_utf8_valid_utf8, valid_utf8_split;
    if encode_utf8(name).len() > 12 {
        assert(valid_utf8(encode_utf8(name).subrange(0, 12)));
        assert(encode_utf8(trimmed(name)) =~= encode_utf8(name).subrange(0, 12));
    }
}

} // verus!

verus! {

// ---------------------------------------------------------------- JSON commands

/// One element of a JSON array as the protocol reads it: a JSON string gives
/// its content, any other value its compact JSON text.
pub struct JsonItem {
    pub is_string: bool,
    pub text: String,
}

impl View for JsonItem {
    type V = (bool, Seq<char>);

    open spec fn view(&self) -> (bool, Seq<char>) {
        (self.is_string, self.text@)
    }
}

/// What serde_json reads from `text` taken as a JSON array: `None` when
/// `text` is not one, else for each element whether it is a JSON string and
/// its content (for a string) or its compact JSON text (for anything else).
pub uninterp spec fn json_array_items(text: Seq<char>) -> Option<Seq<(bool, Seq<char>)>>;

/// Calls `serde_json::from_str` for a `Vec<serde_json::Value>` and hands out
/// each element as a `JsonItem`: claimed is that the outcome is exactly
/// `json_array_items(text@)`, which depends on the text alone.
#[verifier::external_body]
fn parse_json_array(text: &str) -> (r: Option<Vec<JsonItem>>)
    ensures
        r is Some <==> json_array_items(text@) is Some,
        r matches Some(v) ==> json_array_items(text@) == Some(v@.map_values(|x: JsonItem| x@)),
{
    match serde_json::from_str::<Vec<serde_json::Value>>(text) {
        Ok(items) => Some(
            items
                .into_iter()
                .map(|x| match x {
                    serde_json::Value::String(s) => JsonItem { is_string: true, text: s },
                    other => JsonItem { is_string: false, text: other.to_string() },
                })
                .collect(),
        ),
        Err(_) => None,
    }
}

/// The tokens of a command: the texts of the items of its JSON array.
pub open spec fn command_tokens(items: Seq<(bool, Seq<char>)>) -> Seq<Seq<char>> {
    items.map_values(|x: (bool, Seq<char>)| x.1)
}

fn item_texts(items: Vec<JsonItem>) -> (r: Vec<String>)
    ensures
        r@.map_values(|s: String| s@) == command_tokens(items@.map_values(|x: JsonItem| x@)),
{
    let mut r: Vec<String> = Vec::new();
    let mut i: usize = 0;
    while i < items.len()
        invariant
            i <= items@.len(),
            r@.len() == i,
            forall|j: int| 0 <= j < i ==> #[trigger] r@[j]@ == items@[j].text@,
        decreases items.len() - i,
    {
        r.push(items[i].text.clone());
        i = i + 1;
    }
    assert(r@.map_values(|s: String| s@) =~= command_tokens(items@.map_values(|x: JsonItem| x@)));
    r
}

/// Splits a client command, a JSON array, into its tokens. The command must
/// be a JSON array.
pub fn parse_command(cmd: &str) -> (r: Vec<String>)
    requires
        json_array_items(cmd@) is Some,
    ensures
        r@.map_values(|s: String| s@) == command_tokens(json_array_items(cmd@).unwrap()),
{
    match parse_json_array(cmd) {
        Some(items) => item_texts(items),
        None => Vec::new(),
    }
}

/// `parse_command` where the command is a JSON array, `None` where it is not.
pub fn try_parse_command(cmd: &str) -> (r: Option<Vec<String>>)
    ensures
        r is Some <==> json_array_items(cmd@) is Some,
        r matches Some(v) ==> v@.map_values(|s: String| s@) == command_tokens(
            json_array_items(cmd@).unwrap(),
        ),
{
    if parse_json_array(cmd).is_some() {
        Some(parse_command(cmd))
    } else {
        None
    }
}

/// Whether a login token is a JSON array whose first element is a string.
pub open spec fn token_has_key(tok: Seq<char>) -> bool {
    &&& json_array_items(tok) is Some
    &&& json_array_items(tok).unwrap().len() > 0
    &&& json_array_items(tok).unwrap()[0].0
}

/// The key that a login token carries: its first element.
pub open spec fn token_key(tok: Seq<char>) -> Seq<char> {
    json_array_items(tok).unwrap()[0].1
}

/// The online key carried by a login token, a JSON array whose first element
/// is a string.
pub fn parse_key_from_token(tok: &str) -> (r: String)
    requires
        token_has_key(tok@),
    ensures
        r@ == token_key(tok@),
{
    match parse_json_array(tok) {
        Some(items) => {
            let mut items = items;
            if items.len() > 0 {
                let first = items.swap_remove(0);
                proof {
                    assert(first@ == json_array_items(tok@).unwrap()[0]);
                }
                first.text
            } else {
                String::new()
            }
        },
        None => String::new(),
    }
}

/// `parse_key_from_token` where the token carries a key, `None` elsewhere.
pub fn try_parse_key(tok: &str) -> (r: Option<String>)
    ensures
        r is Some <==> token_has_key(tok@),
        r matches Some(k) ==> k@ == token_key(tok@),
{
    let ok = match parse_json_array(tok) {
        Some(items) => items.len() > 0 && items[0].is_string,
        None => false,
    };
    if ok {
        Some(parse_key_from_token(tok))
    } else {
        None
    }
}

} // verus!

verus! {

// ---------------------------------------------------------------- session ids

/// A lowercase hexadecimal digit.
pub open spec fn is_lower_hex(c: char) -> bool {
    ('0' <= c && c <= '9') || ('a' <= c && c <= 'f')
}

/// The hyphenated lowercase text of a random (version 4, RFC 9562 variant)
/// UUID: 36 characters, hyphens at 8, 13, 18 and 23, hexadecimal digits
/// elsewhere, the version digit `4` and a variant digit among `8`..`b`.
pub open spec fn is_uuid_v4_text(s: Seq<char>) -> bool {
    &&& s.len() == 36
    &&& forall|i: int|
        0 <= i < 36 ==> if i == 8 || i == 13 || i == 18 || i == 23 {
            s[i] == '-'
        } else {
            is_lower_hex(#[trigger] s[i])
        }
    &&& s[14] == '4'
    &&& (s[19] == '8' || s[19] == '9' || s[19] == 'a' || s[19] == 'b')
}

/// A fresh session id: `uuid::Uuid::new_v4()` written out by its `Display`
/// impl (the hyphenated lowercase form). Claimed is only the shape of the
/// text; its digits are random, so two calls may differ.
#[verifier::external_body]
pub fn generate_wsid() -> (r: String)
    ensures
        is_uuid_v4_text(r@),
{
    uuid::Uuid::new_v4().to_string()
}

} // verus!
