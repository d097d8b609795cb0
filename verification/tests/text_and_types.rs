use lobby::text::push_decimal;
use lobby::types::{none2null, Room, SessionState};
use lobby::util::{
    espace_json, generate_wsid, parse_command, parse_key_from_token, trim_nickname, try_parse_command,
    try_parse_key,
};

fn state(wsid: &str) -> SessionState {
    SessionState::new(wsid.to_string())
}

#[test]
fn session_state_new_knows_only_its_id() {
    let s = state("abc");
    assert_eq!(s.wsid, "abc");
    assert!(s.nickname.is_none());
    assert!(s.avatar.is_none());
    assert!(s.room_id.is_none());
    assert!(s.status.is_none());
    assert!(s.online_key.is_none());
}

#[test]
fn room_new_holds_its_owner_only() {
    let r = Room::new(state("o"), "k1".to_string());
    assert_eq!(r.people_number, 1);
    assert_eq!(r.owner.wsid, "o");
    assert_eq!(r.key, "k1");
    assert!(r.config.is_none());
}

#[test]
fn none2null_quotes_on_request() {
    assert_eq!(none2null(&None, true), "null");
    assert_eq!(none2null(&None, false), "null");
    assert_eq!(none2null(&Some("x y".to_string()), true), "\"x y\"");
    assert_eq!(none2null(&Some("{\"a\":1}".to_string()), false), "{\"a\":1}");
}

#[test]
fn session_listing_entry() {
    let mut s = state("w1");
    s.nickname = Some("Ann".to_string());
    s.status = Some("ready".to_string());
    s.online_key = Some("k".to_string());
    let mut out = String::new();
    s.push_listing(&mut out);
    assert_eq!(out, "[\"Ann\",null,true,\"ready\",\"w1\",k]");
    s.room_id = Some("r".to_string());
    let mut out2 = String::from(">");
    s.push_listing(&mut out2);
    assert_eq!(out2, ">[\"Ann\",null,false,\"ready\",\"w1\",k]");
}

#[test]
fn room_listing_entry() {
    let mut owner = state("o");
    owner.nickname = Some("Bob".to_string());
    owner.avatar = Some("a.png".to_string());
    let mut r = Room::new(owner, "K".to_string());
    r.config = Some("{\"m\":2}".to_string());
    r.people_number = 107;
    let mut out = String::new();
    r.push_listing(&mut out);
    assert_eq!(out, "[\"Bob\",\"a.png\",{\"m\":2},107,K]");
}

#[test]
fn decimal_notation() {
    for n in [0u32, 7, 10, 99, 100, 4294967295] {
        let mut s = String::from("#");
        push_decimal(&mut s, n);
        assert_eq!(s, format!("#{}", n));
    }
}

#[test]
fn escaping_doubles_backslashes_and_escapes_quotes() {
    assert_eq!(espace_json("plain"), "plain");
    assert_eq!(espace_json("a\"b"), "a\\\"b");
    assert_eq!(espace_json("a\\b"), "a\\\\b");
    assert_eq!(espace_json("\\\""), "\\\\\\\"");
    assert_eq!(espace_json(""), "");
    assert_eq!(espace_json("[\"x\",1]"), "[\\\"x\\\",1]");
}

fn unescape(s: &str) -> String {
    let mut out = String::new();
    let mut it = s.chars();
    while let Some(c) = it.next() {
        if c == '\\' {
            match it.next() {
                Some(d) => out.push(d),
                None => out.push(c),
            }
        } else {
            out.push(c);
        }
    }
    out
}

#[test]
fn escaping_reads_back() {
    for s in ["", "x", "\\", "\"\\\"", "é\\ü\"", "a\\\\\"b"] {
        assert_eq!(unescape(&espace_json(s)), s);
    }
}

#[test]
fn nicknames_are_cut_to_twelve_bytes() {
    assert_eq!(trim_nickname("short"), "short");
    assert_eq!(trim_nickname("exactly12byt"), "exactly12byt");
    assert_eq!(trim_nickname("thirteen_byte"), "thirteen_byt");
    assert_eq!(trim_nickname("ééééééé"), "éééééé");
    let once = trim_nickname("a_very_long_nickname");
    assert_eq!(trim_nickname(&once), once);
}

#[test]
fn commands_split_into_tokens() {
    let t = parse_command("[\"server\",\"create\",\"k\",\"nick\",\"av\"]");
    assert_eq!(t, vec!["server", "create", "k", "nick", "av"]);
    let t2 = parse_command("[\"server\", 12, true, null, {\"a\": [1, 2]}, \"q\\\"\"]");
    assert_eq!(t2, vec!["server", "12", "true", "null", "{\"a\":[1,2]}", "q\""]);
    assert_eq!(parse_command("[]"), Vec::<String>::new());
}

#[test]
fn only_json_arrays_are_commands() {
    assert!(try_parse_command("{\"a\":1}").is_none());
    assert!(try_parse_command("not json").is_none());
    assert!(try_parse_command("\"s\"").is_none());
    assert_eq!(try_parse_command("[\"a\"]"), Some(vec!["a".to_string()]));
}

#[test]
fn login_tokens_carry_a_key() {
    assert_eq!(parse_key_from_token("[\"the-key\", 5]"), "the-key");
    assert_eq!(try_parse_key("[\"k\"]"), Some("k".to_string()));
    assert_eq!(try_parse_key("[]"), None);
    assert_eq!(try_parse_key("[5]"), None);
    assert_eq!(try_parse_key("nope"), None);
}

#[test]
fn session_ids_are_uuid_v4_texts() {
    let a = generate_wsid();
    let b = generate_wsid();
    assert_ne!(a, b);
    for id in [a, b] {
        assert_eq!(id.len(), 36);
        for (i, c) in id.chars().enumerate() {
            if [8, 13, 18, 23].contains(&i) {
                assert_eq!(c, '-');
            } else {
                assert!(c.is_ascii_digit() || ('a'..='f').contains(&c));
            }
        }
        assert_eq!(id.chars().nth(14), Some('4'));
        assert!("89ab".contains(id.chars().nth(19).unwrap()));
    }
}

#[test]
fn escaping_parts_and_length() {
    let pairs = [("", ""), ("a\"", "\\b"), ("é\\", "ü\"x"), ("plain", "text")];
    for (a, b) in pairs {
        let whole = format!("{}{}", a, b);
        assert_eq!(espace_json(&whole), format!("{}{}", espace_json(a), espace_json(b)));
        let specials = whole.chars().filter(|c| *c == '\\' || *c == '"').count();
        assert_eq!(espace_json(&whole).len(), whole.len() + specials);
        assert_eq!(espace_json(&whole).chars().count(), whole.chars().count() + specials);
    }
}
