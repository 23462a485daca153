//! The JSON shapes of the session protocol: string escaping, the session
//! response, inbound messages and save results.

use vstd::prelude::*;
use crate::error::ClientError;
use crate::scan::{
    at_top, find_member, hex_val, object_string, read_object, step, JState, Mode,
};
use crate::text::{chars_of, opt_chars, string_of};

verus! {

/// The hexadecimal digit for `d`, in lower case.
pub open spec fn hex_digit(d: u32) -> char {
    if d < 10 {
        ((d + 48) as u8) as char
    } else {
        ((d + 87) as u8) as char
    }
}

/// How `c` is written inside a JSON string: the short escapes, `\u00XX` for
/// the other control characters, and `c` itself otherwise.
pub open spec fn escape_char(c: char) -> Seq<char> {
    if c == '\\' {
        seq!['\\', '\\']
    } else if c == '"' {
        seq!['\\', '"']
    } else if c == '\n' {
        seq!['\\', 'n']
    } else if c == '\r' {
        seq!['\\', 'r']
    } else if c == '\t' {
        seq!['\\', 't']
    } else if c == '\u{8}' {
        seq!['\\', 'b']
    } else if c == '\u{c}' {
        seq!['\\', 'f']
    } else if (c as u32) < 0x20 {
        seq!['\\', 'u', '0', '0', hex_digit((c as u32) / 16), hex_digit((c as u32) % 16)]
    } else {
        seq![c]
    }
}

/// `s` written as the inside of a JSON string.
pub open spec fn escaped(s: Seq<char>) -> Seq<char>
    decreases s.len(),
{
    if s.len() == 0 {
        Seq::empty()
    } else {
        escaped(s.drop_last()) + escape_char(s.last())
    }
}

fn hex_digit_exec(d: u32) -> (r: char)
    requires
        d < 16,
    ensures
        r == hex_digit(d),
{
    if d < 10 {
        ((d + 48) as u8) as char
    } else {
        ((d + 87) as u8) as char
    }
}

/// `s` written as the inside of a JSON string.
pub fn escape_json_string(s: &str) -> (r: String)
    ensures
        r@ == escaped(s@),
{
    let v = chars_of(s);
    let mut out: Vec<char> = Vec::new();
    let mut i: usize = 0;
    assert(v@.subrange(0, 0) =~= Seq::<char>::empty());
    while i < v.len()
        invariant
            i <= v.len(),
            out@ == escaped(v@.subrange(0, i as int)),
        decreases v.len() - i,
    {
        let c = v[i];
        let ghost before = out@;
        if c == '\\' {
            out.push('\\');
            out.push('\\');
        } else if c == '"' {
            out.push('\\');
            out.push('"');
        } else if c == '\n' {
            out.push('\\');
            out.push('n');
        } else if c == '\r' {
            out.push('\\');
            out.push('r');
        } else if c == '\t' {
            out.push('\\');
            out.push('t');
        } else if c == '\u{8}' {
            out.push('\\');
            out.push('b');
        } else if c == '\u{c}' {
            out.push('\\');
            out.push('f');
        } else if (c as u32) < 0x20 {
            out.push('\\');
            out.push('u');
            out.push('0');
            out.push('0');
            out.push(hex_digit_exec((c as u32) / 16));
            out.push(hex_digit_exec((c as u32) % 16));
        } else {
            out.push(c);
        }
        assert(out@ =~= before + escape_char(c));
        assert(v@.subrange(0, i + 1).drop_last() =~= v@.subrange(0, i as int));
        i += 1;
    }
    assert(v@.subrange(0, i as int) =~= v@);
    string_of(&out)
}

/// What the server answers when a session is created.
pub struct SessionResponse {
    pub sessionid: String,
    pub editurl: String,
}

/// The `sessionid` and `editurl` members of a session response, when the
/// response is a JSON object and both are non-empty strings.
pub open spec fn session_fields(json: Seq<char>) -> Option<(Seq<char>, Seq<char>)> {
    match (object_string(json, "sessionid"@), object_string(json, "editurl"@)) {
        (Some(id), Some(url)) => if id.len() > 0 && url.len() > 0 {
            Some((id, url))
        } else {
            None
        },
        _ => None,
    }
}

/// Reads the session id and the edit URL out of a session response.
pub fn parse_session_response(json: &str) -> (r: Result<SessionResponse, ClientError>)
    ensures
        match session_fields(json@) {
            Some((id, url)) => r matches Ok(s) && s.sessionid@ == id && s.editurl@ == url,
            None => r == Err::<SessionResponse, ClientError>(ClientError::InvalidSessionResponse),
        },
{
    let v = chars_of(json);
    let members = match read_object(&v) {
        Some(m) => m,
        None => return Err(ClientError::InvalidSessionResponse),
    };
    let id_key = chars_of("sessionid");
    let url_key = chars_of("editurl");
    match (find_member(&members, &id_key), find_member(&members, &url_key)) {
        (Some(id), Some(url)) => {
            if id.len() > 0 && url.len() > 0 {
                Ok(SessionResponse { sessionid: string_of(&id), editurl: string_of(&url) })
            } else {
                Err(ClientError::InvalidSessionResponse)
            }
        },
        _ => Err(ClientError::InvalidSessionResponse),
    }
}

/// An inbound message: its `type`, and its `content` when it carries one.
pub struct WebSocketMessage {
    pub msg_type: String,
    pub content: Option<String>,
}

/// The `type` of an inbound message: a string member of a JSON object.
pub open spec fn message_type(json: Seq<char>) -> Option<Seq<char>> {
    object_string(json, "type"@)
}

/// The `content` of an inbound message, when it is a string member.
pub open spec fn message_content(json: Seq<char>) -> Option<Seq<char>> {
    object_string(json, "content"@)
}

/// Reads an inbound message; anything but a JSON object with a string `type`
/// member is malformed.
pub fn parse_websocket_message(json: &str) -> (r: Result<WebSocketMessage, ClientError>)
    ensures
        match message_type(json@) {
            Some(t) => r matches Ok(m) && m.msg_type@ == t && opt_chars(m.content)
                == message_content(json@),
            None => r == Err::<WebSocketMessage, ClientError>(ClientError::InvalidMessage),
        },
{
    let v = chars_of(json);
    let members = match read_object(&v) {
        Some(m) => m,
        None => return Err(ClientError::InvalidMessage),
    };
    let type_key = chars_of("type");
    let content_key = chars_of("content");
    match find_member(&members, &type_key) {
        Some(t) => {
            let content = match find_member(&members, &content_key) {
                Some(c) => Some(string_of(&c)),
                None => None,
            };
            Ok(WebSocketMessage { msg_type: string_of(&t), content })
        },
        None => Err(ClientError::InvalidMessage),
    }
}

/// An outbound result: its `type`, whether it reports success, and an optional reason.
pub struct ResultMessage {
    pub msg_type: String,
    pub success: bool,
    pub reason: Option<String>,
}

/// The JSON text of a result message; the `reason` field is absent when there is none.
pub open spec fn result_json(t: Seq<char>, success: bool, reason: Option<Seq<char>>) -> Seq<char> {
    "{\"type\":\""@ + escaped(t) + "\",\"success\":"@ + (if success {
        "true"@
    } else {
        "false"@
    }) + match reason {
        Some(why) => ",\"reason\":\""@ + escaped(why) + "\""@,
        None => Seq::empty(),
    } + "}"@
}

/// Writes a result message as JSON.
pub fn serialize_result_message(msg: &ResultMessage) -> (r: String)
    ensures
        r@ == result_json(msg.msg_type@, msg.success, opt_chars(msg.reason)),
{
    let mut out = String::new();
    out.append("{\"type\":\"");
    let t = escape_json_string(msg.msg_type.as_str());
    out.append(t.as_str());
    out.append("\",\"success\":");
    if msg.success {
        out.append("true");
    } else {
        out.append("false");
    }
    match &msg.reason {
        Some(why) => {
            out.append(",\"reason\":\"");
            let w = escape_json_string(why.as_str());
            out.append(w.as_str());
            out.append("\"");
        },
        None => {},
    }
    out.append("}");
    assert(out@ =~= result_json(msg.msg_type@, msg.success, opt_chars(msg.reason)));
    out
}

/// The reader's state after the characters `t`, starting from `st`.
pub open spec fn steps(st: JState, t: Seq<char>) -> JState
    decreases t.len(),
{
    if t.len() == 0 {
        st
    } else {
        step(steps(st, t.drop_last()), t.last())
    }
}

proof fn lemma_steps_concat(st: JState, a: Seq<char>, t: Seq<char>)
    ensures
        steps(st, a + t) == steps(steps(st, a), t),
    decreases t.len(),
{
    if t.len() == 0 {
        assert(a + t =~= a);
    } else {
        assert((a + t).drop_last() =~= a + t.drop_last());
        lemma_steps_concat(st, a, t.drop_last());
    }
}

/// `st` is inside a string (a key when `base` reads one), with `b` decoded so
/// far, and otherwise as `base`.
pub open spec fn reading(st: JState, base: JState, b: Seq<char>) -> bool {
    &&& st.lex.mode == Mode::Str
    &&& st.lex.in_key == base.lex.in_key
    &&& st.lex.high == 0
    &&& st.buf == b
    &&& st.stack == base.stack
    &&& st.key == base.key
    &&& st.members == base.members
}

proof fn lemma_hex_digit(d: u32)
    requires
        d < 16,
    ensures
        hex_val(hex_digit(d)) == Some(d),
{
    let c = hex_digit(d);
    if d < 10 {
        assert(c as u32 == d + 48);
    } else {
        assert(c as u32 == d + 87);
    }
}

proof fn lemma_one(st: JState, x: char)
    ensures
        steps(st, seq![x]) == step(st, x),
{
    let t = seq![x];
    assert(t.last() == x);
    assert(t.drop_last() =~= Seq::<char>::empty());
    assert(steps(st, t.drop_last()) == st);
}

proof fn lemma_two(st: JState, x: char, y: char)
    ensures
        steps(st, seq![x, y]) == step(step(st, x), y),
{
    let t = seq![x, y];
    assert(t.last() == y);
    assert(t.drop_last() =~= seq![x]);
    lemma_one(st, x);
}

proof fn lemma_plain_char_read(st: JState, base: JState, b: Seq<char>, c: char)
    requires
        reading(st, base, b),
        escape_char(c) == seq![c],
        c != '"' && c != '\\' && (c as u32) >= 0x20,
    ensures
        reading(steps(st, escape_char(c)), base, b.push(c)),
{
    lemma_one(st, c);
}

proof fn lemma_short_escape_read(st: JState, base: JState, b: Seq<char>, c: char, code: char)
    requires
        reading(st, base, b),
        escape_char(c) == seq!['\\', code],
        code != 'u',
        (code == '"' || code == '\\' || code == '/') ==> c == code,
        code == 'b' ==> c == '\u{8}',
        code == 'f' ==> c == '\u{c}',
        code == 'n' ==> c == '\n',
        code == 'r' ==> c == '\r',
        code == 't' ==> c == '\t',
        code == '"' || code == '\\' || code == 'b' || code == 'f' || code == 'n' || code == 'r'
            || code == 't',
    ensures
        reading(steps(st, escape_char(c)), base, b.push(c)),
{
    lemma_two(st, '\\', code);
}

#[verifier::rlimit(50)]
proof fn lemma_hex_escape_read(st: JState, base: JState, b: Seq<char>, c: char)
    requires
        reading(st, base, b),
        (c as u32) < 0x20,
        escape_char(c) == seq!['\\', 'u', '0', '0', hex_digit((c as u32) / 16), hex_digit(
            (c as u32) % 16,
        )],
    ensures
        reading(steps(st, escape_char(c)), base, b.push(c)),
{
    let v = c as u32;
    let h = v / 16;
    let l = v % 16;
    lemma_hex_digit(h);
    lemma_hex_digit(l);
    assert(hex_val('0') == Some(0u32));
    let t = seq!['0', '0', hex_digit(h), hex_digit(l)];
    assert(escape_char(c) =~= seq!['\\', 'u'] + t);
    lemma_steps_concat(st, seq!['\\', 'u'], t);
    lemma_two(st, '\\', 'u');
    let s2 = step(step(st, '\\'), 'u');
    assert(s2.lex.mode == Mode::Hex && s2.lex.hex_n == 0 && s2.lex.hex_v == 0 && s2.lex.high == 0);
    let s3 = step(s2, '0');
    assert(s3.lex.mode == Mode::Hex && s3.lex.hex_n == 1 && s3.lex.hex_v == 0);
    let s4 = step(s3, '0');
    assert(s4.lex.mode == Mode::Hex && s4.lex.hex_n == 2 && s4.lex.hex_v == 0);
    let s5 = step(s4, hex_digit(h));
    assert(s5.lex.mode == Mode::Hex && s5.lex.hex_n == 3 && s5.lex.hex_v == h);
    assert(h * 16 + l == v);
    vstd::utf8::char_u32_cast(c, v);
    assert(crate::scan::char_of(v) == Some(c));
    let s6 = step(s5, hex_digit(l));
    assert(reading(s6, base, b.push(c)));
    assert(t.drop_last() =~= seq!['0', '0', hex_digit(h)]);
    assert(t.drop_last().drop_last() =~= seq!['0', '0']);
    lemma_two(s2, '0', '0');
    assert(steps(s2, t.drop_last()) == s5);
}

proof fn lemma_escape_char_read(st: JState, base: JState, b: Seq<char>, c: char)
    requires
        reading(st, base, b),
    ensures
        reading(steps(st, escape_char(c)), base, b.push(c)),
{
    if c == '\\' {
        lemma_short_escape_read(st, base, b, c, '\\');
    } else if c == '"' {
        lemma_short_escape_read(st, base, b, c, '"');
    } else if c == '\n' {
        lemma_short_escape_read(st, base, b, c, 'n');
    } else if c == '\r' {
        lemma_short_escape_read(st, base, b, c, 'r');
    } else if c == '\t' {
        lemma_short_escape_read(st, base, b, c, 't');
    } else if c == '\u{8}' {
        lemma_short_escape_read(st, base, b, c, 'b');
    } else if c == '\u{c}' {
        lemma_short_escape_read(st, base, b, c, 'f');
    } else if (c as u32) < 0x20 {
        lemma_hex_escape_read(st, base, b, c);
    } else {
        lemma_plain_char_read(st, base, b, c);
    }
}

proof fn lemma_escaped_read(st: JState, c: Seq<char>)
    requires
        reading(st, st, st.buf),
    ensures
        reading(steps(st, escaped(c)), st, st.buf + c),
    decreases c.len(),
{
    if c.len() == 0 {
        assert(st.buf + c =~= st.buf);
    } else {
        lemma_escaped_read(st, c.drop_last());
        lemma_steps_concat(st, escaped(c.drop_last()), escape_char(c.last()));
        lemma_escape_char_read(steps(st, escaped(c.drop_last())), st, st.buf + c.drop_last(), c.last());
        assert((st.buf + c.drop_last()).push(c.last()) =~= st.buf + c);
    }
}

/// A string written with the standard JSON escapes, as a value of the
/// top-level object, is read back as exactly that string: the member that the
/// reader records holds `c`, whatever characters `c` holds.
pub proof fn lemma_string_member_round_trip(st: JState, c: Seq<char>)
    requires
        st.lex.mode == Mode::Value,
        at_top(st),
    ensures
        steps(st, seq!['"'] + escaped(c) + seq!['"']).lex.mode == Mode::After,
        steps(st, seq!['"'] + escaped(c) + seq!['"']).stack == st.stack,
        steps(st, seq!['"'] + escaped(c) + seq!['"']).members == st.members.push(
            (st.key, Some(c)),
        ),
{
    let s1 = step(st, '"');
    lemma_one(st, '"');
    assert(reading(s1, s1, Seq::empty()));
    assert(!s1.lex.in_key);
    lemma_escaped_read(s1, c);
    assert(Seq::<char>::empty() + c =~= c);
    lemma_steps_concat(st, seq!['"'], escaped(c));
    lemma_steps_concat(st, seq!['"'] + escaped(c), seq!['"']);
    lemma_one(steps(st, seq!['"'] + escaped(c)), '"');
}

/// A string token: the string `c` written with the standard escapes, in quotes.
pub open spec fn token(c: Seq<char>) -> Seq<char> {
    seq!['"'] + escaped(c) + seq!['"']
}

proof fn lemma_key_round_trip(st: JState, c: Seq<char>)
    requires
        st.lex.mode == Mode::Key || st.lex.mode == Mode::KeyOrClose,
        at_top(st),
    ensures
        steps(st, token(c)).lex.mode == Mode::Colon,
        steps(st, token(c)).stack == st.stack,
        steps(st, token(c)).key == c,
        steps(st, token(c)).members == st.members,
{
    let s1 = step(st, '"');
    lemma_one(st, '"');
    assert(reading(s1, s1, Seq::empty()));
    assert(s1.lex.in_key);
    lemma_escaped_read(s1, c);
    assert(Seq::<char>::empty() + c =~= c);
    lemma_steps_concat(st, seq!['"'], escaped(c));
    lemma_steps_concat(st, seq!['"'] + escaped(c), seq!['"']);
    lemma_one(steps(st, seq!['"'] + escaped(c)), '"');
}

proof fn lemma_scan_is_steps(s: Seq<char>)
    ensures
        crate::scan::scan_text(s) == steps(crate::scan::init_state(), s),
    decreases s.len(),
{
    if s.len() > 0 {
        lemma_scan_is_steps(s.drop_last());
    }
}

/// The JSON object with two string members, `a: x` and then `b: y`, every
/// string written with the standard escapes.
pub open spec fn two_member_object(a: Seq<char>, x: Seq<char>, b: Seq<char>, y: Seq<char>) -> Seq<char> {
    seq!['{'] + token(a) + seq![':'] + token(x) + seq![','] + token(b) + seq![':'] + token(y) + seq![
        '}',
    ]
}

/// The object with members `a: x` and `b: y` is read as exactly those two members.
#[verifier::rlimit(50)]
pub proof fn lemma_two_member_object(a: Seq<char>, x: Seq<char>, b: Seq<char>, y: Seq<char>)
    ensures
        crate::scan::json_members(two_member_object(a, x, b, y)) == Some(
            seq![(a, Some(x)), (b, Some(y))],
        ),
{
    let p1 = seq!['{'];
    let p2 = p1 + token(a);
    let p3 = p2 + seq![':'];
    let p4 = p3 + token(x);
    let p5 = p4 + seq![','];
    let p6 = p5 + token(b);
    let p7 = p6 + seq![':'];
    let p8 = p7 + token(y);
    let f = p8 + seq!['}'];
    assert(f =~= two_member_object(a, x, b, y));
    let s0 = crate::scan::init_state();
    lemma_one(s0, '{');
    let s1 = steps(s0, p1);
    assert(s1.lex.mode == Mode::KeyOrClose && s1.stack =~= seq![true] && s1.members.len() == 0);
    lemma_steps_concat(s0, p1, token(a));
    lemma_key_round_trip(s1, a);
    let s2 = steps(s0, p2);
    lemma_steps_concat(s0, p2, seq![':']);
    lemma_one(s2, ':');
    let s3 = steps(s0, p3);
    assert(s3.lex.mode == Mode::Value && s3.key == a && s3.stack == s1.stack);
    lemma_steps_concat(s0, p3, token(x));
    lemma_string_member_round_trip(s3, x);
    let s4 = steps(s0, p4);
    assert(s4.members =~= seq![(a, Some(x))]);
    lemma_steps_concat(s0, p4, seq![',']);
    lemma_one(s4, ',');
    let s5 = steps(s0, p5);
    assert(s5.lex.mode == Mode::Key && s5.stack == s1.stack && s5.members == s4.members);
    lemma_steps_concat(s0, p5, token(b));
    lemma_key_round_trip(s5, b);
    let s6 = steps(s0, p6);
    lemma_steps_concat(s0, p6, seq![':']);
    lemma_one(s6, ':');
    let s7 = steps(s0, p7);
    assert(s7.lex.mode == Mode::Value && s7.key == b && s7.stack == s1.stack);
    lemma_steps_concat(s0, p7, token(y));
    lemma_string_member_round_trip(s7, y);
    let s8 = steps(s0, p8);
    assert(s8.members =~= seq![(a, Some(x)), (b, Some(y))]);
    lemma_steps_concat(s0, p8, seq!['}']);
    lemma_one(s8, '}');
    let s9 = steps(s0, f);
    assert(s9.lex.mode == Mode::After && s9.stack.len() == 0);
    lemma_scan_is_steps(f);
}

proof fn lemma_second_member(a: Seq<char>, x: Seq<char>, b: Seq<char>, y: Seq<char>)
    requires
        a != b,
    ensures
        crate::scan::member_string(seq![(a, Some(x)), (b, Some(y))], a) == Some(x),
        crate::scan::member_string(seq![(a, Some(x)), (b, Some(y))], b) == Some(y),
{
    let ms = seq![(a, Some(x)), (b, Some(y))];
    assert(ms.subrange(1, 2) =~= seq![(b, Some(y))]);
    assert(crate::scan::member_string(seq![(b, Some(y))], b) == Some(y));
}

/// The save frame that carries `c`, every string written with the standard
/// JSON escapes: `{"type":"save","content":"..."}`.
pub open spec fn save_frame(c: Seq<char>) -> Seq<char> {
    two_member_object("type"@, "save"@, "content"@, c)
}

/// Whatever string `c` is, the save frame that carries it is read as a save
/// whose content is exactly `c`.
pub proof fn lemma_save_frame_read_back(c: Seq<char>)
    ensures
        message_type(save_frame(c)) == Some("save"@),
        message_content(save_frame(c)) == Some(c),
{
    lemma_two_member_object("type"@, "save"@, "content"@, c);
    reveal_strlit("type");
    reveal_strlit("content");
    assert("type"@.len() != "content"@.len());
    lemma_second_member("type"@, "save"@, "content"@, c);
}

/// A session response `{"sessionid":"...","editurl":"..."}` with non-empty
/// values, every string written with the standard JSON escapes.
pub open spec fn session_body(id: Seq<char>, url: Seq<char>) -> Seq<char> {
    two_member_object("sessionid"@, id, "editurl"@, url)
}

/// A session response is read as exactly its session id and edit URL.
pub proof fn lemma_session_body_read_back(id: Seq<char>, url: Seq<char>)
    requires
        id.len() > 0,
        url.len() > 0,
    ensures
        session_fields(session_body(id, url)) == Some((id, url)),
{
    lemma_two_member_object("sessionid"@, id, "editurl"@, url);
    reveal_strlit("sessionid");
    reveal_strlit("editurl");
    assert("sessionid"@.len() != "editurl"@.len());
    lemma_second_member("sessionid"@, id, "editurl"@, url);
}

} // verus!
