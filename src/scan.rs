//! A JSON reader for objects: a state machine that takes one character at a
//! time, checks the full JSON grammar (nested values, numbers, literals, all
//! string escapes with surrogate pairs) and collects the members of the
//! top-level object whose values are strings.

use vstd::prelude::*;
use vstd::utf8::is_scalar;
use crate::text::{opt_seq, slice_chars};

verus! {

/// What the reader expects next.
#[derive(Debug, Clone, Copy, PartialEq, Eq, Structural)]
pub enum Mode {
    /// Before the top-level object.
    Start,
    /// A value.
    Value,
    /// A value or the end of an array.
    ValueOrClose,
    /// A key or the end of an object.
    KeyOrClose,
    /// A key.
    Key,
    /// The colon after a key.
    Colon,
    /// A comma, the end of a container, or the end of the text.
    After,
    /// The next character of a string.
    Str,
    /// The character after a backslash.
    Esc,
    /// A hexadecimal digit of a `\u` escape.
    Hex,
    /// The next letter of `true`, `false` or `null`.
    Lit,
    /// The next character of a number.
    Num,
    /// The text is not JSON.
    Fail,
}

/// The reader's fixed-size state.
#[derive(Debug, Clone, Copy, PartialEq, Eq, Structural)]
pub struct Lex {
    pub mode: Mode,
    /// The string being read is a key.
    pub in_key: bool,
    /// Digits read of the current `\u` escape, and their value.
    pub hex_n: u8,
    pub hex_v: u32,
    /// A leading surrogate waiting for its trailing half, or zero.
    pub high: u32,
    /// Which literal is being read (`true`, `false`, `null`) and how far.
    pub lit: u8,
    pub lit_i: u8,
    /// Where in a number: after `-`, `0`, digits, `.`, fraction, `e`, exponent sign, exponent.
    pub num: u8,
}

/// A member of the top-level object: its key, and its value when that is a string.
pub type Member = (Seq<char>, Option<Seq<char>>);

/// The reader's whole state.
pub struct JState {
    pub lex: Lex,
    /// The open containers, innermost last: `true` for an object.
    pub stack: Seq<bool>,
    /// The string being read, decoded.
    pub buf: Seq<char>,
    /// The key of the top-level member being read.
    pub key: Seq<char>,
    /// The members of the top-level object read so far.
    pub members: Seq<Member>,
}

pub open spec fn init_lex() -> Lex {
    Lex { mode: Mode::Start, in_key: false, hex_n: 0, hex_v: 0, high: 0, lit: 0, lit_i: 0, num: 0 }
}

pub open spec fn init_state() -> JState {
    JState {
        lex: init_lex(),
        stack: Seq::empty(),
        buf: Seq::empty(),
        key: Seq::empty(),
        members: Seq::empty(),
    }
}

/// JSON white space.
pub open spec fn is_ws(c: char) -> bool {
    c == ' ' || c == '\t' || c == '\n' || c == '\r'
}

pub open spec fn with_lex(st: JState, lex: Lex) -> JState {
    JState { lex, ..st }
}

pub open spec fn with_mode(st: JState, m: Mode) -> JState {
    with_lex(st, Lex { mode: m, ..st.lex })
}

pub open spec fn failed(st: JState) -> JState {
    with_mode(st, Mode::Fail)
}

/// Inside the top-level object, where members are collected.
pub open spec fn at_top(st: JState) -> bool {
    st.stack.len() == 1
}

/// Records a top-level member whose value is not a string.
pub open spec fn note_other(st: JState) -> JState {
    if at_top(st) {
        JState { members: st.members.push((st.key, None)), ..st }
    } else {
        st
    }
}

pub open spec fn push_buf(st: JState, c: char) -> JState {
    JState { lex: Lex { mode: Mode::Str, ..st.lex }, buf: st.buf.push(c), ..st }
}

pub open spec fn begin_string(st: JState, in_key: bool) -> JState {
    JState { lex: Lex { mode: Mode::Str, in_key, high: 0, ..st.lex }, buf: Seq::empty(), ..st }
}

pub open spec fn open_container(st: JState, obj: bool) -> JState {
    let s1 = note_other(st);
    JState {
        lex: Lex { mode: if obj { Mode::KeyOrClose } else { Mode::ValueOrClose }, ..s1.lex },
        stack: s1.stack.push(obj),
        ..s1
    }
}

pub open spec fn begin_lit(st: JState, lit: u8) -> JState {
    let s1 = note_other(st);
    with_lex(s1, Lex { mode: Mode::Lit, lit, lit_i: 1, ..s1.lex })
}

pub open spec fn begin_num(st: JState, num: u8) -> JState {
    let s1 = note_other(st);
    with_lex(s1, Lex { mode: Mode::Num, num, ..s1.lex })
}

pub open spec fn is_digit(c: char) -> bool {
    '0' <= c && c <= '9'
}

/// The first character of a value.
pub open spec fn begin_value(st: JState, c: char) -> JState {
    if c == '{' {
        open_container(st, true)
    } else if c == '[' {
        open_container(st, false)
    } else if c == '"' {
        begin_string(st, false)
    } else if c == 't' {
        begin_lit(st, 0)
    } else if c == 'f' {
        begin_lit(st, 1)
    } else if c == 'n' {
        begin_lit(st, 2)
    } else if c == '-' {
        begin_num(st, 0)
    } else if c == '0' {
        begin_num(st, 1)
    } else if is_digit(c) {
        begin_num(st, 2)
    } else {
        failed(st)
    }
}

/// The end of an object (`obj`) or an array.
pub open spec fn close(st: JState, obj: bool) -> JState {
    if st.stack.len() > 0 && st.stack.last() == obj {
        JState { lex: Lex { mode: Mode::After, ..st.lex }, stack: st.stack.drop_last(), ..st }
    } else {
        failed(st)
    }
}

/// A character after a value.
pub open spec fn after_step(st: JState, c: char) -> JState {
    if is_ws(c) {
        st
    } else if c == ',' && st.stack.len() > 0 {
        with_mode(st, if st.stack.last() { Mode::Key } else { Mode::Value })
    } else if c == ']' {
        close(st, false)
    } else if c == '}' {
        close(st, true)
    } else {
        failed(st)
    }
}

/// The closing quote of a string.
pub open spec fn end_string(st: JState) -> JState {
    if st.lex.in_key {
        JState {
            lex: Lex { mode: Mode::Colon, ..st.lex },
            key: if at_top(st) { st.buf } else { st.key },
            ..st
        }
    } else {
        JState {
            lex: Lex { mode: Mode::After, ..st.lex },
            members: if at_top(st) { st.members.push((st.key, Some(st.buf))) } else { st.members },
            ..st
        }
    }
}

/// The value of a hexadecimal digit.
pub open spec fn hex_val(c: char) -> Option<u32> {
    if '0' <= c && c <= '9' {
        Some((c as u32 - '0' as u32) as u32)
    } else if 'a' <= c && c <= 'f' {
        Some((c as u32 - 'a' as u32 + 10) as u32)
    } else if 'A' <= c && c <= 'F' {
        Some((c as u32 - 'A' as u32 + 10) as u32)
    } else {
        None
    }
}

/// The character with code point `v`, if there is one.
pub open spec fn char_of(v: u32) -> Option<char> {
    if is_scalar(v) {
        Some(v as char)
    } else {
        None
    }
}

pub open spec fn push_code(st: JState, v: u32) -> JState {
    match char_of(v) {
        Some(ch) => push_buf(with_lex(st, Lex { high: 0, ..st.lex }), ch),
        None => failed(st),
    }
}

/// A `\u` escape whose four digits make `v`.
pub open spec fn complete_hex(st: JState, v: u32) -> JState {
    if st.lex.high != 0 {
        if 0xDC00 <= v && v <= 0xDFFF && 0xD800 <= st.lex.high && st.lex.high <= 0xDBFF {
            push_code(st, (0x10000 + (st.lex.high - 0xD800) * 0x400 + (v - 0xDC00)) as u32)
        } else {
            failed(st)
        }
    } else if 0xD800 <= v && v <= 0xDBFF {
        with_lex(st, Lex { mode: Mode::Str, high: v, ..st.lex })
    } else {
        push_code(st, v)
    }
}

/// The letter at index `i` of literal `lit`.
pub open spec fn lit_char(lit: u8, i: u8) -> Option<char> {
    if lit == 0 {
        if i == 0 { Some('t') } else if i == 1 { Some('r') } else if i == 2 { Some('u') }
        else if i == 3 { Some('e') } else { None }
    } else if lit == 1 {
        if i == 0 { Some('f') } else if i == 1 { Some('a') } else if i == 2 { Some('l') }
        else if i == 3 { Some('s') } else if i == 4 { Some('e') } else { None }
    } else {
        if i == 0 { Some('n') } else if i == 1 { Some('u') } else if i == 2 { Some('l') }
        else if i == 3 { Some('l') } else { None }
    }
}

pub open spec fn lit_len(lit: u8) -> u8 {
    if lit == 1 { 5 } else { 4 }
}

/// A character inside a number.
pub open spec fn num_step(st: JState, c: char) -> JState {
    let n = st.lex.num;
    let go = |k: u8| with_lex(st, Lex { num: k, ..st.lex });
    let end = after_step(with_mode(st, Mode::After), c);
    if n == 0 {
        if c == '0' { go(1) } else if is_digit(c) { go(2) } else { failed(st) }
    } else if n == 1 || n == 2 {
        if n == 2 && is_digit(c) { go(2) } else if c == '.' { go(3) }
        else if c == 'e' || c == 'E' { go(5) } else { end }
    } else if n == 3 || n == 4 {
        if is_digit(c) { go(4) } else if n == 4 && (c == 'e' || c == 'E') { go(5) }
        else if n == 4 { end } else { failed(st) }
    } else if n == 5 {
        if c == '+' || c == '-' { go(6) } else if is_digit(c) { go(7) } else { failed(st) }
    } else {
        if is_digit(c) { go(7) } else if n == 7 { end } else { failed(st) }
    }
}

/// The reader's state after one more character.
pub open spec fn step(st: JState, c: char) -> JState {
    match st.lex.mode {
        Mode::Start => if is_ws(c) { st } else if c == '{' { open_container(st, true) } else { failed(st) },
        Mode::Value => if is_ws(c) { st } else { begin_value(st, c) },
        Mode::ValueOrClose => if is_ws(c) { st } else if c == ']' { close(st, false) } else {
            begin_value(st, c)
        },
        Mode::KeyOrClose => if is_ws(c) { st } else if c == '"' { begin_string(st, true) } else if c
            == '}' {
            close(st, true)
        } else {
            failed(st)
        },
        Mode::Key => if is_ws(c) { st } else if c == '"' { begin_string(st, true) } else { failed(st) },
        Mode::Colon => if is_ws(c) { st } else if c == ':' { with_mode(st, Mode::Value) } else {
            failed(st)
        },
        Mode::After => after_step(st, c),
        Mode::Str => if st.lex.high != 0 {
            if c == '\\' { with_mode(st, Mode::Esc) } else { failed(st) }
        } else if c == '"' {
            end_string(st)
        } else if c == '\\' {
            with_mode(st, Mode::Esc)
        } else if (c as u32) < 0x20 {
            failed(st)
        } else {
            push_buf(st, c)
        },
        Mode::Esc => if c == 'u' {
            with_lex(st, Lex { mode: Mode::Hex, hex_n: 0, hex_v: 0, ..st.lex })
        } else if st.lex.high != 0 {
            failed(st)
        } else if c == '"' || c == '\\' || c == '/' {
            push_buf(st, c)
        } else if c == 'b' {
            push_buf(st, '\u{8}')
        } else if c == 'f' {
            push_buf(st, '\u{c}')
        } else if c == 'n' {
            push_buf(st, '\n')
        } else if c == 'r' {
            push_buf(st, '\r')
        } else if c == 't' {
            push_buf(st, '\t')
        } else {
            failed(st)
        },
        Mode::Hex => match hex_val(c) {
            Some(d) => if st.lex.hex_v >= 0x1000 {
                failed(st)
            } else if st.lex.hex_n < 3 {
                with_lex(
                    st,
                    Lex { hex_n: (st.lex.hex_n + 1) as u8, hex_v: (st.lex.hex_v * 16 + d) as u32, ..st.lex },
                )
            } else {
                complete_hex(st, (st.lex.hex_v * 16 + d) as u32)
            },
            None => failed(st),
        },
        Mode::Lit => if lit_char(st.lex.lit, st.lex.lit_i) == Some(c) {
            if st.lex.lit_i + 1 == lit_len(st.lex.lit) {
                with_mode(st, Mode::After)
            } else {
                with_lex(st, Lex { lit_i: (st.lex.lit_i + 1) as u8, ..st.lex })
            }
        } else {
            failed(st)
        },
        Mode::Num => num_step(st, c),
        Mode::Fail => st,
    }
}

/// The reader's state after the characters of `s`.
pub open spec fn scan_text(s: Seq<char>) -> JState
    decreases s.len(),
{
    if s.len() == 0 {
        init_state()
    } else {
        step(scan_text(s.drop_last()), s.last())
    }
}

/// The members of the top-level object, when `s` is exactly one JSON object
/// with optional white space around it.
pub open spec fn json_members(s: Seq<char>) -> Option<Seq<Member>> {
    let st = scan_text(s);
    if st.lex.mode == Mode::After && st.stack.len() == 0 {
        Some(st.members)
    } else {
        None
    }
}

/// The string value of the first member named `k`, if that value is a string.
pub open spec fn member_string(ms: Seq<Member>, k: Seq<char>) -> Option<Seq<char>>
    decreases ms.len(),
{
    if ms.len() == 0 {
        None
    } else if ms[0].0 == k {
        ms[0].1
    } else {
        member_string(ms.subrange(1, ms.len() as int), k)
    }
}

/// The string value of member `k` of the JSON object `s`.
pub open spec fn object_string(s: Seq<char>, k: Seq<char>) -> Option<Seq<char>> {
    match json_members(s) {
        Some(ms) => member_string(ms, k),
        None => None,
    }
}

/// A member as the reader's state holds it, seen through its view.
pub open spec fn member_view(m: (Vec<char>, Option<Vec<char>>)) -> Member {
    (m.0@, opt_seq(m.1))
}

/// The views of a list of members.
pub open spec fn members_view(ms: Seq<(Vec<char>, Option<Vec<char>>)>) -> Seq<Member> {
    ms.map_values(|m: (Vec<char>, Option<Vec<char>>)| member_view(m))
}

/// Relies on `char::from_u32`: the character with code point `v`, or `None`
/// exactly when `v` is no Unicode scalar value.
#[verifier::external_body]
fn char_from_u32(v: u32) -> (r: Option<char>)
    ensures
        r == char_of(v),
{
    char::from_u32(v)
}

fn copy_chars(v: &Vec<char>) -> (r: Vec<char>)
    ensures
        r@ == v@,
{
    let r = slice_chars(v, 0, v.len());
    assert(v@.subrange(0, v@.len() as int) =~= v@);
    r
}

fn ws_char(c: char) -> (r: bool)
    ensures
        r == is_ws(c),
{
    c == ' ' || c == '\t' || c == '\n' || c == '\r'
}

fn digit_char(c: char) -> (r: bool)
    ensures
        r == is_digit(c),
{
    '0' <= c && c <= '9'
}

fn hex_value(c: char) -> (r: Option<u32>)
    ensures
        r == hex_val(c),
{
    if '0' <= c && c <= '9' {
        Some(c as u32 - '0' as u32)
    } else if 'a' <= c && c <= 'f' {
        Some(c as u32 - 'a' as u32 + 10)
    } else if 'A' <= c && c <= 'F' {
        Some(c as u32 - 'A' as u32 + 10)
    } else {
        None
    }
}

fn lit_char_exec(lit: u8, i: u8) -> (r: Option<char>)
    ensures
        r == lit_char(lit, i),
{
    if lit == 0 {
        if i == 0 { Some('t') } else if i == 1 { Some('r') } else if i == 2 { Some('u') }
        else if i == 3 { Some('e') } else { None }
    } else if lit == 1 {
        if i == 0 { Some('f') } else if i == 1 { Some('a') } else if i == 2 { Some('l') }
        else if i == 3 { Some('s') } else if i == 4 { Some('e') } else { None }
    } else {
        if i == 0 { Some('n') } else if i == 1 { Some('u') } else if i == 2 { Some('l') }
        else if i == 3 { Some('l') } else { None }
    }
}

/// The reader, one character at a time.
pub struct Scanner {
    pub lex: Lex,
    pub stack: Vec<bool>,
    pub buf: Vec<char>,
    pub key: Vec<char>,
    pub members: Vec<(Vec<char>, Option<Vec<char>>)>,
}

impl View for Scanner {
    type V = JState;

    open spec fn view(&self) -> JState {
        JState {
            lex: self.lex,
            stack: self.stack@,
            buf: self.buf@,
            key: self.key@,
            members: members_view(self.members@),
        }
    }
}

impl Scanner {
    pub fn new() -> (r: Scanner)
        ensures
            r@ == init_state(),
    {
        let r = Scanner {
            lex: Lex { mode: Mode::Start, in_key: false, hex_n: 0, hex_v: 0, high: 0, lit: 0, lit_i: 0, num: 0 },
            stack: Vec::new(),
            buf: Vec::new(),
            key: Vec::new(),
            members: Vec::new(),
        };
        assert(members_view(r.members@) =~= Seq::<Member>::empty());
        r
    }

    fn fail(&mut self)
        ensures
            final(self)@ == failed(old(self)@),
    {
        self.lex.mode = Mode::Fail;
    }

    fn set_mode(&mut self, m: Mode)
        ensures
            final(self)@ == with_mode(old(self)@, m),
    {
        self.lex.mode = m;
    }

    fn note_other(&mut self)
        ensures
            final(self)@ == note_other(old(self)@),
    {
        if self.stack.len() == 1 {
            let k = copy_chars(&self.key);
            let ghost before = self.members@;
            self.members.push((k, None));
            assert(members_view(self.members@) =~= members_view(before).push((self.key@, None)));
        }
    }

    fn push_buf(&mut self, c: char)
        ensures
            final(self)@ == push_buf(old(self)@, c),
    {
        self.lex.mode = Mode::Str;
        self.buf.push(c);
    }

    fn begin_string(&mut self, in_key: bool)
        ensures
            final(self)@ == begin_string(old(self)@, in_key),
    {
        self.lex.mode = Mode::Str;
        self.lex.in_key = in_key;
        self.lex.high = 0;
        self.buf = Vec::new();
    }

    fn open_container(&mut self, obj: bool)
        ensures
            final(self)@ == open_container(old(self)@, obj),
    {
        self.note_other();
        self.lex.mode = if obj { Mode::KeyOrClose } else { Mode::ValueOrClose };
        self.stack.push(obj);
    }

    fn begin_lit(&mut self, lit: u8)
        ensures
            final(self)@ == begin_lit(old(self)@, lit),
    {
        self.note_other();
        self.lex.mode = Mode::Lit;
        self.lex.lit = lit;
        self.lex.lit_i = 1;
    }

    fn begin_num(&mut self, num: u8)
        ensures
            final(self)@ == begin_num(old(self)@, num),
    {
        self.note_other();
        self.lex.mode = Mode::Num;
        self.lex.num = num;
    }

    fn begin_value(&mut self, c: char)
        ensures
            final(self)@ == begin_value(old(self)@, c),
    {
        if c == '{' {
            self.open_container(true)
        } else if c == '[' {
            self.open_container(false)
        } else if c == '"' {
            self.begin_string(false)
        } else if c == 't' {
            self.begin_lit(0)
        } else if c == 'f' {
            self.begin_lit(1)
        } else if c == 'n' {
            self.begin_lit(2)
        } else if c == '-' {
            self.begin_num(0)
        } else if c == '0' {
            self.begin_num(1)
        } else if digit_char(c) {
            self.begin_num(2)
        } else {
            self.fail()
        }
    }

    fn close(&mut self, obj: bool)
        ensures
            final(self)@ == close(old(self)@, obj),
    {
        let n = self.stack.len();
        if n > 0 && self.stack[n - 1] == obj {
            self.lex.mode = Mode::After;
            self.stack.pop();
        } else {
            self.fail();
        }
    }

    fn after_step(&mut self, c: char)
        ensures
            final(self)@ == after_step(old(self)@, c),
    {
        let n = self.stack.len();
        if ws_char(c) {
        } else if c == ',' && n > 0 {
            let m = if self.stack[n - 1] { Mode::Key } else { Mode::Value };
            self.set_mode(m);
        } else if c == ']' {
            self.close(false);
        } else if c == '}' {
            self.close(true);
        } else {
            self.fail();
        }
    }

    fn end_string(&mut self)
        ensures
            final(self)@ == end_string(old(self)@),
    {
        let top = self.stack.len() == 1;
        if self.lex.in_key {
            self.lex.mode = Mode::Colon;
            if top {
                self.key = copy_chars(&self.buf);
            }
        } else {
            self.lex.mode = Mode::After;
            if top {
                let k = copy_chars(&self.key);
                let b = copy_chars(&self.buf);
                let ghost before = self.members@;
                self.members.push((k, Some(b)));
                assert(members_view(self.members@) =~= members_view(before).push(
                    (self.key@, Some(self.buf@)),
                ));
            }
        }
    }

    fn push_code(&mut self, v: u32)
        ensures
            final(self)@ == push_code(old(self)@, v),
    {
        match char_from_u32(v) {
            Some(ch) => {
                self.lex.high = 0;
                self.push_buf(ch);
            },
            None => self.fail(),
        }
    }

    fn complete_hex(&mut self, v: u32)
        ensures
            final(self)@ == complete_hex(old(self)@, v),
    {
        let high = self.lex.high;
        if high != 0 {
            if 0xDC00 <= v && v <= 0xDFFF && 0xD800 <= high && high <= 0xDBFF {
                self.push_code(0x10000 + (high - 0xD800) * 0x400 + (v - 0xDC00));
            } else {
                self.fail();
            }
        } else if 0xD800 <= v && v <= 0xDBFF {
            self.lex.mode = Mode::Str;
            self.lex.high = v;
        } else {
            self.push_code(v);
        }
    }

    fn num_step(&mut self, c: char)
        ensures
            final(self)@ == num_step(old(self)@, c),
    {
        let n = self.lex.num;
        let d = digit_char(c);
        let k: u8 = if n == 0 {
            if c == '0' { 1 } else if d { 2 } else { 255 }
        } else if n == 1 || n == 2 {
            if n == 2 && d { 2 } else if c == '.' { 3 } else if c == 'e' || c == 'E' { 5 } else { 254 }
        } else if n == 3 || n == 4 {
            if d { 4 } else if n == 4 && (c == 'e' || c == 'E') { 5 } else if n == 4 { 254 } else { 255 }
        } else if n == 5 {
            if c == '+' || c == '-' { 6 } else if d { 7 } else { 255 }
        } else {
            if d { 7 } else if n == 7 { 254 } else { 255 }
        };
        if k == 255 {
            self.fail();
        } else if k == 254 {
            self.set_mode(Mode::After);
            self.after_step(c);
        } else {
            self.lex.num = k;
        }
    }

    /// Takes in one more character.
    pub fn step(&mut self, c: char)
        ensures
            final(self)@ == step(old(self)@, c),
    {
        match self.lex.mode {
            Mode::Start => if ws_char(c) {
            } else if c == '{' {
                self.open_container(true)
            } else {
                self.fail()
            },
            Mode::Value => if ws_char(c) {
            } else {
                self.begin_value(c)
            },
            Mode::ValueOrClose => if ws_char(c) {
            } else if c == ']' {
                self.close(false)
            } else {
                self.begin_value(c)
            },
            Mode::KeyOrClose => if ws_char(c) {
            } else if c == '"' {
                self.begin_string(true)
            } else if c == '}' {
                self.close(true)
            } else {
                self.fail()
            },
            Mode::Key => if ws_char(c) {
            } else if c == '"' {
                self.begin_string(true)
            } else {
                self.fail()
            },
            Mode::Colon => if ws_char(c) {
            } else if c == ':' {
                self.set_mode(Mode::Value)
            } else {
                self.fail()
            },
            Mode::After => self.after_step(c),
            Mode::Str => if self.lex.high != 0 {
                if c == '\\' {
                    self.set_mode(Mode::Esc)
                } else {
                    self.fail()
                }
            } else if c == '"' {
                self.end_string()
            } else if c == '\\' {
                self.set_mode(Mode::Esc)
            } else if (c as u32) < 0x20 {
                self.fail()
            } else {
                self.push_buf(c)
            },
            Mode::Esc => if c == 'u' {
                self.lex.mode = Mode::Hex;
                self.lex.hex_n = 0;
                self.lex.hex_v = 0;
            } else if self.lex.high != 0 {
                self.fail()
            } else if c == '"' || c == '\\' || c == '/' {
                self.push_buf(c)
            } else if c == 'b' {
                self.push_buf('\u{8}')
            } else if c == 'f' {
                self.push_buf('\u{c}')
            } else if c == 'n' {
                self.push_buf('\n')
            } else if c == 'r' {
                self.push_buf('\r')
            } else if c == 't' {
                self.push_buf('\t')
            } else {
                self.fail()
            },
            Mode::Hex => match hex_value(c) {
                Some(d) => if self.lex.hex_v >= 0x1000 {
                    self.fail()
                } else if self.lex.hex_n < 3 {
                    self.lex.hex_n = self.lex.hex_n + 1;
                    self.lex.hex_v = self.lex.hex_v * 16 + d;
                } else {
                    let v = self.lex.hex_v * 16 + d;
                    self.complete_hex(v)
                },
                None => self.fail(),
            },
            Mode::Lit => {
                let want = lit_char_exec(self.lex.lit, self.lex.lit_i);
                if want == Some(c) {
                    if self.lex.lit_i + 1 == (if self.lex.lit == 1 { 5u8 } else { 4u8 }) {
                        self.set_mode(Mode::After)
                    } else {
                        self.lex.lit_i = self.lex.lit_i + 1;
                    }
                } else {
                    self.fail()
                }
            },
            Mode::Num => self.num_step(c),
            Mode::Fail => {},
        }
    }
}

/// Reads `v` as one JSON object: its members, or `None` when `v` is not
/// exactly one JSON object.
pub fn read_object(v: &Vec<char>) -> (r: Option<Vec<(Vec<char>, Option<Vec<char>>)>>)
    ensures
        match json_members(v@) {
            Some(ms) => r matches Some(m) && members_view(m@) == ms,
            None => r is None,
        },
{
    let mut sc = Scanner::new();
    let mut i: usize = 0;
    assert(v@.subrange(0, 0) =~= Seq::<char>::empty());
    while i < v.len()
        invariant
            i <= v.len(),
            sc@ == scan_text(v@.subrange(0, i as int)),
        decreases v.len() - i,
    {
        assert(v@.subrange(0, i + 1).drop_last() =~= v@.subrange(0, i as int));
        sc.step(v[i]);
        i += 1;
    }
    assert(v@.subrange(0, i as int) =~= v@);
    if sc.lex.mode == Mode::After && sc.stack.len() == 0 {
        Some(sc.members)
    } else {
        None
    }
}

/// The string value of the first member of `ms` named `k`, if it is a string.
pub fn find_member(ms: &Vec<(Vec<char>, Option<Vec<char>>)>, k: &Vec<char>) -> (r: Option<Vec<char>>)
    ensures
        opt_seq(r) == member_string(members_view(ms@), k@),
{
    let mut i: usize = 0;
    assert(members_view(ms@).subrange(0, members_view(ms@).len() as int) =~= members_view(ms@));
    while i < ms.len()
        invariant
            i <= ms.len(),
            member_string(members_view(ms@), k@) == member_string(
                members_view(ms@).subrange(i as int, ms@.len() as int),
                k@,
            ),
        decreases ms.len() - i,
    {
        let ghost rest = members_view(ms@).subrange(i as int, ms@.len() as int);
        assert(rest[0] == member_view(ms@[i as int]));
        assert(rest.subrange(1, rest.len() as int) =~= members_view(ms@).subrange(
            i + 1,
            ms@.len() as int,
        ));
        if crate::text::same_chars(&ms[i].0, k) {
            return match &ms[i].1 {
                Some(val) => Some(copy_chars(val)),
                None => None,
            };
        }
        i += 1;
    }
    None
}

} // verus!
