//! Server entries and the configuration that lists them.

use vstd::prelude::*;
use crate::error::ClientError;
use crate::text::{
    chars_of, find_chars, find_from, occurs_at, opt_chars, same_chars, slice_chars, string_of, trim,
    trim_chars,
};

verus! {

/// A candidate server: its address and an optional API key.
#[derive(Debug, Clone)]
pub struct Server {
    pub addr: String,
    pub key: Option<String>,
}

impl View for Server {
    type V = (Seq<char>, Option<Seq<char>>);

    open spec fn view(&self) -> Self::V {
        (self.addr@, opt_chars(self.key))
    }
}

impl Server {
    /// A server entry is usable when its address is not empty.
    pub open spec fn valid(&self) -> bool {
        self.addr@.len() > 0
    }

    pub fn is_valid(&self) -> (r: bool)
        ensures
            r == self.valid(),
    {
        !self.addr.as_str().is_empty()
    }

    /// A copy of this entry.
    pub fn duplicate(&self) -> (r: Server)
        ensures
            r@ == self@,
    {
        let key = match &self.key {
            Some(k) => Some(k.clone()),
            None => None,
        };
        Server { addr: self.addr.clone(), key }
    }
}

/// The configuration: the candidate servers, in the order they were listed.
#[derive(Debug, Clone)]
pub struct Config {
    pub servers: Vec<Server>,
}

/// The views of a sequence of server entries.
pub open spec fn servers_view(s: Seq<Server>) -> Seq<(Seq<char>, Option<Seq<char>>)> {
    s.map_values(|x: Server| x@)
}

impl Default for Config {
    /// A configuration with no server. The built-in default server, which the
    /// program takes from its build environment, is added by
    /// `Config::with_default_server`, used when no configuration file exists.
    fn default() -> (r: Config)
        ensures
            r.servers@.len() == 0,
    {
        Config { servers: Vec::new() }
    }
}

impl Config {
    /// The configuration used when no file is found: the built-in default
    /// server when one is given and not empty, else no server.
    pub fn with_default_server(default_server: Option<&str>) -> (r: Config)
        ensures
            match default_server {
                Some(d) if d@.len() > 0 => servers_view(r.servers@) == seq![(d@, None::<Seq<char>>)],
                _ => r.servers@.len() == 0,
            },
    {
        let mut servers: Vec<Server> = Vec::new();
        match default_server {
            Some(d) => {
                if !d.is_empty() {
                    servers.push(Server { addr: d.to_string(), key: None });
                    assert(servers_view(servers@) =~= seq![(d@, None::<Seq<char>>)]);
                }
            },
            None => {},
        }
        Config { servers }
    }
}

/// What a configuration line says of a server: its address and optional key.
pub type ServerModel = (Seq<char>, Option<Seq<char>>);

/// An optional server entry, seen through its view.
pub open spec fn opt_server(o: Option<Server>) -> Option<ServerModel> {
    match o {
        Some(s) => Some(s@),
        None => None,
    }
}

/// `v` without the matching pair of quotes, single or double, around it.
pub open spec fn unquote(v: Seq<char>) -> Seq<char> {
    if v.len() >= 2 && ((v[0] == '"' && v.last() == '"') || (v[0] == '\'' && v.last() == '\'')) {
        v.subrange(1, v.len() - 1)
    } else {
        v
    }
}

/// The key and the value of a line `key = value`, both trimmed, the value unquoted.
pub open spec fn key_value(line: Seq<char>) -> Option<(Seq<char>, Seq<char>)> {
    match find_from(line, seq!['='], 0) {
        Some(e) => Some(
            (
                trim(line.subrange(0, e)),
                unquote(trim(line.subrange(e + 1, line.len() as int))),
            ),
        ),
        None => None,
    }
}

/// The effect of one line on the servers read so far and the one being read.
/// Blank lines and comments say nothing; `[[servers]]` starts a new entry; in
/// an entry, `addr` and `key` set its fields and other keys are ignored.
pub open spec fn apply_line(servers: Seq<ServerModel>, current: Option<ServerModel>, line: Seq<char>) -> (
    Seq<ServerModel>,
    Option<ServerModel>,
) {
    let t = trim(line);
    if t.len() == 0 || t[0] == '#' {
        (servers, current)
    } else if t == "[[servers]]"@ {
        (
            match current {
                Some(c) => servers.push(c),
                None => servers,
            },
            Some((Seq::empty(), None)),
        )
    } else {
        match (current, key_value(t)) {
            (Some(c), Some((k, v))) => if k == "addr"@ {
                (servers, Some((v, c.1)))
            } else if k == "key"@ {
                (servers, Some((c.0, Some(v))))
            } else {
                (servers, current)
            },
            _ => (servers, current),
        }
    }
}

/// The state after reading the characters of `s`: the servers complete so
/// far, the one being read, and the current unfinished line.
pub open spec fn scan(s: Seq<char>) -> (Seq<ServerModel>, Option<ServerModel>, Seq<char>)
    decreases s.len(),
{
    if s.len() == 0 {
        (Seq::empty(), None, Seq::empty())
    } else {
        let (sv, cur, ln) = scan(s.drop_last());
        if s.last() == '\n' {
            let (sv2, cur2) = apply_line(sv, cur, ln);
            (sv2, cur2, Seq::empty())
        } else {
            (sv, cur, ln.push(s.last()))
        }
    }
}

/// The servers that the configuration text `s` lists, in order.
pub open spec fn config_servers(s: Seq<char>) -> Seq<ServerModel> {
    let (sv, cur, ln) = scan(s);
    let (sv2, cur2) = apply_line(sv, cur, ln);
    match cur2 {
        Some(c) => sv2.push(c),
        None => sv2,
    }
}

/// `v` without the matching pair of quotes around it.
fn unquote_exec(v: Vec<char>) -> (r: Vec<char>)
    ensures
        r@ == unquote(v@),
{
    let n = v.len();
    if n >= 2 && ((v[0] == '"' && v[n - 1] == '"') || (v[0] == '\'' && v[n - 1] == '\'')) {
        slice_chars(&v, 1, n - 1)
    } else {
        v
    }
}

/// The key and value of a line `key = value`.
fn key_value_exec(line: &Vec<char>) -> (r: Option<(Vec<char>, Vec<char>)>)
    ensures
        match key_value(line@) {
            Some((k, v)) => r matches Some((a, b)) && a@ == k && b@ == v,
            None => r is None,
        },
{
    let eq: Vec<char> = vec!['='];
    assert(eq@ =~= seq!['=']);
    match find_chars(line, &eq, 0) {
        Some(e) => {
            assert(occurs_at(line@, eq@, e as int));
            let key = trim_chars(&slice_chars(line, 0, e));
            let value = unquote_exec(trim_chars(&slice_chars(line, e + 1, line.len())));
            Some((key, value))
        },
        None => None,
    }
}

/// Reads a line like `key = "value"` or `key = value`: the key and the value,
/// trimmed, the value without its quotes.
pub fn parse_key_value(line: &str) -> (r: Option<(String, String)>)
    ensures
        match key_value(line@) {
            Some((k, v)) => r matches Some((a, b)) && a@ == k && b@ == v,
            None => r is None,
        },
{
    let v = chars_of(line);
    match key_value_exec(&v) {
        Some((k, w)) => Some((string_of(&k), string_of(&w))),
        None => None,
    }
}

/// Applies one line to the servers read so far and the one being read.
fn apply_line_exec(servers: &mut Vec<Server>, current: Option<Server>, line: &Vec<char>) -> (r:
    Option<Server>)
    ensures
        (servers_view(final(servers)@), opt_server(r)) == apply_line(
            servers_view(old(servers)@),
            opt_server(current),
            line@,
        ),
{
    let t = trim_chars(line);
    if t.len() == 0 || t[0] == '#' {
        return current;
    }
    let section = chars_of("[[servers]]");
    if same_chars(&t, &section) {
        match current {
            Some(c) => {
                let ghost before = servers@;
                servers.push(c);
                assert(servers_view(servers@) =~= servers_view(before).push(c@));
            },
            None => {},
        }
        let fresh = Server { addr: String::new(), key: None };
        assert(opt_server(Some(fresh)) == Some((Seq::<char>::empty(), None::<Seq<char>>)));
        return Some(fresh);
    }
    match current {
        Some(c) => match key_value_exec(&t) {
            Some((k, v)) => {
                let addr_key = chars_of("addr");
                let key_key = chars_of("key");
                if same_chars(&k, &addr_key) {
                    Some(Server { addr: string_of(&v), key: c.key })
                } else if same_chars(&k, &key_key) {
                    Some(Server { addr: c.addr, key: Some(string_of(&v)) })
                } else {
                    Some(c)
                }
            },
            None => Some(c),
        },
        None => None,
    }
}

/// Reads the configuration text: each `[[servers]]` section gives one server
/// entry, in order, with the `addr` and `key` that it sets.
pub fn parse_config(content: &str) -> (r: Result<Config, ClientError>)
    ensures
        r matches Ok(c) && servers_view(c.servers@) == config_servers(content@),
{
    let v = chars_of(content);
    let mut servers: Vec<Server> = Vec::new();
    let mut current: Option<Server> = None;
    let mut line: Vec<char> = Vec::new();
    let mut i: usize = 0;
    assert(servers_view(servers@) =~= Seq::<ServerModel>::empty());
    assert(v@.subrange(0, 0) =~= Seq::<char>::empty());
    while i < v.len()
        invariant
            i <= v.len(),
            (servers_view(servers@), opt_server(current), line@) == scan(v@.subrange(0, i as int)),
        decreases v.len() - i,
    {
        assert(v@.subrange(0, i + 1).drop_last() =~= v@.subrange(0, i as int));
        assert(v@.subrange(0, i + 1).last() == v@[i as int]);
        if v[i] == '\n' {
            current = apply_line_exec(&mut servers, current, &line);
            line = Vec::new();
        } else {
            line.push(v[i]);
        }
        i += 1;
    }
    assert(v@.subrange(0, i as int) =~= v@);
    current = apply_line_exec(&mut servers, current, &line);
    match current {
        Some(c) => {
            let ghost before = servers@;
            servers.push(c);
            assert(servers_view(servers@) =~= servers_view(before).push(c@));
        },
        None => {},
    }
    Ok(Config { servers })
}

} // verus!
