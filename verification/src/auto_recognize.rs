//! Connections recognised in pasted text, and the test for the session
//! environment info format (lines that begin with a protocol prefix such as
//! "环境" or "后台").
use vstd::prelude::*;

use crate::text::{chars_of, char_rows, lemma_char_rows_push, lines, split_lines, starts_with_chars, trim, trim_chars};

verus! {

/// Connection protocol for session creation.
#[derive(Clone, Copy, Debug, PartialEq, Eq, Structural)]
pub enum ConnectionProtocol {
    Ssh,
    Telnet,
}

/// A parsed connection from the input text.
#[derive(Clone, Debug)]
pub struct ParsedConnection {
    pub name: Option<String>,
    pub host: String,
    pub port: u16,
    pub protocol: ConnectionProtocol,
    pub username: Option<String>,
    pub password: Option<String>,
}

impl ParsedConnection {
    /// A telnet connection to `host:port` without name or credentials.
    pub fn telnet(host: String, port: u16) -> (r: Self)
        ensures
            r.name is None,
            r.host == host,
            r.port == port,
            r.protocol == ConnectionProtocol::Telnet,
            r.username is None,
            r.password is None,
    {
        ParsedConnection {
            name: None,
            host,
            port,
            protocol: ConnectionProtocol::Telnet,
            username: None,
            password: None,
        }
    }

    /// A telnet connection to `host:port` that logs in with the given
    /// credentials.
    pub fn telnet_with_credentials(host: String, port: u16, username: String, password: String) -> (r:
        Self)
        ensures
            r.name is None,
            r.host == host,
            r.port == port,
            r.protocol == ConnectionProtocol::Telnet,
            r.username == Some(username),
            r.password == Some(password),
    {
        ParsedConnection {
            name: None,
            host,
            port,
            protocol: ConnectionProtocol::Telnet,
            username: Some(username),
            password: Some(password),
        }
    }

    /// An SSH connection to `host:port` without name or credentials.
    pub fn ssh(host: String, port: u16) -> (r: Self)
        ensures
            r.name is None,
            r.host == host,
            r.port == port,
            r.protocol == ConnectionProtocol::Ssh,
            r.username is None,
            r.password is None,
    {
        ParsedConnection {
            name: None,
            host,
            port,
            protocol: ConnectionProtocol::Ssh,
            username: None,
            password: None,
        }
    }

    /// The same connection, named `name`.
    pub fn with_name(self, name: String) -> (r: Self)
        ensures
            r.name == Some(name),
            r.host == self.host,
            r.port == self.port,
            r.protocol == self.protocol,
            r.username == self.username,
            r.password == self.password,
    {
        let mut c = self;
        c.name = Some(name);
        c
    }

    /// The same connection, logging in as `username`.
    pub fn with_username(self, username: String) -> (r: Self)
        ensures
            r.name == self.name,
            r.host == self.host,
            r.port == self.port,
            r.protocol == self.protocol,
            r.username == Some(username),
            r.password == self.password,
    {
        let mut c = self;
        c.username = Some(username);
        c
    }

    /// The same connection, with password `password`.
    pub fn with_password(self, password: String) -> (r: Self)
        ensures
            r.name == self.name,
            r.host == self.host,
            r.port == self.port,
            r.protocol == self.protocol,
            r.username == self.username,
            r.password == Some(password),
    {
        let mut c = self;
        c.password = Some(password);
        c
    }
}

/// The prefixes that mark session environment info when no recognition
/// rules are configured.
pub open spec fn default_env_info_prefixes() -> Seq<Seq<char>> {
    seq!["环境"@, "后台"@]
}

/// The prefixes in force: the configured ones, else the defaults.
pub open spec fn env_info_prefixes(configured: Option<&[String]>) -> Seq<Seq<char>> {
    match configured {
        Some(p) => p@.map_values(|s: String| s@),
        None => default_env_info_prefixes(),
    }
}

/// Some line of `input`, once trimmed, starts with one of `prefixes`.
pub open spec fn has_prefixed_line(input: Seq<char>, prefixes: Seq<Seq<char>>) -> bool {
    exists|i: int, j: int|
        0 <= i < lines(input).len() && 0 <= j < prefixes.len() && #[trigger] prefixes[j].is_prefix_of(
            trim(#[trigger] lines(input)[i]),
        )
}

/// Whether the input looks like session environment info: some line, once
/// trimmed, starts with one of the configured protocol prefixes (`None` when
/// no recognition rules are configured, in which case the prefixes are
/// "环境" and "后台").
pub fn is_session_env_info_format(input: &str, configured_prefixes: Option<&[String]>) -> (r:
    bool)
    ensures
        r == has_prefixed_line(input@, env_info_prefixes(configured_prefixes)),
{
    let ghost wanted = env_info_prefixes(configured_prefixes);
    let mut prefixes: Vec<Vec<char>> = Vec::new();
    match configured_prefixes {
        Some(ps) => {
            let mut k: usize = 0;
            while k < ps.len()
                invariant
                    k <= ps@.len(),
                    wanted == env_info_prefixes(configured_prefixes),
                    configured_prefixes == Some(ps),
                    wanted == ps@.map_values(|s: String| s@),
                    char_rows(prefixes@) == wanted.take(k as int),
                decreases ps@.len() - k,
            {
                let p = chars_of(ps[k].as_str());
                proof {
                    assert(wanted[k as int] == p@);
                    lemma_char_rows_push(prefixes@, p);
                    assert(char_rows(prefixes@.push(p)) =~= wanted.take(k + 1));
                }
                prefixes.push(p);
                k = k + 1;
            }
            assert(wanted.take(ps@.len() as int) =~= wanted);
        },
        None => {
            proof {
                reveal_strlit("环境");
                reveal_strlit("后台");
            }
            let a = chars_of("环境");
            let b = chars_of("后台");
            prefixes.push(a);
            prefixes.push(b);
            assert(char_rows(prefixes@) =~= wanted);
        },
    }
    let text = chars_of(input);
    let rows = split_lines(&text);
    let mut i: usize = 0;
    while i < rows.len()
        invariant
            i <= rows@.len(),
            wanted == env_info_prefixes(configured_prefixes),
            char_rows(rows@) == lines(input@),
            char_rows(prefixes@) == wanted,
            forall|a: int, b: int|
                0 <= a < i && 0 <= b < wanted.len() ==> !#[trigger] wanted[b].is_prefix_of(
                    trim(#[trigger] lines(input@)[a]),
                ),
        decreases rows@.len() - i,
    {
        let t = trim_chars(&rows[i]);
        assert(rows@[i as int]@ == lines(input@)[i as int]);
        let mut j: usize = 0;
        while j < prefixes.len()
            invariant
                i < rows@.len(),
                wanted == env_info_prefixes(configured_prefixes),
                j <= prefixes@.len(),
                char_rows(rows@) == lines(input@),
                char_rows(prefixes@) == wanted,
                t@ == trim(lines(input@)[i as int]),
                forall|a: int, b: int|
                    0 <= a < i && 0 <= b < wanted.len() ==> !#[trigger] wanted[b].is_prefix_of(
                        trim(#[trigger] lines(input@)[a]),
                    ),
                forall|b: int| 0 <= b < j ==> !#[trigger] wanted[b].is_prefix_of(t@),
            decreases prefixes@.len() - j,
        {
            assert(prefixes@[j as int]@ == wanted[j as int]);
            if starts_with_chars(&t, &prefixes[j]) {
                assert(wanted[j as int].is_prefix_of(trim(lines(input@)[i as int])));
                assert(has_prefixed_line(input@, wanted));
                return true;
            }
            j = j + 1;
        }
        i = i + 1;
    }
    false
}

} // verus!
