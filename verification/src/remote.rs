//! Talking to the sync server and checking the setup (`ctl doctor`): the
//! server's base address, the request headers, how the answers of the
//! health and token checks read, where the autostart entry lives, and the
//! doctor's verdict.

use vstd::prelude::*;
use crate::paths::{is_journal_file, join_path, join_spec, journal_file_spec};
use crate::text::{chars_of, concat, string_of, trim_chars, trim_spec};

verus! {

/// `s` without the slashes at its end.
pub open spec fn strip_slashes(s: Seq<char>) -> Seq<char>
    decreases s.len(),
{
    if s.len() > 0 && s.last() == '/' {
        strip_slashes(s.drop_last())
    } else {
        s
    }
}

/// Base address of the server as configured: trimmed, without the slashes
/// at its end (a path is appended to it).
pub fn server_base(address: &str) -> (r: String)
    ensures
        r@ == strip_slashes(trim_spec(address@)),
{
    let mut t = trim_chars(address);
    while t.len() > 0 && t[t.len() - 1] == '/'
        invariant
            strip_slashes(t@) == strip_slashes(trim_spec(address@)),
        decreases t.len(),
    {
        t.pop();
    }
    string_of(&t)
}

/// URL of an endpoint: the base address followed by the path.
pub fn endpoint(base: &str, path: &str) -> (r: String)
    ensures
        r@ == base@ + path@,
{
    concat(base, path)
}

/// The `Authorization` header for a token: `Bearer` and the trimmed token.
pub fn authorization(token: &str) -> (r: String)
    ensures
        r@ == "Bearer "@ + trim_spec(token@),
{
    let t = string_of(&trim_chars(token));
    concat("Bearer ", t.as_str())
}

/// Reading of one check against the server.
#[derive(Debug, Clone, Copy, PartialEq, Eq, Structural)]
pub enum ServerCheck {
    Passed,
    /// The server refused the token.
    BadToken,
    /// The server answered with an unexpected status.
    Odd(u16),
    /// No answer (connection, timeout).
    Unreachable,
}

/// The health check: `None` when the request got no answer.
pub fn health_check(reply: Option<u16>) -> (r: ServerCheck)
    ensures
        r == (match reply {
            None => ServerCheck::Unreachable,
            Some(s) => if s == 200 { ServerCheck::Passed } else { ServerCheck::Odd(s) },
        }),
{
    match reply {
        None => ServerCheck::Unreachable,
        Some(s) => if s == 200 { ServerCheck::Passed } else { ServerCheck::Odd(s) },
    }
}

/// The token check is an empty push (it stores nothing): `200` accepts the
/// token, `401` refuses it.
pub fn token_check(reply: Option<u16>) -> (r: ServerCheck)
    ensures
        r == (match reply {
            None => ServerCheck::Unreachable,
            Some(s) => if s == 200 {
                ServerCheck::Passed
            } else if s == 401 {
                ServerCheck::BadToken
            } else {
                ServerCheck::Odd(s)
            },
        }),
{
    match reply {
        None => ServerCheck::Unreachable,
        Some(s) => if s == 200 {
            ServerCheck::Passed
        } else if s == 401 {
            ServerCheck::BadToken
        } else {
            ServerCheck::Odd(s)
        },
    }
}

/// The server checks of the doctor: none without an address; the token is
/// checked only when the server is healthy and a token is set.
pub fn check_token_next(base: &str, health: ServerCheck, token: &str) -> (r: bool)
    ensures
        r == (base@.len() > 0 && health == ServerCheck::Passed && trim_spec(token@).len() > 0),
{
    let t = trim_chars(token);
    let b = chars_of(base);
    b.len() > 0 && health == ServerCheck::Passed && t.len() > 0
}

/// Body of the token check: a push from the doctor with no events.
pub fn token_probe_body() -> (r: &'static str)
    ensures
        r@ == "{\"device\":\"doctor\",\"events\":[]}"@,
{
    "{\"device\":\"doctor\",\"events\":[]}"
}

/// Where the desktop autostart entry lives: under `$XDG_CONFIG_HOME`, else
/// under `$HOME/.config`.
pub open spec fn desktop_entry_spec(xdg_config_home: Option<Seq<char>>, home: Option<Seq<char>>) -> Option<Seq<char>> {
    let config = match xdg_config_home {
        Some(c) => Some(c),
        None => match home {
            Some(h) => Some(join_spec(h, ".config"@)),
            None => None,
        },
    };
    match config {
        Some(c) => Some(join_spec(join_spec(c, "autostart"@), "driftling.desktop"@)),
        None => None,
    }
}

/// The desktop autostart entry, from the values of `XDG_CONFIG_HOME` and
/// `HOME` (`None` when unset).
pub fn desktop_entry(xdg_config_home: Option<&str>, home: Option<&str>) -> (r: Option<String>)
    ensures
        (match r {
            Some(p) => Some(p@),
            None => None::<Seq<char>>,
        }) == desktop_entry_spec(
            match xdg_config_home {
                Some(c) => Some(c@),
                None => None,
            },
            match home {
                Some(h) => Some(h@),
                None => None,
            },
        ),
{
    let config = match xdg_config_home {
        Some(c) => string_of(&chars_of(c)),
        None => match home {
            Some(h) => join_path(h, ".config"),
            None => return None,
        },
    };
    let dir = join_path(config.as_str(), "autostart");
    Some(join_path(dir.as_str(), "driftling.desktop"))
}

/// Number of journal files among the names of a directory.
pub open spec fn journal_count(names: Seq<Seq<char>>) -> nat
    decreases names.len(),
{
    if names.len() == 0 {
        0
    } else {
        journal_count(names.drop_last()) + if journal_file_spec(names.last()) { 1nat } else { 0nat }
    }
}

proof fn lemma_journal_count_le(names: Seq<Seq<char>>)
    ensures
        journal_count(names) <= names.len(),
    decreases names.len(),
{
    if names.len() > 0 {
        lemma_journal_count_le(names.drop_last());
    }
}

/// The names of a directory as character sequences.
pub open spec fn names_view(names: Seq<String>) -> Seq<Seq<char>> {
    names.map_values(|n: String| n@)
}

/// How many journal files a folder holds (`journal.<device>.jsonl`).
pub fn count_journal_files(names: &Vec<String>) -> (r: u64)
    requires
        names.len() <= u64::MAX,
    ensures
        r == journal_count(names_view(names@)),
{
    let mut n: u64 = 0;
    let mut i: usize = 0;
    while i < names.len()
        invariant
            0 <= i <= names.len(),
            names.len() <= u64::MAX,
            n == journal_count(names_view(names@.take(i as int))),
        decreases names.len() - i,
    {
        assert(names_view(names@.take(i as int + 1)).drop_last() =~= names_view(names@.take(i as int)));
        proof {
            lemma_journal_count_le(names_view(names@.take(i as int)));
        }
        if is_journal_file(names[i].as_str()) {
            n = n + 1;
        }
        i += 1;
    }
    assert(names@.take(i as int) =~= names@);
    n
}

/// The doctor's verdict.
#[derive(Debug, Clone, Copy, PartialEq, Eq, Structural)]
pub enum DoctorVerdict {
    /// The daemon answers: all is well.
    Healthy,
    /// The daemon should be running (autostart is set up, or its socket
    /// is left behind) but does not answer: the doctor exits with 1.
    ShouldRun,
    /// The daemon is not running, and nothing says it should.
    NotRunning,
}

/// The verdict from what the checks found.
pub fn doctor_verdict(daemon_answering: bool, autostart: bool, socket_exists: bool) -> (r: DoctorVerdict)
    ensures
        r == (if daemon_answering {
            DoctorVerdict::Healthy
        } else if autostart || socket_exists {
            DoctorVerdict::ShouldRun
        } else {
            DoctorVerdict::NotRunning
        }),
{
    if daemon_answering {
        DoctorVerdict::Healthy
    } else if autostart || socket_exists {
        DoctorVerdict::ShouldRun
    } else {
        DoctorVerdict::NotRunning
    }
}

/// The base address never ends with a slash, so an endpoint path starting
/// with one never doubles it; trimming the address twice changes nothing.
pub proof fn law_base_has_no_trailing_slash(s: Seq<char>)
    ensures
        strip_slashes(s).len() == 0 || strip_slashes(s).last() != '/',
        strip_slashes(strip_slashes(s)) == strip_slashes(s),
    decreases s.len(),
{
    if s.len() > 0 && s.last() == '/' {
        law_base_has_no_trailing_slash(s.drop_last());
    }
}

} // verus!
