//! Pure parts of the `driftling ctl` client: reading a colour given by the
//! user and deciding what `ctl sync status` prints. Localisation and output
//! stay with the caller.

use vstd::prelude::*;
use crate::token::hex_digit_spec;
use crate::text::{is_ws, str_eq, string_of, trim_chars, trim_end_at, trim_spec, trim_start_at};

verus! {

/// Value of a hexadecimal digit, -1 for any other character.
pub open spec fn hex_val(c: char) -> int {
    let u = c as u32;
    if 0x30 <= u <= 0x39 {
        u - 0x30
    } else if 0x61 <= u <= 0x66 {
        u - 0x61 + 10
    } else if 0x41 <= u <= 0x46 {
        u - 0x41 + 10
    } else {
        -1
    }
}

/// Number written by the hexadecimal digits `h`.
pub open spec fn hex_number(h: Seq<char>) -> int
    decreases h.len(),
{
    if h.len() == 0 {
        0
    } else {
        hex_number(h.drop_last()) * 16 + hex_val(h.last())
    }
}

/// At most one leading `#` removed.
pub open spec fn strip_hash(t: Seq<char>) -> Seq<char> {
    if t.len() > 0 && t[0] == '#' {
        t.drop_first()
    } else {
        t
    }
}

/// `#rrggbb` or `rrggbb`, surrounding whitespace ignored, as opaque ARGB.
pub open spec fn hex_color_spec(s: Seq<char>) -> Option<u32> {
    let h = strip_hash(trim_spec(s));
    if h.len() == 6 && forall|i: int| 0 <= i < 6 ==> hex_val(#[trigger] h[i]) >= 0 {
        Some((0xff00_0000 + hex_number(h)) as u32)
    } else {
        None
    }
}

fn hex_digit(c: char) -> (r: Option<u32>)
    ensures
        r is Some <==> hex_val(c) >= 0,
        r is Some ==> r.unwrap() == hex_val(c),
{
    let u = c as u32;
    if 0x30 <= u && u <= 0x39 {
        Some(u - 0x30)
    } else if 0x61 <= u && u <= 0x66 {
        Some(u - 0x61 + 10)
    } else if 0x41 <= u && u <= 0x46 {
        Some(u - 0x41 + 10)
    } else {
        None
    }
}

pub open spec fn pow16(n: nat) -> int
    decreases n,
{
    if n == 0 { 1 } else { 16 * pow16((n - 1) as nat) }
}

/// Read a user colour `#rrggbb`/`rrggbb` (surrounding whitespace allowed)
/// as ARGB with alpha `ff`. Anything else is `None`.
pub fn parse_hex_color(s: &str) -> (r: Option<u32>)
    ensures
        r == hex_color_spec(s@),
{
    let t = trim_chars(s);
    let start: usize = if t.len() > 0 && t[0] == '#' { 1 } else { 0 };
    let ghost h = strip_hash(t@);
    assert(h =~= t@.skip(start as int));
    if t.len() - start != 6 {
        return None;
    }
    let mut value: u32 = 0;
    let mut k: usize = 0;
    while k < 6
        invariant
            t@ == trim_spec(s@),
            h == strip_hash(t@),
            h == t@.skip(start as int),
            h.len() == 6,
            t.len() == start + 6,
            0 <= k <= 6,
            forall|i: int| 0 <= i < k ==> hex_val(#[trigger] h[i]) >= 0,
            value == hex_number(h.take(k as int)),
            value < pow16(k as nat),
        decreases 6 - k,
    {
        match hex_digit(t[start + k]) {
            None => {
                assert(h[k as int] == t@[start + k]);
                return None;
            },
            Some(d) => {
                assert(h[k as int] == t@[start + k]);
                assert(h.take(k + 1).drop_last() =~= h.take(k as int));
                assert(h.take(k + 1).last() == h[k as int]);
                assert(pow16((k + 1) as nat) == 16 * pow16(k as nat));
                assert(value * 16 + d < pow16((k + 1) as nat)) by (nonlinear_arith)
                    requires
                        value < pow16(k as nat),
                        d < 16,
                        pow16((k + 1) as nat) == 16 * pow16(k as nat),
                ;
                assert(pow16(6) == 0x100_0000) by {
                    reveal_with_fuel(pow16, 7);
                }
                assert(pow16((k + 1) as nat) <= pow16(6)) by {
                    lemma_pow16_mono((k + 1) as nat, 6);
                }
                value = value * 16 + d;
            },
        }
        k = k + 1;
    }
    assert(h.take(6) =~= h);
    assert(pow16(6) == 0x100_0000) by {
        reveal_with_fuel(pow16, 7);
    }
    Some(0xff00_0000u32 + value)
}

proof fn lemma_pow16_mono(a: nat, b: nat)
    requires
        a <= b,
    ensures
        1 <= pow16(a) <= pow16(b),
    decreases b,
{
    if a < b {
        lemma_pow16_mono(a, (b - 1) as nat);
    } else if b > 0 {
        lemma_pow16_mono((b - 1) as nat, (b - 1) as nat);
    }
}


/// The last `n` hexadecimal digits of `x`, most significant first.
pub open spec fn hex_text(x: nat, n: nat) -> Seq<char>
    decreases n,
{
    if n == 0 {
        Seq::empty()
    } else {
        hex_text(x / 16, (n - 1) as nat).push(hex_digit_spec((x % 16) as int))
    }
}

fn hex_char_of(d: u32) -> (c: char)
    requires
        d < 16,
    ensures
        c == hex_digit_spec(d as int),
{
    if d < 10 {
        ((0x30 + d) as u8) as char
    } else {
        ((0x61 + d - 10) as u8) as char
    }
}

fn hex_digits(x: u32, n: usize) -> (r: Vec<char>)
    ensures
        r@ == hex_text(x as nat, n as nat),
    decreases n,
{
    if n == 0 {
        Vec::new()
    } else {
        let mut v = hex_digits(x / 16, n - 1);
        v.push(hex_char_of(x % 16));
        v
    }
}

/// How a body colour is shown: `#rrggbb` (alpha dropped).
pub open spec fn color_text_spec(color: u32) -> Seq<char> {
    seq!['#'] + hex_text((color % 0x100_0000) as nat, 6)
}

/// A body colour as `ctl info` shows it.
pub fn color_text(color: u32) -> (r: String)
    ensures
        r@ == color_text_spec(color),
{
    let mut v: Vec<char> = Vec::new();
    v.push('#');
    let d = hex_digits(color % 0x100_0000, 6);
    let mut i: usize = 0;
    while i < d.len()
        invariant
            0 <= i <= d.len(),
            v@ == seq!['#'] + d@.take(i as int),
        decreases d.len() - i,
    {
        v.push(d[i]);
        assert(d@.take(i + 1) =~= d@.take(i as int).push(d@[i as int]));
        i += 1;
    }
    assert(d@.take(d.len() as int) =~= d@);
    string_of(&v)
}

proof fn lemma_hex_text(x: nat, n: nat)
    ensures
        hex_text(x, n).len() == n,
        forall|i: int| 0 <= i < n ==> hex_val(#[trigger] hex_text(x, n)[i]) >= 0,
        forall|i: int| 0 <= i < n ==> hex_text(x, n)[i] != '#' && !is_ws(#[trigger] hex_text(x, n)[i]),
        hex_number(hex_text(x, n)) == (x as int) % pow16(n),
    decreases n,
{
    if n > 0 {
        let m = (n - 1) as nat;
        lemma_hex_text(x / 16, m);
        let t = hex_text(x, n);
        let d = (x % 16) as int;
        assert(0 <= d < 16);
        assert(hex_val(hex_digit_spec(d)) == d);
        assert(t.drop_last() =~= hex_text(x / 16, m));
        assert forall|i: int| 0 <= i < n implies hex_val(#[trigger] t[i]) >= 0 by {
            if i < m {
                assert(t[i] == hex_text(x / 16, m)[i]);
            }
        }
        assert forall|i: int| 0 <= i < n implies t[i] != '#' && !is_ws(#[trigger] t[i]) by {
            if i < m {
                assert(t[i] == hex_text(x / 16, m)[i]);
            }
        }
        assert(pow16(n) == 16 * pow16(m));
        lemma_pow16_mono(0, m);
        vstd::arithmetic::div_mod::lemma_mod_breakdown(x as int, 16, pow16(m));
        assert(16 * pow16(m) == pow16(n));
        assert((x as int) % pow16(n) == 16 * (((x / 16) as int) % pow16(m)) + (x as int) % 16);
    }
}

/// A colour shown by `ctl info` reads back as the same opaque colour.
pub proof fn law_color_text_round_trip(color: u32)
    ensures
        hex_color_spec(color_text_spec(color)) == Some((0xff00_0000 + color % 0x100_0000) as u32),
{
    let x = (color % 0x100_0000) as nat;
    lemma_hex_text(x, 6);
    let s = color_text_spec(color);
    let h = hex_text(x, 6);
    assert(s.len() == 7);
    assert(s[0] == '#');
    assert(s[6] == h[5]);
    assert(trim_start_at(s, 0) == 0);
    assert(trim_end_at(s, 0, 7) == 7);
    assert(trim_spec(s) =~= s);
    assert(strip_hash(s) =~= h);
    assert(pow16(6) == 0x100_0000) by {
        reveal_with_fuel(pow16, 7);
    }
}

/// A `driftling ctl` subcommand as given on the command line.
#[derive(Debug, Clone, PartialEq, Eq)]
pub enum CtlAction {
    Summon,
    Dismiss,
    Status,
    Info,
    Feed { treat: bool },
    Ride { kind: Option<String> },
    Play,
    Sleep,
    Rename { name: String },
    Recolor { color: String },
    Reload,
    SyncStatus,
    Quit,
    Doctor,
}

/// The requests `ctl` sends to the daemon.
#[derive(Debug, Clone, PartialEq, Eq)]
pub enum CtlRequest {
    Summon,
    Dismiss,
    Status,
    PetInfo,
    Feed { treat: bool },
    Play,
    PutToSleep,
    Ride { kind: Option<String> },
    Rename(String),
    Recolor(u32),
    Reload,
    SyncStatus,
    Quit,
}

/// What `ctl` does for a subcommand.
#[derive(Debug, Clone, PartialEq, Eq)]
pub enum CtlStep {
    /// Send the request to the daemon and print its answer.
    Send(CtlRequest),
    /// Run the checks without the daemon.
    Doctor,
    /// The colour is not `#rrggbb`: refuse before calling the daemon.
    BadColor,
}

/// The step `ctl` takes for a subcommand; a bad colour is refused here.
pub fn ctl_step(action: CtlAction) -> (r: CtlStep)
    ensures
        match action {
            CtlAction::Summon => r == CtlStep::Send(CtlRequest::Summon),
            CtlAction::Dismiss => r == CtlStep::Send(CtlRequest::Dismiss),
            CtlAction::Status => r == CtlStep::Send(CtlRequest::Status),
            CtlAction::Info => r == CtlStep::Send(CtlRequest::PetInfo),
            CtlAction::Feed { treat } => r == CtlStep::Send(CtlRequest::Feed { treat }),
            CtlAction::Ride { kind } => r == CtlStep::Send(CtlRequest::Ride { kind }),
            CtlAction::Play => r == CtlStep::Send(CtlRequest::Play),
            CtlAction::Sleep => r == CtlStep::Send(CtlRequest::PutToSleep),
            CtlAction::Rename { name } => r == CtlStep::Send(CtlRequest::Rename(name)),
            CtlAction::Recolor { color } => r == match hex_color_spec(color@) {
                Some(argb) => CtlStep::Send(CtlRequest::Recolor(argb)),
                None => CtlStep::BadColor,
            },
            CtlAction::Reload => r == CtlStep::Send(CtlRequest::Reload),
            CtlAction::SyncStatus => r == CtlStep::Send(CtlRequest::SyncStatus),
            CtlAction::Quit => r == CtlStep::Send(CtlRequest::Quit),
            CtlAction::Doctor => r == CtlStep::Doctor,
        },
{
    match action {
        CtlAction::Summon => CtlStep::Send(CtlRequest::Summon),
        CtlAction::Dismiss => CtlStep::Send(CtlRequest::Dismiss),
        CtlAction::Status => CtlStep::Send(CtlRequest::Status),
        CtlAction::Info => CtlStep::Send(CtlRequest::PetInfo),
        CtlAction::Feed { treat } => CtlStep::Send(CtlRequest::Feed { treat }),
        CtlAction::Ride { kind } => CtlStep::Send(CtlRequest::Ride { kind }),
        CtlAction::Play => CtlStep::Send(CtlRequest::Play),
        CtlAction::Sleep => CtlStep::Send(CtlRequest::PutToSleep),
        CtlAction::Rename { name } => CtlStep::Send(CtlRequest::Rename(name)),
        CtlAction::Recolor { color } => match parse_hex_color(color.as_str()) {
            Some(argb) => CtlStep::Send(CtlRequest::Recolor(argb)),
            None => CtlStep::BadColor,
        },
        CtlAction::Reload => CtlStep::Send(CtlRequest::Reload),
        CtlAction::SyncStatus => CtlStep::Send(CtlRequest::SyncStatus),
        CtlAction::Quit => CtlStep::Send(CtlRequest::Quit),
        CtlAction::Doctor => CtlStep::Doctor,
    }
}

/// Sync mode as shown to the user; an unknown machine name is shown as is.
#[derive(Debug, PartialEq, Eq)]
pub enum ModeName {
    Off,
    Server,
    Folder,
    Other(String),
}

/// "n seconds ago" or "never".
#[derive(Debug, PartialEq, Eq)]
pub enum Ago {
    Secs(u64),
    Never,
}

/// One line of `ctl sync status`, before localisation.
#[derive(Debug, PartialEq, Eq)]
pub enum StatusLine {
    Mode { mode: ModeName },
    ModeTarget { mode: ModeName, target: String },
    Transfers { push: Ago, pull: Ago },
    Journal { events: u64, devices: u32 },
    LeaseOurs,
    LeaseHolder { holder: String },
    LeaseUnknown,
    Error { error: String },
}

pub open spec fn mode_matches(m: ModeName, mode: Seq<char>) -> bool {
    if mode == "off"@ {
        m == ModeName::Off
    } else if mode == "server"@ {
        m == ModeName::Server
    } else if mode == "folder"@ {
        m == ModeName::Folder
    } else {
        match m {
            ModeName::Other(s) => s@ == mode,
            _ => false,
        }
    }
}

pub open spec fn ago_spec(secs: Option<u64>) -> Ago {
    match secs {
        Some(s) => Ago::Secs(s),
        None => Ago::Never,
    }
}

fn mode_name(mode: &str) -> (r: ModeName)
    ensures
        mode_matches(r, mode@),
{
    if str_eq(mode, "off") {
        ModeName::Off
    } else if str_eq(mode, "server") {
        ModeName::Server
    } else if str_eq(mode, "folder") {
        ModeName::Folder
    } else {
        ModeName::Other(mode.to_owned())
    }
}

/// The lines of `ctl sync status`:
/// - the mode, with the server address (or else the folder) when non-empty;
/// - nothing more when sync is off;
/// - last push and pull, then events and devices in the journal;
/// - for the server mode, who holds the presence lease (ours, a named
///   holder, unknown);
/// - the last error, if any.
pub fn sync_status_lines(
    mode: &str,
    address: Option<&str>,
    folder: Option<&str>,
    last_push_secs: Option<u64>,
    last_pull_secs: Option<u64>,
    devices: u32,
    events: u64,
    holding: bool,
    holder: Option<&str>,
    last_error: Option<&str>,
) -> (lines: Vec<StatusLine>)
    ensures
        lines.len() >= 1,
        ({
            let target = match address {
                Some(a) => a@,
                None => match folder {
                    Some(f) => f@,
                    None => Seq::<char>::empty(),
                },
            };
            match lines[0] {
                StatusLine::Mode { mode: m } => target.len() == 0 && mode_matches(m, mode@),
                StatusLine::ModeTarget { mode: m, target: t } => target.len() > 0 && t@ == target
                    && mode_matches(m, mode@),
                _ => false,
            }
        }),
        mode@ == "off"@ ==> lines.len() == 1,
        mode@ != "off"@ ==> {
            let lease = if mode@ == "server"@ { 1int } else { 0int };
            let err = if last_error is Some { 1int } else { 0int };
            &&& lines.len() == 3 + lease + err
            &&& lines[1] == StatusLine::Transfers { push: ago_spec(last_push_secs), pull: ago_spec(last_pull_secs) }
            &&& lines[2] == StatusLine::Journal { events, devices }
            &&& lease == 1 ==> (if holding {
                lines[3] == StatusLine::LeaseOurs
            } else if holder is Some && holder.unwrap()@.len() > 0 {
                match lines[3] {
                    StatusLine::LeaseHolder { holder: h } => h@ == holder.unwrap()@,
                    _ => false,
                }
            } else {
                lines[3] == StatusLine::LeaseUnknown
            })
            &&& err == 1 ==> match lines[3 + lease] {
                StatusLine::Error { error: e } => e@ == last_error.unwrap()@,
                _ => false,
            }
        },
{
    let mut lines: Vec<StatusLine> = Vec::new();
    let target: &str = match address {
        Some(a) => a,
        None => match folder {
            Some(f) => f,
            None => "",
        },
    };
    proof {
        reveal_strlit("");
    }
    if target.is_empty() {
        lines.push(StatusLine::Mode { mode: mode_name(mode) });
    } else {
        lines.push(StatusLine::ModeTarget { mode: mode_name(mode), target: target.to_owned() });
    }
    if str_eq(mode, "off") {
        return lines;
    }
    let push = match last_push_secs {
        Some(s) => Ago::Secs(s),
        None => Ago::Never,
    };
    let pull = match last_pull_secs {
        Some(s) => Ago::Secs(s),
        None => Ago::Never,
    };
    lines.push(StatusLine::Transfers { push, pull });
    lines.push(StatusLine::Journal { events, devices });
    if str_eq(mode, "server") {
        let line = if holding {
            StatusLine::LeaseOurs
        } else {
            match holder {
                Some(h) => if !h.is_empty() {
                    StatusLine::LeaseHolder { holder: h.to_owned() }
                } else {
                    StatusLine::LeaseUnknown
                },
                None => StatusLine::LeaseUnknown,
            }
        };
        lines.push(line);
    }
    if let Some(e) = last_error {
        lines.push(StatusLine::Error { error: e.to_owned() });
    }
    lines
}

} // verus!
