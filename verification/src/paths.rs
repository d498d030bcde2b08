//! File and socket locations: the control socket and lock in the runtime
//! directory, the sync state file, and the journal directory and files.
//! Paths are Unix paths held as strings.

use vstd::prelude::*;
use vstd::string::StringSliceAdditionalSpecFns;
use crate::text::{chars_of, string_of, str_eq, trim_chars, trim_spec};

verus! {

/// `PathBuf::push` / `Path::join` on Unix: an absolute component replaces
/// the base; otherwise a `/` is put in between unless the base is empty or
/// already ends with one.
pub open spec fn join_spec(base: Seq<char>, comp: Seq<char>) -> Seq<char> {
    if comp.len() > 0 && comp[0] == '/' {
        comp
    } else if base.len() == 0 || base.last() == '/' {
        base + comp
    } else {
        base.push('/') + comp
    }
}

/// `base` joined with `comp`.
pub fn join_path(base: &str, comp: &str) -> (r: String)
    ensures
        r@ == join_spec(base@, comp@),
{
    let b = chars_of(base);
    let c = chars_of(comp);
    let mut out: Vec<char> = Vec::new();
    if !(c.len() > 0 && c[0] == '/') {
        let mut i: usize = 0;
        while i < b.len()
            invariant
                0 <= i <= b.len(),
                out@ == b@.take(i as int),
            decreases b.len() - i,
        {
            out.push(b[i]);
            assert(b@.take(i + 1) =~= b@.take(i as int).push(b@[i as int]));
            i = i + 1;
        }
        assert(b@.take(b.len() as int) =~= b@);
        if b.len() > 0 && b[b.len() - 1] != '/' {
            out.push('/');
        }
    }
    let ghost head = out@;
    let mut j: usize = 0;
    while j < c.len()
        invariant
            0 <= j <= c.len(),
            out@ == head + c@.take(j as int),
        decreases c.len() - j,
    {
        out.push(c[j]);
        assert(c@.take(j + 1) =~= c@.take(j as int).push(c@[j as int]));
        j = j + 1;
    }
    assert(c@.take(c.len() as int) =~= c@);
    assert(head + c@ == join_spec(base@, comp@)) by {
        if c.len() > 0 && c@[0] == '/' {
            assert(head =~= Seq::<char>::empty());
            assert(head + c@ =~= c@);
        }
    }
    string_of(&out)
}

/// The control socket inside a runtime directory.
pub fn socket_path_in(runtime_dir: &str) -> (r: String)
    ensures
        r@ == join_spec(runtime_dir@, "driftling.sock"@),
{
    join_path(runtime_dir, "driftling.sock")
}

/// The lock file of the running daemon inside a runtime directory.
pub fn lock_path_in(runtime_dir: &str) -> (r: String)
    ensures
        r@ == join_spec(runtime_dir@, "driftling.lock"@),
{
    join_path(runtime_dir, "driftling.lock")
}

/// `$XDG_RUNTIME_DIR` is not set: there is deliberately no fallback to
/// `/tmp`, which all users share.
#[derive(Debug, Clone, Copy, PartialEq, Eq, Structural)]
pub struct NoRuntimeDir;

/// The runtime directory from the value of `$XDG_RUNTIME_DIR`.
pub fn runtime_dir(xdg_runtime_dir: Option<String>) -> (r: Result<String, NoRuntimeDir>)
    ensures
        match xdg_runtime_dir {
            Some(d) => r matches Ok(p) && p@ == d@,
            None => r == Err::<String, NoRuntimeDir>(NoRuntimeDir),
        },
{
    match xdg_runtime_dir {
        Some(d) => Ok(d),
        None => Err(NoRuntimeDir),
    }
}

/// The control socket for the value of `$XDG_RUNTIME_DIR`.
pub fn socket_path(xdg_runtime_dir: Option<String>) -> (r: Result<String, NoRuntimeDir>)
    ensures
        match xdg_runtime_dir {
            Some(d) => r matches Ok(p) && p@ == join_spec(d@, "driftling.sock"@),
            None => r == Err::<String, NoRuntimeDir>(NoRuntimeDir),
        },
{
    let dir = runtime_dir(xdg_runtime_dir)?;
    Ok(socket_path_in(dir.as_str()))
}

/// The sync worker's state file (the confirmed push cursor), always local.
pub fn state_path(data_dir: &str) -> (r: String)
    ensures
        r@ == join_spec(data_dir@, "sync-state.json"@),
{
    join_path(data_dir, "sync-state.json")
}

/// Sync mode.
#[derive(Debug, Clone, Copy, PartialEq, Eq, Structural)]
pub enum SyncMode {
    Off,
    Server,
    Folder,
}

/// Directory of the journals: the configured folder in folder mode (when
/// set), the data directory otherwise. pet.json and the sync state always
/// stay in the data directory.
pub fn resolve_journal_dir(data_dir: &str, mode: SyncMode, folder: &str) -> (r: String)
    ensures
        r@ == (if mode == SyncMode::Folder && trim_spec(folder@).len() > 0 {
            trim_spec(folder@)
        } else {
            data_dir@
        }),
{
    let f = trim_chars(folder);
    if mode == SyncMode::Folder && f.len() > 0 {
        string_of(&f)
    } else {
        data_dir.to_owned()
    }
}

/// `s` starts with `p`.
pub open spec fn starts_with(s: Seq<char>, p: Seq<char>) -> bool {
    s.len() >= p.len() && s.take(p.len() as int) == p
}

/// `s` ends with `p`.
pub open spec fn ends_with(s: Seq<char>, p: Seq<char>) -> bool {
    s.len() >= p.len() && s.skip(s.len() - p.len()) == p
}

fn has_prefix(s: &Vec<char>, p: &Vec<char>) -> (r: bool)
    ensures
        r == starts_with(s@, p@),
{
    if s.len() < p.len() {
        return false;
    }
    let mut k: usize = 0;
    while k < p.len()
        invariant
            s.len() >= p.len(),
            0 <= k <= p.len(),
            forall|t: int| 0 <= t < k ==> s@[t] == p@[t],
        decreases p.len() - k,
    {
        if s[k] != p[k] {
            assert(s@.take(p.len() as int)[k as int] != p@[k as int]);
            return false;
        }
        k = k + 1;
    }
    assert(s@.take(p.len() as int) =~= p@);
    true
}

fn has_suffix(s: &Vec<char>, p: &Vec<char>) -> (r: bool)
    ensures
        r == ends_with(s@, p@),
{
    if s.len() < p.len() {
        return false;
    }
    let off = s.len() - p.len();
    let mut k: usize = 0;
    while k < p.len()
        invariant
            s.len() >= p.len(),
            off == s.len() - p.len(),
            0 <= k <= p.len(),
            forall|t: int| 0 <= t < k ==> s@[off + t] == p@[t],
        decreases p.len() - k,
    {
        if s[off + k] != p[k] {
            assert(s@.skip(off as int)[k as int] != p@[k as int]);
            return false;
        }
        k = k + 1;
    }
    assert(s@.skip(off as int) =~= p@);
    true
}

/// Name of a journal file: `journal.*.jsonl`.
pub open spec fn journal_file_spec(name: Seq<char>) -> bool {
    starts_with(name, "journal."@) && ends_with(name, ".jsonl"@)
}

/// Is `name` a journal file (`journal.*.jsonl`)?
pub fn is_journal_file(name: &str) -> (r: bool)
    ensures
        r == journal_file_spec(name@),
{
    let s = chars_of(name);
    has_prefix(&s, &chars_of("journal.")) && has_suffix(&s, &chars_of(".jsonl"))
}

/// Journal file of one device: `journal.<device>.jsonl`.
pub open spec fn own_journal_spec(device: Seq<char>) -> Seq<char> {
    "journal."@ + device + ".jsonl"@
}

/// File name of this device's journal.
pub fn own_journal_name(device: &str) -> (r: String)
    ensures
        r@ == own_journal_spec(device@),
{
    let mut out = chars_of("journal.");
    let d = chars_of(device);
    let e = chars_of(".jsonl");
    let ghost head = out@;
    let mut i: usize = 0;
    while i < d.len()
        invariant
            0 <= i <= d.len(),
            out@ == head + d@.take(i as int),
        decreases d.len() - i,
    {
        out.push(d[i]);
        assert(d@.take(i + 1) =~= d@.take(i as int).push(d@[i as int]));
        i = i + 1;
    }
    assert(d@.take(d.len() as int) =~= d@);
    let ghost mid = out@;
    let mut j: usize = 0;
    while j < e.len()
        invariant
            0 <= j <= e.len(),
            out@ == mid + e@.take(j as int),
        decreases e.len() - j,
    {
        out.push(e[j]);
        assert(e@.take(j + 1) =~= e@.take(j as int).push(e@[j as int]));
        j = j + 1;
    }
    assert(e@.take(e.len() as int) =~= e@);
    string_of(&out)
}

/// A journal file of ANOTHER device in the folder (folder mode): the legacy
/// `journal.jsonl` or `journal.<x>.jsonl` with a non-empty `<x>` (the name
/// longer, in bytes, than `journal..jsonl`), but not this device's own file.
pub open spec fn foreign_journal_spec(name: &str, own_device: Seq<char>) -> bool {
    let n = name@;
    let is_journal = n == "journal.jsonl"@ || ((name.spec_bytes().len() as usize) > 14 && journal_file_spec(n));
    is_journal && n != own_journal_spec(own_device)
}

/// A journal file of another device in the folder (the legacy single
/// journal counts as foreign: a syncer may have brought it).
pub fn is_foreign_journal(name: &str, own_device: &str) -> (r: bool)
    ensures
        r == foreign_journal_spec(name, own_device@),
{
    let own = own_journal_name(own_device);
    let legacy = str_eq(name, "journal.jsonl");
    let long_enough = name.len() > 14;
    let pattern = is_journal_file(name);
    let is_own = str_eq(name, own.as_str());
    (legacy || (long_enough && pattern)) && !is_own
}

/// Which copy of this device's journal to adopt into the journal
/// directory: among the candidates (`Some(length)` for an existing copy
/// outside the journal directory) the longest, the last one on a tie; only
/// if it is longer than the copy already there. Journals are append-only
/// with a single writer, so every copy is a prefix of the true log and the
/// longest is the fullest.
pub open spec fn adopt_spec(cands: Seq<Option<u64>>, target_len: u64) -> Option<usize> {
    let best = best_candidate(cands, cands.len() as int);
    match best {
        Some(i) => if cands[i as int].unwrap() > target_len { Some(i) } else { None },
        None => None,
    }
}

/// Index of the longest of the first `n` candidates, the last one on a tie.
pub open spec fn best_candidate(cands: Seq<Option<u64>>, n: int) -> Option<usize>
    decreases n,
{
    if n <= 0 {
        None
    } else {
        let prev = best_candidate(cands, n - 1);
        match cands[n - 1] {
            None => prev,
            Some(l) => match prev {
                Some(p) => if l >= cands[p as int].unwrap() { Some((n - 1) as usize) } else { prev },
                None => Some((n - 1) as usize),
            },
        }
    }
}

proof fn lemma_best_candidate(cands: Seq<Option<u64>>, n: int)
    requires
        0 <= n <= cands.len(),
        cands.len() <= usize::MAX,
    ensures
        best_candidate(cands, n) matches Some(i) ==> (i as int) < n && cands[i as int] is Some,
    decreases n,
{
    if n > 0 {
        lemma_best_candidate(cands, n - 1);
    }
}

/// The candidate kept among the first `n` is an existing copy at least as
/// long as every other one, and strictly longer than every later one (the
/// last of equally long copies wins); none is kept only when no copy exists.
proof fn lemma_best_candidate_longest(cands: Seq<Option<u64>>, n: int)
    requires
        0 <= n <= cands.len(),
        cands.len() <= usize::MAX,
    ensures
        match best_candidate(cands, n) {
            Some(i) => {
                &&& (i as int) < n && cands[i as int] is Some
                &&& forall|j: int| 0 <= j < n && #[trigger] cands[j] is Some ==> cands[j].unwrap() <= cands[i as int].unwrap()
                &&& forall|j: int| (i as int) < j < n && #[trigger] cands[j] is Some ==> cands[j].unwrap() < cands[i as int].unwrap()
            },
            None => forall|j: int| 0 <= j < n ==> #[trigger] cands[j] is None,
        },
    decreases n,
{
    if n > 0 {
        lemma_best_candidate_longest(cands, n - 1);
    }
}

/// The adopted copy is the longest existing one (the last of equally long
/// ones), and only when it is longer than the journal in place; nothing is
/// adopted when every existing copy is at most as long as that journal.
pub proof fn law_adoption_takes_the_longest_copy(cands: Seq<Option<u64>>, target_len: u64)
    requires
        cands.len() <= usize::MAX,
    ensures
        match adopt_spec(cands, target_len) {
            Some(i) => {
                &&& (i as int) < cands.len() && cands[i as int] is Some
                &&& cands[i as int].unwrap() > target_len
                &&& forall|j: int|
                    0 <= j < cands.len() && #[trigger] cands[j] is Some ==> cands[j].unwrap() <= cands[i as int].unwrap()
                &&& forall|j: int|
                    (i as int) < j < cands.len() && #[trigger] cands[j] is Some ==> cands[j].unwrap() < cands[i as int].unwrap()
            },
            None => forall|j: int| 0 <= j < cands.len() && #[trigger] cands[j] is Some ==> cands[j].unwrap() <= target_len,
        },
{
    lemma_best_candidate_longest(cands, cands.len() as int);
}

/// Which copy to adopt (see above); `None` keeps the one in place.
pub fn choose_adoption(cands: &Vec<Option<u64>>, target_len: u64) -> (r: Option<usize>)
    ensures
        r == adopt_spec(cands@, target_len),
{
    let mut best: Option<usize> = None;
    let n = cands.len();
    for i in 0..n
        invariant
            n == cands.len(),
            best == best_candidate(cands@, i as int),
            best matches Some(b) ==> (b as int) < i && cands@[b as int] is Some,
    {
        match cands[i] {
            None => {},
            Some(l) => {
                best = match best {
                    Some(p) => {
                        let lp = match cands[p] {
                            Some(x) => x,
                            None => 0,
                        };
                        if l >= lp { Some(i) } else { Some(p) }
                    },
                    None => Some(i),
                };
            },
        }
    }
    match best {
        Some(i) => {
            let l = match cands[i] {
                Some(x) => x,
                None => 0,
            };
            if l > target_len { Some(i) } else { None }
        },
        None => None,
    }
}

} // verus!
