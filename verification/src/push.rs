//! Push cursor of the sync client: which of this device's journal events
//! still have to be sent to the server.
//!
//! Events are identified by hybrid logical clock stamps ([`Hlc`]), ordered by
//! wall time, then counter, then device id. The client keeps the newest stamp
//! that the server has confirmed; everything of its own strictly newer than
//! that is sent next.

use vstd::prelude::*;
use crate::text::{seq_lt, str_eq, str_lt, lemma_seq_lt_irreflexive, lemma_seq_lt_transitive, lemma_seq_lt_total};

verus! {

/// Hybrid logical clock stamp of a journal event.
#[derive(Debug, Clone, PartialEq, Eq, PartialOrd, Ord)]
pub struct Hlc {
    pub wall_ms: u64,
    pub counter: u16,
    pub device: String,
}

impl Hlc {
    pub open spec fn view(&self) -> (u64, u16, Seq<char>) {
        (self.wall_ms, self.counter, self.device@)
    }
}

/// Stamp order: wall time, then counter, then device id.
pub open spec fn hlc_lt(a: (u64, u16, Seq<char>), b: (u64, u16, Seq<char>)) -> bool {
    a.0 < b.0 || (a.0 == b.0 && (a.1 < b.1 || (a.1 == b.1 && seq_lt(a.2, b.2))))
}

pub proof fn lemma_hlc_lt_irreflexive(a: (u64, u16, Seq<char>))
    ensures
        !hlc_lt(a, a),
{
    lemma_seq_lt_irreflexive(a.2);
}

pub proof fn lemma_hlc_lt_transitive(a: (u64, u16, Seq<char>), b: (u64, u16, Seq<char>), c: (u64, u16, Seq<char>))
    requires
        hlc_lt(a, b),
        hlc_lt(b, c),
    ensures
        hlc_lt(a, c),
{
    if a.0 == b.0 && b.0 == c.0 && a.1 == b.1 && b.1 == c.1 {
        lemma_seq_lt_transitive(a.2, b.2, c.2);
    }
}

/// `a` is older than `b`.
pub fn hlc_before(a: &Hlc, b: &Hlc) -> (r: bool)
    ensures
        r == hlc_lt(a@, b@),
{
    if a.wall_ms != b.wall_ms {
        a.wall_ms < b.wall_ms
    } else if a.counter != b.counter {
        a.counter < b.counter
    } else {
        str_lt(a.device.as_str(), b.device.as_str())
    }
}

pub open spec fn ids_view(ids: Seq<Hlc>) -> Seq<(u64, u16, Seq<char>)> {
    ids.map_values(|h: Hlc| h@)
}

pub open spec fn opt_view(p: Option<Hlc>) -> Option<(u64, u16, Seq<char>)> {
    match p {
        Some(h) => Some(h@),
        None => None,
    }
}

/// An event of `device` that the server has not confirmed yet.
pub open spec fn unpushed(id: (u64, u16, Seq<char>), device: Seq<char>, pushed: Option<(u64, u16, Seq<char>)>) -> bool {
    id.2 == device && match pushed {
        None => true,
        Some(p) => hlc_lt(p, id),
    }
}

/// Indices, in journal order, of the events among the first `n` to push.
pub open spec fn push_indices(
    ids: Seq<(u64, u16, Seq<char>)>,
    device: Seq<char>,
    pushed: Option<(u64, u16, Seq<char>)>,
    n: int,
) -> Seq<usize>
    decreases n,
{
    if n <= 0 {
        Seq::empty()
    } else {
        let prev = push_indices(ids, device, pushed, n - 1);
        if unpushed(ids[n - 1], device, pushed) {
            prev.push((n - 1) as usize)
        } else {
            prev
        }
    }
}

/// This device's events strictly newer than the confirmed cursor `pushed`
/// (all of them when there is none), as indices into `ids` in journal
/// order; the last one becomes the new cursor once the server confirms.
pub fn events_to_push(ids: &Vec<Hlc>, device: &str, pushed: &Option<Hlc>) -> (r: Vec<usize>)
    ensures
        r@ == push_indices(ids_view(ids@), device@, opt_view(*pushed), ids.len() as int),
{
    let ghost iv = ids_view(ids@);
    let mut r: Vec<usize> = Vec::new();
    let n = ids.len();
    for i in 0..n
        invariant
            n == ids.len(),
            iv == ids_view(ids@),
            r@ == push_indices(iv, device@, opt_view(*pushed), i as int),
    {
        let id = &ids[i];
        assert(iv[i as int] == id@);
        let own = str_eq(id.device.as_str(), device);
        let newer = match pushed {
            None => true,
            Some(p) => hlc_before(p, id),
        };
        if own && newer {
            r.push(i);
        }
    }
    r
}

/// Strictly increasing journal: every stamp is newer than the ones before.
pub open spec fn sorted_ids(ids: Seq<(u64, u16, Seq<char>)>) -> bool {
    forall|a: int, b: int| 0 <= a < b < ids.len() ==> hlc_lt(ids[a], ids[b])
}

/// The push batch holds exactly this device's unconfirmed events, in
/// ascending index order.
pub proof fn law_push_takes_own_after_cursor_only(
    ids: Seq<(u64, u16, Seq<char>)>,
    device: Seq<char>,
    pushed: Option<(u64, u16, Seq<char>)>,
    n: int,
)
    requires
        0 <= n <= ids.len(),
        ids.len() <= usize::MAX,
    ensures
        ({
            let r = push_indices(ids, device, pushed, n);
            &&& forall|k: int| 0 <= k < n ==> (r.contains(k as usize) <==> unpushed(ids[k], device, pushed))
            &&& forall|a: int, b: int| 0 <= a < b < r.len() ==> r[a] < r[b]
            &&& forall|a: int| 0 <= a < r.len() ==> (r[a] as int) < n
        }),
    decreases n,
{
    if n > 0 {
        law_push_takes_own_after_cursor_only(ids, device, pushed, n - 1);
        let prev = push_indices(ids, device, pushed, n - 1);
        let r = push_indices(ids, device, pushed, n);
        assert forall|k: int| 0 <= k < n implies (r.contains(k as usize) <==> unpushed(ids[k], device, pushed)) by {
            if k < n - 1 {
                if r.contains(k as usize) {
                    let t = choose|t: int| 0 <= t < r.len() && r[t] == k as usize;
                    if t < prev.len() {
                        assert(prev.contains(k as usize));
                    }
                }
                if prev.contains(k as usize) {
                    let t = choose|t: int| 0 <= t < prev.len() && prev[t] == k as usize;
                    assert(r[t] == k as usize);
                }
            } else {
                if unpushed(ids[k], device, pushed) {
                    assert(r[r.len() - 1] == k as usize);
                } else if r.contains(k as usize) {
                    let t = choose|t: int| 0 <= t < r.len() && r[t] == k as usize;
                    assert(prev[t] == k as usize);
                }
            }
        }
    }
}

/// Confirming a batch moves the cursor to its last stamp; in a sorted
/// journal nothing is sent twice, and the next own event is sent alone.
pub proof fn law_push_cursor_advances_exactly(
    ids: Seq<(u64, u16, Seq<char>)>,
    device: Seq<char>,
    pushed: Option<(u64, u16, Seq<char>)>,
    next: (u64, u16, Seq<char>),
)
    requires
        sorted_ids(ids),
        ids.len() < usize::MAX,
        push_indices(ids, device, pushed, ids.len() as int).len() > 0,
        forall|k: int| 0 <= k < ids.len() ==> hlc_lt(#[trigger] ids[k], next),
        next.2 == device,
    ensures
        ({
            let batch = push_indices(ids, device, pushed, ids.len() as int);
            let cursor = Some(ids[batch.last() as int]);
            &&& push_indices(ids, device, cursor, ids.len() as int).len() == 0
            &&& push_indices(ids.push(next), device, cursor, ids.len() + 1int) == seq![
                ids.len() as usize,
            ]
        }),
{
    let n = ids.len() as int;
    let batch = push_indices(ids, device, pushed, n);
    let last = batch.last() as int;
    let cursor = Some(ids[last]);
    law_push_takes_own_after_cursor_only(ids, device, pushed, n);
    law_push_takes_own_after_cursor_only(ids, device, cursor, n);
    assert(batch.contains(batch.last()));
    assert(0 <= last < n);
    assert(unpushed(ids[last], device, pushed));
    let again = push_indices(ids, device, cursor, n);
    if again.len() > 0 {
        let k = again[0] as int;
        assert(again.contains(again[0]));
        assert(unpushed(ids[k], device, cursor));
        assert(hlc_lt(ids[last], ids[k]));
        if k <= last {
            if k == last {
                lemma_hlc_lt_irreflexive(ids[k]);
            } else {
                assert(hlc_lt(ids[k], ids[last]));
                lemma_hlc_lt_transitive(ids[k], ids[last], ids[k]);
                lemma_hlc_lt_irreflexive(ids[k]);
            }
        }
        assert(unpushed(ids[k], device, pushed)) by {
            if pushed is Some {
                lemma_hlc_lt_transitive(pushed.unwrap(), ids[last], ids[k]);
            }
        }
        assert(batch.contains(k as usize));
        let t = choose|t: int| 0 <= t < batch.len() && batch[t] == k as usize;
        assert(t < batch.len() - 1);
        assert(batch[t] < batch[batch.len() - 1]);
    }
    let ext = ids.push(next);
    assert forall|m: int| 0 <= m <= n implies push_indices(ext, device, cursor, m) == push_indices(ids, device, cursor, m) by {
        lemma_push_prefix(ids, next, device, cursor, m);
    }
    assert(hlc_lt(ids[last], next));
    assert(unpushed(ext[n], device, cursor));
    assert(push_indices(ext, device, cursor, n + 1) =~= seq![n as usize]);
}

proof fn lemma_push_prefix(
    ids: Seq<(u64, u16, Seq<char>)>,
    next: (u64, u16, Seq<char>),
    device: Seq<char>,
    pushed: Option<(u64, u16, Seq<char>)>,
    m: int,
)
    requires
        0 <= m <= ids.len(),
    ensures
        push_indices(ids.push(next), device, pushed, m) == push_indices(ids, device, pushed, m),
    decreases m,
{
    if m > 0 {
        lemma_push_prefix(ids, next, device, pushed, m - 1);
        assert(ids.push(next)[m - 1] == ids[m - 1]);
    }
}

/// The request a sync cycle makes next, or its end.
#[derive(Debug, Clone, Copy, PartialEq, Eq, Structural)]
pub enum CycleStep {
    /// Send this device's new events.
    Push,
    /// Ask for what the server has beyond the local cursors.
    Pull,
    /// The cycle succeeded.
    Done,
}

/// Why a sync cycle failed (the worker backs off and tries again).
#[derive(Debug, Clone, Copy, PartialEq, Eq, Structural)]
pub enum CycleError {
    /// The request got no answer.
    Network,
    /// The server refused the push with this status.
    PushStatus(u16),
    /// The server refused the pull with this status.
    PullStatus(u16),
}

/// A cycle starts with a push when there is something to push, else with
/// the pull.
pub fn cycle_start(batch_len: usize) -> (r: CycleStep)
    ensures
        r == (if batch_len > 0 { CycleStep::Push } else { CycleStep::Pull }),
{
    if batch_len > 0 { CycleStep::Push } else { CycleStep::Pull }
}

pub open spec fn cycle_next_spec(sent: CycleStep, reply: Option<u16>) -> Result<CycleStep, CycleError> {
    match reply {
        None => Err(CycleError::Network),
        Some(s) => if s == 200 {
            Ok(if sent == CycleStep::Push { CycleStep::Pull } else { CycleStep::Done })
        } else if sent == CycleStep::Push {
            Err(CycleError::PushStatus(s))
        } else {
            Err(CycleError::PullStatus(s))
        },
    }
}

/// After the answer to the request `sent` (`None`: no answer): only `200`
/// goes on, from the push to the pull and from the pull to the end. The
/// cursor moves to the batch's last stamp exactly when the push is
/// answered `200`.
pub fn cycle_next(sent: CycleStep, reply: Option<u16>) -> (r: Result<CycleStep, CycleError>)
    requires
        sent != CycleStep::Done,
    ensures
        r == cycle_next_spec(sent, reply),
{
    match reply {
        None => Err(CycleError::Network),
        Some(s) => if s == 200 {
            Ok(if sent == CycleStep::Push { CycleStep::Pull } else { CycleStep::Done })
        } else if sent == CycleStep::Push {
            Err(CycleError::PushStatus(s))
        } else {
            Err(CycleError::PullStatus(s))
        },
    }
}

/// A cycle never pulls after a refused push and never ends without a
/// successful pull: whatever the answers, `Done` follows only a `200` to
/// the pull, and `Pull` follows only a `200` to the push.
pub proof fn law_cycle_pulls_only_after_push(sent: CycleStep, reply: Option<u16>)
    requires
        sent != CycleStep::Done,
    ensures
        cycle_next_spec(sent, reply) == Ok::<CycleStep, CycleError>(CycleStep::Done) ==> sent == CycleStep::Pull && reply == Some(200u16),
        cycle_next_spec(sent, reply) == Ok::<CycleStep, CycleError>(CycleStep::Pull) ==> sent == CycleStep::Push && reply == Some(200u16),
        cycle_next_spec(sent, reply) != Ok::<CycleStep, CycleError>(CycleStep::Push),
{
}

} // verus!
