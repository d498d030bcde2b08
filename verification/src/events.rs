//! Event handling of the sync server: keys of pushed events, cursor-based
//! pull, and the checks on requests.
//!
//! Events are opaque JSON to the server: it reads only the key in `id`
//! (device, wall time, counter) and stores and returns the rest untouched.

use vstd::prelude::*;
use crate::text::{
    chars_of, lemma_seq_lt_irreflexive, lemma_seq_lt_total, lemma_seq_lt_transitive, seq_lt, str_eq,
    str_lt, string_of, trim_chars, trim_spec,
};

verus! {

/// Cursor "newest stamp of this device the client has seen" (an HLC stamp
/// without the device).
#[derive(Debug, Clone, Copy, PartialEq, Eq, Structural)]
pub struct Cursor {
    pub wall_ms: u64,
    pub counter: u16,
}

/// A stored event to hand out: key and opaque payload (the event's JSON).
pub struct StoredEvent {
    pub device: String,
    pub wall_ms: u64,
    pub counter: u16,
    pub payload: String,
}

impl StoredEvent {
    pub open spec fn view(&self) -> (Seq<char>, u64, u16, Seq<char>) {
        (self.device@, self.wall_ms, self.counter, self.payload@)
    }
}

/// `(wall_ms, counter)` is strictly newer than the cursor; with no cursor,
/// everything is new.
pub open spec fn newer(wall_ms: u64, counter: u16, cursor: Option<Cursor>) -> bool {
    match cursor {
        None => true,
        Some(c) => wall_ms > c.wall_ms || (wall_ms == c.wall_ms && counter > c.counter),
    }
}

/// Cursor of `device` among the pairs: the first one that names it.
pub open spec fn cursor_lookup(cursors: Seq<(Seq<char>, Cursor)>, device: Seq<char>) -> Option<Cursor>
    decreases cursors.len(),
{
    if cursors.len() == 0 {
        None
    } else if cursors[0].0 == device {
        Some(cursors[0].1)
    } else {
        cursor_lookup(cursors.drop_first(), device)
    }
}

pub open spec fn cursors_view(cursors: Seq<(String, Cursor)>) -> Seq<(Seq<char>, Cursor)> {
    cursors.map_values(|p: (String, Cursor)| (p.0@, p.1))
}

/// The cursor that the client sent for `device`, if any.
pub fn cursor_for(cursors: &Vec<(String, Cursor)>, device: &str) -> (r: Option<Cursor>)
    ensures
        r == cursor_lookup(cursors_view(cursors@), device@),
{
    let ghost cv = cursors_view(cursors@);
    let mut k: usize = 0;
    assert(cv.skip(0) =~= cv);
    while k < cursors.len()
        invariant
            0 <= k <= cursors.len(),
            cv == cursors_view(cursors@),
            cursor_lookup(cv.skip(k as int), device@) == cursor_lookup(cv, device@),
        decreases cursors.len() - k,
    {
        assert(cv.skip(k as int)[0] == (cursors@[k as int].0@, cursors@[k as int].1));
        if str_eq(cursors[k].0.as_str(), device) {
            return Some(cursors[k].1);
        }
        assert(cv.skip(k as int).drop_first() =~= cv.skip(k + 1));
        k = k + 1;
    }
    None
}

pub open spec fn rows_view(rows: Seq<StoredEvent>) -> Seq<(Seq<char>, u64, u16, Seq<char>)> {
    rows.map_values(|e: StoredEvent| e@)
}

/// The rows among the first `n` that are newer than their device's cursor,
/// in their order.
pub open spec fn select_spec(
    rows: Seq<(Seq<char>, u64, u16, Seq<char>)>,
    cursors: Seq<(Seq<char>, Cursor)>,
    n: int,
) -> Seq<(Seq<char>, u64, u16, Seq<char>)>
    decreases n,
{
    if n <= 0 {
        Seq::empty()
    } else {
        let prev = select_spec(rows, cursors, n - 1);
        let r = rows[n - 1];
        if newer(r.1, r.2, cursor_lookup(cursors, r.0)) {
            prev.push(r)
        } else {
            prev
        }
    }
}

/// All the account's events newer than the client's cursors, in the order
/// given ([`pull_events`] sorts them first). A device without a cursor gets
/// everything (append-only journals per device make this cursor sync exact).
pub fn select_after(rows: Vec<StoredEvent>, cursors: &Vec<(String, Cursor)>) -> (out: Vec<StoredEvent>)
    ensures
        rows_view(out@) == select_spec(rows_view(rows@), cursors_view(cursors@), rows.len() as int),
{
    let ghost rv = rows_view(rows@);
    let ghost cv = cursors_view(cursors@);
    let ghost rows0 = rows@;
    let mut out: Vec<StoredEvent> = Vec::new();
    for ev in it: rows.into_iter()
        invariant
            rv == rows_view(rows0),
            cv == cursors_view(cursors@),
            it.seq() == rows0,
            rows_view(out@) == select_spec(rv, cv, it.index() as int),
    {
        let ghost i = it.index() as int;
        assert(ev == rows0[i]);
        let c = cursor_for(cursors, ev.device.as_str());
        let keep = match c {
            None => true,
            Some(c) => ev.wall_ms > c.wall_ms || (ev.wall_ms == c.wall_ms && ev.counter > c.counter),
        };
        assert(rv[i] == ev@);
        if keep {
            out.push(ev);
            assert(rows_view(out@) =~= select_spec(rv, cv, i).push(ev@));
        }
    }
    out
}


/// A pull hands out exactly the events newer than their device's cursor
/// (all events of a device without a cursor), in the stored order.
pub proof fn law_pull_returns_exactly_newer_events(
    rows: Seq<(Seq<char>, u64, u16, Seq<char>)>,
    cursors: Seq<(Seq<char>, Cursor)>,
    n: int,
)
    requires
        0 <= n <= rows.len(),
    ensures
        ({
            let out = select_spec(rows, cursors, n);
            &&& forall|x: (Seq<char>, u64, u16, Seq<char>)|
                out.contains(x) <==> exists|k: int|
                    0 <= k < n && rows[k] == x && newer(x.1, x.2, cursor_lookup(cursors, x.0))
            &&& out.len() <= n
        }),
    decreases n,
{
    if n > 0 {
        law_pull_returns_exactly_newer_events(rows, cursors, n - 1);
        let prev = select_spec(rows, cursors, n - 1);
        let out = select_spec(rows, cursors, n);
        assert forall|x: (Seq<char>, u64, u16, Seq<char>)|
            out.contains(x) <==> exists|k: int|
                0 <= k < n && rows[k] == x && newer(x.1, x.2, cursor_lookup(cursors, x.0)) by {
            if out.contains(x) {
                let t = choose|t: int| 0 <= t < out.len() && out[t] == x;
                if t < prev.len() {
                    assert(prev.contains(x));
                } else {
                    assert(rows[n - 1] == x);
                }
            }
            if exists|k: int| 0 <= k < n && rows[k] == x && newer(x.1, x.2, cursor_lookup(cursors, x.0)) {
                let k = choose|k: int|
                    0 <= k < n && rows[k] == x && newer(x.1, x.2, cursor_lookup(cursors, x.0));
                if k < n - 1 {
                    assert(prev.contains(x));
                    let t = choose|t: int| 0 <= t < prev.len() && prev[t] == x;
                    assert(out[t] == x);
                } else {
                    assert(out[out.len() - 1] == x);
                }
            }
        }
    }
}

/// The store's order of events: wall time, then counter, then device.
pub open spec fn row_before(a: (Seq<char>, u64, u16, Seq<char>), b: (Seq<char>, u64, u16, Seq<char>)) -> bool {
    a.1 < b.1 || (a.1 == b.1 && (a.2 < b.2 || (a.2 == b.2 && seq_lt(a.0, b.0))))
}

/// Strictly ascending in the store's order.
pub open spec fn rows_ascending(rows: Seq<(Seq<char>, u64, u16, Seq<char>)>) -> bool {
    forall|a: int, b: int| 0 <= a < b < rows.len() ==> row_before(#[trigger] rows[a], #[trigger] rows[b])
}

/// Rows handed out in the store's order come out in that order too: the
/// pull is sorted by wall time, counter and device, with no event twice.
pub proof fn law_pull_keeps_the_store_order(
    rows: Seq<(Seq<char>, u64, u16, Seq<char>)>,
    cursors: Seq<(Seq<char>, Cursor)>,
    n: int,
)
    requires
        0 <= n <= rows.len(),
        rows_ascending(rows),
    ensures
        rows_ascending(select_spec(rows, cursors, n)),
        forall|a: int, b: int|
            0 <= a < b < select_spec(rows, cursors, n).len() ==> select_spec(rows, cursors, n)[a]
                != select_spec(rows, cursors, n)[b],
    decreases n,
{
    if n > 0 {
        law_pull_keeps_the_store_order(rows, cursors, n - 1);
        law_pull_returns_exactly_newer_events(rows, cursors, n - 1);
        let prev = select_spec(rows, cursors, n - 1);
        let out = select_spec(rows, cursors, n);
        let last = rows[n - 1];
        assert forall|a: int, b: int| 0 <= a < b < out.len() implies row_before(#[trigger] out[a], #[trigger] out[b]) by {
            if b < prev.len() {
                assert(out[a] == prev[a] && out[b] == prev[b]);
            } else {
                assert(out[a] == prev[a]);
                assert(prev.contains(prev[a]));
                let k = choose|k: int|
                    0 <= k < n - 1 && rows[k] == prev[a] && newer(prev[a].1, prev[a].2, cursor_lookup(cursors, prev[a].0));
                assert(row_before(rows[k], rows[n - 1]));
            }
        }
    }
    let out = select_spec(rows, cursors, n);
    assert forall|a: int, b: int| 0 <= a < b < out.len() implies out[a] != out[b] by {
        assert(row_before(out[a], out[b]));
        lemma_seq_lt_irreflexive(out[a].0);
    }
}

/// Same key: same device, wall time and counter.
pub open spec fn same_key(a: (Seq<char>, u64, u16, Seq<char>), b: (Seq<char>, u64, u16, Seq<char>)) -> bool {
    a.0 == b.0 && a.1 == b.1 && a.2 == b.2
}

/// No row stands after one that comes later in the store's order (rows of
/// equal keys may stand in either order).
pub open spec fn rows_in_order(rows: Seq<(Seq<char>, u64, u16, Seq<char>)>) -> bool {
    forall|a: int, b: int| 0 <= a < b < rows.len() ==> !row_before(#[trigger] rows[b], #[trigger] rows[a])
}

/// No two rows share a key, as in the store.
pub open spec fn keys_distinct(rows: Seq<(Seq<char>, u64, u16, Seq<char>)>) -> bool {
    forall|a: int, b: int| 0 <= a < b < rows.len() ==> !same_key(#[trigger] rows[a], #[trigger] rows[b])
}

proof fn lemma_row_before_transitive(
    a: (Seq<char>, u64, u16, Seq<char>),
    b: (Seq<char>, u64, u16, Seq<char>),
    c: (Seq<char>, u64, u16, Seq<char>),
)
    requires
        row_before(a, b),
        row_before(b, c),
    ensures
        row_before(a, c),
{
    if a.1 == b.1 && b.1 == c.1 && a.2 == b.2 && b.2 == c.2 {
        lemma_seq_lt_transitive(a.0, b.0, c.0);
    }
}

proof fn lemma_row_before_asymmetric(a: (Seq<char>, u64, u16, Seq<char>), b: (Seq<char>, u64, u16, Seq<char>))
    requires
        row_before(a, b),
    ensures
        !row_before(b, a),
{
    if row_before(b, a) {
        lemma_row_before_transitive(a, b, a);
        lemma_seq_lt_irreflexive(a.0);
    }
}

proof fn lemma_row_before_total(a: (Seq<char>, u64, u16, Seq<char>), b: (Seq<char>, u64, u16, Seq<char>))
    ensures
        row_before(a, b) || row_before(b, a) || same_key(a, b),
{
    lemma_seq_lt_total(a.0, b.0);
}

/// Putting `x` in front of the first row that comes after it keeps the rows
/// in order, and ascending when `x` shares no key with them.
proof fn lemma_insert_keeps_order(s: Seq<(Seq<char>, u64, u16, Seq<char>)>, p: int, x: (Seq<char>, u64, u16, Seq<char>))
    requires
        0 <= p <= s.len(),
        rows_in_order(s),
        forall|q: int| 0 <= q < p ==> !row_before(x, #[trigger] s[q]),
        p < s.len() ==> row_before(x, s[p]),
    ensures
        rows_in_order(s.insert(p, x)),
        rows_ascending(s) && (forall|q: int| 0 <= q < s.len() ==> !same_key(#[trigger] s[q], x))
            ==> rows_ascending(s.insert(p, x)),
{
    let t = s.insert(p, x);
    assert forall|a: int, b: int| 0 <= a < b < t.len() implies !row_before(#[trigger] t[b], #[trigger] t[a]) by {
        if a == p {
            let y = s[b - 1];
            assert(t[b] == y);
            if b - 1 > p {
                assert(!row_before(s[b - 1], s[p]));
                if row_before(y, x) {
                    lemma_row_before_transitive(y, x, s[p]);
                }
            } else {
                lemma_row_before_asymmetric(x, s[p]);
            }
        } else if a < p && b == p {
            assert(t[a] == s[a]);
        } else if a < p && b > p {
            assert(t[a] == s[a] && t[b] == s[b - 1]);
        } else if a > p {
            assert(t[a] == s[a - 1] && t[b] == s[b - 1]);
        } else {
            assert(t[a] == s[a] && t[b] == s[b]);
        }
    }
    if rows_ascending(s) && (forall|q: int| 0 <= q < s.len() ==> !same_key(#[trigger] s[q], x)) {
        assert forall|a: int, b: int| 0 <= a < b < t.len() implies row_before(#[trigger] t[a], #[trigger] t[b]) by {
            if a == p {
                assert(t[b] == s[b - 1]);
                if b - 1 > p {
                    assert(row_before(s[p], s[b - 1]));
                    lemma_row_before_transitive(x, s[p], s[b - 1]);
                }
            } else if a < p && b == p {
                assert(t[a] == s[a]);
                assert(!same_key(s[a], x));
                lemma_row_before_total(s[a], x);
            } else if a < p && b > p {
                assert(t[a] == s[a] && t[b] == s[b - 1]);
            } else if a > p {
                assert(t[a] == s[a - 1] && t[b] == s[b - 1]);
            } else {
                assert(t[a] == s[a] && t[b] == s[b]);
            }
        }
    }
}

/// `a` comes before `b` in the store's order.
fn row_precedes(a: &StoredEvent, b: &StoredEvent) -> (r: bool)
    ensures
        r == row_before(a@, b@),
{
    if a.wall_ms != b.wall_ms {
        a.wall_ms < b.wall_ms
    } else if a.counter != b.counter {
        a.counter < b.counter
    } else {
        str_lt(a.device.as_str(), b.device.as_str())
    }
}

/// The rows in the store's order: wall time, then counter, then device.
/// Every row stays, as often as it was given; rows with distinct keys come
/// out strictly ascending.
pub fn sort_rows(rows: Vec<StoredEvent>) -> (out: Vec<StoredEvent>)
    ensures
        rows_view(out@).to_multiset() == rows_view(rows@).to_multiset(),
        rows_in_order(rows_view(out@)),
        keys_distinct(rows_view(rows@)) ==> rows_ascending(rows_view(out@)),
{
    let ghost rv = rows_view(rows@);
    let ghost rows0 = rows@;
    let mut out: Vec<StoredEvent> = Vec::new();
    proof {
        broadcast use vstd::seq_lib::group_to_multiset_ensures;
        assert(rows_view(out@) =~= rv.take(0));
    }
    for ev in it: rows.into_iter()
        invariant
            rv == rows_view(rows0),
            it.seq() == rows0,
            rows_view(out@).to_multiset() == rv.take(it.index() as int).to_multiset(),
            rows_in_order(rows_view(out@)),
            keys_distinct(rv) ==> rows_ascending(rows_view(out@)),
    {
        let ghost i = it.index() as int;
        assert(ev == rows0[i]);
        assert(rv[i] == ev@);
        let ghost s = rows_view(out@);
        let mut p: usize = 0;
        while p < out.len() && !row_precedes(&ev, &out[p])
            invariant
                0 <= p <= out.len(),
                s == rows_view(out@),
                forall|q: int| 0 <= q < p ==> !row_before(ev@, #[trigger] s[q]),
            decreases out.len() - p,
        {
            p = p + 1;
        }
        proof {
            broadcast use vstd::seq_lib::group_to_multiset_ensures;
            if keys_distinct(rv) {
                assert forall|q: int| 0 <= q < s.len() implies !same_key(#[trigger] s[q], ev@) by {
                    assert(s.contains(s[q]));
                    assert(rv.take(i).to_multiset().count(s[q]) > 0);
                    assert(rv.take(i).contains(s[q]));
                    let k = choose|k: int| 0 <= k < rv.take(i).len() && rv.take(i)[k] == s[q];
                    assert(rv[k] == s[q]);
                }
            }
            lemma_insert_keeps_order(s, p as int, ev@);
            assert(rv.take(i + 1) =~= rv.take(i).push(rv[i]));
        }
        out.insert(p, ev);
        proof {
            broadcast use vstd::seq_lib::group_to_multiset_ensures;
            assert(rows_view(out@) =~= s.insert(p as int, rv[i]));
        }
    }
    assert(rv.take(rv.len() as int) =~= rv);
    out
}

/// Selecting rows keeps them in order.
proof fn lemma_select_keeps_order(
    rows: Seq<(Seq<char>, u64, u16, Seq<char>)>,
    cursors: Seq<(Seq<char>, Cursor)>,
    n: int,
)
    requires
        0 <= n <= rows.len(),
        rows_in_order(rows),
    ensures
        rows_in_order(select_spec(rows, cursors, n)),
    decreases n,
{
    if n > 0 {
        lemma_select_keeps_order(rows, cursors, n - 1);
        law_pull_returns_exactly_newer_events(rows, cursors, n - 1);
        let prev = select_spec(rows, cursors, n - 1);
        let out = select_spec(rows, cursors, n);
        assert forall|a: int, b: int| 0 <= a < b < out.len() implies !row_before(#[trigger] out[b], #[trigger] out[a]) by {
            if b < prev.len() {
                assert(out[a] == prev[a] && out[b] == prev[b]);
            } else {
                assert(out[a] == prev[a]);
                assert(prev.contains(prev[a]));
                let k = choose|k: int|
                    0 <= k < n - 1 && rows[k] == prev[a] && newer(prev[a].1, prev[a].2, cursor_lookup(cursors, prev[a].0));
                assert(!row_before(rows[n - 1], rows[k]));
            }
        }
    }
}

/// A pull: the rows newer than their device's cursor (all rows of a device
/// without one), in the store's order whatever order they were read in;
/// strictly ascending, with no event twice, when no two rows share a key.
pub fn pull_events(rows: Vec<StoredEvent>, cursors: &Vec<(String, Cursor)>) -> (out: Vec<StoredEvent>)
    ensures
        forall|x: (Seq<char>, u64, u16, Seq<char>)|
            rows_view(out@).contains(x) <==> rows_view(rows@).contains(x) && newer(
                x.1,
                x.2,
                cursor_lookup(cursors_view(cursors@), x.0),
            ),
        out.len() <= rows.len(),
        rows_in_order(rows_view(out@)),
        keys_distinct(rows_view(rows@)) ==> rows_ascending(rows_view(out@)),
{
    let ghost rv = rows_view(rows@);
    let ghost cv = cursors_view(cursors@);
    let sorted = sort_rows(rows);
    let ghost sv = rows_view(sorted@);
    let n = sorted.len();
    let out = select_after(sorted, cursors);
    proof {
        broadcast use vstd::seq_lib::group_to_multiset_ensures;
        law_pull_returns_exactly_newer_events(sv, cv, n as int);
        lemma_select_keeps_order(sv, cv, n as int);
        if keys_distinct(rv) {
            law_pull_keeps_the_store_order(sv, cv, n as int);
        }
        assert forall|x: (Seq<char>, u64, u16, Seq<char>)|
            rows_view(out@).contains(x) <==> rv.contains(x) && newer(x.1, x.2, cursor_lookup(cv, x.0)) by {
            assert(sv.to_multiset().count(x) == rv.to_multiset().count(x));
            if sv.contains(x) {
                let k = choose|k: int| 0 <= k < sv.len() && sv[k] == x;
                assert(sv[k] == x);
            }
        }
        assert(rv.len() == rv.to_multiset().len());
    }
    out
}

/// A pull's body is not UTF-8.
#[derive(Debug, Clone, Copy, PartialEq, Eq, Structural)]
pub struct BodyNotUtf8;

/// Which text holds a pull's cursors: the `cursors` query parameter wins
/// over the body (not every client can send a GET with a body); no query
/// and an empty body, or a text that is only whitespace, mean "no cursors",
/// that is everything. `body_text` is the body as text, `None` when it is
/// not UTF-8. `Ok(Some(text))` is then read as a map `{device: stamp}`,
/// bare or wrapped in `{"cursors": ...}`.
pub fn cursor_text(query: Option<&str>, body_len: usize, body_text: Option<&str>) -> (r: Result<Option<String>, BodyNotUtf8>)
    ensures
        match query {
            Some(q) => if trim_spec(q@).len() == 0 { r == Ok::<Option<String>, BodyNotUtf8>(None) } else { r matches Ok(Some(t)) && t@ == q@ },
            None => if body_len == 0 {
                r == Ok::<Option<String>, BodyNotUtf8>(None)
            } else {
                match body_text {
                    None => r == Err::<Option<String>, BodyNotUtf8>(BodyNotUtf8),
                    Some(b) => if trim_spec(b@).len() == 0 {
                        r == Ok::<Option<String>, BodyNotUtf8>(None)
                    } else {
                        r matches Ok(Some(t)) && t@ == b@
                    },
                }
            },
        },
{
    let text: &str = match query {
        Some(q) => q,
        None => {
            if body_len == 0 {
                return Ok(None);
            }
            match body_text {
                None => return Err(BodyNotUtf8),
                Some(b) => b,
            }
        },
    };
    if trim_chars(text).len() == 0 {
        Ok(None)
    } else {
        Ok(Some(string_of(&chars_of(text))))
    }
}

/// What the server reads of a pushed event's `id`, as extracted from its
/// JSON: whether `id` exists, `wall_ms` and `counter` when they are
/// non-negative integers, `device` when it is a string.
pub struct EventIdFields {
    pub has_id: bool,
    pub wall_ms: Option<u64>,
    pub counter: Option<u64>,
    pub device: Option<String>,
}

/// Key of a stored event.
#[derive(Debug, PartialEq, Eq)]
pub struct EventKey {
    pub device: String,
    pub wall_ms: u64,
    pub counter: u16,
}

/// Why an event was refused.
#[derive(Debug, Clone, Copy, PartialEq, Eq, Structural)]
pub enum EventKeyError {
    /// The event has no `id`.
    NoId,
    /// `id.wall_ms` is not a non-negative integer.
    BadWallMs,
    /// `id.wall_ms` is beyond `i64::MAX`.
    WallMsTooLarge,
    /// `id.counter` is not in the range of `u16`.
    BadCounter,
    /// `id.device` is missing, not a string, or empty.
    EmptyDevice,
}

/// The key of an event, or the first reason (in this order) to refuse it.
pub open spec fn event_key_spec(f: EventIdFields) -> Result<(Seq<char>, u64, u16), EventKeyError> {
    if !f.has_id {
        Err(EventKeyError::NoId)
    } else if f.wall_ms is None {
        Err(EventKeyError::BadWallMs)
    } else if f.wall_ms.unwrap() > i64::MAX {
        Err(EventKeyError::WallMsTooLarge)
    } else if f.counter is None || f.counter.unwrap() > u16::MAX {
        Err(EventKeyError::BadCounter)
    } else if f.device is None || f.device.unwrap()@.len() == 0 {
        Err(EventKeyError::EmptyDevice)
    } else {
        Ok((f.device.unwrap()@, f.wall_ms.unwrap(), f.counter.unwrap() as u16))
    }
}

pub open spec fn key_matches(r: Result<EventKey, EventKeyError>, s: Result<(Seq<char>, u64, u16), EventKeyError>) -> bool {
    match (r, s) {
        (Ok(k), Ok(v)) => k.device@ == v.0 && k.wall_ms == v.1 && k.counter == v.2,
        (Err(a), Err(b)) => a == b,
        _ => false,
    }
}

/// Key of an event from its `id`: `(device, wall_ms, counter)`.
pub fn event_key(f: &EventIdFields) -> (r: Result<EventKey, EventKeyError>)
    ensures
        key_matches(r, event_key_spec(*f)),
{
    if !f.has_id {
        return Err(EventKeyError::NoId);
    }
    let wall_ms = match f.wall_ms {
        Some(w) => w,
        None => return Err(EventKeyError::BadWallMs),
    };
    if wall_ms > 0x7fff_ffff_ffff_ffff {
        return Err(EventKeyError::WallMsTooLarge);
    }
    let counter = match f.counter {
        Some(c) => if c <= 0xffff {
            c as u16
        } else {
            return Err(EventKeyError::BadCounter);
        },
        None => return Err(EventKeyError::BadCounter),
    };
    match &f.device {
        Some(d) => {
            if d.as_str().is_empty() {
                Err(EventKeyError::EmptyDevice)
            } else {
                Ok(EventKey { device: d.clone(), wall_ms, counter })
            }
        },
        None => Err(EventKeyError::EmptyDevice),
    }
}

/// A refused batch: the index of the first bad event and why.
#[derive(Debug, Clone, Copy, PartialEq, Eq, Structural)]
pub struct BatchError {
    pub index: usize,
    pub why: EventKeyError,
}

/// Validate a whole push batch before anything is written: a partly
/// accepted push would leave the client guessing what was stored. Either
/// every event has a key (returned in order), or the first bad one is
/// reported.
pub fn validate_batch(ids: &Vec<EventIdFields>) -> (r: Result<Vec<EventKey>, BatchError>)
    ensures
        match r {
            Ok(keys) => keys.len() == ids.len() && forall|i: int|
                0 <= i < ids.len() ==> key_matches(Ok(#[trigger] keys@[i]), event_key_spec(ids@[i])),
            Err(e) => e.index < ids.len() && key_matches(Err(e.why), event_key_spec(ids@[e.index as int]))
                && forall|i: int| 0 <= i < e.index ==> event_key_spec(#[trigger] ids@[i]) is Ok,
        },
{
    let mut keys: Vec<EventKey> = Vec::new();
    let n = ids.len();
    for i in 0..n
        invariant
            n == ids.len(),
            keys.len() == i,
            forall|k: int| 0 <= k < i ==> key_matches(Ok(#[trigger] keys@[k]), event_key_spec(ids@[k])),
    {
        match event_key(&ids[i]) {
            Ok(k) => {
                keys.push(k);
            },
            Err(why) => {
                assert forall|k: int| 0 <= k < i implies event_key_spec(#[trigger] ids@[k]) is Ok by {
                    assert(key_matches(Ok(keys@[k]), event_key_spec(ids@[k])));
                }
                return Err(BatchError { index: i, why });
            },
        }
    }
    Ok(keys)
}

/// Ceiling of the lease TTL: heartbeats come every ~10 s, an hour means a
/// broken client.
pub const MAX_LEASE_TTL_S: u64 = 3_600;

/// The requested TTL clamped to `1..=MAX_LEASE_TTL_S`.
pub fn lease_ttl(ttl_s: u64) -> (r: u64)
    ensures
        r == (if ttl_s < 1 { 1 } else if ttl_s > MAX_LEASE_TTL_S { MAX_LEASE_TTL_S } else { ttl_s }),
{
    if ttl_s < 1 {
        1
    } else if ttl_s > MAX_LEASE_TTL_S {
        MAX_LEASE_TTL_S
    } else {
        ttl_s
    }
}

/// A lease request is refused when its device is empty; otherwise it goes
/// on with the clamped TTL.
pub fn check_lease_request(device: &str, ttl_s: u64) -> (r: Option<u64>)
    ensures
        device@.len() == 0 ==> r is None,
        device@.len() > 0 ==> r == Some(
            if ttl_s < 1 { 1 } else if ttl_s > MAX_LEASE_TTL_S { MAX_LEASE_TTL_S } else { ttl_s },
        ),
{
    if device.is_empty() {
        None
    } else {
        Some(lease_ttl(ttl_s))
    }
}

/// The token of an `Authorization: Bearer <token>` header, whitespace
/// trimmed; `None` without the `Bearer ` prefix.
pub open spec fn bearer_spec(header: Seq<char>) -> Option<Seq<char>> {
    let p = "Bearer "@;
    if header.len() >= p.len() && header.take(p.len() as int) == p {
        Some(trim_spec(header.skip(p.len() as int)))
    } else {
        None
    }
}

/// The token of an `Authorization: Bearer <token>` header.
pub fn bearer_token(header: &str) -> (r: Option<String>)
    ensures
        match r {
            Some(t) => bearer_spec(header@) == Some(t@),
            None => bearer_spec(header@) is None,
        },
{
    proof {
        reveal_strlit("Bearer ");
    }
    let p = chars_of("Bearer ");
    let h = chars_of(header);
    if h.len() < p.len() {
        return None;
    }
    let mut k: usize = 0;
    while k < p.len()
        invariant
            p@ == "Bearer "@,
            h@ == header@,
            h.len() >= p.len(),
            0 <= k <= p.len(),
            forall|t: int| 0 <= t < k ==> h@[t] == p@[t],
        decreases p.len() - k,
    {
        if h[k] != p[k] {
            assert(h@.take(p.len() as int)[k as int] != p@[k as int]);
            return None;
        }
        k = k + 1;
    }
    assert(h@.take(p.len() as int) =~= p@);
    let mut rest: Vec<char> = Vec::new();
    let mut j: usize = p.len();
    while j < h.len()
        invariant
            p.len() <= j <= h.len(),
            rest@ == h@.subrange(p.len() as int, j as int),
        decreases h.len() - j,
    {
        rest.push(h[j]);
        assert(h@.subrange(p.len() as int, j + 1) =~= h@.subrange(p.len() as int, j as int).push(
            h@[j as int],
        ));
        j = j + 1;
    }
    assert(rest@ =~= header@.skip(p.len() as int));
    let s = string_of(&rest);
    let t = trim_chars(s.as_str());
    Some(string_of(&t))
}

} // verus!
