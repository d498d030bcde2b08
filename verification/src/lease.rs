//! Presence lease of the sync server: "one pet", newest claim wins.
//!
//! The server keeps at most one lease row per account. A claim from a device
//! is answered by [`lease_claim`], which says what the row becomes and what
//! the device is told; the storage layer only reads and writes that row.

use vstd::prelude::*;

verus! {

/// Largest value of `i64`, as an integer.
pub open spec fn i64_max() -> int {
    0x7fff_ffff_ffff_ffff
}

/// The `i64` that a `u64` becomes under `as i64` (two's complement wrap).
pub open spec fn wrap_i64(v: int) -> int {
    if v <= i64_max() { v } else { v - 0x1_0000_0000_0000_0000 }
}

/// `u64 as i64`, written out so that its value is known.
pub fn u64_as_i64(v: u64) -> (r: i64)
    ensures
        r == wrap_i64(v as int),
{
    if v <= 0x7fff_ffff_ffff_ffff {
        v as i64
    } else {
        let high: u64 = v - 0x8000_0000_0000_0000;
        let h: i64 = high as i64;
        h - 0x7fff_ffff_ffff_ffff - 1
    }
}

/// One lease row: the holder, when the lease runs out (unix seconds), and the
/// device that was just ousted by a newer claim, if any.
pub struct LeaseRow {
    pub device: String,
    pub expires_at: i64,
    /// The device whose lease was just taken: its next request is told
    /// `granted: false` once ("the pet ran off").
    pub ousted: Option<String>,
}

/// The row as plain values.
pub struct LeaseRowView {
    pub device: Seq<char>,
    pub expires_at: int,
    pub ousted: Option<Seq<char>>,
}

impl LeaseRow {
    pub open spec fn view(&self) -> LeaseRowView {
        LeaseRowView {
            device: self.device@,
            expires_at: self.expires_at as int,
            ousted: match &self.ousted {
                Some(o) => Some(o@),
                None => None,
            },
        }
    }
}

/// Answer to claim-or-heartbeat.
#[derive(Debug, PartialEq, Eq)]
pub struct LeaseAnswer {
    pub granted: bool,
    /// Holder of the lease AFTER the request was processed.
    pub holder: String,
}

/// Expiry written by a successful claim: `now + ttl`, saturating, as `i64`.
pub open spec fn claim_expiry(ttl_s: int, now_s: int) -> int {
    let sum = now_s + ttl_s;
    wrap_i64(if sum > u64::MAX as int { u64::MAX as int } else { sum })
}

/// The row is absent or has run out at `now_s`.
pub open spec fn lease_free(row: Option<LeaseRowView>, now_s: int) -> bool {
    match row {
        None => true,
        Some(r) => r.expires_at <= wrap_i64(now_s),
    }
}

/// What a claim does: the row afterwards, whether it was granted, and who
/// holds the lease afterwards.
pub open spec fn claim_outcome(
    row: Option<LeaseRowView>,
    device: Seq<char>,
    ttl_s: int,
    now_s: int,
) -> (LeaseRowView, bool, Seq<char>) {
    let exp = claim_expiry(ttl_s, now_s);
    if lease_free(row, now_s) {
        (LeaseRowView { device, expires_at: exp, ousted: None }, true, device)
    } else {
        let r = row.unwrap();
        if r.device == device {
            (LeaseRowView { device: r.device, expires_at: exp, ousted: r.ousted }, true, r.device)
        } else if r.ousted == Some(device) {
            (LeaseRowView { device: r.device, expires_at: r.expires_at, ousted: None }, false, r.device)
        } else {
            (LeaseRowView { device, expires_at: exp, ousted: Some(r.device) }, true, device)
        }
    }
}

pub open spec fn opt_row_view(row: &Option<LeaseRow>) -> Option<LeaseRowView> {
    match row {
        Some(r) => Some(r.view()),
        None => None,
    }
}

fn str_eq(a: &String, b: &String) -> (r: bool)
    ensures
        r == (a@ == b@),
{
    a.eq(b)
}

/// Claim-or-heartbeat with newest-wins semantics:
/// - free or expired lease: granted to the caller, no ousted mark;
/// - the holder itself: heartbeat, expiry extended, ousted mark kept;
/// - the device that was just ousted: `granted: false` with the new holder,
///   and the mark is cleared, so its NEXT request is a fresh claim;
/// - any other device: takes the lease at once, the old holder is ousted.
pub fn lease_claim(row: Option<LeaseRow>, device: &str, ttl_s: u64, now_s: u64) -> (res: (
    LeaseRow,
    LeaseAnswer,
))
    ensures
        ({
            let (r, g, h) = claim_outcome(opt_row_view(&row), device@, ttl_s as int, now_s as int);
            &&& res.0.view() == r
            &&& res.1.granted == g
            &&& res.1.holder@ == h
        }),
{
    let sum: u64 = if ttl_s > u64::MAX - now_s { u64::MAX } else { now_s + ttl_s };
    let expires = u64_as_i64(sum);
    let now_i = u64_as_i64(now_s);
    let dev = device.to_owned();
    match row {
        None => {
            let holder = device.to_owned();
            (LeaseRow { device: dev, expires_at: expires, ousted: None }, LeaseAnswer { granted: true, holder })
        },
        Some(r) => {
            if r.expires_at <= now_i {
                let holder = device.to_owned();
                (LeaseRow { device: dev, expires_at: expires, ousted: None }, LeaseAnswer { granted: true, holder })
            } else if str_eq(&r.device, &dev) {
                let holder = r.device.clone();
                (LeaseRow { device: r.device, expires_at: expires, ousted: r.ousted }, LeaseAnswer { granted: true, holder })
            } else {
                let was_ousted = match &r.ousted {
                    Some(o) => str_eq(o, &dev),
                    None => false,
                };
                if was_ousted {
                    let holder = r.device.clone();
                    (LeaseRow { device: r.device, expires_at: r.expires_at, ousted: None }, LeaseAnswer { granted: false, holder })
                } else {
                    let holder = device.to_owned();
                    (LeaseRow { device: dev, expires_at: expires, ousted: Some(r.device) }, LeaseAnswer { granted: true, holder })
                }
            }
        },
    }
}


/// The row after a voluntary release, as plain values.
pub open spec fn release_outcome(row: Option<LeaseRowView>, device: Seq<char>) -> (Option<LeaseRowView>, bool) {
    match row {
        Some(r) if r.device == device => (None, true),
        _ => (row, false),
    }
}

/// Give the lease up voluntarily: the row is removed only when `device`
/// holds it; the flag says whether it did.
pub fn lease_release(row: Option<LeaseRow>, device: &str) -> (res: (Option<LeaseRow>, bool))
    ensures
        ({
            let (r, released) = release_outcome(opt_row_view(&row), device@);
            &&& opt_row_view(&res.0) == r
            &&& res.1 == released
        }),
{
    let dev = device.to_owned();
    match row {
        Some(r) => {
            if str_eq(&r.device, &dev) {
                (None, true)
            } else {
                (Some(r), false)
            }
        },
        None => (None, false),
    }
}

/// A claim is refused exactly when the caller was ousted from a lease that
/// is still live; in every other case the caller holds the lease afterwards.
/// The answer always names the holder recorded in the row afterwards.
pub proof fn law_claim_refused_only_when_ousted(
    row: Option<LeaseRowView>,
    device: Seq<char>,
    ttl_s: u64,
    now_s: u64,
)
    ensures
        ({
            let (r, granted, holder) = claim_outcome(row, device, ttl_s as int, now_s as int);
            &&& !granted <==> (!lease_free(row, now_s as int) && row.unwrap().device != device
                && row.unwrap().ousted == Some(device))
            &&& granted ==> holder == device && r.device == device
            &&& holder == r.device
        }),
{
}

/// The loss is told once: right after a refused claim, the same device's
/// next claim is granted, whenever it comes and with whatever TTL.
pub proof fn law_refusal_is_told_once(
    row: Option<LeaseRowView>,
    device: Seq<char>,
    ttl1: u64,
    now1: u64,
    ttl2: u64,
    now2: u64,
)
    requires
        !claim_outcome(row, device, ttl1 as int, now1 as int).1,
    ensures
        ({
            let after = claim_outcome(row, device, ttl1 as int, now1 as int).0;
            let (r2, g2, h2) = claim_outcome(Some(after), device, ttl2 as int, now2 as int);
            g2 && h2 == device && r2.device == device
        }),
{
}

/// Newest claim wins: a device that claims a live lease held by another
/// (and that was not itself just ousted) takes it at once, and the old
/// holder is marked; while the lease is live, the old holder's next request
/// is refused and names the new holder.
pub proof fn law_newest_claim_wins(
    row: LeaseRowView,
    device: Seq<char>,
    ttl1: u64,
    now1: u64,
    ttl2: u64,
    now2: u64,
)
    requires
        !lease_free(Some(row), now1 as int),
        row.device != device,
        row.ousted != Some(device),
        claim_outcome(Some(row), device, ttl1 as int, now1 as int).0.expires_at > wrap_i64(
            now2 as int,
        ),
    ensures
        ({
            let (r1, g1, h1) = claim_outcome(Some(row), device, ttl1 as int, now1 as int);
            let (r2, g2, h2) = claim_outcome(Some(r1), row.device, ttl2 as int, now2 as int);
            &&& g1 && h1 == device && r1.ousted == Some(row.device)
            &&& !g2 && h2 == device && r2.ousted == None::<Seq<char>>
        }),
{
}

/// A heartbeat of the holder keeps the lease and the ousted mark, and moves
/// the expiry to `now + ttl`.
pub proof fn law_heartbeat_extends(row: LeaseRowView, ttl_s: u64, now_s: u64)
    requires
        !lease_free(Some(row), now_s as int),
    ensures
        ({
            let (r, g, h) = claim_outcome(Some(row), row.device, ttl_s as int, now_s as int);
            &&& g && h == row.device
            &&& r.ousted == row.ousted
            &&& r.expires_at == claim_expiry(ttl_s as int, now_s as int)
        }),
{
}

/// An absent or expired lease is free for anyone: the claim is granted,
/// leaves no ousted mark, and the new lease runs `ttl` seconds from now
/// (`now + ttl`, saturated at `u64::MAX`, read as `i64`), so that it is live
/// right after a claim with a positive TTL.
pub proof fn law_expired_lease_is_free(row: Option<LeaseRowView>, device: Seq<char>, ttl_s: u64, now_s: u64)
    requires
        lease_free(row, now_s as int),
    ensures
        ({
            let (r, g, h) = claim_outcome(row, device, ttl_s as int, now_s as int);
            &&& g && h == device && r.device == device && r.ousted == None::<Seq<char>>
            &&& r.expires_at == wrap_i64(
                if now_s + ttl_s > u64::MAX { u64::MAX as int } else { now_s + ttl_s },
            )
            &&& now_s + ttl_s <= i64_max() ==> r.expires_at == now_s + ttl_s
            &&& 0 < ttl_s && now_s + ttl_s <= i64_max() ==> !lease_free(Some(r), now_s as int)
        }),
{
}

/// Every granted claim (fresh, heartbeat or take-over) sets the lease to run
/// out `ttl` seconds from now, saturated at `u64::MAX` and read as `i64`; a
/// refused claim leaves the expiry as it was.
pub proof fn law_granted_claim_runs_from_now(row: Option<LeaseRowView>, device: Seq<char>, ttl_s: u64, now_s: u64)
    ensures
        ({
            let (r, g, h) = claim_outcome(row, device, ttl_s as int, now_s as int);
            &&& g ==> r.expires_at == wrap_i64(
                if now_s + ttl_s > u64::MAX { u64::MAX as int } else { now_s + ttl_s },
            )
            &&& !g ==> row is Some && r.expires_at == row.unwrap().expires_at
        }),
{
}

/// Only the holder can release; after it has, the next claim of any device
/// is granted without marking anybody ousted.
pub proof fn law_release_frees_the_slot(
    row: Option<LeaseRowView>,
    device: Seq<char>,
    other: Seq<char>,
    ttl_s: u64,
    now_s: u64,
)
    ensures
        ({
            let (after, released) = release_outcome(row, device);
            &&& released <==> (row is Some && row.unwrap().device == device)
            &&& !released ==> after == row
            &&& released ==> ({
                let (r, g, h) = claim_outcome(after, other, ttl_s as int, now_s as int);
                g && h == other && r.ousted == None::<Seq<char>>
            })
        }),
{
}

} // verus!
