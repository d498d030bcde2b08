//! Decisions of the sync client's worker: how it reacts to lease answers,
//! how often it retries, and when it gives up a claim.
//!
//! The worker thread performs the HTTP requests and the waiting; every
//! choice it makes about what the answers mean lives here. Durations are in
//! milliseconds.

use vstd::prelude::*;

verus! {

/// Change of presence caused by a lease answer.
#[derive(Debug, Clone, Copy, PartialEq, Eq, Structural)]
pub enum LeaseShift {
    Unchanged,
    Gained,
    Lost,
}

pub open spec fn shift_spec(was_holding: bool, granted: bool) -> LeaseShift {
    if granted && !was_holding {
        LeaseShift::Gained
    } else if !granted && was_holding {
        LeaseShift::Lost
    } else {
        LeaseShift::Unchanged
    }
}

/// Reaction to an answer of the lease endpoint: `(held, granted) -> (hold,
/// shift)`. One source of truth for claim and heartbeat: only a former holder
/// loses, only a new holder gains.
pub fn lease_transition(was_holding: bool, granted: bool) -> (r: (bool, LeaseShift))
    ensures
        r.0 == granted,
        r.1 == shift_spec(was_holding, granted),
{
    match (was_holding, granted) {
        (false, true) => (true, LeaseShift::Gained),
        (true, true) => (true, LeaseShift::Unchanged),
        (true, false) => (false, LeaseShift::Lost),
        (false, false) => (false, LeaseShift::Unchanged),
    }
}

/// `2^min(streak, 4)`.
pub open spec fn backoff_factor(streak: u32) -> int {
    if streak >= 4 {
        16
    } else if streak == 3 {
        8
    } else if streak == 2 {
        4
    } else if streak == 1 {
        2
    } else {
        1
    }
}

pub open spec fn backoff_spec(base_ms: int, max_ms: int, streak: u32) -> int {
    let d = base_ms * backoff_factor(streak);
    if d <= max_ms { d } else { max_ms }
}

/// Back-off of the sync cycle: 1x, 2x, 4x, 8x, 16x the interval, capped at
/// `max_ms`.
pub fn backoff_delay(base_ms: u64, max_ms: u64, streak: u32) -> (r: u64)
    requires
        base_ms * 16 <= u64::MAX,
    ensures
        r == backoff_spec(base_ms as int, max_ms as int, streak),
{
    let s: u32 = if streak < 4 { streak } else { 4 };
    let factor: u64 = 1u64 << s;
    assert(factor == backoff_factor(streak)) by (bit_vector)
        requires
            s == (if streak < 4 { streak } else { 4u32 }),
            factor == 1u64 << s,
    {
    }
    assert(base_ms * factor <= base_ms * 16) by (nonlinear_arith)
        requires
            factor <= 16,
    ;
    let d = base_ms * factor;
    if d <= max_ms { d } else { max_ms }
}

/// Schedule of the worker. Production values come from [`Tuning::default`];
/// tests shrink the intervals.
#[derive(Debug, Clone, Copy)]
pub struct Tuning {
    /// Full push+pull cycle.
    pub sync_every_ms: u64,
    /// Lease heartbeat while the pet is on screen (a third of the TTL).
    pub heartbeat_every_ms: u64,
    /// Lease TTL in seconds (the server lets it lapse if the device vanishes).
    pub lease_ttl_s: u64,
    /// Ceiling of the sync cycle's back-off.
    pub backoff_max_ms: u64,
}

impl Default for Tuning {
    fn default() -> (r: Self)
        ensures
            r.sync_every_ms == 30_000,
            r.heartbeat_every_ms == 5_000,
            r.lease_ttl_s == 15,
            r.backoff_max_ms == 300_000,
    {
        Tuning { sync_every_ms: 30_000, heartbeat_every_ms: 5_000, lease_ttl_s: 15, backoff_max_ms: 300_000 }
    }
}

/// Delay before the next sync cycle: the interval after a success, the
/// back-off for the current failure streak (first failure: the interval)
/// after a failure. `streak` counts failures in a row including this one.
pub fn next_sync_delay(t: &Tuning, ok: bool, streak: u32) -> (r: u64)
    requires
        t.sync_every_ms * 16 <= u64::MAX,
    ensures
        ok ==> r == t.sync_every_ms,
        !ok ==> r == backoff_spec(
            t.sync_every_ms as int,
            t.backoff_max_ms as int,
            if streak == 0 { 0 } else { (streak - 1) as u32 },
        ),
{
    if ok {
        t.sync_every_ms
    } else {
        let s = if streak == 0 { 0 } else { streak - 1 };
        backoff_delay(t.sync_every_ms, t.backoff_max_ms, s)
    }
}

/// Failures in a row after one more cycle.
pub fn next_streak(streak: u32, ok: bool) -> (r: u32)
    ensures
        ok ==> r == 0,
        !ok ==> r == (if streak == u32::MAX { u32::MAX } else { (streak + 1) as u32 }),
{
    if ok {
        0
    } else if streak == u32::MAX {
        u32::MAX
    } else {
        streak + 1
    }
}

/// Delay before the next heartbeat: the interval, three times it while
/// lease requests fail (a dead server is not hammered).
pub fn heartbeat_delay(t: &Tuning, lease_streak: u32) -> (r: u64)
    requires
        t.heartbeat_every_ms * 3 <= u64::MAX,
    ensures
        r == t.heartbeat_every_ms * (if lease_streak > 0 { 3int } else { 1int }),
{
    if lease_streak > 0 {
        t.heartbeat_every_ms * 3
    } else {
        t.heartbeat_every_ms
    }
}

/// Note for the daemon about presence.
#[derive(Debug, PartialEq, Eq)]
pub enum PresenceNote {
    /// The claim succeeded; after a lease-hide the daemon plays "ran back in".
    Gained,
    /// Another device took the lease: "the pet runs over to `holder`".
    Lost { holder: String },
}

/// What the worker knows about the presence lease.
pub struct Presence {
    /// We consider ourselves the holder.
    pub holding: bool,
    /// Last known holder (device id).
    pub holder: Option<String>,
    /// Lease requests that failed in a row.
    pub lease_streak: u32,
}

pub open spec fn opt_str(o: Option<String>) -> Option<Seq<char>> {
    match o {
        Some(s) => Some(s@),
        None => None,
    }
}

pub open spec fn sat_inc(s: u32) -> u32 {
    if s == u32::MAX { u32::MAX } else { (s + 1) as u32 }
}

/// Step of a claim: either it is over (with a note for the daemon, if any),
/// or the server refused once and the claim is to be repeated.
#[derive(Debug, PartialEq, Eq)]
pub enum ClaimStep {
    Done(Option<PresenceNote>),
    Retry,
}

impl Presence {
    pub fn new() -> (r: Self)
        ensures
            !r.holding,
            r.holder is None,
            r.lease_streak == 0,
    {
        Presence { holding: false, holder: None, lease_streak: 0 }
    }

    /// Apply a lease answer: holding follows `granted`, the holder is
    /// recorded, and the daemon is told about a gain or a loss.
    pub fn apply_lease(&mut self, granted: bool, holder: String) -> (note: Option<PresenceNote>)
        ensures
            final(self).holding == granted,
            opt_str(final(self).holder) == Some(holder@),
            final(self).lease_streak == old(self).lease_streak,
            note is None <==> shift_spec(old(self).holding, granted) == LeaseShift::Unchanged,
            note == Some(PresenceNote::Gained) <==> shift_spec(old(self).holding, granted)
                == LeaseShift::Gained,
            shift_spec(old(self).holding, granted) == LeaseShift::Lost ==> (match note {
                Some(PresenceNote::Lost { holder: h }) => h@ == holder@,
                _ => false,
            }),
    {
        let (holding, shift) = lease_transition(self.holding, granted);
        self.holding = holding;
        let copy = holder.clone();
        self.holder = Some(holder);
        match shift {
            LeaseShift::Gained => Some(PresenceNote::Gained),
            LeaseShift::Lost => Some(PresenceNote::Lost { holder: copy }),
            LeaseShift::Unchanged => None,
        }
    }

    /// Outcome of a heartbeat: `None` when the request failed. A failure
    /// keeps showing the pet (a partition is normal); an answer is applied.
    pub fn heartbeat(&mut self, reply: Option<(bool, String)>) -> (note: Option<PresenceNote>)
        ensures
            reply is None ==> final(self).holding == old(self).holding && opt_str(final(self).holder)
                == opt_str(old(self).holder) && final(self).lease_streak == sat_inc(
                old(self).lease_streak,
            ) && note is None,
            reply is Some ==> final(self).lease_streak == 0 && final(self).holding == reply.unwrap().0
                && opt_str(final(self).holder) == Some(reply.unwrap().1@) && (note is None
                <==> shift_spec(old(self).holding, reply.unwrap().0) == LeaseShift::Unchanged),
            reply is Some ==> (note == Some(PresenceNote::Gained) <==> shift_spec(
                old(self).holding,
                reply.unwrap().0,
            ) == LeaseShift::Gained),
            reply is Some && shift_spec(old(self).holding, reply.unwrap().0) == LeaseShift::Lost ==> (
            match note {
                Some(PresenceNote::Lost { holder: h }) => h@ == reply.unwrap().1@,
                _ => false,
            }),
    {
        match reply {
            Some((granted, holder)) => {
                self.lease_streak = 0;
                self.apply_lease(granted, holder)
            },
            None => {
                self.lease_streak = if self.lease_streak == u32::MAX { u32::MAX } else { self.lease_streak + 1 };
                None
            },
        }
    }

    /// One attempt of a user claim (`attempt` 0 or 1), with the server's
    /// answer or `None` when the request failed.
    /// - granted: the lease is ours (note as for any answer), done;
    /// - refused on the first attempt: that was the server telling us once
    ///   that we had been ousted, so try again without telling the daemon;
    /// - refused twice: another device won a simultaneous claim: give up,
    ///   the daemon is told that the lease is lost to the recorded holder;
    /// - no answer: offline, the pet stays here and we count ourselves the
    ///   holder (the next heartbeat settles it with the server).
    pub fn claim_attempt(&mut self, attempt: u32, reply: Option<(bool, String)>) -> (step: ClaimStep)
        requires
            attempt <= 1,
        ensures
            match reply {
                Some((true, h)) => final(self).holding && final(self).lease_streak == 0 && opt_str(
                    final(self).holder,
                ) == Some(h@) && (step == ClaimStep::Done(Some(PresenceNote::Gained)) <==> !old(
                    self,
                ).holding) && (old(self).holding ==> step == ClaimStep::Done(None)),
                Some((false, h)) => final(self).lease_streak == 0 && opt_str(final(self).holder)
                    == Some(h@) && if attempt == 0 {
                    step == ClaimStep::Retry && final(self).holding == old(self).holding
                } else {
                    !final(self).holding && match step {
                        ClaimStep::Done(Some(PresenceNote::Lost { holder: lost })) => lost@ == h@,
                        _ => false,
                    }
                },
                None => final(self).holding && final(self).lease_streak == sat_inc(
                    old(self).lease_streak,
                ) && opt_str(final(self).holder) == opt_str(old(self).holder) && step
                    == ClaimStep::Done(None),
            },
    {
        match reply {
            Some((true, holder)) => {
                self.lease_streak = 0;
                let note = self.apply_lease(true, holder);
                ClaimStep::Done(note)
            },
            Some((false, holder)) => {
                self.lease_streak = 0;
                let copy = holder.clone();
                self.holder = Some(holder);
                if attempt == 0 {
                    ClaimStep::Retry
                } else {
                    self.holding = false;
                    ClaimStep::Done(Some(PresenceNote::Lost { holder: copy }))
                }
            },
            None => {
                self.lease_streak = if self.lease_streak == u32::MAX { u32::MAX } else { self.lease_streak + 1 };
                self.holding = true;
                ClaimStep::Done(None)
            },
        }
    }

    /// Explicit dismiss: the lease is given up and the holder is no longer
    /// known (a passive device does not poll the server).
    pub fn release(&mut self)
        ensures
            !final(self).holding,
            final(self).holder is None,
            final(self).lease_streak == old(self).lease_streak,
    {
        self.holding = false;
        self.holder = None;
    }
}

/// A claim refused once and then granted ends with this device holding the
/// lease and the daemon told of a gain only if it did not hold it before;
/// it is never told of a loss in between.
pub proof fn law_ousted_claim_retries_silently(was_holding: bool)
    ensures
        shift_spec(was_holding, true) != LeaseShift::Lost,
        shift_spec(false, true) == LeaseShift::Gained,
        shift_spec(true, false) == LeaseShift::Lost,
        shift_spec(false, false) == LeaseShift::Unchanged,
        shift_spec(true, true) == LeaseShift::Unchanged,
{
}

/// The back-off never exceeds its ceiling, starts at the interval and
/// doubles per failure until the fifth.
pub proof fn law_backoff_grows_and_caps(base_ms: int, max_ms: int, streak: u32)
    requires
        0 <= base_ms <= max_ms,
    ensures
        backoff_spec(base_ms, max_ms, streak) <= max_ms,
        backoff_spec(base_ms, max_ms, streak) >= base_ms,
        backoff_spec(base_ms, max_ms, 0) == base_ms,
        streak < 4 ==> backoff_spec(base_ms, max_ms, (streak + 1) as u32) >= backoff_spec(
            base_ms,
            max_ms,
            streak,
        ),
        streak >= 4 ==> backoff_spec(base_ms, max_ms, streak) == backoff_spec(base_ms, max_ms, 4),
{
    assert(base_ms * backoff_factor(streak) >= base_ms) by (nonlinear_arith)
        requires
            base_ms >= 0,
            backoff_factor(streak) >= 1,
    ;
    if streak < 4 {
        let s1 = (streak + 1) as u32;
        assert(base_ms * backoff_factor(s1) >= base_ms * backoff_factor(streak)) by (nonlinear_arith)
            requires
                base_ms >= 0,
                backoff_factor(s1) >= backoff_factor(streak),
        ;
    }
}


/// Commands of the daemon to the worker.
#[derive(Debug, Clone, Copy, PartialEq, Eq, Structural)]
pub enum SyncCmd {
    /// Local append: sync now instead of waiting for the timer.
    Wake,
    /// User action or summon: take the presence lease.
    Claim,
    /// Is the pet on this device's screen? (turns the heartbeat on and off)
    SetSummoned(bool),
    /// Explicit dismiss by the user: give the lease up.
    Release,
}

/// What the worker does right away for a command (besides rescheduling).
#[derive(Debug, Clone, Copy, PartialEq, Eq, Structural)]
pub enum CmdAction {
    Nothing,
    Claim,
    Release,
}

/// The worker's timetable, in milliseconds of a monotonic clock.
#[derive(Debug, Clone, Copy, PartialEq, Eq, Structural)]
pub struct Timetable {
    pub next_sync_ms: u64,
    pub next_hb_ms: u64,
    pub summoned: bool,
}

/// `a + b`, saturating.
pub open spec fn sat_add(a: u64, b: u64) -> u64 {
    if a + b > u64::MAX { u64::MAX } else { (a + b) as u64 }
}

fn add_sat(a: u64, b: u64) -> (r: u64)
    ensures
        r == sat_add(a, b),
{
    if a > u64::MAX - b { u64::MAX } else { a + b }
}

/// Until when the worker may sleep.
pub open spec fn deadline_at(t: Timetable, holding: bool) -> u64 {
    if t.summoned && holding && t.next_hb_ms < t.next_sync_ms {
        t.next_hb_ms
    } else {
        t.next_sync_ms
    }
}

/// A sync cycle is due at `now_ms`.
pub open spec fn sync_due_at(t: Timetable, now_ms: u64) -> bool {
    now_ms >= t.next_sync_ms
}

/// A heartbeat is due at `now_ms`.
pub open spec fn heartbeat_due_at(t: Timetable, now_ms: u64, holding: bool) -> bool {
    t.summoned && holding && now_ms >= t.next_hb_ms
}

/// The timetable after a command, and what the worker does for it.
pub open spec fn after_cmd(t: Timetable, cmd: SyncCmd, now_ms: u64, heartbeat_every_ms: u64) -> (Timetable, CmdAction) {
    match cmd {
        SyncCmd::Wake => (Timetable { next_sync_ms: now_ms, ..t }, CmdAction::Nothing),
        SyncCmd::Claim => (Timetable { next_hb_ms: sat_add(now_ms, heartbeat_every_ms), ..t }, CmdAction::Claim),
        SyncCmd::SetSummoned(s) => (
            Timetable {
                summoned: s,
                next_hb_ms: if s { sat_add(now_ms, heartbeat_every_ms) } else { t.next_hb_ms },
                ..t
            },
            CmdAction::Nothing,
        ),
        SyncCmd::Release => (t, CmdAction::Release),
    }
}

impl Timetable {
    /// Both the first sync and the first heartbeat are due at once.
    pub fn start(now_ms: u64, summoned: bool) -> (r: Self)
        ensures
            r.next_sync_ms == now_ms,
            r.next_hb_ms == now_ms,
            r.summoned == summoned,
    {
        Timetable { next_sync_ms: now_ms, next_hb_ms: now_ms, summoned }
    }

    /// Until when the worker may sleep: the next sync, or the next
    /// heartbeat if that is earlier and heartbeats are on (the pet is here
    /// and we hold the lease).
    pub fn deadline(&self, holding: bool) -> (r: u64)
        ensures
            r == deadline_at(*self, holding),
    {
        if self.summoned && holding && self.next_hb_ms < self.next_sync_ms {
            self.next_hb_ms
        } else {
            self.next_sync_ms
        }
    }

    /// Take a command into the timetable: `Wake` makes the sync due now,
    /// `Claim` claims and moves the heartbeat one interval on, turning the
    /// pet on screen moves it likewise, `Release` releases.
    pub fn handle_cmd(&mut self, cmd: SyncCmd, now_ms: u64, heartbeat_every_ms: u64) -> (r: CmdAction)
        ensures
            (*final(self), r) == after_cmd(*old(self), cmd, now_ms, heartbeat_every_ms),
    {
        match cmd {
            SyncCmd::Wake => {
                self.next_sync_ms = now_ms;
                CmdAction::Nothing
            },
            SyncCmd::Claim => {
                self.next_hb_ms = add_sat(now_ms, heartbeat_every_ms);
                CmdAction::Claim
            },
            SyncCmd::SetSummoned(s) => {
                self.summoned = s;
                if s {
                    self.next_hb_ms = add_sat(now_ms, heartbeat_every_ms);
                }
                CmdAction::Nothing
            },
            SyncCmd::Release => CmdAction::Release,
        }
    }

    /// A sync cycle is due.
    pub fn sync_due(&self, now_ms: u64) -> (r: bool)
        ensures
            r == sync_due_at(*self, now_ms),
    {
        now_ms >= self.next_sync_ms
    }

    /// A heartbeat is due: the pet is here, we hold the lease, its time came.
    pub fn heartbeat_due(&self, now_ms: u64, holding: bool) -> (r: bool)
        ensures
            r == heartbeat_due_at(*self, now_ms, holding),
    {
        self.summoned && holding && now_ms >= self.next_hb_ms
    }
}

/// Heartbeats run only while the pet is on screen and the lease is ours:
/// once the pet leaves the screen no heartbeat is due at any later time
/// (until it is summoned again), and a claim or a summon puts the next
/// heartbeat a whole interval ahead.
pub proof fn law_heartbeat_only_when_present(t: Timetable, now_ms: u64, later_ms: u64, every_ms: u64, holding: bool)
    requires
        now_ms <= later_ms,
        later_ms < now_ms + every_ms,
        now_ms + every_ms <= u64::MAX,
    ensures
        heartbeat_due_at(t, later_ms, holding) ==> t.summoned && holding,
        !heartbeat_due_at(after_cmd(t, SyncCmd::SetSummoned(false), now_ms, every_ms).0, later_ms, holding),
        !heartbeat_due_at(after_cmd(t, SyncCmd::Claim, now_ms, every_ms).0, later_ms, holding),
        !heartbeat_due_at(after_cmd(t, SyncCmd::SetSummoned(true), now_ms, every_ms).0, later_ms, holding),
{
}

/// A local append (`Wake`) makes a sync due at once, and the worker never
/// sleeps past the next due sync, nor past a due heartbeat.
pub proof fn law_wake_syncs_at_once(t: Timetable, now_ms: u64, every_ms: u64, holding: bool)
    ensures
        sync_due_at(after_cmd(t, SyncCmd::Wake, now_ms, every_ms).0, now_ms),
        deadline_at(t, holding) <= t.next_sync_ms,
        t.summoned && holding ==> deadline_at(t, holding) <= t.next_hb_ms,
{
}

} // verus!
