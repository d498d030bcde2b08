//! Decisions of the daemon that do not depend on the simulation: presence
//! ("the pet ran over to another device" and back), the user-claim
//! throttle, the answers to a few control requests, how pointer events are
//! routed, what a frame's scene holds, when the journal is folded again and
//! the world is re-read, and how a new sync configuration is applied.

use vstd::prelude::*;
use crate::text::{string_of, trim_chars, trim_spec};

verus! {

/// How a summoned pet appears.
#[derive(Debug, Clone, Copy, PartialEq, Eq, Structural)]
pub enum Appearance {
    /// In the middle of the screen.
    Appear,
    /// Running in from the edge (it comes back after the lease hid it).
    RunIn,
}

pub open spec fn summon_appearance_spec(lease_hidden: bool, pet_present: bool, is_egg: bool) -> Appearance {
    if lease_hidden && !pet_present && !is_egg { Appearance::RunIn } else { Appearance::Appear }
}

pub open spec fn lease_lost_reaction_spec(
    summoned: bool,
    pet_present: bool,
    is_egg: bool,
    fullscreen_hidden: bool,
    has_world: bool,
) -> LostReaction {
    if !summoned && !pet_present {
        LostReaction::Ignore
    } else if !pet_present {
        LostReaction::MarkHidden
    } else if is_egg || fullscreen_hidden {
        LostReaction::HideNow
    } else if !has_world {
        LostReaction::Drop
    } else {
        LostReaction::RunOff
    }
}

/// A user's summon: after a lease-hide the pet runs in from the edge
/// (an egg cannot run: it just appears); otherwise it appears.
pub fn summon_appearance(lease_hidden: bool, pet_present: bool, is_egg: bool) -> (r: Appearance)
    ensures
        r == summon_appearance_spec(lease_hidden, pet_present, is_egg),
{
    if lease_hidden && !pet_present && !is_egg {
        Appearance::RunIn
    } else {
        Appearance::Appear
    }
}

/// Reaction to losing the presence lease to another device.
#[derive(Debug, Clone, Copy, PartialEq, Eq, Structural)]
pub enum LostReaction {
    /// The pet was dismissed anyway: nothing to do.
    Ignore,
    /// Mark the pet as lease-hidden (no pet on screen to move).
    MarkHidden,
    /// Hide at once, without running: an egg cannot run, and under a
    /// fullscreen window nobody would see it.
    HideNow,
    /// No geometry yet: drop the pet without animation.
    Drop,
    /// Run to the nearest edge and vanish there (no journal event: presence
    /// is not care).
    RunOff,
}

/// What losing the lease does to the pet, from what is on screen.
pub fn lease_lost_reaction(
    summoned: bool,
    pet_present: bool,
    is_egg: bool,
    fullscreen_hidden: bool,
    has_world: bool,
) -> (r: LostReaction)
    ensures
        r == lease_lost_reaction_spec(summoned, pet_present, is_egg, fullscreen_hidden, has_world),
{
    if !summoned && !pet_present {
        LostReaction::Ignore
    } else if !pet_present {
        LostReaction::MarkHidden
    } else if is_egg || fullscreen_hidden {
        LostReaction::HideNow
    } else if !has_world {
        LostReaction::Drop
    } else {
        LostReaction::RunOff
    }
}

/// Reaction to regaining the lease: a lease-hidden pet that the journal
/// still counts as summoned comes back (an egg appears, others run in).
pub fn lease_gained_reaction(lease_hidden: bool, pet_present: bool, summoned: bool, is_egg: bool) -> (r: Option<Appearance>)
    ensures
        r == (if lease_hidden && !pet_present && summoned {
            Some(if is_egg { Appearance::Appear } else { Appearance::RunIn })
        } else {
            None
        }),
{
    if lease_hidden && !pet_present && summoned {
        Some(if is_egg { Appearance::Appear } else { Appearance::RunIn })
    } else {
        None
    }
}

/// A user interaction claims the lease at most once per `throttle_ms`.
pub fn claim_due(last_claim_ms: Option<u64>, now_ms: u64, throttle_ms: u64) -> (r: bool)
    ensures
        r == match last_claim_ms {
            None => true,
            Some(t) => now_ms >= t && now_ms - t >= throttle_ms,
        },
{
    match last_claim_ms {
        None => true,
        Some(t) => now_ms >= t && now_ms - t >= throttle_ms,
    }
}

/// Throttle between user claims, ms.
pub const CLAIM_THROTTLE_MS: u64 = 2_000;

/// Colour of a recolour request: the RGB of the request with alpha forced
/// to `ff`.
pub fn recolor_argb(argb: u32) -> (r: u32)
    ensures
        r == 0xff00_0000 + argb % 0x100_0000,
{
    let rgb = argb & 0x00ff_ffff;
    assert(rgb == argb % 0x100_0000) by (bit_vector)
        requires
            rgb == argb & 0x00ff_ffff,
    ;
    assert((0xff00_0000u32 | rgb) == 0xff00_0000 + rgb) by (bit_vector)
        requires
            rgb == argb & 0x00ff_ffff,
    ;
    0xff00_0000 | rgb
}

/// New name of a rename request: trimmed; empty is refused.
pub fn rename_name(name: &str) -> (r: Option<String>)
    ensures
        trim_spec(name@).len() == 0 ==> r is None,
        trim_spec(name@).len() > 0 ==> (r matches Some(n) && n@ == trim_spec(name@)),
{
    let t = trim_chars(name);
    if t.len() == 0 {
        None
    } else {
        Some(string_of(&t))
    }
}

/// What the first output geometry does: a pet that was not dismissed
/// before the restart is summoned; once it is, a hatched pet greets with a
/// bubble and the lease is claimed (starting here is activity here).
#[derive(Debug, Clone, Copy, PartialEq, Eq, Structural)]
pub struct FirstGeometry {
    pub summon: bool,
    pub greet: bool,
    pub claim: bool,
}

/// Decide what the first output geometry does.
pub fn first_geometry(first: bool, summoned: bool, is_egg: bool) -> (r: FirstGeometry)
    ensures
        r.summon == (first && summoned),
        r.greet == (first && summoned && !is_egg),
        r.claim == (first && summoned),
{
    let summon = first && summoned;
    FirstGeometry { summon, greet: summon && !is_egg, claim: summon }
}

/// `Summon` that succeeded is persisted (a `Summoned` journal event) only
/// when the journal counts the pet as dismissed.
pub fn summon_needs_event(summon_ok: bool, summoned: bool) -> (r: bool)
    ensures
        r == (summon_ok && !summoned),
{
    summon_ok && !summoned
}

/// Number of pets on screen for `Status`.
pub fn status_pets(pet_present: bool) -> (r: u32)
    ensures
        r == (if pet_present { 1u32 } else { 0u32 }),
{
    if pet_present { 1 } else { 0 }
}

/// Server address shown by `SyncStatus`: only in server mode and when set
/// (trimmed).
pub fn status_address(server_mode: bool, address: &str) -> (r: Option<String>)
    ensures
        !server_mode || trim_spec(address@).len() == 0 ==> r is None,
        server_mode && trim_spec(address@).len() > 0 ==> (r matches Some(a) && a@ == trim_spec(address@)),
{
    if !server_mode {
        return None;
    }
    let t = trim_chars(address);
    if t.len() == 0 {
        None
    } else {
        Some(string_of(&t))
    }
}

/// Growth stage of the pet, youngest first.
#[derive(Debug, Clone, Copy, PartialEq, Eq, Structural)]
pub enum Stage {
    Egg,
    Baby,
    Child,
    Teen,
    Adult,
}

pub open spec fn stage_rank(s: Stage) -> int {
    match s {
        Stage::Egg => 0,
        Stage::Baby => 1,
        Stage::Child => 2,
        Stage::Teen => 3,
        Stage::Adult => 4,
    }
}

/// Message id of a stage's localized name (the daemon sends machine
/// values; the client names them).
pub fn stage_key(s: Stage) -> (r: &'static str)
    ensures
        r@ == (match s {
            Stage::Egg => "stage-egg"@,
            Stage::Baby => "stage-baby"@,
            Stage::Child => "stage-child"@,
            Stage::Teen => "stage-teen"@,
            Stage::Adult => "stage-adult"@,
        }),
{
    match s {
        Stage::Egg => "stage-egg",
        Stage::Baby => "stage-baby",
        Stage::Child => "stage-child",
        Stage::Teen => "stage-teen",
        Stage::Adult => "stage-adult",
    }
}

/// What the sprite set was made for: stage, base size and body colour.
#[derive(Debug, Clone, Copy, PartialEq, Eq, Structural)]
pub struct Visuals {
    pub stage: Stage,
    pub base: u32,
    pub color: u32,
}

/// How the sprites follow the journal's fold.
#[derive(Debug, Clone, Copy, PartialEq, Eq, Structural)]
pub enum VisualChange {
    /// Nothing changed: keep the sprite set.
    Keep,
    /// Rebuild the sprite set; `hatched`: the egg just hatched (the
    /// hatching animation and a greeting follow, if the pet is on screen).
    Rebuild { hatched: bool },
}

/// Whether the sprite set must follow a new fold.
pub fn visual_change(current: Visuals, wanted: Visuals) -> (r: VisualChange)
    ensures
        r == (if current == wanted {
            VisualChange::Keep
        } else {
            VisualChange::Rebuild {
                hatched: current.stage == Stage::Egg && stage_rank(wanted.stage) > 0,
            }
        }),
{
    if current.stage == wanted.stage && current.base == wanted.base && current.color == wanted.color {
        VisualChange::Keep
    } else {
        VisualChange::Rebuild { hatched: current.stage == Stage::Egg && wanted.stage != Stage::Egg }
    }
}

/// Fold the journal again without new events once a minute (stat decay
/// shows in status between commands), or at once when the egg's hatching
/// time has come.
pub const REFOLD_EVERY_MS: u64 = 60_000;

/// The journal is folded again on this tick.
pub fn refold_due(since_fold_ms: u64, egg_gate_due: bool) -> (r: bool)
    ensures
        r == (since_fold_ms >= REFOLD_EVERY_MS || egg_gate_due),
{
    since_fold_ms >= REFOLD_EVERY_MS || egg_gate_due
}

/// In folder mode the foreign journal files are checked this often.
pub const FOLDER_POLL_MS: u64 = 10_000;

/// The folder is checked: only in folder mode, at most once per period.
pub fn folder_poll_due(folder_mode: bool, since_last_poll_ms: Option<u64>, every_ms: u64) -> (r: bool)
    ensures
        r == (folder_mode && match since_last_poll_ms {
            None => true,
            Some(e) => e >= every_ms,
        }),
{
    folder_mode && match since_last_poll_ms {
        None => true,
        Some(e) => e >= every_ms,
    }
}

/// A calm pet reads the world's snapshot this often; a busy one (moving,
/// or hidden under a fullscreen window and waiting for it to go) every tick.
pub const SENSE_POLL_IDLE_MS: u64 = 2_000;

/// The world snapshot is read on this tick.
pub fn sense_poll_due(fullscreen_hidden: bool, pet_active: bool, since_last_poll_ms: Option<u64>, idle_ms: u64) -> (r: bool)
    ensures
        r == (fullscreen_hidden || pet_active || match since_last_poll_ms {
            None => true,
            Some(e) => e >= idle_ms,
        }),
{
    if fullscreen_hidden || pet_active {
        return true;
    }
    match since_last_poll_ms {
        None => true,
        Some(e) => e >= idle_ms,
    }
}

/// A pointer event as the overlay delivers it.
#[derive(Debug, Clone, Copy, PartialEq, Eq, Structural)]
pub enum AppPointer {
    Press,
    Motion,
    Release,
    /// The grab was lost (not by the user): the pet drops, without a throw.
    Cancel,
    /// Right button.
    Menu,
}

/// Where the daemon sends a pointer event.
#[derive(Debug, Clone, Copy, PartialEq, Eq, Structural)]
pub enum PointerRoute {
    /// To the pet (drag, throw, pat).
    Pet,
    /// A press while the menu is open: choose a row or close it.
    MenuPress,
    /// Motion while the menu is open: highlight a row.
    MenuHover,
    /// Swallowed: a release while the menu is open.
    Swallow,
    /// Drop the pet from the hand, without a throw.
    CancelDrag,
    /// Close the menu if open, else open it.
    ToggleMenu,
}

pub open spec fn pointer_route_spec(ev: AppPointer, menu_open: bool) -> PointerRoute {
    match ev {
        AppPointer::Press => if menu_open { PointerRoute::MenuPress } else { PointerRoute::Pet },
        AppPointer::Motion => if menu_open { PointerRoute::MenuHover } else { PointerRoute::Pet },
        AppPointer::Release => if menu_open { PointerRoute::Swallow } else { PointerRoute::Pet },
        AppPointer::Cancel => PointerRoute::CancelDrag,
        AppPointer::Menu => PointerRoute::ToggleMenu,
    }
}

/// Route a pointer event; the second value says whether it claims the
/// presence lease (a press or a right click means a live user here).
pub fn route_pointer(ev: AppPointer, menu_open: bool) -> (r: (PointerRoute, bool))
    ensures
        r.0 == pointer_route_spec(ev, menu_open),
        r.1 == (ev == AppPointer::Press || ev == AppPointer::Menu),
{
    match ev {
        AppPointer::Press => (if menu_open { PointerRoute::MenuPress } else { PointerRoute::Pet }, true),
        AppPointer::Motion => (if menu_open { PointerRoute::MenuHover } else { PointerRoute::Pet }, false),
        AppPointer::Release => (if menu_open { PointerRoute::Swallow } else { PointerRoute::Pet }, false),
        AppPointer::Cancel => (PointerRoute::CancelDrag, false),
        AppPointer::Menu => (PointerRoute::ToggleMenu, true),
    }
}

/// While the menu is open the pointer belongs to it: the pet gets no press,
/// motion or release (a click that closes the menu must not start a drag).
pub proof fn law_menu_owns_the_pointer(ev: AppPointer)
    ensures
        pointer_route_spec(ev, true) != PointerRoute::Pet,
        ev != AppPointer::Cancel && ev != AppPointer::Menu ==> pointer_route_spec(ev, false) == PointerRoute::Pet,
{
}

/// The context menu opens only over a pet on a known output, and not
/// during a drag: while it is open the pet gets no pointer events, so the
/// release would be lost and the pet would hang in the hand.
pub fn menu_may_open(pet_present: bool, world_known: bool, dragged: bool) -> (r: bool)
    ensures
        r == (pet_present && world_known && !dragged),
{
    pet_present && world_known && !dragged
}

/// What the scene of a tick holds.
#[derive(Debug, Clone, Copy, PartialEq, Eq, Structural)]
pub struct ScenePlan {
    /// The pet's sprite.
    pub pet: bool,
    /// The pet catches the pointer.
    pub pet_input: bool,
    /// The greeting bubble (no hit area).
    pub bubble: bool,
    /// The context menu, on top, with its hit area.
    pub menu: bool,
}

pub open spec fn scene_plan_spec(
    pet_present: bool,
    world_known: bool,
    fullscreen_hidden: bool,
    presence_run: bool,
    bubble_shown: bool,
    menu_open: bool,
) -> ScenePlan {
    if !(pet_present && world_known) || fullscreen_hidden {
        ScenePlan { pet: false, pet_input: false, bubble: false, menu: false }
    } else {
        ScenePlan { pet: true, pet_input: !presence_run, bubble: bubble_shown, menu: menu_open }
    }
}

/// The scene: nothing before the output is known or after a dismiss, and
/// nothing (not even a hit area) under a fullscreen window; a pet running
/// off or in cannot be caught.
pub fn scene_plan(
    pet_present: bool,
    world_known: bool,
    fullscreen_hidden: bool,
    presence_run: bool,
    bubble_shown: bool,
    menu_open: bool,
) -> (r: ScenePlan)
    ensures
        r == scene_plan_spec(pet_present, world_known, fullscreen_hidden, presence_run, bubble_shown, menu_open),
{
    if !(pet_present && world_known) || fullscreen_hidden {
        ScenePlan { pet: false, pet_input: false, bubble: false, menu: false }
    } else {
        ScenePlan { pet: true, pet_input: !presence_run, bubble: bubble_shown, menu: menu_open }
    }
}

/// Under a fullscreen window the scene is empty, so the pointer passes
/// through to the application; and nothing is ever drawn without a pet.
pub proof fn law_fullscreen_hides_everything(presence_run: bool, bubble_shown: bool, menu_open: bool, pet: bool, world: bool)
    ensures
        scene_plan_spec(pet, world, true, presence_run, bubble_shown, menu_open) == (ScenePlan {
            pet: false,
            pet_input: false,
            bubble: false,
            menu: false,
        }),
        !pet ==> !scene_plan_spec(pet, world, false, presence_run, bubble_shown, menu_open).menu,
        scene_plan_spec(pet, world, false, true, bubble_shown, menu_open).pet_input == false,
{
}

/// Mode of synchronisation.
#[derive(Debug, Clone, Copy, PartialEq, Eq, Structural)]
pub enum SyncKind {
    Off,
    Server,
    Folder,
}

/// What a new `[sync]` section does to the running daemon.
#[derive(Debug, Clone, Copy, PartialEq, Eq, Structural)]
pub struct Reconfig {
    /// Anything to do at all (the section changed).
    pub changed: bool,
    /// Reopen the journal in the new directory (adopting this device's
    /// file there).
    pub reopen: bool,
    /// The directory changed but the journal lives in memory only: keep
    /// the old one (memory and disk would part).
    pub keep_dir: bool,
    /// Start a server worker.
    pub server_worker: bool,
    /// Watch the folder (take its files' signatures afresh).
    pub watch_folder: bool,
}

/// Applying a `[sync]` section: nothing when it is unchanged; otherwise the
/// old worker stops, a changed journal directory is reopened (unless the
/// journal cannot be written), and the new mode starts its worker or its
/// folder watch. The lease-hide belongs to the old mode and is lifted.
pub fn reconfigure(same_section: bool, dir_changed: bool, journal_writable: bool, mode: SyncKind) -> (r: Reconfig)
    ensures
        same_section ==> r == (Reconfig {
            changed: false,
            reopen: false,
            keep_dir: false,
            server_worker: false,
            watch_folder: false,
        }),
        !same_section ==> r == (Reconfig {
            changed: true,
            reopen: dir_changed && journal_writable,
            keep_dir: dir_changed && !journal_writable,
            server_worker: mode == SyncKind::Server,
            watch_folder: mode == SyncKind::Folder,
        }),
{
    if same_section {
        return Reconfig { changed: false, reopen: false, keep_dir: false, server_worker: false, watch_folder: false };
    }
    Reconfig {
        changed: true,
        reopen: dir_changed && journal_writable,
        keep_dir: dir_changed && !journal_writable,
        server_worker: mode == SyncKind::Server,
        watch_folder: mode == SyncKind::Folder,
    }
}

/// Where the transfer times of `SyncStatus` come from.
#[derive(Debug, Clone, Copy, PartialEq, Eq, Structural)]
pub enum StatusSource {
    /// The server worker's shared status.
    Worker,
    /// Folder mode: no push (appends go to our own file), the last pull is
    /// the last merge of the foreign files.
    Folder,
    /// Sync is off: nothing.
    Nothing,
}

/// Source of the transfer times of `SyncStatus`.
pub fn status_source(has_worker: bool, mode: SyncKind) -> (r: StatusSource)
    ensures
        r == (if has_worker {
            StatusSource::Worker
        } else if mode == SyncKind::Folder {
            StatusSource::Folder
        } else {
            StatusSource::Nothing
        }),
{
    if has_worker {
        StatusSource::Worker
    } else if mode == SyncKind::Folder {
        StatusSource::Folder
    } else {
        StatusSource::Nothing
    }
}

/// A dismiss is logged (a `Dismissed` event) only when the journal counts
/// the pet as summoned.
pub fn dismiss_needs_event(summoned: bool) -> (r: bool)
    ensures
        r == summoned,
{
    summoned
}

/// A termination signal turns into an exit once (the current sleep period
/// is closed first).
pub fn signal_exit(signalled: bool, exiting: bool) -> (r: bool)
    ensures
        r == (signalled && !exiting),
{
    signalled && !exiting
}

/// What a second start does when the control socket is taken.
#[derive(Debug, Clone, Copy, PartialEq, Eq, Structural)]
pub enum SecondStart {
    /// The running daemon answered the summon: exit quietly (a click on the
    /// launcher means "call the pet").
    Summoned,
    /// Nobody answers: the socket problem is real, report it.
    BindError,
}

pub fn second_start(summon_answered: bool) -> (r: SecondStart)
    ensures
        r == (if summon_answered { SecondStart::Summoned } else { SecondStart::BindError }),
{
    if summon_answered { SecondStart::Summoned } else { SecondStart::BindError }
}

/// An event the overlay delivers to the daemon, by kind.
#[derive(Debug, Clone, Copy, PartialEq, Eq, Structural)]
pub enum AppEventKind {
    OutputGeometry,
    Pointer,
    OutputLost,
    Shutdown,
}

/// Whether the backend's loop goes on after the event: every event is
/// handled, and only `Shutdown` asks the loop to stop (a lost output is
/// waited out; the pet's state is all in the journal).
pub fn event_keeps_running(ev: AppEventKind) -> (r: bool)
    ensures
        r == (ev != AppEventKind::Shutdown),
{
    match ev {
        AppEventKind::Shutdown => false,
        _ => true,
    }
}

/// A fresh world snapshot says whether a fullscreen window is up: the scene
/// hides under it and shows again when it goes. The result is the new
/// hidden state and whether the menu closes (it would hang invisible and
/// unclickable): only when the pet just went into hiding.
pub fn fullscreen_step(hidden: bool, fullscreen: bool) -> (r: (bool, bool))
    ensures
        r == (fullscreen, fullscreen && !hidden),
{
    (fullscreen, fullscreen && !hidden)
}

/// A pet never runs in while it is on screen, and an egg never runs at
/// all: both presence animations are for a hatched pet only.
pub proof fn law_eggs_never_run(lease_hidden: bool, pet_present: bool, summoned: bool, fullscreen: bool, world: bool)
    ensures
        summon_appearance_spec(lease_hidden, pet_present, true) == Appearance::Appear,
        lease_lost_reaction_spec(summoned, pet_present, true, fullscreen, world) != LostReaction::RunOff,
        pet_present ==> summon_appearance_spec(lease_hidden, pet_present, false) == Appearance::Appear,
{
}

} // verus!
