//! The pet's right-click menu and the tray toggle: which action each menu
//! row stands for, and what the tray asks the daemon.

use vstd::prelude::*;

verus! {

/// Actions of the menu rows, in row order.
#[derive(Debug, Clone, Copy, PartialEq, Eq, Structural)]
pub enum MenuAction {
    Feed,
    Treat,
    Play,
    Sleep,
    Settings,
    Dismiss,
}

/// Order of the actions = order of the menu rows.
pub const MENU_ACTIONS: [MenuAction; 6] = [
    MenuAction::Feed,
    MenuAction::Treat,
    MenuAction::Play,
    MenuAction::Sleep,
    MenuAction::Settings,
    MenuAction::Dismiss,
];

/// Message key of a row's label (localised by the caller).
pub open spec fn row_key(a: MenuAction) -> Seq<char> {
    match a {
        MenuAction::Feed => "menu-feed"@,
        MenuAction::Treat => "menu-treat"@,
        MenuAction::Play => "menu-play"@,
        MenuAction::Sleep => "menu-sleep"@,
        MenuAction::Settings => "menu-settings"@,
        MenuAction::Dismiss => "menu-dismiss"@,
    }
}

/// The action of row `k`.
pub open spec fn action_spec(k: int) -> MenuAction {
    if k == 0 {
        MenuAction::Feed
    } else if k == 1 {
        MenuAction::Treat
    } else if k == 2 {
        MenuAction::Play
    } else if k == 3 {
        MenuAction::Sleep
    } else if k == 4 {
        MenuAction::Settings
    } else {
        MenuAction::Dismiss
    }
}

/// The action of menu row `idx`, if there is such a row.
pub fn action_at(idx: usize) -> (r: Option<MenuAction>)
    ensures
        idx < 6 ==> r == Some(action_spec(idx as int)),
        idx >= 6 ==> r is None,
{
    if idx < 6 {
        let a = MENU_ACTIONS[idx];
        proof {
            assert(MENU_ACTIONS@[idx as int] == action_spec(idx as int));
        }
        Some(a)
    } else {
        None
    }
}

/// Labels (message keys) of the menu rows, in the order of the actions.
pub fn menu_rows() -> (r: Vec<String>)
    ensures
        r.len() == 6,
        forall|k: int| 0 <= k < 6 ==> #[trigger] r@[k]@ == row_key(action_spec(k)),
{
    let mut r: Vec<String> = Vec::new();
    r.push("menu-feed".to_owned());
    r.push("menu-treat".to_owned());
    r.push("menu-play".to_owned());
    r.push("menu-sleep".to_owned());
    r.push("menu-settings".to_owned());
    r.push("menu-dismiss".to_owned());
    r
}

/// Every row has an action and the actions come in the rows' order.
pub proof fn law_menu_rows_match_actions()
    ensures
        MENU_ACTIONS@.len() == 6,
        forall|k: int| 0 <= k < 6 ==> #[trigger] MENU_ACTIONS@[k] == action_spec(k),
{
    assert forall|k: int| 0 <= k < 6 implies #[trigger] MENU_ACTIONS@[k] == action_spec(k) by {
        if k == 0 {
        } else if k == 1 {
        } else if k == 2 {
        } else if k == 3 {
        } else if k == 4 {
        } else {
        }
    }
}

/// What the tray asks the daemon for.
#[derive(Debug, Clone, Copy, PartialEq, Eq, Structural)]
pub enum TrayRequest {
    Summon,
    Dismiss,
}

/// The tray's toggle: dismiss a pet that is on screen, summon one that is
/// not; the second value is the state to assume if the daemon agrees.
pub fn toggle_request(summoned: bool) -> (r: (TrayRequest, bool))
    ensures
        r == (if summoned { (TrayRequest::Dismiss, false) } else { (TrayRequest::Summon, true) }),
{
    if summoned {
        (TrayRequest::Dismiss, false)
    } else {
        (TrayRequest::Summon, true)
    }
}

/// Known state after the toggle: the target only if the daemon answered
/// `Ok`; an error or no answer keeps the old state.
pub fn toggle_result(summoned: bool, target: bool, answered_ok: bool) -> (r: bool)
    ensures
        r == (if answered_ok { target } else { summoned }),
{
    if answered_ok { target } else { summoned }
}

/// An entry of the tray icon's menu.
#[derive(Debug, Clone, Copy, PartialEq, Eq, Structural)]
pub enum TrayItem {
    /// Summon or dismiss, by the known state; the label's message id.
    Toggle { dismiss: bool },
    /// Open the settings window.
    Settings,
    Separator,
    /// Stop the daemon.
    Quit,
}

/// Message id of a tray entry's label (none for the separator).
pub fn tray_label(item: TrayItem) -> (r: Option<&'static str>)
    ensures
        match item {
            TrayItem::Toggle { dismiss } => r matches Some(l) && l@ == (if dismiss {
                "tray-dismiss"@
            } else {
                "tray-summon"@
            }),
            TrayItem::Settings => r matches Some(l) && l@ == "tray-settings"@,
            TrayItem::Separator => r is None,
            TrayItem::Quit => r matches Some(l) && l@ == "tray-quit"@,
        },
{
    match item {
        TrayItem::Toggle { dismiss } => Some(if dismiss { "tray-dismiss" } else { "tray-summon" }),
        TrayItem::Settings => Some("tray-settings"),
        TrayItem::Separator => None,
        TrayItem::Quit => Some("tray-quit"),
    }
}

/// The tray menu: the toggle (it reflects the known state), the settings,
/// a separator, and stopping the daemon.
pub fn tray_menu(summoned: bool) -> (r: Vec<TrayItem>)
    ensures
        r@ == seq![TrayItem::Toggle { dismiss: summoned }, TrayItem::Settings, TrayItem::Separator, TrayItem::Quit],
{
    let mut r: Vec<TrayItem> = Vec::new();
    r.push(TrayItem::Toggle { dismiss: summoned });
    r.push(TrayItem::Settings);
    r.push(TrayItem::Separator);
    r.push(TrayItem::Quit);
    assert(r@ =~= seq![TrayItem::Toggle { dismiss: summoned }, TrayItem::Settings, TrayItem::Separator, TrayItem::Quit]);
    r
}

/// The daemon's answer to the tray's `PetInfo` question, as far as the tray
/// reads it.
#[derive(Debug, Clone, PartialEq, Eq)]
pub enum InfoReply {
    /// The pet card: its state (`None` when dismissed) and body colour.
    PetInfo { state: Option<String>, color: u32 },
    /// Any other answer.
    Other,
}

/// What the tray learns: whether the pet is on screen, and its colour;
/// an unexpected answer or none teaches nothing.
pub fn pet_info_summary(reply: Option<InfoReply>) -> (r: Option<(bool, u32)>)
    ensures
        r == (match reply {
            Some(InfoReply::PetInfo { state, color }) => Some((state is Some, color)),
            _ => None,
        }),
{
    match reply {
        Some(InfoReply::PetInfo { state, color }) => Some((state.is_some(), color)),
        _ => None,
    }
}

} // verus!
