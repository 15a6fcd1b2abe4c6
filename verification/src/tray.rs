//! The tray's decisions: what each menu item does, the tooltip it shows, and
//! when the launch-at-startup registration has to be touched. Building the
//! menu and talking to the OS are the caller's.
use vstd::prelude::*;
use crate::text::str_eq;

verus! {

/// What a click on a tray menu item asks for.
#[derive(Debug, Clone, Copy, PartialEq, Eq, Structural)]
pub enum TrayAction {
    /// Run one sync now.
    SyncNow,
    /// Open the companion window, or focus it when it is open.
    OpenCompanion,
    Quit,
    /// The status line and anything unknown do nothing.
    Nothing,
}

/// The action behind a menu item, by its id: `sync_now`, `settings`, `quit`.
pub fn menu_action(id: &str) -> (r: TrayAction)
    ensures
        r == if id@ == "sync_now"@ {
            TrayAction::SyncNow
        } else if id@ == "settings"@ {
            TrayAction::OpenCompanion
        } else if id@ == "quit"@ {
            TrayAction::Quit
        } else {
            TrayAction::Nothing
        },
{
    if str_eq(id, "sync_now") {
        TrayAction::SyncNow
    } else if str_eq(id, "settings") {
        TrayAction::OpenCompanion
    } else if str_eq(id, "quit") {
        TrayAction::Quit
    } else {
        TrayAction::Nothing
    }
}

/// The tray icon's tooltip: the app's name and the status label.
pub fn tooltip(label: &str) -> (r: String)
    ensures
        r@ == "GoldCap Companion \u{2014} "@ + label@,
{
    let mut out = String::from_str("GoldCap Companion \u{2014} ");
    out.append(label);
    out
}

/// Whether the launch-at-startup registration must be changed: only when it
/// differs from the setting, or when its current state could not be read
/// (`None`). Turning off a registration that was never made fails, so an
/// unchanged setting is left alone.
pub fn autostart_needs_change(current: Option<bool>, enabled: bool) -> (r: bool)
    ensures
        r == match current {
            Some(c) => c != enabled,
            None => true,
        },
{
    match current {
        Some(c) => c != enabled,
        None => true,
    }
}

} // verus!
