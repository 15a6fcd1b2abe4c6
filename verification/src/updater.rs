//! What the companion says about an update it found: the tray item, the
//! window's button, and the notification. Checking, downloading, installing
//! and restarting are the caller's.
use vstd::prelude::*;
use crate::text::{ascii_lower, to_ascii_lowercase};

verus! {

/// How far a found update has progressed on this platform.
#[derive(Debug, Clone, Copy, PartialEq, Eq, Structural)]
pub enum StagedKind {
    /// Already written to disk; a restart applies it (macOS).
    Installed,
    /// Downloaded, waiting for the user to allow the installer run (Windows).
    Pending,
    /// Found but could not be staged: offer the download page instead, so the
    /// app never sits silently on an old version.
    Manual,
}

pub open spec fn tray_text(kind: StagedKind, version: Seq<char>) -> Seq<char> {
    match kind {
        StagedKind::Installed => "Restart to update to v"@ + version,
        StagedKind::Pending => "Install update v"@ + version + " and restart"@,
        StagedKind::Manual => "Download update v"@ + version + "\u{2026}"@,
    }
}

pub open spec fn action_text(kind: StagedKind) -> Seq<char> {
    match kind {
        StagedKind::Installed => "Restart now"@,
        StagedKind::Pending => "Install and restart"@,
        StagedKind::Manual => "Open downloads"@,
    }
}

/// Tray menu label for a staged update.
pub fn tray_label(kind: StagedKind, version: &str) -> (r: String)
    ensures
        r@ == tray_text(kind, version@),
{
    match kind {
        StagedKind::Installed => {
            let mut out = String::from_str("Restart to update to v");
            out.append(version);
            out
        },
        StagedKind::Pending => {
            let mut out = String::from_str("Install update v");
            out.append(version);
            out.append(" and restart");
            out
        },
        StagedKind::Manual => {
            let mut out = String::from_str("Download update v");
            out.append(version);
            out.append("\u{2026}");
            out
        },
    }
}

/// What the window's button says: fewer words than the tray item, since the
/// sentence beside it already names the version.
pub fn action_label(kind: StagedKind) -> (r: &'static str)
    ensures
        r@ == action_text(kind),
{
    match kind {
        StagedKind::Installed => "Restart now",
        StagedKind::Pending => "Install and restart",
        StagedKind::Manual => "Open downloads",
    }
}

/// The staged update as the window sees it.
#[derive(Debug, Clone)]
pub struct UpdateView {
    pub version: String,
    pub kind: StagedKind,
    pub action: &'static str,
}

/// The window's view of a staged update: the same version and action the tray offers.
pub fn view(kind: StagedKind, version: &str) -> (r: UpdateView)
    ensures
        r.version@ == version@,
        r.kind == kind,
        r.action@ == action_text(kind),
{
    UpdateView { version: String::from_str(version), kind, action: action_label(kind) }
}

/// The notification that tells the player about a staged update.
pub open spec fn announcement_text(v: UpdateView) -> Seq<char> {
    match v.kind {
        StagedKind::Manual => "Version "@ + v.version@
            + " is out, but this copy could not update itself. Open the downloads page to get it."@,
        _ => "Version "@ + v.version@ + " is ready \u{2014} "@ + ascii_lower(v.action@) + "."@,
    }
}

/// The notification's body for a staged update.
pub fn announcement_body(v: &UpdateView) -> (r: String)
    ensures
        r@ == announcement_text(*v),
{
    let mut out = String::from_str("Version ");
    out.append(v.version.as_str());
    match v.kind {
        StagedKind::Manual => {
            out.append(" is out, but this copy could not update itself. Open the downloads page to get it.");
        },
        _ => {
            out.append(" is ready \u{2014} ");
            let lower = to_ascii_lowercase(v.action);
            out.append(lower.as_str());
            out.append(".");
        },
    }
    out
}

/// A found update, staged as far as this platform allows. For `Pending` the
/// downloaded installer itself is kept by the caller.
#[derive(Debug, Clone, PartialEq, Eq)]
pub enum Staged {
    Installed { version: String },
    /// Found, but this machine would not let it be applied.
    Manual { version: String },
    Pending { version: String },
}

impl Staged {
    pub fn kind(&self) -> (r: StagedKind)
        ensures
            r == match *self {
                Staged::Installed { .. } => StagedKind::Installed,
                Staged::Manual { .. } => StagedKind::Manual,
                Staged::Pending { .. } => StagedKind::Pending,
            },
    {
        match self {
            Staged::Installed { .. } => StagedKind::Installed,
            Staged::Manual { .. } => StagedKind::Manual,
            Staged::Pending { .. } => StagedKind::Pending,
        }
    }

    pub fn version(&self) -> (r: &str)
        ensures
            r@ == match *self {
                Staged::Installed { version } => version@,
                Staged::Manual { version } => version@,
                Staged::Pending { version } => version@,
            },
    {
        match self {
            Staged::Installed { version } => version.as_str(),
            Staged::Manual { version } => version.as_str(),
            Staged::Pending { version } => version.as_str(),
        }
    }
}

/// What a click on the update item does with what is staged.
#[derive(Debug, Clone, Copy, PartialEq, Eq, Structural)]
pub enum ApplyStep {
    /// Nothing is staged.
    Nothing,
    /// Open the downloads page and keep the offer: opening a page updates nothing.
    OpenDownloads,
    /// The update is on disk; restart into it.
    Restart,
    /// Run the downloaded installer; if it fails the offer is kept.
    RunInstaller,
}

pub fn apply_step(staged: Option<StagedKind>) -> (r: ApplyStep)
    ensures
        r == match staged {
            None => ApplyStep::Nothing,
            Some(StagedKind::Manual) => ApplyStep::OpenDownloads,
            Some(StagedKind::Installed) => ApplyStep::Restart,
            Some(StagedKind::Pending) => ApplyStep::RunInstaller,
        },
{
    match staged {
        None => ApplyStep::Nothing,
        Some(StagedKind::Manual) => ApplyStep::OpenDownloads,
        Some(StagedKind::Installed) => ApplyStep::Restart,
        Some(StagedKind::Pending) => ApplyStep::RunInstaller,
    }
}

/// Every kind has its own button label.
pub proof fn law_button_labels_differ(a: StagedKind, b: StagedKind)
    requires
        a != b,
    ensures
        action_text(a) != action_text(b),
{
    reveal_strlit("Restart now");
    reveal_strlit("Install and restart");
    reveal_strlit("Open downloads");
    assert("Restart now"@.len() != "Install and restart"@.len());
    assert("Restart now"@.len() != "Open downloads"@.len());
    assert("Install and restart"@.len() != "Open downloads"@.len());
}

} // verus!

verus! {

/// What a downloaded update becomes. Where the platform installs at once
/// (macOS), an install that worked waits for a restart and one that failed
/// becomes an offer of the download page, never silence; where the installer
/// must wait for the user (Windows), it is pending.
pub fn stage_found(version: String, installs_now: bool, install_ok: bool) -> (r: Staged)
    ensures
        r == if !installs_now {
            Staged::Pending { version }
        } else if install_ok {
            Staged::Installed { version }
        } else {
            Staged::Manual { version }
        },
{
    if !installs_now {
        Staged::Pending { version }
    } else if install_ok {
        Staged::Installed { version }
    } else {
        Staged::Manual { version }
    }
}

} // verus!

verus! {

/// What a periodic update check does first.
#[derive(Debug, Clone, PartialEq, Eq)]
pub enum CheckStep {
    /// Something is already staged: do not download again, keep its offer on
    /// the tray with this label.
    KeepOffer { label: String },
    /// Nothing is staged: ask for an update.
    CheckForUpdate,
}

/// An update already staged is never downloaded again: its offer stays on
/// screen. Only with nothing staged is a new update looked for.
pub fn check_step(staged: Option<&Staged>) -> (r: CheckStep)
    ensures
        match staged {
            Some(s) => r matches CheckStep::KeepOffer { label } && label@ == tray_text(
                match *s {
                    Staged::Installed { .. } => StagedKind::Installed,
                    Staged::Manual { .. } => StagedKind::Manual,
                    Staged::Pending { .. } => StagedKind::Pending,
                },
                match *s {
                    Staged::Installed { version } => version@,
                    Staged::Manual { version } => version@,
                    Staged::Pending { version } => version@,
                },
            ),
            None => r == CheckStep::CheckForUpdate,
        },
{
    match staged {
        Some(s) => CheckStep::KeepOffer { label: tray_label(s.kind(), s.version()) },
        None => CheckStep::CheckForUpdate,
    }
}

} // verus!
