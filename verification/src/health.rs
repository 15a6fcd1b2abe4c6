//! The Status screen's view of the install: whether it has been played, whether
//! the addon is there, and when the two files that matter were last written.
//! The filesystem probes are the caller's; this folds them into the answer.
use vstd::prelude::*;

verus! {

#[derive(Debug, Default, Clone, PartialEq)]
pub struct GameHealth {
    /// `WTF/Account` exists: a real install that has been played.
    pub install_ok: bool,
    pub addon_installed: bool,
    /// mtime of the price file this app writes.
    pub app_data_written_at: Option<i64>,
    /// Newest mtime across every account's ledger.
    pub saved_vars_written_at: Option<i64>,
}

/// What the filesystem said about one install path.
#[derive(Debug, Clone, PartialEq)]
pub struct InstallProbe {
    /// The configured path is empty: nothing was probed.
    pub path_is_empty: bool,
    pub wtf_account_is_dir: bool,
    pub addon_dir_is_dir: bool,
    pub app_data_mtime: Option<i64>,
    /// One entry per account ledger found; `None` where its mtime could not be read.
    pub saved_vars_mtimes: Vec<Option<i64>>,
}

/// The newest of the readable mtimes, or `None` when there is none.
pub open spec fn newest(ms: Seq<Option<i64>>) -> Option<i64>
    decreases ms.len(),
{
    if ms.len() == 0 {
        None
    } else {
        match (newest(ms.drop_last()), ms.last()) {
            (None, x) => x,
            (Some(a), None) => Some(a),
            (Some(a), Some(b)) => Some(if a >= b { a } else { b }),
        }
    }
}

/// The Status screen's install health: all false for an empty path, the probe
/// results otherwise, with the newest readable ledger mtime.
pub fn inspect(probe: &InstallProbe) -> (r: GameHealth)
    ensures
        r.install_ok == (!probe.path_is_empty && probe.wtf_account_is_dir),
        r.addon_installed == (!probe.path_is_empty && probe.addon_dir_is_dir),
        r.app_data_written_at == (if probe.path_is_empty { None } else { probe.app_data_mtime }),
        r.saved_vars_written_at == (if probe.path_is_empty { None } else { newest(probe.saved_vars_mtimes@) }),
{
    if probe.path_is_empty {
        return GameHealth { install_ok: false, addon_installed: false, app_data_written_at: None, saved_vars_written_at: None };
    }
    let mut best: Option<i64> = None;
    let mut i: usize = 0;
    while i < probe.saved_vars_mtimes.len()
        invariant
            i <= probe.saved_vars_mtimes@.len(),
            best == newest(probe.saved_vars_mtimes@.take(i as int)),
        decreases probe.saved_vars_mtimes.len() - i,
    {
        assert(probe.saved_vars_mtimes@.take(i + 1).drop_last() =~= probe.saved_vars_mtimes@.take(i as int));
        let m = probe.saved_vars_mtimes[i];
        best = match (best, m) {
            (None, x) => x,
            (Some(a), None) => Some(a),
            (Some(a), Some(b)) => Some(if a >= b { a } else { b }),
        };
        i = i + 1;
    }
    assert(probe.saved_vars_mtimes@.take(i as int) =~= probe.saved_vars_mtimes@);
    GameHealth {
        install_ok: probe.wtf_account_is_dir,
        addon_installed: probe.addon_dir_is_dir,
        app_data_written_at: probe.app_data_mtime,
        saved_vars_written_at: best,
    }
}

} // verus!
