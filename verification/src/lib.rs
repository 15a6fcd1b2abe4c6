use vstd::prelude::*;

pub mod text;
pub mod luafile;
pub mod calendar;
pub mod ledger_summary;
pub mod runs;
pub mod region;
pub mod config;
pub mod health;
pub mod savedvars;
pub mod upload;
pub mod logging;
pub mod sync;
pub mod status;
pub mod updater;
pub mod watcher;
pub mod wtf;
pub mod commands;
pub mod tray;

verus! {
} // verus!
