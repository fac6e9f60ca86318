//! Keeps link directories populated with symlinks that mirror the files of
//! watch directories whose names match a rule, and repairs that mirror.
//!
//! The library holds the decisions of the reconciliation engine; the program
//! around it performs the filesystem work that those decisions call for.
pub mod cleaning;
pub mod config;
pub mod dispatch;
pub mod indices;
pub mod passes;
pub mod path;
pub mod pattern;
pub mod reconcile;

pub use cleaning::{clean_dir, invalid_symlink, LinkEntry};
pub use config::{
    resolve_settings, Args, Config, MiscSettings, RawConfig, RawRule, RawRuleSettings, Rule,
    RuleSettings,
};
pub use dispatch::{
    cleaner_schedule, clean_requests, handle_message, handle_missing_dir, is_relevant_event,
    links_for_source, Action, DirStep, EventKind, Message, Signal, StartupError, Task, WatchEvent,
    WorkerType,
};
pub use indices::{link_dir_indices, sum_all_rules, sum_all_watch_dirs, watch_dir_indices};
pub use path::{
    calc_link_from_src_orig, conflict_sibling, get_basename, path_is_under_any_dirs,
    resolve_link_target, FsPath, PathError,
};
pub use pattern::{path_matches_any_regex, Pattern};
pub use reconcile::{check_link_dir, LinkAction, LinkCursor, Phase, Probe, ReconcileError, MAX_CONFLICTS};
