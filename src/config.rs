//! The rule model: rules, their settings, and the resolution of per-rule
//! settings against the rule-set-wide defaults.
use vstd::prelude::*;

use crate::path::{dirs_of, FsPath};
use crate::pattern::{duplicate_patterns, sources_of, Pattern};

verus! {

/// The command line of the program: where the configuration file is, and
/// whether the process runs under a service supervisor.
#[derive(Debug)]
pub struct Args {
    pub config_path: String,
    pub as_systemd_service: bool,
}

/// Process-wide settings.
#[derive(Clone, Copy, Debug, PartialEq, Eq, Structural)]
pub struct MiscSettings {
    pub systemd_service: bool,
}

impl Default for MiscSettings {
    fn default() -> (r: Self)
        ensures
            !r.systemd_service,
    {
        MiscSettings { systemd_service: false }
    }
}

/// The settings of one rule, fully resolved.
#[derive(Debug)]
pub struct RuleSettings {
    /// Whether a missing watch or link directory is created (else it is a
    /// startup error).
    pub create_missing_dirs: bool,
    /// Declared patterns of names to leave out; they take no part in matching.
    pub exclude_pattern: Vec<Pattern>,
    /// How deep the scan of a watch directory goes.
    pub max_depth: u32,
    /// Whether the scan of a watch directory follows symlinks.
    pub follow_symlinks: bool,
    /// Seconds between two periodic cleanups; `None` disables them.
    pub clean_interval: Option<u32>,
}

/// The default number of levels a scan descends.
pub const DEFAULT_MAX_DEPTH: u32 = 50;

/// The default number of seconds between two periodic cleanups.
pub const DEFAULT_CLEAN_INTERVAL: u32 = 10;

impl Default for RuleSettings {
    fn default() -> (r: Self)
        ensures
            r.create_missing_dirs,
            r.exclude_pattern@.len() == 0,
            r.max_depth == DEFAULT_MAX_DEPTH,
            !r.follow_symlinks,
            r.clean_interval == Some(DEFAULT_CLEAN_INTERVAL),
    {
        RuleSettings {
            create_missing_dirs: true,
            exclude_pattern: Vec::new(),
            max_depth: DEFAULT_MAX_DEPTH,
            follow_symlinks: false,
            clean_interval: Some(DEFAULT_CLEAN_INTERVAL),
        }
    }
}

/// The settings of one rule as written: each may be left out.
#[derive(Debug)]
pub struct RawRuleSettings {
    pub create_missing_dirs: Option<bool>,
    pub exclude_pattern: Option<Vec<Pattern>>,
    pub max_depth: Option<u32>,
    pub follow_symlinks: Option<bool>,
    pub clean_interval: Option<Option<u32>>,
}

impl Default for RawRuleSettings {
    fn default() -> (r: Self)
        ensures
            r.create_missing_dirs is None,
            r.exclude_pattern is None,
            r.max_depth is None,
            r.follow_symlinks is None,
            r.clean_interval is None,
    {
        RawRuleSettings {
            create_missing_dirs: None,
            exclude_pattern: None,
            max_depth: None,
            follow_symlinks: None,
            clean_interval: None,
        }
    }
}

/// A named binding of watch directories, link directories and filename
/// patterns, with its resolved settings.
#[derive(Debug)]
pub struct Rule {
    pub name: String,
    pub watch_dirs: Vec<FsPath>,
    pub link_dirs: Vec<FsPath>,
    pub regex: Vec<Pattern>,
    pub settings: RuleSettings,
}

/// A rule as written, whose settings may be partial or absent.
#[derive(Debug)]
pub struct RawRule {
    pub name: String,
    pub watch_dirs: Vec<FsPath>,
    pub link_dirs: Vec<FsPath>,
    pub regex: Vec<Pattern>,
    pub settings: Option<RawRuleSettings>,
}

/// The resolved configuration: the rules in order and the process settings.
#[derive(Debug)]
pub struct Config {
    pub misc: MiscSettings,
    pub rules: Vec<Rule>,
}

/// The configuration as written, with the defaults that rules fall back on.
#[derive(Debug)]
pub struct RawConfig {
    pub misc: MiscSettings,
    pub rules: Vec<RawRule>,
    pub default_rule_settings: RuleSettings,
}

/// `s` takes each setting from `raw` where it is given, else from `d`.
pub open spec fn settings_resolved(s: RuleSettings, raw: RawRuleSettings, d: RuleSettings) -> bool {
    &&& s.create_missing_dirs == match raw.create_missing_dirs {
        Some(v) => v,
        None => d.create_missing_dirs,
    }
    &&& sources_of(s.exclude_pattern@) == match raw.exclude_pattern {
        Some(v) => sources_of(v@),
        None => sources_of(d.exclude_pattern@),
    }
    &&& s.max_depth == match raw.max_depth {
        Some(v) => v,
        None => d.max_depth,
    }
    &&& s.follow_symlinks == match raw.follow_symlinks {
        Some(v) => v,
        None => d.follow_symlinks,
    }
    &&& s.clean_interval == match raw.clean_interval {
        Some(v) => v,
        None => d.clean_interval,
    }
}

/// The settings a rule ends with: those of `raw` where given, the rest from
/// `d`; a rule with no settings at all takes every one from `d`.
pub open spec fn rule_settings_resolved(s: RuleSettings, raw: Option<RawRuleSettings>, d: RuleSettings) -> bool {
    match raw {
        Some(r) => settings_resolved(s, r, d),
        None => settings_resolved(
            s,
            RawRuleSettings {
                create_missing_dirs: None,
                exclude_pattern: None,
                max_depth: None,
                follow_symlinks: None,
                clean_interval: None,
            },
            d,
        ),
    }
}

/// `rule` is `raw` with its settings resolved against `d`.
pub open spec fn rule_resolved(rule: Rule, raw: RawRule, d: RuleSettings) -> bool {
    &&& rule.name@ == raw.name@
    &&& dirs_of(rule.watch_dirs@) == dirs_of(raw.watch_dirs@)
    &&& dirs_of(rule.link_dirs@) == dirs_of(raw.link_dirs@)
    &&& sources_of(rule.regex@) == sources_of(raw.regex@)
    &&& rule_settings_resolved(rule.settings, raw.settings, d)
}

/// Resolves one rule's settings: each one given in `raw` stands, each one
/// left out is taken from `defaults`.
pub fn resolve_settings(raw: Option<RawRuleSettings>, defaults: &RuleSettings) -> (r: RuleSettings)
    ensures
        rule_settings_resolved(r, raw, *defaults),
{
    let raw = match raw {
        Some(r) => r,
        None => RawRuleSettings::default(),
    };
    RuleSettings {
        create_missing_dirs: match raw.create_missing_dirs {
            Some(v) => v,
            None => defaults.create_missing_dirs,
        },
        exclude_pattern: match raw.exclude_pattern {
            Some(v) => v,
            None => duplicate_patterns(&defaults.exclude_pattern),
        },
        max_depth: match raw.max_depth {
            Some(v) => v,
            None => defaults.max_depth,
        },
        follow_symlinks: match raw.follow_symlinks {
            Some(v) => v,
            None => defaults.follow_symlinks,
        },
        clean_interval: match raw.clean_interval {
            Some(v) => v,
            None => defaults.clean_interval,
        },
    }
}

impl Config {
    /// The configuration that `raw` describes: its rules in order, each with
    /// its settings resolved against the rule-set-wide defaults.
    pub fn from_raw(raw: RawConfig) -> (r: Config)
        ensures
            r.misc == raw.misc,
            r.rules@.len() == raw.rules@.len(),
            forall|i: int|
                0 <= i < r.rules@.len() ==> rule_resolved(
                    #[trigger] r.rules@[i],
                    raw.rules@[i],
                    raw.default_rule_settings,
                ),
    {
        let RawConfig { misc, rules: mut raw_rules, default_rule_settings } = raw;
        let ghost all = raw_rules@;
        let mut rules: Vec<Rule> = Vec::new();
        while raw_rules.len() > 0
            invariant
                rules@.len() + raw_rules@.len() == all.len(),
                raw_rules@ == all.subrange(rules@.len() as int, all.len() as int),
                forall|i: int|
                    0 <= i < rules@.len() ==> rule_resolved(
                        #[trigger] rules@[i],
                        all[i],
                        default_rule_settings,
                    ),
            decreases raw_rules@.len(),
        {
            let ghost k = rules@.len() as int;
            let raw_rule = raw_rules.remove(0);
            assert(raw_rule == all[k]);
            assert(raw_rules@ =~= all.subrange(k + 1, all.len() as int));
            let RawRule { name, watch_dirs, link_dirs, regex, settings } = raw_rule;
            let rule = Rule {
                name,
                watch_dirs,
                link_dirs,
                regex,
                settings: resolve_settings(settings, &default_rule_settings),
            };
            rules.push(rule);
        }
        Config { misc, rules }
    }
}

} // verus!
