use std::collections::BTreeMap;

use filetags::{
    calc_link_from_src_orig, check_link_dir, clean_dir, clean_requests, cleaner_schedule,
    conflict_sibling, get_basename, handle_message, handle_missing_dir, invalid_symlink,
    is_relevant_event, link_dir_indices, links_for_source, path_is_under_any_dirs,
    path_matches_any_regex, resolve_link_target, resolve_settings, sum_all_rules,
    sum_all_watch_dirs, watch_dir_indices, Action, Config, DirStep, EventKind, FsPath, LinkAction,
    LinkCursor, LinkEntry, Message, MiscSettings, PathError, Pattern, Probe, RawConfig, RawRule,
    RawRuleSettings, ReconcileError, Rule, RuleSettings, Signal, StartupError, Task, WatchEvent,
    MAX_CONFLICTS,
};

fn p(s: &str) -> FsPath {
    FsPath {
        absolute: s.starts_with('/'),
        parts: s.split('/').filter(|c| !c.is_empty()).map(String::from).collect(),
    }
}

fn show(path: &FsPath) -> String {
    let joined = path.parts.join("/");
    if path.absolute {
        format!("/{}", joined)
    } else {
        joined
    }
}

fn pat(s: &str) -> Pattern {
    Pattern::new(s).expect("valid pattern")
}

fn rule(watch: &[&str], link: &[&str], regex: &[&str]) -> Rule {
    Rule {
        name: "test".to_string(),
        watch_dirs: watch.iter().map(|d| p(d)).collect(),
        link_dirs: link.iter().map(|d| p(d)).collect(),
        regex: regex.iter().map(|r| pat(r)).collect(),
        settings: RuleSettings::default(),
    }
}

fn config(rules: Vec<Rule>) -> Config {
    Config { misc: MiscSettings::default(), rules }
}

// An in-memory filesystem, driven through the library's decisions the way
// the program drives the real one.

#[derive(Clone, Debug, PartialEq)]
enum Node {
    File,
    Dir,
    Link(FsPath),
}

struct Fs {
    nodes: BTreeMap<String, Node>,
}

impl Fs {
    fn new() -> Fs {
        Fs { nodes: BTreeMap::new() }
    }

    fn add(&mut self, path: &str, node: Node) {
        self.nodes.insert(show(&p(path)), node);
    }

    fn probe(&self, path: &FsPath) -> Probe {
        match self.nodes.get(&show(path)) {
            None => Probe::Missing,
            Some(Node::File) | Some(Node::Dir) => Probe::Other,
            Some(Node::Link(raw)) => {
                let target = resolve_link_target(path, raw);
                match self.nodes.get(&show(&target)) {
                    Some(Node::File) | Some(Node::Dir) => Probe::LinksTo(target),
                    _ => Probe::Broken,
                }
            }
        }
    }

    fn below(&self, dir: &FsPath) -> Vec<FsPath> {
        self.nodes.keys().map(|k| p(k)).filter(|k| k.starts_with(dir)).collect()
    }

    fn link_source(&mut self, rule: &Rule, watch: &FsPath, src: &FsPath) -> Result<(), String> {
        let links = links_for_source(rule, watch, src).map_err(|e| format!("{:?}", e))?;
        for (link_dir, link) in rule.link_dirs.iter().zip(links) {
            let exists = matches!(self.nodes.get(&show(link_dir)), Some(Node::Dir));
            check_link_dir(exists).map_err(|e| format!("{:?}", e))?;
            let mut cursor = LinkCursor::new(src.clone(), link);
            loop {
                let seen = self.probe(&cursor.at);
                match cursor.step(&seen) {
                    LinkAction::Create(at) => {
                        self.nodes.insert(show(&at), Node::Link(src.clone()));
                        break;
                    }
                    LinkAction::RemoveBroken(at) => {
                        self.nodes.remove(&show(&at));
                    }
                    LinkAction::Next(_) => {}
                    LinkAction::SetAside(from, to) => {
                        let node = self.nodes.remove(&show(&from)).expect("a link to move");
                        self.nodes.insert(show(&to), node);
                    }
                    LinkAction::Keep => break,
                    LinkAction::Fail(e) => return Err(format!("{:?}", e)),
                }
            }
        }
        Ok(())
    }

    fn run(&mut self, config: &Config, message: &Message) -> Result<Option<Signal>, String> {
        let (tasks, signal) = handle_message(message, config);
        for task in tasks {
            match task {
                Task::EnsureWatchDir(r, w) => {
                    let dir = config.rules[r].watch_dirs[w].clone();
                    self.ensure_dir(&config.rules[r], &dir)?;
                }
                Task::EnsureLinkDir(r, l) => {
                    let dir = config.rules[r].link_dirs[l].clone();
                    self.ensure_dir(&config.rules[r], &dir)?;
                }
                Task::CleanDir(r, l) => {
                    let rule = &config.rules[r];
                    let entries: Vec<LinkEntry> = self
                        .below(&rule.link_dirs[l])
                        .into_iter()
                        .map(|path| {
                            let seen = self.probe(&path);
                            LinkEntry { path, seen }
                        })
                        .collect();
                    let verdicts = clean_dir(rule, &entries).map_err(|e| format!("{:?}", e))?;
                    for (entry, remove) in entries.iter().zip(verdicts) {
                        if remove {
                            self.nodes.remove(&show(&entry.path));
                        }
                    }
                }
                Task::ScanWatchDir(r, w) => {
                    let rule = &config.rules[r];
                    let watch = &rule.watch_dirs[w];
                    for src in self.below(watch) {
                        if src.parts.len() > watch.parts.len() {
                            self.link_source(rule, watch, &src)?;
                        }
                    }
                }
                Task::LinkSource(r, w, src) => {
                    let rule = &config.rules[r];
                    self.link_source(rule, &rule.watch_dirs[w], &src)?;
                }
            }
        }
        Ok(signal)
    }

    fn ensure_dir(&mut self, rule: &Rule, dir: &FsPath) -> Result<(), String> {
        let exists = self.nodes.contains_key(&show(dir));
        match handle_missing_dir(rule, exists).map_err(|e| format!("{:?}", e))? {
            DirStep::Present => {}
            DirStep::Create => {
                self.nodes.insert(show(dir), Node::Dir);
            }
        }
        Ok(())
    }

    fn startup(&mut self, config: &Config) {
        for action in [Action::MakeNecessaryDirs, Action::CleanAll, Action::SymlinkAll] {
            self.run(config, &Message::Action(action)).expect("startup pass");
        }
    }

    fn tree(&self) -> Vec<String> {
        self.nodes.keys().cloned().collect()
    }
}

fn event(kind: EventKind, paths: &[&str]) -> Message {
    Message::NotifyEvent(WatchEvent {
        rule_idx: 0,
        watch_idx: 0,
        kind,
        paths: paths.iter().map(|s| p(s)).collect(),
    })
}

#[test]
fn basic1() {
    let cfg = config(vec![rule(&["/root/watch_dir"], &["/root/link_dir"], &["^_.*"])]);
    let mut fs = Fs::new();
    fs.add("/root/watch_dir", Node::Dir);
    fs.add("/root/link_dir", Node::Dir);
    fs.add("/root/watch_dir/file1.txt", Node::File);
    fs.add("/root/watch_dir/_file2.txt", Node::File);
    fs.add("/root/watch_dir/file3.txt", Node::File);
    fs.startup(&cfg);

    // file3.txt is renamed to _file3.txt, and _file4.txt is created.
    fs.nodes.remove("/root/watch_dir/file3.txt");
    fs.add("/root/watch_dir/_file3.txt", Node::File);
    fs.run(&cfg, &event(EventKind::RenameTo, &["/root/watch_dir/_file3.txt"])).unwrap();
    fs.add("/root/watch_dir/_file4.txt", Node::File);
    fs.run(&cfg, &event(EventKind::Create, &["/root/watch_dir/_file4.txt"])).unwrap();
    assert_eq!(fs.run(&cfg, &Message::Shutdown).unwrap(), Some(Signal::ShutdownSignal));

    assert_eq!(
        fs.tree(),
        vec![
            "/root/link_dir",
            "/root/link_dir/_file2.txt",
            "/root/link_dir/_file3.txt",
            "/root/link_dir/_file4.txt",
            "/root/watch_dir",
            "/root/watch_dir/_file2.txt",
            "/root/watch_dir/_file3.txt",
            "/root/watch_dir/_file4.txt",
            "/root/watch_dir/file1.txt",
        ]
    );
    assert_eq!(
        fs.nodes["/root/link_dir/_file3.txt"],
        Node::Link(p("/root/watch_dir/_file3.txt"))
    );
}

#[test]
fn basic2() {
    let cfg = config(vec![rule(&["/root/watch_dir"], &["/root/link_dir"], &["^_.*"])]);
    let mut fs = Fs::new();
    fs.add("/root/watch_dir", Node::Dir);
    fs.add("/root/link_dir", Node::Dir);
    fs.add("/root/watch_dir/_file1.txt", Node::File);
    fs.add("/root/link_dir/_file1.txt", Node::Link(p("/root/watch_dir/_file1.txt")));
    fs.add("/root/link_dir/_file2.txt", Node::Link(p("/root/watch_dir/_file2.txt")));
    fs.startup(&cfg);
    assert_eq!(
        fs.tree(),
        vec![
            "/root/link_dir",
            "/root/link_dir/_file1.txt",
            "/root/watch_dir",
            "/root/watch_dir/_file1.txt",
        ]
    );
}

#[test]
fn initial_pass_links_only_matching_names() {
    let cfg = config(vec![rule(&["/w"], &["/l"], &["^_.*"])]);
    let mut fs = Fs::new();
    fs.add("/w", Node::Dir);
    fs.add("/l", Node::Dir);
    fs.add("/w/keep.txt", Node::File);
    fs.add("/w/_tag.txt", Node::File);
    fs.startup(&cfg);
    assert_eq!(fs.tree(), vec!["/l", "/l/_tag.txt", "/w", "/w/_tag.txt", "/w/keep.txt"]);
    assert_eq!(fs.nodes["/l/_tag.txt"], Node::Link(p("/w/_tag.txt")));
}

#[test]
fn rename_event_links_new_name() {
    let cfg = config(vec![rule(&["/w"], &["/l"], &["^_.*"])]);
    let (tasks, signal) = handle_message(&event(EventKind::RenameTo, &["/w/_plain.txt"]), &cfg);
    assert_eq!(signal, None);
    assert_eq!(tasks.len(), 1);
    match &tasks[0] {
        Task::LinkSource(0, 0, src) => assert_eq!(show(src), "/w/_plain.txt"),
        other => panic!("unexpected task {:?}", other),
    }
    let links = links_for_source(&cfg.rules[0], &p("/w"), &p("/w/_plain.txt")).unwrap();
    assert_eq!(links.len(), 1);
    let mut cursor = LinkCursor::new(p("/w/_plain.txt"), links[0].clone());
    match cursor.step(&Probe::Missing) {
        LinkAction::Create(at) => assert_eq!(show(&at), "/l/_plain.txt"),
        other => panic!("unexpected action {:?}", other),
    }
}

#[test]
fn cleanup_removes_dangling_link() {
    let cfg = config(vec![rule(&["/w"], &["/l"], &["^_.*"])]);
    let mut fs = Fs::new();
    fs.add("/w", Node::Dir);
    fs.add("/l", Node::Dir);
    fs.add("/l/_ghost.txt", Node::Link(p("/nowhere/_ghost.txt")));
    fs.run(&cfg, &Message::Action(Action::CleanDir(0, 0))).unwrap();
    assert_eq!(fs.tree(), vec!["/l", "/w"]);
    // nothing brings it back while its source is absent
    fs.run(&cfg, &Message::Action(Action::SymlinkAll)).unwrap();
    assert_eq!(fs.tree(), vec!["/l", "/w"]);
    fs.add("/w/_ghost.txt", Node::File);
    fs.run(&cfg, &Message::Action(Action::SymlinkAll)).unwrap();
    assert_eq!(fs.nodes["/l/_ghost.txt"], Node::Link(p("/w/_ghost.txt")));
}

#[test]
fn full_pass_twice_is_idempotent() {
    let cfg = config(vec![rule(&["/w1", "/w2"], &["/l"], &["^_.*"])]);
    let mut fs = Fs::new();
    fs.add("/w1", Node::Dir);
    fs.add("/w2", Node::Dir);
    fs.add("/l", Node::Dir);
    fs.add("/w1/_a.txt", Node::File);
    fs.add("/w2/_b.txt", Node::File);
    fs.add("/w1/c.txt", Node::File);
    fs.add("/l/_old.txt", Node::Link(p("/w1/_gone.txt")));
    fs.startup(&cfg);
    let first = fs.nodes.clone();
    fs.startup(&cfg);
    assert_eq!(fs.nodes, first);
    assert_eq!(fs.nodes["/l/_a.txt"], Node::Link(p("/w1/_a.txt")));
    assert!(!fs.nodes.contains_key("/l/_old.txt"));
}

#[test]
fn reconcile_keeps_correct_link() {
    let mut cursor = LinkCursor::new(p("/w/_a"), p("/l/_a"));
    assert!(matches!(cursor.step(&Probe::LinksTo(p("/w/_a"))), LinkAction::Keep));
}

#[test]
fn conflicting_link_moves_aside_and_new_link_takes_its_place() {
    let cfg = config(vec![rule(&["/w1", "/w2"], &["/l"], &["^_.*"])]);
    let mut fs = Fs::new();
    fs.add("/w1", Node::Dir);
    fs.add("/w2", Node::Dir);
    fs.add("/l", Node::Dir);
    fs.add("/w1/_same.txt", Node::File);
    fs.add("/w2/_same.txt", Node::File);
    fs.add("/l/_same.txt", Node::Link(p("/w1/_same.txt")));
    fs.link_source(&cfg.rules[0], &p("/w2"), &p("/w2/_same.txt")).unwrap();
    assert_eq!(fs.nodes["/l/_same.txt"], Node::Link(p("/w2/_same.txt")));
    assert_eq!(fs.nodes["/l/0__same.txt"], Node::Link(p("/w1/_same.txt")));
    assert_eq!(fs.tree().len(), 7);
}

#[test]
fn conflict_steps_move_old_link_then_place_new_one() {
    let mut cursor = LinkCursor::new(p("/w2/_x"), p("/l/_x"));
    match cursor.step(&Probe::LinksTo(p("/w1/_x"))) {
        LinkAction::Next(at) => assert_eq!(show(&at), "/l/0__x"),
        other => panic!("unexpected action {:?}", other),
    }
    assert_eq!(show(&cursor.at), "/l/0__x");
    assert_eq!(cursor.tried, 1);
    match cursor.step(&Probe::LinksTo(p("/w3/_x"))) {
        LinkAction::Next(at) => assert_eq!(show(&at), "/l/0_0__x"),
        other => panic!("unexpected action {:?}", other),
    }
    match cursor.step(&Probe::Missing) {
        LinkAction::SetAside(from, to) => {
            assert_eq!(show(&from), "/l/_x");
            assert_eq!(show(&to), "/l/0_0__x");
        }
        other => panic!("unexpected action {:?}", other),
    }
    assert_eq!(show(&cursor.at), "/l/_x");
    match cursor.step(&Probe::Missing) {
        LinkAction::Create(at) => assert_eq!(show(&at), "/l/_x"),
        other => panic!("unexpected action {:?}", other),
    }
}

#[test]
fn too_many_conflicts_fail() {
    let mut cursor = LinkCursor::new(p("/w/_x"), p("/l/_x"));
    for _ in 0..MAX_CONFLICTS {
        assert!(matches!(cursor.step(&Probe::LinksTo(p("/other"))), LinkAction::Next(_)));
    }
    assert!(matches!(
        cursor.step(&Probe::LinksTo(p("/other"))),
        LinkAction::Fail(ReconcileError::TooManyConflicts)
    ));
}

#[test]
fn broken_link_is_removed_then_recreated() {
    let mut cursor = LinkCursor::new(p("/w/_x"), p("/l/_x"));
    match cursor.step(&Probe::Broken) {
        LinkAction::RemoveBroken(at) => assert_eq!(show(&at), "/l/_x"),
        other => panic!("unexpected action {:?}", other),
    }
    assert!(matches!(cursor.step(&Probe::Missing), LinkAction::Create(_)));
}

#[test]
fn foreign_file_is_never_replaced() {
    let mut cursor = LinkCursor::new(p("/w/_x"), p("/l/_x"));
    assert!(matches!(cursor.step(&Probe::Other), LinkAction::Fail(ReconcileError::Occupied)));
}

#[test]
fn missing_link_dir_is_an_error() {
    assert_eq!(check_link_dir(false), Err(ReconcileError::LinkDirMissing));
    assert_eq!(check_link_dir(true), Ok(()));
}

#[test]
fn regex_gates_links() {
    let r = rule(&["/w"], &["/l1", "/l2"], &["^_.*", "\\.md$"]);
    let w = p("/w");
    assert_eq!(links_for_source(&r, &w, &p("/w/plain.txt")).unwrap().len(), 0);
    let links = links_for_source(&r, &w, &p("/w/notes.md")).unwrap();
    assert_eq!(links.iter().map(show).collect::<Vec<_>>(), vec!["/l1/notes.md", "/l2/notes.md"]);
    let nested = links_for_source(&r, &w, &p("/w/sub/_deep.txt")).unwrap();
    assert_eq!(show(&nested[0]), "/l1/sub/_deep.txt");
    assert_eq!(links_for_source(&r, &w, &p("/elsewhere/_x")).err(), Some(PathError::NotUnderWatchDir));
    assert_eq!(links_for_source(&r, &w, &p("/")).err(), Some(PathError::NoFileName));
    // the watch directory itself maps to the link directory itself
    let own = rule(&["/w/_top"], &["/l"], &["^_.*"]);
    let top = links_for_source(&own, &p("/w/_top"), &p("/w/_top")).unwrap();
    assert_eq!(show(&top[0]), "/l");
    let mut cursor = LinkCursor::new(p("/w/_top"), top[0].clone());
    assert!(matches!(cursor.step(&Probe::Other), LinkAction::Fail(ReconcileError::Occupied)));
}

#[test]
fn cleaner_keeps_only_scoped_matching_links() {
    let r = rule(&["/w"], &["/l"], &["^_.*"]);
    let entries = vec![
        LinkEntry { path: p("/l"), seen: Probe::Other },
        LinkEntry { path: p("/l/_ok"), seen: Probe::LinksTo(p("/w/_ok")) },
        LinkEntry { path: p("/l/_out"), seen: Probe::LinksTo(p("/tmp/_out")) },
        LinkEntry { path: p("/l/plain"), seen: Probe::LinksTo(p("/w/plain")) },
        LinkEntry { path: p("/l/_broken"), seen: Probe::Broken },
        LinkEntry { path: p("/l/file.txt"), seen: Probe::Other },
    ];
    assert_eq!(clean_dir(&r, &entries).unwrap(), vec![false, false, true, true, true, false]);
    let bad = vec![LinkEntry { path: p("/"), seen: Probe::Broken }];
    assert_eq!(clean_dir(&r, &bad), Err(PathError::NoFileName));
}

#[test]
fn invalid_symlink_checks_each_condition() {
    let r = rule(&["/w"], &["/l"], &["^_.*"]);
    let inside = p("/w/_a");
    let outside = p("/x/_a");
    assert_eq!(invalid_symlink(&p("/l/_a"), &r, Some(&inside)), Ok(false));
    assert_eq!(invalid_symlink(&p("/l/_a"), &r, Some(&outside)), Ok(true));
    assert_eq!(invalid_symlink(&p("/l/_a"), &r, None), Ok(true));
    assert_eq!(invalid_symlink(&p("/l/a"), &r, Some(&inside)), Ok(true));
    assert_eq!(invalid_symlink(&p("/"), &r, None), Err(PathError::NoFileName));
}

#[test]
fn path_arithmetic() {
    assert_eq!(get_basename(&p("/a/b.txt")), Ok("b.txt"));
    assert_eq!(get_basename(&p("/")), Err(PathError::NoFileName));
    assert_eq!(get_basename(&p("/a/..")), Err(PathError::NoFileName));
    assert!(path_is_under_any_dirs(&p("/w/x/y"), &[p("/q"), p("/w/x")]));
    assert!(!path_is_under_any_dirs(&p("/w/xy"), &[p("/w/x")]));
    assert!(!path_is_under_any_dirs(&p("w/x"), &[p("/w")]));
    assert_eq!(show(&calc_link_from_src_orig(&p("/w/a/b"), &p("/w"), &p("/l")).unwrap()), "/l/a/b");
    assert_eq!(show(&calc_link_from_src_orig(&p("/w"), &p("/w"), &p("/l")).unwrap()), "/l");
    assert_eq!(
        calc_link_from_src_orig(&p("/v/a"), &p("/w"), &p("/l")).err(),
        Some(PathError::NotUnderWatchDir)
    );
    assert_eq!(show(&conflict_sibling(&p("/l/_a")).unwrap()), "/l/0__a");
    assert_eq!(show(&resolve_link_target(&p("/l/_a"), &p("../w/_a"))), "/l/../w/_a");
    assert_eq!(show(&resolve_link_target(&p("/l/x"), &p(".."))), "/l/..");
    assert_eq!(show(&resolve_link_target(&p("/l/_a"), &p("/w/_a"))), "/w/_a");
    assert_eq!(show(&resolve_link_target(&p("/l/_a"), &p("/w/_a"))), "/w/_a");
}

#[test]
fn patterns_match_file_names() {
    let pats = vec![pat("^_.*"), pat("txt$")];
    assert_eq!(path_matches_any_regex(&p("/w/_a.md"), &pats), Ok(true));
    assert_eq!(path_matches_any_regex(&p("/w/a.txt"), &pats), Ok(true));
    assert_eq!(path_matches_any_regex(&p("/_w/a.md"), &pats), Ok(false));
    assert_eq!(path_matches_any_regex(&p("/"), &pats), Err(PathError::NoFileName));
    assert!(Pattern::new("(").is_none());
    assert_eq!(pat("^_.*").as_str(), "^_.*");
    assert!(pat("b").is_match("abc"));
    assert!(!pat("^b").is_match("abc"));
}

#[test]
fn events_other_than_appearance_are_ignored() {
    let cfg = config(vec![rule(&["/w"], &["/l"], &["^_.*"])]);
    assert!(is_relevant_event(EventKind::Create));
    assert!(is_relevant_event(EventKind::RenameTo));
    assert!(!is_relevant_event(EventKind::Other));
    let (tasks, signal) = handle_message(&event(EventKind::Other, &["/w/_x"]), &cfg);
    assert!(tasks.is_empty());
    assert_eq!(signal, None);
}

#[test]
fn messages_expand_to_tasks() {
    let cfg = config(vec![
        rule(&["/w1"], &["/l1", "/l2"], &["^_"]),
        rule(&["/w2", "/w3"], &["/l3"], &["^_"]),
    ]);
    let (tasks, _) = handle_message(&Message::Action(Action::CleanAll), &cfg);
    let got: Vec<String> = tasks.iter().map(|t| format!("{:?}", t)).collect();
    assert_eq!(got, vec!["CleanDir(0, 0)", "CleanDir(0, 1)", "CleanDir(1, 0)"]);
    let (tasks, _) = handle_message(&Message::Action(Action::SymlinkAll), &cfg);
    let got: Vec<String> = tasks.iter().map(|t| format!("{:?}", t)).collect();
    assert_eq!(got, vec!["ScanWatchDir(0, 0)", "ScanWatchDir(1, 0)", "ScanWatchDir(1, 1)"]);
    let (tasks, _) = handle_message(&Message::Action(Action::MakeNecessaryDirs), &cfg);
    let got: Vec<String> = tasks.iter().map(|t| format!("{:?}", t)).collect();
    assert_eq!(
        got,
        vec![
            "EnsureWatchDir(0, 0)",
            "EnsureWatchDir(1, 0)",
            "EnsureWatchDir(1, 1)",
            "EnsureLinkDir(0, 0)",
            "EnsureLinkDir(0, 1)",
            "EnsureLinkDir(1, 0)",
        ]
    );
    let (tasks, _) = handle_message(&Message::Action(Action::CleanDir(1, 0)), &cfg);
    assert_eq!(format!("{:?}", tasks), "[CleanDir(1, 0)]");
    let (tasks, signal) = handle_message(&Message::Shutdown, &cfg);
    assert!(tasks.is_empty());
    assert_eq!(signal, Some(Signal::ShutdownSignal));
}

#[test]
fn directory_indices_and_counts() {
    let cfg = config(vec![rule(&["/w1"], &["/l1", "/l2"], &[]), rule(&["/w2", "/w3"], &[], &[])]);
    assert_eq!(link_dir_indices(&cfg), vec![(0, 0), (0, 1)]);
    assert_eq!(watch_dir_indices(&cfg), vec![(0, 0), (1, 0), (1, 1)]);
    assert_eq!(sum_all_watch_dirs(&cfg), 3);
    assert_eq!(sum_all_rules(&cfg), 2);
}

#[test]
fn periodic_cleaners_follow_intervals() {
    let mut quiet = rule(&["/w2"], &["/l3"], &[]);
    quiet.settings.clean_interval = None;
    let mut fast = rule(&["/w3"], &["/l4"], &[]);
    fast.settings.clean_interval = Some(3);
    let cfg = config(vec![rule(&["/w1"], &["/l1", "/l2"], &[]), quiet, fast]);
    assert_eq!(cleaner_schedule(&cfg), vec![(0, 10), (2, 3)]);
    assert_eq!(clean_requests(0, &cfg.rules[0]), vec![Action::CleanDir(0, 0), Action::CleanDir(0, 1)]);
}

#[test]
fn missing_dirs_are_created_or_refused() {
    let mut r = rule(&["/w"], &["/l"], &[]);
    assert_eq!(handle_missing_dir(&r, true), Ok(DirStep::Present));
    assert_eq!(handle_missing_dir(&r, false), Ok(DirStep::Create));
    r.settings.create_missing_dirs = false;
    assert_eq!(handle_missing_dir(&r, false), Err(StartupError::MissingDir));
}

#[test]
fn settings_fall_back_to_defaults() {
    let defaults = RuleSettings {
        create_missing_dirs: false,
        exclude_pattern: vec![pat("^tmp")],
        max_depth: 7,
        follow_symlinks: true,
        clean_interval: Some(30),
    };
    let resolved = resolve_settings(None, &defaults);
    assert!(!resolved.create_missing_dirs);
    assert_eq!(resolved.exclude_pattern[0].as_str(), "^tmp");
    assert_eq!(resolved.max_depth, 7);
    assert!(resolved.follow_symlinks);
    assert_eq!(resolved.clean_interval, Some(30));

    let raw = RawRuleSettings {
        create_missing_dirs: Some(true),
        max_depth: Some(2),
        clean_interval: Some(None),
        ..RawRuleSettings::default()
    };
    let resolved = resolve_settings(Some(raw), &defaults);
    assert!(resolved.create_missing_dirs);
    assert_eq!(resolved.max_depth, 2);
    assert!(resolved.follow_symlinks);
    assert_eq!(resolved.clean_interval, None);

    let raw_config = RawConfig {
        misc: MiscSettings { systemd_service: true },
        rules: vec![RawRule {
            name: "r".to_string(),
            watch_dirs: vec![p("/w")],
            link_dirs: vec![p("/l")],
            regex: vec![pat("^_")],
            settings: Some(RawRuleSettings { max_depth: Some(1), ..RawRuleSettings::default() }),
        }],
        default_rule_settings: RuleSettings::default(),
    };
    let cfg = Config::from_raw(raw_config);
    assert!(cfg.misc.systemd_service);
    assert_eq!(cfg.rules[0].name, "r");
    assert_eq!(cfg.rules[0].settings.max_depth, 1);
    assert_eq!(cfg.rules[0].settings.clean_interval, Some(10));
    assert!(cfg.rules[0].settings.create_missing_dirs);
}
