//! The responder's decisions: what each message asks for, which links a
//! discovered source path calls for, and what the periodic cleaners send.
use vstd::prelude::*;

use crate::config::{Config, Rule};
use crate::indices::{link_counts, link_dir_indices, pairs_of, watch_counts, watch_dir_indices};
use crate::path::{
    basename_of, calc_link_from_src_orig, dirs_of, lemma_dirs_of_push, expected_link, get_basename, is_under,
    FsPath, PathError, PathView,
};
use crate::pattern::{any_matches, matches_any, sources_of};

verus! {

/// The kinds of filesystem notification the engine tells apart.
#[derive(Clone, Copy, Debug, PartialEq, Eq, Structural)]
pub enum EventKind {
    /// A file appeared.
    Create,
    /// A file was renamed to the path of the event.
    RenameTo,
    /// Anything else: writes, deletions, renames away.
    Other,
}

/// A filesystem notification from the watcher of one watch directory.
#[derive(Debug)]
pub struct WatchEvent {
    pub rule_idx: usize,
    pub watch_idx: usize,
    pub kind: EventKind,
    pub paths: Vec<FsPath>,
}

/// A request that the responder carries out.
#[derive(Clone, Copy, Debug, PartialEq, Eq, Structural)]
pub enum Action {
    /// Clean one link directory: (rule index, link directory index).
    CleanDir(usize, usize),
    /// Make sure every watch and link directory exists.
    MakeNecessaryDirs,
    /// Clean every link directory.
    CleanAll,
    /// Scan every watch directory and link what matches.
    SymlinkAll,
}

/// What travels on the channel to the responder.
#[derive(Debug)]
pub enum Message {
    NotifyEvent(WatchEvent),
    Action(Action),
    Shutdown,
}

/// What handling a message tells the responder loop beyond its work.
#[derive(Clone, Copy, Debug, PartialEq, Eq, Structural)]
pub enum Signal {
    ShutdownSignal,
}

/// The kinds of worker the dispatcher launches.
#[derive(Clone, Copy, Debug, PartialEq, Eq, Structural)]
pub enum WorkerType {
    Cleaners,
    Watchers,
    Responder,
}

/// One piece of filesystem work, by (rule index, directory index).
#[derive(Debug)]
pub enum Task {
    /// Make sure this watch directory exists.
    EnsureWatchDir(usize, usize),
    /// Make sure this link directory exists.
    EnsureLinkDir(usize, usize),
    /// Clean this link directory.
    CleanDir(usize, usize),
    /// Scan this watch directory and link each path found.
    ScanWatchDir(usize, usize),
    /// Link this path, found under this watch directory.
    LinkSource(usize, usize, FsPath),
}

/// Only the appearance of a file under a new name can call for a new link.
pub open spec fn relevant_kind(kind: EventKind) -> bool {
    kind == EventKind::Create || kind == EventKind::RenameTo
}

/// Whether a notification of this kind is handed on to the reconciler.
pub fn is_relevant_event(kind: EventKind) -> (r: bool)
    ensures
        r == relevant_kind(kind),
{
    match kind {
        EventKind::Create | EventKind::RenameTo => true,
        EventKind::Other => false,
    }
}

/// The kinds of task that name a (rule, directory) pair.
#[derive(Clone, Copy, Debug, PartialEq, Eq, Structural)]
pub enum PairTask {
    EnsureWatchDir,
    EnsureLinkDir,
    CleanDir,
    ScanWatchDir,
}

/// `tasks` are `pairs`, each made a task of kind `which`.
pub open spec fn tasks_from_pairs(tasks: Seq<Task>, pairs: Seq<(usize, usize)>, which: PairTask) -> bool {
    &&& tasks.len() == pairs.len()
    &&& forall|i: int|
        0 <= i < pairs.len() ==> #[trigger] tasks[i] == task_of(which, pairs[i])
}

/// The task of kind `which` for a pair.
pub open spec fn task_of(which: PairTask, p: (usize, usize)) -> Task {
    match which {
        PairTask::EnsureWatchDir => Task::EnsureWatchDir(p.0, p.1),
        PairTask::EnsureLinkDir => Task::EnsureLinkDir(p.0, p.1),
        PairTask::CleanDir => Task::CleanDir(p.0, p.1),
        PairTask::ScanWatchDir => Task::ScanWatchDir(p.0, p.1),
    }
}

/// Appends to `tasks` the task of kind `which` for each of `pairs`.
fn tasks_for(pairs: Vec<(usize, usize)>, which: PairTask, tasks: &mut Vec<Task>)
    ensures
        final(tasks)@.len() == old(tasks)@.len() + pairs@.len(),
        final(tasks)@.subrange(0, old(tasks)@.len() as int) == old(tasks)@,
        tasks_from_pairs(
            final(tasks)@.subrange(old(tasks)@.len() as int, final(tasks)@.len() as int),
            pairs@,
            which,
        ),
{
    let ghost start = tasks@;
    let mut i: usize = 0;
    while i < pairs.len()
        invariant
            0 <= i <= pairs@.len(),
            tasks@.len() == start.len() + i,
            tasks@.subrange(0, start.len() as int) == start,
            forall|k: int|
                0 <= k < i ==> #[trigger] tasks@[start.len() + k] == task_of(which, pairs@[k]),
        decreases pairs@.len() - i,
    {
        let (r, d) = pairs[i];
        let t = match which {
            PairTask::EnsureWatchDir => Task::EnsureWatchDir(r, d),
            PairTask::EnsureLinkDir => Task::EnsureLinkDir(r, d),
            PairTask::CleanDir => Task::CleanDir(r, d),
            PairTask::ScanWatchDir => Task::ScanWatchDir(r, d),
        };
        let ghost before = tasks@;
        tasks.push(t);
        assert(tasks@.subrange(0, start.len() as int) =~= before.subrange(0, start.len() as int));
        assert forall|k: int| 0 <= k < i + 1 implies #[trigger] tasks@[start.len() + k] == task_of(which, pairs@[k]) by {
            if k < i {
                assert(tasks@[start.len() + k] == before[start.len() + k]);
            }
        }
        i += 1;
    }
    let ghost tail = tasks@.subrange(start.len() as int, tasks@.len() as int);
    assert forall|k: int| 0 <= k < pairs@.len() implies #[trigger] tail[k] == task_of(which, pairs@[k]) by {
        assert(tail[k] == tasks@[start.len() + k]);
    }
}

/// The work a message asks for, and whether the responder is to stop.
///
/// A clean-all request cleans every link directory in order; a symlink-all
/// request scans every watch directory in order; a directory request checks
/// every watch directory, then every link directory; a notification of a
/// file appearing under a new name links each of its paths, and any other
/// notification asks for nothing; shutdown asks for nothing and stops.
pub fn handle_message(message: &Message, config: &Config) -> (r: (Vec<Task>, Option<Signal>))
    ensures
        r.1 == (if *message is Shutdown { Some(Signal::ShutdownSignal) } else { None }),
        match *message {
            Message::Shutdown => r.0@.len() == 0,
            Message::Action(Action::CleanDir(ri, li)) => r.0@ == seq![Task::CleanDir(ri, li)],
            Message::Action(Action::CleanAll) => tasks_from_pairs(r.0@, pairs_of(link_counts(*config)), PairTask::CleanDir),
            Message::Action(Action::SymlinkAll) => tasks_from_pairs(r.0@, pairs_of(watch_counts(*config)), PairTask::ScanWatchDir),
            Message::Action(Action::MakeNecessaryDirs) => {
                let nw = pairs_of(watch_counts(*config)).len();
                &&& tasks_from_pairs(r.0@.subrange(0, nw as int), pairs_of(watch_counts(*config)), PairTask::EnsureWatchDir)
                &&& tasks_from_pairs(r.0@.subrange(nw as int, r.0@.len() as int), pairs_of(link_counts(*config)), PairTask::EnsureLinkDir)
                &&& r.0@.len() >= nw
            },
            Message::NotifyEvent(e) => if relevant_kind(e.kind) {
                &&& r.0@.len() == e.paths@.len()
                &&& forall|i: int| 0 <= i < e.paths@.len() ==> {
                    &&& #[trigger] r.0@[i] is LinkSource
                    &&& r.0@[i]->LinkSource_0 == e.rule_idx
                    &&& r.0@[i]->LinkSource_1 == e.watch_idx
                    &&& r.0@[i]->LinkSource_2@ == e.paths@[i]@
                }
            } else {
                r.0@.len() == 0
            },
        },
{
    let mut tasks: Vec<Task> = Vec::new();
    match message {
        Message::Shutdown => {
            return (tasks, Some(Signal::ShutdownSignal));
        },
        Message::Action(Action::CleanDir(ri, li)) => {
            tasks.push(Task::CleanDir(*ri, *li));
            assert(tasks@ =~= seq![Task::CleanDir(*ri, *li)]);
        },
        Message::Action(Action::CleanAll) => {
            tasks_for(link_dir_indices(config), PairTask::CleanDir, &mut tasks);
            assert(tasks@.subrange(0, tasks@.len() as int) =~= tasks@);
        },
        Message::Action(Action::SymlinkAll) => {
            tasks_for(watch_dir_indices(config), PairTask::ScanWatchDir, &mut tasks);
            assert(tasks@.subrange(0, tasks@.len() as int) =~= tasks@);
        },
        Message::Action(Action::MakeNecessaryDirs) => {
            let watch = watch_dir_indices(config);
            let nw: usize = watch.len();
            tasks_for(watch, PairTask::EnsureWatchDir, &mut tasks);
            assert(tasks@.subrange(0, nw as int) =~= tasks@);
            let ghost first = tasks@;
            tasks_for(link_dir_indices(config), PairTask::EnsureLinkDir, &mut tasks);
            assert(tasks@.subrange(0, nw as int) == first);
        },
        Message::NotifyEvent(event) => {
            if is_relevant_event(event.kind) {
                let mut i: usize = 0;
                while i < event.paths.len()
                    invariant
                        0 <= i <= event.paths@.len(),
                        tasks@.len() == i,
                        forall|k: int| 0 <= k < i ==> {
                            &&& #[trigger] tasks@[k] is LinkSource
                            &&& tasks@[k]->LinkSource_0 == event.rule_idx
                            &&& tasks@[k]->LinkSource_1 == event.watch_idx
                            &&& tasks@[k]->LinkSource_2@ == event.paths@[k]@
                        },
                    decreases event.paths@.len() - i,
                {
                    tasks.push(Task::LinkSource(event.rule_idx, event.watch_idx, event.paths[i].duplicate()));
                    i += 1;
                }
            }
        },
    }
    (tasks, None)
}

/// The links that the source path `src`, found under the watch directory
/// `watch` of `rule`, calls for: none where its name matches none of the
/// rule's patterns, else its expected link path in each link directory of
/// the rule, in order.
pub open spec fn link_plan(rule: Rule, watch: PathView, src: PathView) -> Result<Seq<PathView>, PathError> {
    match basename_of(src) {
        None => Err(PathError::NoFileName),
        Some(name) => if !matches_any(sources_of(rule.regex@), name) || rule.link_dirs@.len() == 0 {
            Ok(Seq::empty())
        } else if !is_under(src, watch) {
            Err(PathError::NotUnderWatchDir)
        } else {
            Ok(dirs_of(rule.link_dirs@).map_values(|l: PathView| expected_link(src, watch, l)))
        },
    }
}

/// The expected link paths that the source path `src`, found under the watch
/// directory `watch_dir` of `rule`, calls for (see `link_plan`).
pub fn links_for_source(rule: &Rule, watch_dir: &FsPath, src: &FsPath) -> (r: Result<Vec<FsPath>, PathError>)
    ensures
        match r {
            Ok(v) => link_plan(*rule, watch_dir@, src@) == Ok::<Seq<PathView>, PathError>(dirs_of(v@)),
            Err(e) => link_plan(*rule, watch_dir@, src@) == Err::<Seq<PathView>, PathError>(e),
        },
{
    let name = match get_basename(src) {
        Ok(n) => n,
        Err(e) => {
            return Err(e);
        },
    };
    let mut out: Vec<FsPath> = Vec::new();
    if !any_matches(rule.regex.as_slice(), name) || rule.link_dirs.len() == 0 {
        assert(dirs_of(out@) =~= Seq::<PathView>::empty());
        return Ok(out);
    }
    let ghost plan = dirs_of(rule.link_dirs@).map_values(|l: PathView| expected_link(src@, watch_dir@, l));
    let mut i: usize = 0;
    while i < rule.link_dirs.len()
        invariant
            0 <= i <= rule.link_dirs@.len(),
            rule.link_dirs@.len() > 0,
            basename_of(src@) == Some(name@),
            matches_any(sources_of(rule.regex@), name@),
            i > 0 ==> is_under(src@, watch_dir@),
            plan == dirs_of(rule.link_dirs@).map_values(|l: PathView| expected_link(src@, watch_dir@, l)),
            dirs_of(out@) =~= plan.subrange(0, i as int),
        decreases rule.link_dirs@.len() - i,
    {
        let link = match calc_link_from_src_orig(src, watch_dir, &rule.link_dirs[i]) {
            Ok(l) => l,
            Err(e) => {
                return Err(e);
            },
        };
        let ghost before = out@;
        out.push(link);
        proof { lemma_dirs_of_push(before, link); }
        assert(dirs_of(out@) =~= plan.subrange(0, i as int + 1));
        i += 1;
    }
    assert(plan.subrange(0, i as int) =~= plan);
    Ok(out)
}

/// Regex gating: for a path under a watch directory of a rule with
/// at least one link directory, links are planned for it if and only if its
/// file name matches at least one of the rule's patterns; each planned link
/// is the expected link path in one of the rule's link directories.
pub proof fn lemma_regex_gating(rule: Rule, watch: PathView, src: PathView, name: Seq<char>)
    requires
        rule.link_dirs@.len() > 0,
        is_under(src, watch),
        basename_of(src) == Some(name),
    ensures
        link_plan(rule, watch, src) is Ok,
        link_plan(rule, watch, src)->Ok_0.len() > 0 <==> matches_any(sources_of(rule.regex@), name),
        forall|i: int|
            0 <= i < link_plan(rule, watch, src)->Ok_0.len() ==> #[trigger] link_plan(rule, watch, src)->Ok_0[i]
                == expected_link(src, watch, rule.link_dirs@[i]@),
{
}

/// What to do about one directory that must exist.
#[derive(Clone, Copy, Debug, PartialEq, Eq, Structural)]
pub enum DirStep {
    /// It exists: nothing to do.
    Present,
    /// It is missing: create it and its parents.
    Create,
}

/// Errors that stop the engine before it starts watching.
#[derive(Clone, Copy, Debug, PartialEq, Eq, Structural)]
pub enum StartupError {
    /// A directory is missing and the rule does not allow creating it.
    MissingDir,
}

/// What to do about a directory of `rule` that does or does not `exist`: a
/// missing one is created where the rule allows it, else it is an error.
pub fn handle_missing_dir(rule: &Rule, exists: bool) -> (r: Result<DirStep, StartupError>)
    ensures
        exists ==> r == Ok::<DirStep, StartupError>(DirStep::Present),
        !exists && rule.settings.create_missing_dirs ==> r == Ok::<DirStep, StartupError>(DirStep::Create),
        !exists && !rule.settings.create_missing_dirs ==> r == Err::<DirStep, StartupError>(StartupError::MissingDir),
{
    if exists {
        Ok(DirStep::Present)
    } else if rule.settings.create_missing_dirs {
        Ok(DirStep::Create)
    } else {
        Err(StartupError::MissingDir)
    }
}

/// The periodic cleaners: one (rule index, interval) for each rule that has
/// a cleanup interval, in the order of the rules.
pub open spec fn schedule_of(rules: Seq<Rule>) -> Seq<(usize, u32)>
    decreases rules.len(),
{
    if rules.len() == 0 {
        Seq::empty()
    } else {
        let rest = schedule_of(rules.drop_last());
        match rules.last().settings.clean_interval {
            Some(iv) => rest.push(((rules.len() - 1) as usize, iv)),
            None => rest,
        }
    }
}

/// The periodic cleaners that `config` asks for (see `schedule_of`).
pub fn cleaner_schedule(config: &Config) -> (r: Vec<(usize, u32)>)
    ensures
        r@ == schedule_of(config.rules@),
{
    let mut out: Vec<(usize, u32)> = Vec::new();
    let mut i: usize = 0;
    while i < config.rules.len()
        invariant
            0 <= i <= config.rules@.len(),
            out@ == schedule_of(config.rules@.subrange(0, i as int)),
        decreases config.rules@.len() - i,
    {
        assert(config.rules@.subrange(0, i + 1).drop_last() =~= config.rules@.subrange(0, i as int));
        match config.rules[i].settings.clean_interval {
            Some(iv) => out.push((i, iv)),
            None => {},
        }
        i += 1;
    }
    assert(config.rules@.subrange(0, i as int) =~= config.rules@);
    out
}

/// The messages one periodic cleaner sends for `rule`, the rule at
/// `rule_idx`: a request to clean each of its link directories, in order.
pub fn clean_requests(rule_idx: usize, rule: &Rule) -> (r: Vec<Action>)
    ensures
        r@.len() == rule.link_dirs@.len(),
        forall|i: int| 0 <= i < r@.len() ==> #[trigger] r@[i] == Action::CleanDir(rule_idx, i as usize),
{
    let mut out: Vec<Action> = Vec::new();
    let mut i: usize = 0;
    while i < rule.link_dirs.len()
        invariant
            0 <= i <= rule.link_dirs@.len(),
            out@.len() == i,
            forall|k: int| 0 <= k < i ==> #[trigger] out@[k] == Action::CleanDir(rule_idx, k as usize),
        decreases rule.link_dirs@.len() - i,
    {
        out.push(Action::CleanDir(rule_idx, i));
        i += 1;
    }
    out
}

} // verus!
