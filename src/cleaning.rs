//! The cleaner: which symlinks of a link directory no longer belong there.
use vstd::prelude::*;

use crate::config::Rule;
use crate::path::{basename_of, dirs_of, get_basename, is_under_any, path_is_under_any_dirs, FsPath, PathError, PathView};
use crate::pattern::{any_matches, matches_any, sources_of};
use crate::reconcile::{entry_at, EntryView, FsModel, Probe};

verus! {

/// Whether `e` is a symlink, broken or not.
pub open spec fn is_symlink(e: EntryView) -> bool {
    e is Broken || e is LinksTo
}

/// A symlink at `path` that is `e` belongs to `rule`: its name matches one of
/// the rule's patterns, and it resolves to a path under one of the rule's
/// watch directories.
pub open spec fn link_appropriate(rule: Rule, path: PathView, e: EntryView) -> bool {
    match basename_of(path) {
        Some(name) => match e {
            EntryView::LinksTo(t) => matches_any(sources_of(rule.regex@), name) && is_under_any(
                t,
                dirs_of(rule.watch_dirs@),
            ),
            _ => false,
        },
        None => false,
    }
}

/// The cleaner removes what stands at `path` when it is a symlink that does
/// not belong to `rule`.
pub open spec fn should_remove(rule: Rule, path: PathView, e: EntryView) -> bool {
    is_symlink(e) && !link_appropriate(rule, path, e)
}

/// Whether the symlink at `path`, which resolves to `target` (`None` where it
/// is broken), does not belong to `rule`: its name matches none of the
/// rule's patterns, or it is broken, or its target lies under none of the
/// rule's watch directories. An error where `path` has no file name.
pub fn invalid_symlink(path: &FsPath, rule: &Rule, target: Option<&FsPath>) -> (r: Result<bool, PathError>)
    ensures
        match basename_of(path@) {
            None => r == Err::<bool, PathError>(PathError::NoFileName),
            Some(name) => r == Ok::<bool, PathError>(
                !(matches_any(sources_of(rule.regex@), name) && target is Some && is_under_any(
                    target->Some_0@,
                    dirs_of(rule.watch_dirs@),
                )),
            ),
        },
{
    let name = get_basename(path)?;
    if !any_matches(rule.regex.as_slice(), name) {
        return Ok(true);
    }
    match target {
        Some(t) => Ok(!path_is_under_any_dirs(t, rule.watch_dirs.as_slice())),
        None => Ok(true),
    }
}

/// One entry found under a link directory, with what stands there.
#[derive(Debug)]
pub struct LinkEntry {
    pub path: FsPath,
    pub seen: Probe,
}

/// For each entry found under one of `rule`'s link directories, whether the
/// cleaner removes it: exactly the symlinks that do not belong to the rule.
/// Ordinary files and directories are never removed. An error where a symlink
/// among the entries has no file name.
pub fn clean_dir(rule: &Rule, entries: &Vec<LinkEntry>) -> (r: Result<Vec<bool>, PathError>)
    ensures
        r is Err <==> exists|i: int|
            0 <= i < entries@.len() && is_symlink(#[trigger] entries@[i].seen@) && basename_of(
                entries@[i].path@,
            ) is None,
        r is Ok ==> r->Ok_0@.len() == entries@.len() && forall|i: int|
            0 <= i < entries@.len() ==> #[trigger] r->Ok_0@[i] == should_remove(
                *rule,
                entries@[i].path@,
                entries@[i].seen@,
            ),
{
    let mut verdicts: Vec<bool> = Vec::new();
    let mut i: usize = 0;
    while i < entries.len()
        invariant
            0 <= i <= entries@.len(),
            verdicts@.len() == i,
            forall|j: int|
                0 <= j < i ==> !(is_symlink(#[trigger] entries@[j].seen@) && basename_of(
                    entries@[j].path@,
                ) is None),
            forall|j: int|
                0 <= j < i ==> #[trigger] verdicts@[j] == should_remove(
                    *rule,
                    entries@[j].path@,
                    entries@[j].seen@,
                ),
        decreases entries@.len() - i,
    {
        let entry = &entries[i];
        let verdict = match &entry.seen {
            Probe::Missing | Probe::Other => Ok(false),
            Probe::Broken => invalid_symlink(&entry.path, rule, None),
            Probe::LinksTo(t) => invalid_symlink(&entry.path, rule, Some(t)),
        };
        match verdict {
            Ok(remove) => verdicts.push(remove),
            Err(e) => {
                assert(is_symlink(entries@[i as int].seen@));
                return Err(e);
            },
        }
        i += 1;
    }
    Ok(verdicts)
}

/// The filesystem after the cleaner removed, of the `entries` it found, each
/// one that `should_remove` names.
pub open spec fn cleaned(m: FsModel, rule: Rule, entries: Set<PathView>) -> FsModel {
    Map::new(
        |q: PathView| m.contains_key(q) && !(entries.contains(q) && should_remove(rule, q, m[q])),
        |q: PathView| m[q],
    )
}

/// Scope after cleaning: every symlink left at a cleaned entry has a name
/// that matches one of the rule's patterns and resolves to a path under one
/// of the rule's watch directories.
pub proof fn lemma_cleaned_links_in_scope(m: FsModel, rule: Rule, entries: Set<PathView>, q: PathView)
    requires
        entries.contains(q),
        is_symlink(entry_at(cleaned(m, rule, entries), q)),
    ensures
        link_appropriate(rule, q, entry_at(cleaned(m, rule, entries), q)),
{
}

/// Broken links are reaped: a broken symlink at a cleaned entry is gone after
/// cleaning, and nothing but symlinks is ever removed.
pub proof fn lemma_cleaning_reaps_broken(m: FsModel, rule: Rule, entries: Set<PathView>, q: PathView)
    requires
        entries.contains(q),
    ensures
        entry_at(m, q) is Broken ==> entry_at(cleaned(m, rule, entries), q) is Missing,
        !is_symlink(entry_at(m, q)) ==> entry_at(cleaned(m, rule, entries), q) == entry_at(m, q),
{
}

/// Cleaning twice in a row, with no change in between, removes nothing more.
pub proof fn lemma_cleaning_idempotent(m: FsModel, rule: Rule, entries: Set<PathView>)
    ensures
        cleaned(cleaned(m, rule, entries), rule, entries) == cleaned(m, rule, entries),
{
    assert(cleaned(cleaned(m, rule, entries), rule, entries) =~= cleaned(m, rule, entries));
}

} // verus!
