//! The full reconciliation pass in the model: every link directory of a rule
//! cleaned, then every discovered source linked, and what two such passes in
//! a row leave behind.
use vstd::prelude::*;

use crate::cleaning::{cleaned, should_remove};
use crate::config::Rule;
use crate::path::{dirs_of, is_under, strictly_under, PathView};
use crate::reconcile::{entry_at, reconcile, reconcile_run, EntryView, FsModel, Phase};

verus! {

/// No path is held with the value `Missing`: a path that holds nothing is
/// simply not in the map.
pub open spec fn model_wf(m: FsModel) -> bool {
    forall|q: PathView| #[trigger] m.contains_key(q) ==> !(m[q] is Missing)
}

/// `b` holds everything `a` holds, with the same value.
pub open spec fn extends(b: FsModel, a: FsModel) -> bool {
    forall|q: PathView| #[trigger] a.contains_key(q) ==> b.contains_key(q) && b[q] == a[q]
}

/// `a` laid over `b`: what `a` holds, and elsewhere what `b` holds.
pub open spec fn overlay(a: FsModel, b: FsModel) -> FsModel {
    Map::new(
        |q: PathView| a.contains_key(q) || b.contains_key(q),
        |q: PathView| if a.contains_key(q) { a[q] } else { b[q] },
    )
}

/// The paths under one of the rule's link directories.
pub open spec fn link_area(rule: Rule) -> Set<PathView> {
    Set::new(
        |q: PathView|
            exists|i: int| 0 <= i < rule.link_dirs@.len() && is_under(q, #[trigger] dirs_of(rule.link_dirs@)[i]),
    )
}

/// `p` lies strictly below one of the rule's link directories.
pub open spec fn in_link_dir(rule: Rule, p: PathView) -> bool {
    exists|i: int| 0 <= i < rule.link_dirs@.len() && strictly_under(p, #[trigger] dirs_of(rule.link_dirs@)[i])
}

/// A symlink pass: each job `(source, expected link path)` reconciled in
/// turn, starting from `m`.
pub open spec fn link_pass(m: FsModel, jobs: Seq<(PathView, PathView)>) -> FsModel
    decreases jobs.len(),
{
    if jobs.len() == 0 {
        m
    } else {
        reconcile(link_pass(m, jobs.drop_last()), jobs.last().0, jobs.last().1).0
    }
}

/// A full reconciliation pass for `rule`: every symlink under its link
/// directories that does not belong there removed, then every job
/// reconciled in turn.
pub open spec fn full_pass(m: FsModel, rule: Rule, jobs: Seq<(PathView, PathView)>) -> FsModel {
    link_pass(cleaned(m, rule, link_area(rule)), jobs)
}

/// The first `k` jobs of a pass, run from `m`.
pub open spec fn pass_prefix(m: FsModel, jobs: Seq<(PathView, PathView)>, k: int) -> FsModel {
    link_pass(m, jobs.subrange(0, k))
}

/// No two jobs share an expected link path.
pub open spec fn canons_distinct(jobs: Seq<(PathView, PathView)>) -> bool {
    forall|i: int, j: int| 0 <= i < j < jobs.len() ==> #[trigger] jobs[i].1 != #[trigger] jobs[j].1
}

/// At no job's expected link path does `m` hold a link to another file.
pub open spec fn no_conflict(m: FsModel, jobs: Seq<(PathView, PathView)>) -> bool {
    forall|k: int|
        0 <= k < jobs.len() ==> !(#[trigger] entry_at(m, jobs[k].1) is LinksTo && entry_at(m, jobs[k].1)->LinksTo_0
            != jobs[k].0)
}

/// What reconciling `s` at `c` does where no link to another file is there:
/// a link to `s` where nothing or a broken link stood, else no change.
pub open spec fn place(a: FsModel, s: PathView, c: PathView) -> FsModel {
    if entry_at(a, c) is Missing || entry_at(a, c) is Broken {
        a.insert(c, EntryView::LinksTo(s))
    } else {
        a
    }
}

proof fn lemma_reconcile_without_conflict(a: FsModel, s: PathView, c: PathView)
    requires
        !(entry_at(a, c) is LinksTo && entry_at(a, c)->LinksTo_0 != s),
    ensures
        reconcile(a, s, c).0 == place(a, s, c),
{
    if entry_at(a, c) is Broken {
        let a0 = a.remove(c);
        assert(reconcile_run(a, s, c, c, 0, Phase::Canonical) == reconcile_run(a0, s, c, c, 0, Phase::Canonical));
        assert(entry_at(a0, c) is Missing);
        assert(a0.insert(c, EntryView::LinksTo(s)) =~= a.insert(c, EntryView::LinksTo(s)));
    }
}

proof fn lemma_pass_prefix_step(m: FsModel, jobs: Seq<(PathView, PathView)>, k: int)
    requires
        0 <= k < jobs.len(),
    ensures
        pass_prefix(m, jobs, k + 1) == reconcile(pass_prefix(m, jobs, k), jobs[k].0, jobs[k].1).0,
{
    assert(jobs.subrange(0, k + 1).drop_last() =~= jobs.subrange(0, k));
    assert(jobs.subrange(0, k + 1).last() == jobs[k]);
}

/// After `j` jobs the filesystem differs from that after `k <= j` jobs only
/// at the expected paths of the jobs in between.
pub open spec fn frame_between(m: FsModel, jobs: Seq<(PathView, PathView)>, k: int, j: int) -> bool {
    forall|q: PathView|
        (forall|i: int| k <= i < j ==> q != #[trigger] jobs[i].1) ==> #[trigger] entry_at(pass_prefix(m, jobs, j), q)
            == entry_at(pass_prefix(m, jobs, k), q)
}

/// One job changes nothing but its own expected path.
proof fn lemma_frame_extend(m: FsModel, jobs: Seq<(PathView, PathView)>, k: int, j: int)
    requires
        0 <= k < j <= jobs.len(),
        k < j - 1 ==> frame_between(m, jobs, k, j - 1),
        pass_prefix(m, jobs, j) == place(pass_prefix(m, jobs, j - 1), jobs[j - 1].0, jobs[j - 1].1),
    ensures
        frame_between(m, jobs, k, j),
{
    assert forall|q: PathView|
        (forall|i: int| k <= i < j ==> q != #[trigger] jobs[i].1) implies #[trigger] entry_at(pass_prefix(m, jobs, j), q)
            == entry_at(pass_prefix(m, jobs, k), q) by {
        assert(q != jobs[j - 1].1);
        let prev = pass_prefix(m, jobs, j - 1);
        assert(entry_at(place(prev, jobs[j - 1].0, jobs[j - 1].1), q) == entry_at(prev, q));
        if k < j - 1 {
            assert(forall|i: int| k <= i < j - 1 ==> q != #[trigger] jobs[i].1);
            assert(entry_at(prev, q) == entry_at(pass_prefix(m, jobs, k), q));
        }
    }
}

/// During a pass without conflicts each job only places its own link: the
/// filesystem stays well formed, job `j` meets at its expected path what
/// stood there at the start, and after it only that path changed.
proof fn lemma_pass_frame(m: FsModel, jobs: Seq<(PathView, PathView)>, k: int, j: int)
    requires
        model_wf(m),
        canons_distinct(jobs),
        no_conflict(m, jobs),
        0 <= k <= j <= jobs.len(),
    ensures
        model_wf(pass_prefix(m, jobs, j)),
        frame_between(m, jobs, k, j),
        j < jobs.len() ==> entry_at(pass_prefix(m, jobs, j), jobs[j].1) == entry_at(m, jobs[j].1),
        j < jobs.len() ==> pass_prefix(m, jobs, j + 1) == place(pass_prefix(m, jobs, j), jobs[j].0, jobs[j].1),
    decreases j,
{
    assert(jobs.subrange(0, 0) =~= Seq::<(PathView, PathView)>::empty());
    assert(pass_prefix(m, jobs, 0) == m);
    if j > 0 {
        lemma_pass_frame(m, jobs, 0, j - 1);
        lemma_frame_extend(m, jobs, 0, j);
        if k < j {
            lemma_pass_frame(m, jobs, k, j - 1);
            lemma_frame_extend(m, jobs, k, j);
        }
    }
    if j < jobs.len() {
        let cur = pass_prefix(m, jobs, j);
        assert(entry_at(cur, jobs[j].1) == entry_at(m, jobs[j].1)) by {
            if j > 0 {
                assert(forall|i: int| 0 <= i < j ==> jobs[j].1 != #[trigger] jobs[i].1);
            }
        }
        lemma_pass_prefix_step(m, jobs, j);
        lemma_reconcile_without_conflict(cur, jobs[j].0, jobs[j].1);
    }
}

/// Every job's expected link path lies strictly below a link directory.
pub open spec fn jobs_in_link_dirs(rule: Rule, jobs: Seq<(PathView, PathView)>) -> bool {
    forall|k: int| 0 <= k < jobs.len() ==> in_link_dir(rule, #[trigger] jobs[k].1)
}

proof fn lemma_in_area(rule: Rule, p: PathView)
    requires
        in_link_dir(rule, p),
    ensures
        link_area(rule).contains(p),
{
    let i = choose|i: int| 0 <= i < rule.link_dirs@.len() && strictly_under(p, #[trigger] dirs_of(rule.link_dirs@)[i]);
    assert(is_under(p, dirs_of(rule.link_dirs@)[i]));
}

/// What the cleaner keeps it keeps unchanged, and a well-formed model stays
/// well formed.
proof fn lemma_cleaned_sub_map(m: FsModel, rule: Rule)
    requires
        model_wf(m),
    ensures
        model_wf(cleaned(m, rule, link_area(rule))),
        extends(m, cleaned(m, rule, link_area(rule))),
{
}

/// During the second of two passes, after `k` jobs, the filesystem is the
/// first pass's after `k` jobs, laid over what the second cleaning kept.
proof fn lemma_second_pass_prefix(m: FsModel, rule: Rule, jobs: Seq<(PathView, PathView)>, k: int)
    requires
        model_wf(m),
        canons_distinct(jobs),
        jobs_in_link_dirs(rule, jobs),
        no_conflict(cleaned(m, rule, link_area(rule)), jobs),
        0 <= k <= jobs.len(),
    ensures
        pass_prefix(cleaned(full_pass(m, rule, jobs), rule, link_area(rule)), jobs, k) == overlay(
            pass_prefix(cleaned(m, rule, link_area(rule)), jobs, k),
            cleaned(full_pass(m, rule, jobs), rule, link_area(rule)),
        ),
    decreases k,
{
    let area = link_area(rule);
    let c0 = cleaned(m, rule, area);
    let n = jobs.len() as int;
    assert(jobs.subrange(0, n) =~= jobs);
    let mm = full_pass(m, rule, jobs);
    assert(mm == pass_prefix(c0, jobs, n));
    let c1 = cleaned(mm, rule, area);
    lemma_cleaned_sub_map(m, rule);
    lemma_pass_frame(c0, jobs, 0, n);
    lemma_cleaned_sub_map(mm, rule);
    if k == 0 {
        assert(jobs.subrange(0, 0) =~= Seq::<(PathView, PathView)>::empty());
        assert(pass_prefix(c0, jobs, 0) == c0);
        assert(pass_prefix(c1, jobs, 0) == c1);
        lemma_pass_frame(c0, jobs, 0, n);
        assert(extends(c1, c0)) by {
            assert forall|q: PathView| #[trigger] c0.contains_key(q) implies c1.contains_key(q) && c1[q] == c0[q] by {
                assert(entry_at(c0, q) == c0[q]);
                if exists|i: int| 0 <= i < n && q == #[trigger] jobs[i].1 {
                    let i = choose|i: int| 0 <= i < n && q == #[trigger] jobs[i].1;
                    lemma_in_area(rule, q);
                    lemma_pass_frame(c0, jobs, 0, i);
                    lemma_pass_frame(c0, jobs, i + 1, n);
                    assert(forall|l: int| i + 1 <= l < n ==> q != #[trigger] jobs[l].1);
                    assert(entry_at(mm, q) == entry_at(pass_prefix(c0, jobs, i + 1), q));
                } else {
                    assert(forall|l: int| 0 <= l < n ==> q != #[trigger] jobs[l].1);
                }
                assert(entry_at(mm, q) == entry_at(c0, q));
            }
        }
        assert(overlay(c0, c1) =~= c1);
    } else {
        let j = k - 1;
        lemma_second_pass_prefix(m, rule, jobs, j);
        let s = jobs[j].0;
        let c = jobs[j].1;
        let a_prev = pass_prefix(c0, jobs, j);
        let a_next = pass_prefix(c0, jobs, k);
        let b_prev = pass_prefix(c1, jobs, j);
        lemma_pass_frame(c0, jobs, j, j);
        lemma_pass_frame(c0, jobs, k, n);
        lemma_pass_prefix_step(c1, jobs, j);
        lemma_in_area(rule, c);
        let e0 = entry_at(c0, c);
        assert(!(e0 is Broken));
        assert(!(e0 is LinksTo && e0->LinksTo_0 != s));
        if e0 is Missing {
            assert(!a_prev.contains_key(c));
            assert(a_next == a_prev.insert(c, EntryView::LinksTo(s)));
            assert(forall|i: int| k <= i < n ==> c != #[trigger] jobs[i].1);
            assert(entry_at(mm, c) == entry_at(a_next, c));
            lemma_reconcile_without_conflict(b_prev, s, c);
            assert(overlay(a_next, c1) =~= place(b_prev, s, c));
        } else {
            assert(a_next == a_prev);
            assert(entry_at(b_prev, c) == e0);
            lemma_reconcile_without_conflict(b_prev, s, c);
        }
    }
}

/// Idempotence of the full pass: a second full pass with the same jobs, with
/// no change in between, leaves the filesystem exactly as the first left it.
/// This holds where no two jobs share an expected link path, every expected
/// link path lies below a link directory, and after cleaning no job's
/// expected link path holds a link to another file.
pub proof fn lemma_full_pass_idempotent(m: FsModel, rule: Rule, jobs: Seq<(PathView, PathView)>)
    requires
        model_wf(m),
        canons_distinct(jobs),
        jobs_in_link_dirs(rule, jobs),
        no_conflict(cleaned(m, rule, link_area(rule)), jobs),
    ensures
        full_pass(full_pass(m, rule, jobs), rule, jobs) == full_pass(m, rule, jobs),
{
    let n = jobs.len() as int;
    let mm = full_pass(m, rule, jobs);
    let c1 = cleaned(mm, rule, link_area(rule));
    assert(jobs.subrange(0, n) =~= jobs);
    lemma_second_pass_prefix(m, rule, jobs, n);
    lemma_cleaned_sub_map(m, rule);
    lemma_pass_frame(cleaned(m, rule, link_area(rule)), jobs, 0, n);
    lemma_cleaned_sub_map(mm, rule);
    assert(overlay(mm, c1) =~= mm);
}

/// Broken links stay reaped: a broken symlink under a link directory that
/// is no job's expected link path is gone after a full pass, whose link part
/// puts nothing there. This holds where, as for idempotence, no two jobs
/// share an expected link path and after cleaning none meets a link to
/// another file (a link moved aside may otherwise land on that name).
pub proof fn lemma_reaped_link_stays_absent(
    m: FsModel,
    rule: Rule,
    jobs: Seq<(PathView, PathView)>,
    s: PathView,
)
    requires
        model_wf(m),
        canons_distinct(jobs),
        no_conflict(cleaned(m, rule, link_area(rule)), jobs),
        link_area(rule).contains(s),
        entry_at(m, s) is Broken,
        forall|k: int| 0 <= k < jobs.len() ==> #[trigger] jobs[k].1 != s,
    ensures
        entry_at(full_pass(m, rule, jobs), s) is Missing,
{
    let c0 = cleaned(m, rule, link_area(rule));
    let n = jobs.len() as int;
    assert(jobs.subrange(0, n) =~= jobs);
    assert(jobs.subrange(0, 0) =~= Seq::<(PathView, PathView)>::empty());
    assert(pass_prefix(c0, jobs, 0) == c0);
    lemma_cleaned_sub_map(m, rule);
    lemma_pass_frame(c0, jobs, 0, n);
    assert(forall|i: int| 0 <= i < n ==> s != #[trigger] jobs[i].1);
    assert(entry_at(full_pass(m, rule, jobs), s) == entry_at(c0, s));
}

} // verus!
