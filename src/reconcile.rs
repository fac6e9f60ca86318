//! The symlink reconciler: given a source path and the place where its
//! mirror link belongs, the steps that leave exactly one correct link there.
//!
//! The reconciler decides and the caller acts: the caller looks at the path
//! the cursor stands on, hands what it saw to `LinkCursor::step`, and performs
//! the action that comes back, until the action is `Keep`, `Create` or `Fail`.
//!
//! Where a link to another file holds the expected place, that link is moved
//! aside to the first free sibling whose name carries the marker `0_` (once
//! or more) in front, and the new link takes the expected place.
use vstd::prelude::*;

use crate::path::{basename_of, conflict_sibling, set_aside, FsPath, PathView};

verus! {

/// How many names are tried, at most, for moving a conflicting link aside
/// before the reconciler gives up.
pub const MAX_CONFLICTS: usize = 8;

/// What the filesystem holds at one path, in the model.
pub enum EntryView {
    Missing,
    Other,
    Broken,
    LinksTo(PathView),
}

/// What the filesystem holds at one path, seen without following a symlink
/// that stands there.
#[derive(Debug)]
pub enum Probe {
    /// Nothing is there.
    Missing,
    /// Something that is not a symlink is there.
    Other,
    /// A symlink whose target does not resolve to an existing path.
    Broken,
    /// A symlink that resolves to this existing path.
    LinksTo(FsPath),
}

impl View for Probe {
    type V = EntryView;

    open spec fn view(&self) -> EntryView {
        match self {
            Probe::Missing => EntryView::Missing,
            Probe::Other => EntryView::Other,
            Probe::Broken => EntryView::Broken,
            Probe::LinksTo(p) => EntryView::LinksTo(p@),
        }
    }
}

/// Why a reconciliation attempt stopped without a correct link.
#[derive(Clone, Copy, Debug, PartialEq, Eq, Structural)]
pub enum ReconcileError {
    /// Something that is not a symlink occupies the place of the link.
    Occupied,
    /// No free name was found to move a conflicting link to.
    TooManyConflicts,
    /// The place of the link has no file name to put a marker in front of.
    NoFileName,
    /// The link directory does not exist.
    LinkDirMissing,
}

/// Where a cursor stands in its work.
#[derive(Clone, Copy, Debug, PartialEq, Eq, Structural)]
pub enum Phase {
    /// Looking at the expected link path.
    Canonical,
    /// Looking for a free name to move the link that holds the expected path to.
    Aside,
    /// The expected path was cleared: placing the new link there.
    Placing,
}

/// What the caller is to do next.
#[derive(Debug)]
pub enum LinkAction {
    /// Create a symlink at this path that points at the source.
    Create(FsPath),
    /// Remove the broken symlink at this path, then look at the path again.
    RemoveBroken(FsPath),
    /// Look at this path next.
    Next(FsPath),
    /// Rename the symlink at the first path to the second (which holds
    /// nothing), then look at the first path again.
    SetAside(FsPath, FsPath),
    /// A link to the source is already there: nothing to do.
    Keep,
    /// Stop with this error.
    Fail(ReconcileError),
}

/// The model of a `LinkAction`.
pub enum ActionView {
    Create(PathView),
    RemoveBroken(PathView),
    Next(PathView),
    SetAside(PathView, PathView),
    Keep,
    Fail(ReconcileError),
}

impl View for LinkAction {
    type V = ActionView;

    open spec fn view(&self) -> ActionView {
        match self {
            LinkAction::Create(p) => ActionView::Create(p@),
            LinkAction::RemoveBroken(p) => ActionView::RemoveBroken(p@),
            LinkAction::Next(p) => ActionView::Next(p@),
            LinkAction::SetAside(f, t) => ActionView::SetAside(f@, t@),
            LinkAction::Keep => ActionView::Keep,
            LinkAction::Fail(e) => ActionView::Fail(*e),
        }
    }
}

/// The decision for the source `src` whose expected link path is `canon`,
/// when the cursor stands at `at` in `phase`, after `tried` names were tried
/// for moving a conflicting link aside, and `seen` stands at `at`.
pub open spec fn step_spec(
    src: PathView,
    canon: PathView,
    at: PathView,
    tried: nat,
    phase: Phase,
    seen: EntryView,
) -> ActionView {
    match phase {
        Phase::Canonical => match seen {
            EntryView::Missing => ActionView::Create(at),
            EntryView::Other => ActionView::Fail(ReconcileError::Occupied),
            EntryView::Broken => ActionView::RemoveBroken(at),
            EntryView::LinksTo(t) => if t == src {
                ActionView::Keep
            } else if basename_of(at) is None {
                ActionView::Fail(ReconcileError::NoFileName)
            } else {
                ActionView::Next(set_aside(at))
            },
        },
        Phase::Aside => match seen {
            EntryView::Missing => ActionView::SetAside(canon, at),
            EntryView::Broken => ActionView::RemoveBroken(at),
            _ => if tried >= MAX_CONFLICTS {
                ActionView::Fail(ReconcileError::TooManyConflicts)
            } else if basename_of(at) is None {
                ActionView::Fail(ReconcileError::NoFileName)
            } else {
                ActionView::Next(set_aside(at))
            },
        },
        Phase::Placing => match seen {
            EntryView::Missing => ActionView::Create(at),
            EntryView::LinksTo(t) => if t == src {
                ActionView::Keep
            } else {
                ActionView::Fail(ReconcileError::Occupied)
            },
            _ => ActionView::Fail(ReconcileError::Occupied),
        },
    }
}

/// Where the reconciliation of one source into one link directory stands.
#[derive(Debug)]
pub struct LinkCursor {
    /// The path the link is to point at.
    pub src: FsPath,
    /// The expected link path.
    pub canonical: FsPath,
    /// The path looked at next.
    pub at: FsPath,
    /// How many names were tried for moving a conflicting link aside.
    pub tried: usize,
    /// Where the work stands.
    pub phase: Phase,
}

impl LinkCursor {
    /// A cursor for linking `src` at `link`, its expected link path.
    pub fn new(src: FsPath, link: FsPath) -> (r: LinkCursor)
        ensures
            r.wf(),
            r.src@ == src@,
            r.canonical@ == link@,
            r.at@ == link@,
            r.tried == 0,
            r.phase == Phase::Canonical,
    {
        let at = link.duplicate();
        LinkCursor { src, canonical: link, at, tried: 0, phase: Phase::Canonical }
    }

    /// The cursor's invariant: it never passes the bound on names tried, and
    /// tries none before it leaves the expected path.
    pub open spec fn wf(&self) -> bool {
        &&& self.tried <= MAX_CONFLICTS
        &&& self.phase == Phase::Canonical ==> self.tried == 0
    }

    /// Decides what to do about `seen`, which stands at `self.at`, and moves
    /// the cursor on: to the next name after `Next`, back to the expected
    /// path after `SetAside`.
    pub fn step(&mut self, seen: &Probe) -> (r: LinkAction)
        requires
            old(self).wf(),
        ensures
            final(self).wf(),
            r@ == step_spec(
                old(self).src@,
                old(self).canonical@,
                old(self).at@,
                old(self).tried as nat,
                old(self).phase,
                seen@,
            ),
            final(self).src@ == old(self).src@,
            final(self).canonical@ == old(self).canonical@,
            r@ is Next ==> final(self).at@ == r@->Next_0 && final(self).tried == old(self).tried + 1
                && final(self).phase == Phase::Aside,
            r@ is SetAside ==> final(self).at@ == old(self).canonical@ && final(self).tried
                == old(self).tried && final(self).phase == Phase::Placing,
            !(r@ is Next) && !(r@ is SetAside) ==> final(self).at@ == old(self).at@ && final(self).tried
                == old(self).tried && final(self).phase == old(self).phase,
    {
        match self.phase {
            Phase::Canonical => match seen {
                Probe::Missing => LinkAction::Create(self.at.duplicate()),
                Probe::Other => LinkAction::Fail(ReconcileError::Occupied),
                Probe::Broken => LinkAction::RemoveBroken(self.at.duplicate()),
                Probe::LinksTo(target) => {
                    if target.same_as(&self.src) {
                        LinkAction::Keep
                    } else {
                        self.move_on()
                    }
                },
            },
            Phase::Aside => match seen {
                Probe::Missing => {
                    let r = LinkAction::SetAside(self.canonical.duplicate(), self.at.duplicate());
                    self.at = self.canonical.duplicate();
                    self.phase = Phase::Placing;
                    r
                },
                Probe::Broken => LinkAction::RemoveBroken(self.at.duplicate()),
                _ => {
                    if self.tried >= MAX_CONFLICTS {
                        LinkAction::Fail(ReconcileError::TooManyConflicts)
                    } else {
                        self.move_on()
                    }
                },
            },
            Phase::Placing => match seen {
                Probe::Missing => LinkAction::Create(self.at.duplicate()),
                Probe::LinksTo(target) => {
                    if target.same_as(&self.src) {
                        LinkAction::Keep
                    } else {
                        LinkAction::Fail(ReconcileError::Occupied)
                    }
                },
                _ => LinkAction::Fail(ReconcileError::Occupied),
            },
        }
    }

    /// Moves to the marked sibling of the current path, as a name to try.
    fn move_on(&mut self) -> (r: LinkAction)
        requires
            old(self).wf(),
            old(self).phase != Phase::Placing,
            old(self).tried < MAX_CONFLICTS,
        ensures
            final(self).wf(),
            r@ == (if basename_of(old(self).at@) is None {
                ActionView::Fail(ReconcileError::NoFileName)
            } else {
                ActionView::Next(set_aside(old(self).at@))
            }),
            final(self).src@ == old(self).src@,
            final(self).canonical@ == old(self).canonical@,
            r@ is Next ==> final(self).at@ == r@->Next_0 && final(self).tried == old(self).tried + 1
                && final(self).phase == Phase::Aside,
            !(r@ is Next) ==> final(self).at@ == old(self).at@ && final(self).tried == old(self).tried
                && final(self).phase == old(self).phase,
    {
        match conflict_sibling(&self.at) {
            Ok(next) => {
                let r = LinkAction::Next(next.duplicate());
                self.at = next;
                self.tried = self.tried + 1;
                self.phase = Phase::Aside;
                r
            },
            Err(_) => LinkAction::Fail(ReconcileError::NoFileName),
        }
    }
}

/// The link directory must exist before anything is linked into it.
pub fn check_link_dir(exists: bool) -> (r: Result<(), ReconcileError>)
    ensures
        r is Ok <==> exists,
        !exists ==> r == Err::<(), ReconcileError>(ReconcileError::LinkDirMissing),
{
    if exists {
        Ok(())
    } else {
        Err(ReconcileError::LinkDirMissing)
    }
}

/// A model of the filesystem: what stands at each path that holds anything.
pub type FsModel = Map<PathView, EntryView>;

/// What stands at `p` in `m`.
pub open spec fn entry_at(m: FsModel, p: PathView) -> EntryView {
    if m.contains_key(p) {
        m[p]
    } else {
        EntryView::Missing
    }
}

/// The order of the phases: a cursor only moves down it.
pub open spec fn phase_rank(phase: Phase) -> int {
    match phase {
        Phase::Canonical => 2,
        Phase::Aside => 1,
        Phase::Placing => 0,
    }
}

/// How many more names may be tried.
pub open spec fn names_left(tried: nat) -> int {
    if tried <= MAX_CONFLICTS { MAX_CONFLICTS - tried } else { 0 }
}

/// Whether a broken link stands at `at`.
pub open spec fn broken_at(m: FsModel, at: PathView) -> int {
    if entry_at(m, at) is Broken { 1 } else { 0 }
}

/// Reconciling `src` with the expected link path `canon`, from a cursor at
/// `at` in `phase` that tried `tried` names, on `m`, when each action is
/// performed as it comes: the filesystem at the end, and whether a correct
/// link was reached. A created link resolves to `src`; a renamed link keeps
/// what it resolves to.
pub open spec fn reconcile_run(
    m: FsModel,
    src: PathView,
    canon: PathView,
    at: PathView,
    tried: nat,
    phase: Phase,
) -> (FsModel, bool)
    decreases phase_rank(phase), names_left(tried), broken_at(m, at),
{
    match step_spec(src, canon, at, tried, phase, entry_at(m, at)) {
        ActionView::Create(p) => (m.insert(p, EntryView::LinksTo(src)), true),
        ActionView::RemoveBroken(p) => if p == at {
            reconcile_run(m.remove(p), src, canon, at, tried, phase)
        } else {
            (m, false)
        },
        ActionView::Next(p) => if phase == Phase::Canonical || (phase == Phase::Aside && tried
            < MAX_CONFLICTS) {
            reconcile_run(m, src, canon, p, tried + 1, Phase::Aside)
        } else {
            (m, false)
        },
        ActionView::SetAside(f, t) => if phase == Phase::Aside {
            reconcile_run(m.remove(f).insert(t, entry_at(m, f)), src, canon, canon, tried, Phase::Placing)
        } else {
            (m, false)
        },
        ActionView::Keep => (m, true),
        ActionView::Fail(_) => (m, false),
    }
}

/// A whole reconciliation of `src` at its expected link path `canon`.
pub open spec fn reconcile(m: FsModel, src: PathView, canon: PathView) -> (FsModel, bool) {
    reconcile_run(m, src, canon, canon, 0, Phase::Canonical)
}

/// Where a cursor may stand: at the expected path, except while looking for
/// a name to move a conflicting link to, when it stands at a sibling of the
/// expected path with a longer name.
pub open spec fn cursor_inv(canon: PathView, at: PathView, phase: Phase) -> bool {
    if phase == Phase::Aside {
        &&& at.absolute == canon.absolute
        &&& canon.parts.len() > 0
        &&& at.parts.len() == canon.parts.len()
        &&& at.parts.drop_last() == canon.parts.drop_last()
        &&& at.parts.last().len() > canon.parts.last().len()
    } else {
        at == canon
    }
}

/// The marked sibling of a path where the cursor may stand is again such a
/// path, and differs from the expected path.
proof fn lemma_aside_inv(canon: PathView, at: PathView, phase: Phase)
    requires
        cursor_inv(canon, at, phase),
        phase != Phase::Placing,
        basename_of(at) is Some,
    ensures
        cursor_inv(canon, set_aside(at), Phase::Aside),
        set_aside(at) != canon,
{
    assert(set_aside(at).parts.drop_last() =~= at.parts.drop_last());
    assert(set_aside(at).parts.last().len() == at.parts.last().len() + 2);
}

/// Once the expected path is free, placing the link succeeds.
proof fn lemma_placing_free(m: FsModel, src: PathView, canon: PathView, tried: nat)
    requires
        entry_at(m, canon) is Missing,
    ensures
        reconcile_run(m, src, canon, canon, tried, Phase::Placing) == (m.insert(canon, EntryView::LinksTo(src)), true),
{
}

/// From a free name, the conflicting link is moved there and the new link
/// placed at the expected path.
proof fn lemma_aside_free(m: FsModel, src: PathView, canon: PathView, at: PathView, tried: nat)
    requires
        cursor_inv(canon, at, Phase::Aside),
        entry_at(m, at) is Missing,
    ensures
        reconcile_run(m, src, canon, at, tried, Phase::Aside) == (
            m.remove(canon).insert(at, entry_at(m, canon)).insert(canon, EntryView::LinksTo(src)),
            true,
        ),
{
    let m2 = m.remove(canon).insert(at, entry_at(m, canon));
    assert(at != canon);
    assert(reconcile_run(m, src, canon, at, tried, Phase::Aside) == reconcile_run(m2, src, canon, canon, tried, Phase::Placing));
    lemma_placing_free(m2, src, canon, tried);
}

/// A run that ends well leaves a link to `src` at the expected path; one that
/// fails changes nothing.
pub proof fn lemma_run_outcome(m: FsModel, src: PathView, canon: PathView, at: PathView, tried: nat, phase: Phase)
    requires
        cursor_inv(canon, at, phase),
    ensures
        reconcile_run(m, src, canon, at, tried, phase).1 ==> entry_at(reconcile_run(m, src, canon, at, tried, phase).0, canon)
            == EntryView::LinksTo(src),
        !reconcile_run(m, src, canon, at, tried, phase).1 ==> reconcile_run(m, src, canon, at, tried, phase).0 == m,
    decreases phase_rank(phase), names_left(tried), broken_at(m, at),
{
    let e = entry_at(m, at);
    match phase {
        Phase::Canonical => {
            if e is Broken {
                let m0 = m.remove(at);
                assert(reconcile_run(m, src, canon, at, tried, phase) == reconcile_run(m0, src, canon, at, tried, phase));
                assert(entry_at(m0, at) is Missing);
            } else if e is LinksTo && e->LinksTo_0 != src && basename_of(at) is Some {
                lemma_aside_inv(canon, at, phase);
                lemma_run_outcome(m, src, canon, set_aside(at), tried + 1, Phase::Aside);
            }
        },
        Phase::Aside => {
            if e is Missing {
                lemma_aside_free(m, src, canon, at, tried);
            } else if e is Broken {
                let m0 = m.remove(at);
                assert(reconcile_run(m, src, canon, at, tried, phase) == reconcile_run(m0, src, canon, at, tried, phase));
                lemma_aside_free(m0, src, canon, at, tried);
            } else if tried < MAX_CONFLICTS && basename_of(at) is Some {
                lemma_aside_inv(canon, at, phase);
                lemma_run_outcome(m, src, canon, set_aside(at), tried + 1, Phase::Aside);
            }
        },
        Phase::Placing => {},
    }
}

/// Idempotence of reconciliation: reconciling a second time, with no change
/// in between, changes nothing and ends as the first time did.
pub proof fn lemma_reconcile_idempotent(m: FsModel, src: PathView, canon: PathView)
    ensures
        reconcile(reconcile(m, src, canon).0, src, canon) == reconcile(m, src, canon),
{
    lemma_run_outcome(m, src, canon, canon, 0, Phase::Canonical);
}

/// Conflict handling: where a link to another file `a` holds the expected
/// path and its marked sibling is free, the old link moves to the marked
/// sibling, still pointing at `a`, the new link to `src` takes the expected
/// path, and nothing else changes.
pub proof fn lemma_conflict_moves_aside(m: FsModel, src: PathView, canon: PathView, a: PathView)
    requires
        entry_at(m, canon) == EntryView::LinksTo(a),
        a != src,
        basename_of(canon) is Some,
        entry_at(m, set_aside(canon)) is Missing,
    ensures
        reconcile(m, src, canon) == (
            m.remove(canon).insert(set_aside(canon), EntryView::LinksTo(a)).insert(canon, EntryView::LinksTo(src)),
            true,
        ),
        entry_at(reconcile(m, src, canon).0, canon) == EntryView::LinksTo(src),
        entry_at(reconcile(m, src, canon).0, set_aside(canon)) == EntryView::LinksTo(a),
        forall|q: PathView|
            q != canon && q != set_aside(canon) ==> #[trigger] entry_at(reconcile(m, src, canon).0, q) == entry_at(m, q),
{
    lemma_aside_inv(canon, canon, Phase::Canonical);
    assert(reconcile(m, src, canon) == reconcile_run(m, src, canon, set_aside(canon), 1, Phase::Aside));
    lemma_aside_free(m, src, canon, set_aside(canon), 1);
}

/// What a run leaves at a path is what stood there, a link to `src`, the
/// link that stood at the expected path (moved aside), or nothing where a
/// broken link or the moved link stood: no other link is ever made.
pub proof fn lemma_run_links_only_src(
    m: FsModel,
    src: PathView,
    canon: PathView,
    at: PathView,
    tried: nat,
    phase: Phase,
    q: PathView,
)
    requires
        cursor_inv(canon, at, phase),
    ensures
        ({
            let e = entry_at(reconcile_run(m, src, canon, at, tried, phase).0, q);
            ||| e == entry_at(m, q)
            ||| e == EntryView::LinksTo(src)
            ||| e == entry_at(m, canon)
            ||| (e is Missing && (entry_at(m, q) is Broken || q == canon))
        }),
    decreases phase_rank(phase), names_left(tried), broken_at(m, at),
{
    let e = entry_at(m, at);
    match phase {
        Phase::Canonical => {
            if e is Broken {
                let m0 = m.remove(at);
                assert(reconcile_run(m, src, canon, at, tried, phase) == reconcile_run(m0, src, canon, at, tried, phase));
                assert(entry_at(m0, at) is Missing);
            } else if e is LinksTo && e->LinksTo_0 != src && basename_of(at) is Some {
                lemma_aside_inv(canon, at, phase);
                lemma_run_links_only_src(m, src, canon, set_aside(at), tried + 1, Phase::Aside, q);
            }
        },
        Phase::Aside => {
            if e is Missing {
                lemma_aside_free(m, src, canon, at, tried);
            } else if e is Broken {
                let m0 = m.remove(at);
                assert(reconcile_run(m, src, canon, at, tried, phase) == reconcile_run(m0, src, canon, at, tried, phase));
                lemma_aside_free(m0, src, canon, at, tried);
                assert(entry_at(m0, canon) == entry_at(m, canon));
            } else if tried < MAX_CONFLICTS && basename_of(at) is Some {
                lemma_aside_inv(canon, at, phase);
                lemma_run_links_only_src(m, src, canon, set_aside(at), tried + 1, Phase::Aside, q);
            }
        },
        Phase::Placing => {},
    }
}

} // verus!
