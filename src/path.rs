//! Paths as sequences of components, and the path arithmetic of the engine.
use vstd::prelude::*;

verus! {

/// The mathematical value of a path: whether it starts at the root, and its
/// components in order.
pub struct PathView {
    pub absolute: bool,
    pub parts: Seq<Seq<char>>,
}

/// A filesystem path: whether it starts at the root, and its components in
/// order. A `..` component is held as the string `..`; `.` components and
/// repeated separators are not held at all.
#[derive(Clone, Debug)]
pub struct FsPath {
    pub absolute: bool,
    pub parts: Vec<String>,
}

/// Errors of the path arithmetic.
#[derive(Clone, Copy, Debug, PartialEq, Eq, Structural)]
pub enum PathError {
    /// The path has no final component that names a file (it is empty, the
    /// root, or ends in `..`).
    NoFileName,
    /// A source path does not lie under the watch directory it was found
    /// under.
    NotUnderWatchDir,
}

/// The character sequences of a sequence of strings.
pub open spec fn views_of(v: Seq<String>) -> Seq<Seq<char>> {
    v.map_values(|s: String| s@)
}

/// Views distribute over pushing one string.
pub proof fn lemma_views_of_push(v: Seq<String>, x: String)
    ensures
        views_of(v.push(x)) == views_of(v).push(x@),
{
    let a = views_of(v.push(x));
    let b = views_of(v).push(x@);
    assert forall|k: int| 0 <= k < a.len() implies a[k] == b[k] by {
        if k < v.len() {
            assert(v.push(x)[k] == v[k]);
        }
    }
    assert(a =~= b);
}

/// The views of a sequence of paths.
pub open spec fn dirs_of(v: Seq<FsPath>) -> Seq<PathView> {
    v.map_values(|d: FsPath| d@)
}

/// Views of paths distribute over pushing one path.
pub proof fn lemma_dirs_of_push(v: Seq<FsPath>, x: FsPath)
    ensures
        dirs_of(v.push(x)) == dirs_of(v).push(x@),
{
    let a = dirs_of(v.push(x));
    let b = dirs_of(v).push(x@);
    assert forall|k: int| 0 <= k < a.len() implies a[k] == b[k] by {
        if k < v.len() {
            assert(v.push(x)[k] == v[k]);
        }
    }
    assert(a =~= b);
}

impl View for FsPath {
    type V = PathView;

    open spec fn view(&self) -> PathView {
        PathView { absolute: self.absolute, parts: views_of(self.parts@) }
    }
}

/// The component `..`.
pub open spec fn parent_marker() -> Seq<char> {
    seq!['.', '.']
}

/// The final component of a path, where it names a file.
pub open spec fn basename_of(p: PathView) -> Option<Seq<char>> {
    if p.parts.len() > 0 && p.parts.last() != parent_marker() {
        Some(p.parts.last())
    } else {
        None
    }
}

/// `dir` is an ancestor of `p`, or `p` itself, comparing whole components.
pub open spec fn is_under(p: PathView, dir: PathView) -> bool {
    &&& p.absolute == dir.absolute
    &&& dir.parts.len() <= p.parts.len()
    &&& p.parts.subrange(0, dir.parts.len() as int) == dir.parts
}

/// `p` is under at least one of `dirs`.
pub open spec fn is_under_any(p: PathView, dirs: Seq<PathView>) -> bool {
    exists|i: int| 0 <= i < dirs.len() && is_under(p, #[trigger] dirs[i])
}

/// `rel` taken relative to `base`: joined onto it, components as they are,
/// leaving `..` for the filesystem to resolve; an absolute `rel` stands for
/// itself.
pub open spec fn joined(base: PathView, rel: PathView) -> PathView {
    if rel.absolute {
        rel
    } else {
        PathView { absolute: base.absolute, parts: base.parts + rel.parts }
    }
}

/// The directory that holds `p` (the path itself where it has no components).
pub open spec fn parent_of(p: PathView) -> PathView {
    if p.parts.len() > 0 {
        PathView { absolute: p.absolute, parts: p.parts.drop_last() }
    } else {
        p
    }
}

/// The path of the symlink that mirrors `src`, found under `watch`, inside
/// `link`: the part of `src` below `watch`, re-rooted under `link`.
pub open spec fn expected_link(src: PathView, watch: PathView, link: PathView) -> PathView {
    PathView { absolute: link.absolute, parts: link.parts + src.parts.skip(watch.parts.len() as int) }
}

/// `src` lies strictly below `watch`.
pub open spec fn strictly_under(src: PathView, watch: PathView) -> bool {
    is_under(src, watch) && watch.parts.len() < src.parts.len()
}

/// The final component of `path`; an error where it names no file.
pub fn get_basename(path: &FsPath) -> (r: Result<&str, PathError>)
    ensures
        match basename_of(path@) {
            Some(b) => r is Ok && r->Ok_0@ == b,
            None => r == Err::<&str, PathError>(PathError::NoFileName),
        },
{
    let n: usize = path.parts.len();
    if n == 0 {
        return Err(PathError::NoFileName);
    }
    let last = path.parts[n - 1].as_str();
    if is_parent_marker(last) {
        Err(PathError::NoFileName)
    } else {
        Ok(last)
    }
}

fn is_parent_marker(s: &str) -> (r: bool)
    ensures
        r == (s@ == parent_marker()),
{
    if s.unicode_len() != 2 {
        return false;
    }
    let a = s.get_char(0);
    let b = s.get_char(1);
    let r = a == '.' && b == '.';
    assert(r ==> s@ =~= parent_marker());
    r
}

/// Whether `path` lies under at least one of `many_dirs`.
pub fn path_is_under_any_dirs(path: &FsPath, many_dirs: &[FsPath]) -> (r: bool)
    ensures
        r == is_under_any(path@, dirs_of(many_dirs@)),
{
    let ghost dirs = dirs_of(many_dirs@);
    let mut i: usize = 0;
    while i < many_dirs.len()
        invariant
            0 <= i <= many_dirs@.len(),
            dirs == dirs_of(many_dirs@),
            forall|j: int| 0 <= j < i ==> !is_under(path@, #[trigger] dirs[j]),
        decreases many_dirs@.len() - i,
    {
        if path.starts_with(&many_dirs[i]) {
            assert(is_under(path@, dirs[i as int]));
            return true;
        }
        i += 1;
    }
    false
}

/// Where a symlink that mirrors `src_path`, found under `watch_dir`, belongs
/// inside `link_dir`: the part of `src_path` below `watch_dir`, re-rooted under
/// `link_dir` (the link directory itself where `src_path` is `watch_dir`).
/// Fails where `src_path` does not lie under `watch_dir`.
pub fn calc_link_from_src_orig(src_path: &FsPath, watch_dir: &FsPath, link_dir: &FsPath) -> (r:
    Result<FsPath, PathError>)
    ensures
        r is Ok <==> is_under(src_path@, watch_dir@),
        r is Ok ==> r->Ok_0@ == expected_link(src_path@, watch_dir@, link_dir@),
        r is Err ==> r == Err::<FsPath, PathError>(PathError::NotUnderWatchDir),
{
    if !src_path.starts_with(watch_dir) {
        return Err(PathError::NotUnderWatchDir);
    }
    let mut out = link_dir.duplicate();
    let mut i: usize = watch_dir.parts.len();
    while i < src_path.parts.len()
        invariant
            watch_dir.parts@.len() <= i <= src_path.parts@.len(),
            out@.absolute == link_dir.absolute,
            out@.parts =~= link_dir@.parts + src_path@.parts.subrange(
                watch_dir.parts@.len() as int,
                i as int,
            ),
        decreases src_path.parts@.len() - i,
    {
        let ghost before = out.parts@;
        out.parts.push(src_path.parts[i].clone());
        assert(out.parts@ =~= before.push(src_path.parts@[i as int]));
        proof { lemma_views_of_push(before, src_path.parts@[i as int]); }
        assert(out@.parts =~= link_dir@.parts + src_path@.parts.subrange(
            watch_dir.parts@.len() as int,
            i as int + 1,
        ));
        i += 1;
    }
    assert(src_path@.parts.subrange(watch_dir.parts@.len() as int, src_path.parts@.len() as int)
        =~= src_path@.parts.skip(watch_dir.parts@.len() as int));
    Ok(out)
}

impl FsPath {
    /// A copy of this path.
    pub fn duplicate(&self) -> (r: FsPath)
        ensures
            r@ == self@,
    {
        let mut parts: Vec<String> = Vec::new();
        let mut i: usize = 0;
        while i < self.parts.len()
            invariant
                0 <= i <= self.parts@.len(),
                views_of(parts@) =~= self@.parts.subrange(0, i as int),
            decreases self.parts@.len() - i,
        {
            let ghost before = parts@;
            parts.push(self.parts[i].clone());
            assert(parts@ =~= before.push(self.parts@[i as int]));
            proof { lemma_views_of_push(before, self.parts@[i as int]); }
            assert(views_of(parts@) =~= self@.parts.subrange(0, i as int + 1));
            i += 1;
        }
        let r = FsPath { absolute: self.absolute, parts };
        assert(r@.parts =~= self@.parts);
        r
    }

    /// Whether `dir` is this path or one of its ancestors, comparing whole
    /// components.
    pub fn starts_with(&self, dir: &FsPath) -> (r: bool)
        ensures
            r == is_under(self@, dir@),
    {
        if self.absolute != dir.absolute || dir.parts.len() > self.parts.len() {
            return false;
        }
        let mut i: usize = 0;
        while i < dir.parts.len()
            invariant
                dir.parts@.len() <= self.parts@.len(),
                0 <= i <= dir.parts@.len(),
                forall|j: int| 0 <= j < i ==> self@.parts[j] == dir@.parts[j],
            decreases dir.parts@.len() - i,
        {
            if self.parts[i] != dir.parts[i] {
                assert(self@.parts.subrange(0, dir.parts@.len() as int)[i as int] != dir@.parts[i as int]);
                return false;
            }
            i += 1;
        }
        assert(self@.parts.subrange(0, dir.parts@.len() as int) =~= dir@.parts);
        true
    }

    /// Whether the two paths are the same, component for component.
    pub fn same_as(&self, other: &FsPath) -> (r: bool)
        ensures
            r == (self@ == other@),
    {
        if self.parts.len() != other.parts.len() {
            assert(self@.parts.len() != other@.parts.len());
            return false;
        }
        let r = self.starts_with(other);
        if r {
            assert(self@.parts =~= other@.parts);
        } else {
            assert(self@.parts.subrange(0, other@.parts.len() as int) =~= self@.parts);
        }
        r
    }
}

/// The marker put before a link's name when the link's place is taken.
pub open spec fn conflict_marker() -> Seq<char> {
    seq!['0', '_']
}

/// The sibling of `p` whose name is `p`'s name behind the conflict marker.
pub open spec fn set_aside(p: PathView) -> PathView {
    PathView { absolute: p.absolute, parts: p.parts.drop_last().push(conflict_marker() + p.parts.last()) }
}

/// The sibling of `path` whose name carries the conflict marker `0_` in front
/// of `path`'s own name.
pub fn conflict_sibling(path: &FsPath) -> (r: Result<FsPath, PathError>)
    ensures
        r is Ok <==> basename_of(path@) is Some,
        r is Ok ==> r->Ok_0@ == set_aside(path@),
        r is Err ==> r == Err::<FsPath, PathError>(PathError::NoFileName),
{
    let name = get_basename(path)?;
    proof { reveal_strlit("0_"); }
    let mut renamed = String::new();
    renamed.append("0_");
    renamed.append(name);
    assert("0_"@ =~= conflict_marker());
    assert(renamed@ =~= conflict_marker() + path@.parts.last());
    let mut out = path.duplicate();
    out.parts.pop();
    let ghost before = out.parts@;
    assert(views_of(before) =~= path@.parts.drop_last());
    out.parts.push(renamed);
    proof { lemma_views_of_push(before, renamed); }
    assert(out@.parts =~= set_aside(path@).parts);
    Ok(out)
}

/// The path that a symlink at `link` with the raw target `raw` points at: an
/// absolute target stands for itself, a relative one is taken from the
/// directory that holds the link, joined onto it as it is.
pub fn resolve_link_target(link: &FsPath, raw: &FsPath) -> (r: FsPath)
    ensures
        r@ == joined(parent_of(link@), raw@),
{
    if raw.absolute {
        return raw.duplicate();
    }
    let mut out = link.duplicate();
    if out.parts.len() > 0 {
        out.parts.pop();
        assert(views_of(out.parts@) =~= link@.parts.drop_last());
    }
    let ghost base = out@;
    assert(base == parent_of(link@));
    let mut i: usize = 0;
    while i < raw.parts.len()
        invariant
            0 <= i <= raw.parts@.len(),
            out@.absolute == base.absolute,
            out@.parts =~= base.parts + raw@.parts.subrange(0, i as int),
        decreases raw.parts@.len() - i,
    {
        let ghost before = out.parts@;
        out.parts.push(raw.parts[i].clone());
        assert(out.parts@ =~= before.push(raw.parts@[i as int]));
        proof { lemma_views_of_push(before, raw.parts@[i as int]); }
        assert(out@.parts =~= base.parts + raw@.parts.subrange(0, i as int + 1));
        i += 1;
    }
    assert(raw@.parts.subrange(0, raw.parts@.len() as int) =~= raw@.parts);
    out
}

impl PartialEq for FsPath {
    fn eq(&self, other: &FsPath) -> (r: bool) {
        self.same_as(other)
    }
}

impl vstd::std_specs::cmp::PartialEqSpecImpl for FsPath {
    open spec fn obeys_eq_spec() -> bool {
        true
    }

    open spec fn eq_spec(&self, other: &FsPath) -> bool {
        self@ == other@
    }
}

} // verus!
