//! What goes into a project's archive: for each entry of a directory walk,
//! whether it is written, and under which name.
use crate::exclude::{excluded_by, should_exclude_file, ExclusionFilter};
use crate::text::{join_slash, join_slash_from, same_text, texts};
use crate::types::BuildError;
use vstd::prelude::*;

verus! {

/// One entry of a directory walk, as the walk met it.
#[derive(Debug, Clone)]
pub struct WalkEntry {
    /// The components of its path, the walk's root included.
    pub path: Vec<String>,
    /// Whether it is a regular file (directories are not written).
    pub is_file: bool,
}

impl View for WalkEntry {
    type V = (Seq<Seq<char>>, bool);

    open spec fn view(&self) -> (Seq<Seq<char>>, bool) {
        (texts(self.path@), self.is_file)
    }
}

/// One entry to write: the walk entry it comes from, and its name in the archive.
#[derive(Debug, Clone)]
pub struct ArchiveEntry {
    /// Index of the entry in the walk.
    pub source: usize,
    /// Path relative to the root, with forward slashes.
    pub name: String,
}

impl View for ArchiveEntry {
    type V = (int, Seq<char>);

    open spec fn view(&self) -> (int, Seq<char>) {
        (self.source as int, self.name@)
    }
}

pub open spec fn walk_view(walk: Seq<WalkEntry>) -> Seq<(Seq<Seq<char>>, bool)> {
    walk.map_values(|e: WalkEntry| e@)
}

pub open spec fn entries_view(entries: Seq<ArchiveEntry>) -> Seq<(int, Seq<char>)> {
    entries.map_values(|e: ArchiveEntry| e@)
}

/// Whether `path` lies under `root`, component by component.
pub open spec fn under_root(root: Seq<Seq<char>>, path: Seq<Seq<char>>) -> bool {
    root.len() <= path.len() && path.take(root.len() as int) == root
}

/// The archive name of a path under `root`: what follows the root, joined by slashes.
pub open spec fn relative_name(root: Seq<Seq<char>>, path: Seq<Seq<char>>) -> Seq<char> {
    join_slash(path.skip(root.len() as int))
}

/// Whether the walked entry is written: a file whose name no pattern matches.
pub open spec fn is_packaged(
    root: Seq<Seq<char>>,
    entry: (Seq<Seq<char>>, bool),
    patterns: Seq<Seq<char>>,
) -> bool {
    entry.1 && !excluded_by(patterns, relative_name(root, entry.0))
}

/// The entries to write, in walk order: each packaged entry's index and name.
pub open spec fn planned_entries(
    root: Seq<Seq<char>>,
    walk: Seq<(Seq<Seq<char>>, bool)>,
    patterns: Seq<Seq<char>>,
) -> Seq<(int, Seq<char>)>
    decreases walk.len(),
{
    if walk.len() == 0 {
        Seq::empty()
    } else {
        let before = planned_entries(root, walk.drop_last(), patterns);
        let k = walk.len() - 1;
        if is_packaged(root, walk[k], patterns) {
            before.push((k, relative_name(root, walk[k].0)))
        } else {
            before
        }
    }
}

/// Whether every walked path lies under the root.
pub open spec fn walk_under_root(root: Seq<Seq<char>>, walk: Seq<(Seq<Seq<char>>, bool)>) -> bool {
    forall|k: int| 0 <= k < walk.len() ==> under_root(root, #[trigger] walk[k].0)
}

/// The name in the archive of the path `path` under the walk's root `root`,
/// or `None` where it does not lie under the root.
pub fn entry_name(root: &Vec<String>, path: &Vec<String>) -> (r: Option<String>)
    ensures
        r is Some <==> under_root(texts(root@), texts(path@)),
        r matches Some(name) ==> name@ == relative_name(texts(root@), texts(path@)),
{
    if root.len() > path.len() {
        return None;
    }
    for i in 0..root.len()
        invariant
            root@.len() <= path@.len(),
            forall|j: int| 0 <= j < i ==> root@[j]@ == path@[j]@,
    {
        if !same_text(root[i].as_str(), path[i].as_str()) {
            assert(texts(path@).take(root@.len() as int)[i as int] != texts(root@)[i as int]);
            return None;
        }
    }
    assert(texts(path@).take(root@.len() as int) =~= texts(root@));
    Some(join_slash_from(path, root.len()))
}

/// Plans the archive of the walk of the directory `root`: the entries to
/// write, in walk order. A root that is not a directory is `SourceNotFound`;
/// a walked path outside the root is `PathOutsideRoot`.
pub fn plan_archive(
    root: &Vec<String>,
    root_is_dir: bool,
    walk: &Vec<WalkEntry>,
    filter: &ExclusionFilter,
) -> (r: Result<Vec<ArchiveEntry>, BuildError>)
    ensures
        !root_is_dir ==> r matches Err(BuildError::SourceNotFound),
        root_is_dir && !walk_under_root(texts(root@), walk_view(walk@)) ==> r matches Err(
            BuildError::PathOutsideRoot,
        ),
        root_is_dir && walk_under_root(texts(root@), walk_view(walk@)) ==> (r matches Ok(entries)
            && entries_view(entries@) == planned_entries(
            texts(root@),
            walk_view(walk@),
            filter.sources(),
        )),
{
    if !root_is_dir {
        return Err(BuildError::SourceNotFound);
    }
    let ghost rt = texts(root@);
    let ghost wv = walk_view(walk@);
    let ghost pats = filter.sources();
    let mut entries: Vec<ArchiveEntry> = Vec::new();
    for i in 0..walk.len()
        invariant
            root_is_dir,
            rt == texts(root@),
            wv == walk_view(walk@),
            pats == filter.sources(),
            walk_under_root(rt, wv.take(i as int)),
            entries_view(entries@) == planned_entries(rt, wv.take(i as int), pats),
    {
        let ghost next = wv.take(i + 1);
        proof {
            assert(next.drop_last() =~= wv.take(i as int));
            assert(next[i as int] == wv[i as int]);
        }
        match entry_name(root, &walk[i].path) {
            None => {
                assert(!under_root(rt, wv[i as int].0));
                return Err(BuildError::PathOutsideRoot);
            },
            Some(name) => {
                if walk[i].is_file && !should_exclude_file(name.as_str(), filter) {
                    entries.push(ArchiveEntry { source: i, name });
                    assert(entries_view(entries@) =~= planned_entries(rt, wv.take(i as int), pats).push(
                        (i as int, name@),
                    ));
                }
            },
        }
        assert(walk_under_root(rt, next)) by {
            assert forall|k: int| 0 <= k < next.len() implies under_root(rt, #[trigger] next[k].0) by {
                if k < i {
                    assert(next[k] == wv.take(i as int)[k]);
                }
            }
        }
    }
    assert(wv.take(walk@.len() as int) =~= wv);
    Ok(entries)
}

/// Each planned entry comes from a packaged entry of the walk and carries its
/// relative name; the entries' walk indices strictly increase.
proof fn lemma_planned_entries_shape(
    root: Seq<Seq<char>>,
    walk: Seq<(Seq<Seq<char>>, bool)>,
    patterns: Seq<Seq<char>>,
)
    ensures
        forall|j: int|
            #![trigger planned_entries(root, walk, patterns)[j]]
            0 <= j < planned_entries(root, walk, patterns).len() ==> {
                let (k, name) = planned_entries(root, walk, patterns)[j];
                &&& 0 <= k < walk.len()
                &&& is_packaged(root, walk[k], patterns)
                &&& name == relative_name(root, walk[k].0)
            },
        forall|j1: int, j2: int|
            0 <= j1 < j2 < planned_entries(root, walk, patterns).len() ==> (#[trigger] planned_entries(
                root,
                walk,
                patterns,
            )[j1]).0 < (#[trigger] planned_entries(root, walk, patterns)[j2]).0,
    decreases walk.len(),
{
    if walk.len() > 0 {
        let prev = walk.drop_last();
        lemma_planned_entries_shape(root, prev, patterns);
        let before = planned_entries(root, prev, patterns);
        assert forall|j: int| 0 <= j < before.len() implies before[j].0 < walk.len() - 1
            && prev[before[j].0] == walk[before[j].0] by {
            assert(0 <= before[j].0 < prev.len());
        }
    }
}

/// Every packaged entry of the walk is planned.
proof fn lemma_packaged_is_planned(
    root: Seq<Seq<char>>,
    walk: Seq<(Seq<Seq<char>>, bool)>,
    patterns: Seq<Seq<char>>,
    k: int,
)
    requires
        0 <= k < walk.len(),
        is_packaged(root, walk[k], patterns),
    ensures
        exists|j: int|
            0 <= j < planned_entries(root, walk, patterns).len() && (#[trigger] planned_entries(
                root,
                walk,
                patterns,
            )[j]).0 == k,
    decreases walk.len(),
{
    let plan = planned_entries(root, walk, patterns);
    if k == walk.len() - 1 {
        assert(plan[plan.len() - 1].0 == k);
    } else {
        let prev = walk.drop_last();
        assert(prev[k] == walk[k]);
        lemma_packaged_is_planned(root, prev, patterns, k);
        let before = planned_entries(root, prev, patterns);
        let j = choose|j: int| 0 <= j < before.len() && (#[trigger] before[j]).0 == k;
        assert(plan[j] == before[j]);
    }
}

/// Each file of the walk that no pattern excludes has exactly one entry in
/// the archive, named by its path relative to the root.
pub proof fn archive_holds_each_packaged_file_once(
    root: Seq<Seq<char>>,
    walk: Seq<(Seq<Seq<char>>, bool)>,
    patterns: Seq<Seq<char>>,
    k: int,
)
    requires
        0 <= k < walk.len(),
        walk[k].1,
        !excluded_by(patterns, relative_name(root, walk[k].0)),
    ensures
        exists|j: int|
            0 <= j < planned_entries(root, walk, patterns).len() && #[trigger] planned_entries(
                root,
                walk,
                patterns,
            )[j] == (k, relative_name(root, walk[k].0)),
        forall|j1: int, j2: int|
            0 <= j1 < planned_entries(root, walk, patterns).len() && 0 <= j2
                < planned_entries(root, walk, patterns).len() && (#[trigger] planned_entries(
                root,
                walk,
                patterns,
            )[j1]).0 == k && (#[trigger] planned_entries(root, walk, patterns)[j2]).0 == k
                ==> j1 == j2,
{
    let plan = planned_entries(root, walk, patterns);
    lemma_planned_entries_shape(root, walk, patterns);
    lemma_packaged_is_planned(root, walk, patterns, k);
    let j = choose|j: int| 0 <= j < plan.len() && (#[trigger] plan[j]).0 == k;
    assert(plan[j] == (k, relative_name(root, walk[k].0)));
    assert forall|j1: int, j2: int|
        0 <= j1 < plan.len() && 0 <= j2 < plan.len() && (#[trigger] plan[j1]).0 == k && (
        #[trigger] plan[j2]).0 == k implies j1 == j2 by {
        if j1 < j2 {
            assert(plan[j1].0 < plan[j2].0);
        } else if j2 < j1 {
            assert(plan[j2].0 < plan[j1].0);
        }
    }
}

/// No entry of the archive comes from a walked entry whose relative path a
/// pattern matches, and no entry's name is matched by a pattern.
pub proof fn archive_holds_no_excluded_file(
    root: Seq<Seq<char>>,
    walk: Seq<(Seq<Seq<char>>, bool)>,
    patterns: Seq<Seq<char>>,
    k: int,
)
    requires
        0 <= k < walk.len(),
        excluded_by(patterns, relative_name(root, walk[k].0)),
    ensures
        forall|j: int|
            0 <= j < planned_entries(root, walk, patterns).len() ==> (#[trigger] planned_entries(
                root,
                walk,
                patterns,
            )[j]).0 != k && !excluded_by(patterns, planned_entries(root, walk, patterns)[j].1),
{
    lemma_planned_entries_shape(root, walk, patterns);
}

/// Planning the archive of an unchanged walk, in the same order and with the
/// same patterns, gives the same entries.
pub proof fn archive_plan_is_reproducible(
    root: Seq<Seq<char>>,
    walk1: Seq<(Seq<Seq<char>>, bool)>,
    walk2: Seq<(Seq<Seq<char>>, bool)>,
    patterns: Seq<Seq<char>>,
)
    requires
        walk1 == walk2,
    ensures
        planned_entries(root, walk1, patterns) == planned_entries(root, walk2, patterns),
{
}

} // verus!
