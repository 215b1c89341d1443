//! The decisions of a build invocation: which builds run and in which
//! order, which settings hold, and where the release directory is.
use crate::naming::version_named;
use crate::text::{same_text, texts};
use crate::types::{Bitness, BuildError, BuildSettings, LoveVersion, Target};
use vstd::prelude::*;

verus! {

/// One build that an invocation runs.
#[derive(Debug, Clone, Copy, PartialEq, Eq, Structural)]
pub enum BuildJob {
    /// The project's archive; every other build reads it.
    Love,
    Windows(Bitness),
    MacOs(Bitness),
}

/// The targets that decide an invocation: the one on the command line,
/// unless that is the default `Love`, in which case the configured ones.
pub open spec fn selected_targets(target: Target, configured: Seq<Target>) -> Seq<Target> {
    if target == Target::Love {
        configured
    } else {
        seq![target]
    }
}

pub open spec fn wants(targets: Seq<Target>, t: Target) -> bool {
    targets.contains(t) || targets.contains(Target::All)
}

/// The builds of an invocation, in order: the archive exactly once and
/// first, then both Windows builds (32 bit, then 64 bit), then the macOS one.
pub open spec fn build_jobs(target: Target, configured: Seq<Target>) -> Seq<BuildJob> {
    let ts = selected_targets(target, configured);
    seq![BuildJob::Love] + (if wants(ts, Target::Windows) {
        seq![BuildJob::Windows(Bitness::X86), BuildJob::Windows(Bitness::X64)]
    } else {
        Seq::empty()
    }) + (if wants(ts, Target::Macos) {
        seq![BuildJob::MacOs(Bitness::X64)]
    } else {
        Seq::empty()
    })
}

fn contains_target(ts: &Vec<Target>, t: Target) -> (r: bool)
    ensures
        r == ts@.contains(t),
{
    for i in 0..ts.len()
        invariant
            forall|j: int| 0 <= j < i ==> ts@[j] != t,
    {
        if ts[i] == t {
            assert(ts@[i as int] == t);
            return true;
        }
    }
    false
}

/// The builds that a `boon build` with `target` runs, given the configured
/// targets.
pub fn plan_builds(target: Target, configured: &Vec<Target>) -> (r: Vec<BuildJob>)
    ensures
        r@ == build_jobs(target, configured@),
{
    let chosen: Vec<Target> = if target == Target::Love {
        configured.clone()
    } else {
        vec![target]
    };
    assert(chosen@ =~= selected_targets(target, configured@));
    let all = contains_target(&chosen, Target::All);
    let mut jobs: Vec<BuildJob> = vec![BuildJob::Love];
    if all || contains_target(&chosen, Target::Windows) {
        jobs.push(BuildJob::Windows(Bitness::X86));
        jobs.push(BuildJob::Windows(Bitness::X64));
    }
    if all || contains_target(&chosen, Target::Macos) {
        jobs.push(BuildJob::MacOs(Bitness::X64));
    }
    assert(jobs@ =~= build_jobs(target, configured@));
    jobs
}

pub open spec fn target_named(s: Seq<char>) -> Option<Target> {
    if s == "love"@ {
        Some(Target::Love)
    } else if s == "windows"@ {
        Some(Target::Windows)
    } else if s == "macos"@ {
        Some(Target::Macos)
    } else if s == "all"@ {
        Some(Target::All)
    } else {
        None
    }
}

impl Target {
    /// The target named `s` in configuration: "love", "windows", "macos" or "all".
    pub fn from_name(s: &str) -> (r: Option<Target>)
        ensures
            r == target_named(s@),
    {
        if same_text(s, "love") {
            Some(Target::Love)
        } else if same_text(s, "windows") {
            Some(Target::Windows)
        } else if same_text(s, "macos") {
            Some(Target::Macos)
        } else if same_text(s, "all") {
            Some(Target::All)
        } else {
            None
        }
    }
}

/// The configured targets, named in configuration; the first unknown name is
/// an `InvalidTarget` error that carries it.
pub fn parse_targets(names: &Vec<String>) -> (r: Result<Vec<Target>, BuildError>)
    ensures
        match r {
            Ok(ts) => ts@.len() == names@.len() && forall|i: int|
                0 <= i < names@.len() ==> target_named(#[trigger] names@[i]@) == Some(ts@[i]),
            Err(e) => exists|i: int|
                {
                    &&& 0 <= i < names@.len()
                    &&& target_named(#[trigger] names@[i]@) is None
                    &&& forall|j: int| 0 <= j < i ==> target_named(#[trigger] names@[j]@) is Some
                    &&& e matches BuildError::InvalidTarget { name } && name@ == names@[i]@
                },
        },
{
    let mut ts: Vec<Target> = Vec::new();
    for i in 0..names.len()
        invariant
            ts@.len() == i,
            forall|j: int| 0 <= j < i ==> target_named(#[trigger] names@[j]@) == Some(ts@[j]),
    {
        match Target::from_name(names[i].as_str()) {
            Some(t) => ts.push(t),
            None => {
                let e = BuildError::InvalidTarget { name: names[i].clone() };
                assert(target_named(names@[i as int]@) is None);
                return Err(e);
            },
        }
    }
    Ok(ts)
}

fn contains_text(list: &Vec<String>, s: &String) -> (r: bool)
    ensures
        r == texts(list@).contains(s@),
{
    for i in 0..list.len()
        invariant
            forall|j: int| 0 <= j < i ==> list@[j]@ != s@,
    {
        if same_text(list[i].as_str(), s.as_str()) {
            assert(texts(list@)[i as int] == s@);
            return true;
        }
    }
    false
}

/// Whether `a` holds exactly the elements of `b` and of `c`.
pub open spec fn holds_union<A>(a: Seq<A>, b: Seq<A>, c: Seq<A>) -> bool {
    forall|x: A| #[trigger] a.contains(x) <==> (b.contains(x) || c.contains(x))
}

/// Appends to `out` each string of `add` that it does not hold yet.
fn add_missing(out: &mut Vec<String>, add: &Vec<String>)
    requires
        texts(old(out)@).no_duplicates(),
    ensures
        texts(final(out)@).no_duplicates(),
        holds_union(texts(final(out)@), texts(old(out)@), texts(add@)),
{
    let ghost start = texts(out@);
    assert(holds_union(texts(out@), start, texts(add@).take(0)));
    for i in 0..add.len()
        invariant
            texts(out@).no_duplicates(),
            holds_union(texts(out@), start, texts(add@).take(i as int)),
    {
        let ghost before = texts(out@);
        let ghost item = add@[i as int]@;
        let ghost pre = texts(add@).take(i as int);
        let ghost post = texts(add@).take(i + 1);
        proof {
            assert(post =~= pre.push(item));
        }
        let present = contains_text(out, &add[i]);
        if !present {
            out.push(add[i].clone());
            assert(texts(out@) =~= before.push(item));
        }
        assert(holds_union(texts(out@), start, post)) by {
            assert forall|x: Seq<char>| #[trigger] texts(out@).contains(x) <==> (start.contains(x)
                || post.contains(x)) by {
                vstd::seq_lib::lemma_seq_contains_after_push(before, item, x);
                vstd::seq_lib::lemma_seq_contains_after_push(pre, item, x);
                assert(before.contains(x) <==> (start.contains(x) || pre.contains(x)));
            }
        }
    }
    assert(texts(add@).take(add@.len() as int) =~= texts(add@));
}

/// The ignore list of a build: the project's patterns alone when they replace
/// the defaults, else the defaults and the project's together; each pattern
/// once.
pub fn merge_ignore_lists(defaults: &Vec<String>, project: &Vec<String>, exclude_default: bool) -> (r:
    Vec<String>)
    ensures
        texts(r@).no_duplicates(),
        !exclude_default ==> holds_union(texts(r@), texts(defaults@), texts(project@)),
        exclude_default ==> holds_union(texts(r@), Seq::empty(), texts(project@)),
{
    let mut r: Vec<String> = Vec::new();
    assert(texts(r@) =~= Seq::<Seq<char>>::empty());
    if !exclude_default {
        add_missing(&mut r, defaults);
    }
    add_missing(&mut r, project);
    r
}

/// The release directory: the output directory of the settings, under the
/// project's directory (given as the components of its canonical path).
pub fn get_release_path(project_dir: &Vec<String>, build_settings: &BuildSettings) -> (r: Vec<String>)
    ensures
        texts(r@) == texts(project_dir@).push(build_settings.output_directory@),
{
    let mut r = project_dir.clone();
    r.push(build_settings.output_directory.clone());
    assert(texts(r@) =~= texts(project_dir@).push(build_settings.output_directory@));
    r
}

/// The project's entry point: `main.lua` in its directory.
pub fn entry_point_path(project_dir: &Vec<String>) -> (r: Vec<String>)
    ensures
        texts(r@) == texts(project_dir@).push("main.lua"@),
{
    let mut r = project_dir.clone();
    r.push("main.lua".to_owned());
    assert(texts(r@) =~= texts(project_dir@).push("main.lua"@));
    r
}

/// Checks the project's layout, once it is known whether its entry point
/// `main.lua` exists: without it the layout is invalid.
pub fn scan_files(has_entry_point: bool) -> (r: Result<(), BuildError>)
    ensures
        has_entry_point <==> r is Ok,
        r matches Err(e) ==> e == BuildError::InvalidProjectLayout,
{
    if has_entry_point {
        Ok(())
    } else {
        Err(BuildError::InvalidProjectLayout)
    }
}

/// The versions named in `names`, in order; other names are skipped.
pub open spec fn versions_in(names: Seq<Seq<char>>) -> Seq<LoveVersion>
    decreases names.len(),
{
    if names.len() == 0 {
        Seq::empty()
    } else {
        let before = versions_in(names.drop_last());
        match version_named(names.last()) {
            Some(v) => before.push(v),
            None => before,
        }
    }
}

/// The versions among the names of the cache's folders, in order; names that
/// are no version are skipped.
pub fn installed_versions(dir_names: &Vec<String>) -> (r: Vec<LoveVersion>)
    ensures
        r@ == versions_in(texts(dir_names@)),
{
    let mut r: Vec<LoveVersion> = Vec::new();
    for i in 0..dir_names.len()
        invariant
            r@ == versions_in(texts(dir_names@).take(i as int)),
    {
        proof {
            assert(texts(dir_names@).take(i + 1).drop_last() =~= texts(dir_names@).take(i as int));
        }
        if let Some(v) = LoveVersion::parse(dir_names[i].as_str()) {
            r.push(v);
        }
    }
    assert(texts(dir_names@).take(dir_names@.len() as int) =~= texts(dir_names@));
    r
}

} // verus!
