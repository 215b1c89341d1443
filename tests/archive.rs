use boon::archive::{entry_name, plan_archive, ArchiveEntry, WalkEntry};
use boon::exclude::{should_exclude_file, ExclusionFilter, ExclusionPattern};
use boon::types::BuildError;

fn parts(items: &[&str]) -> Vec<String> {
    items.iter().map(|s| s.to_string()).collect()
}

fn entry(items: &[&str], is_file: bool) -> WalkEntry {
    WalkEntry { path: parts(items), is_file }
}

fn names(entries: &[ArchiveEntry]) -> Vec<(usize, String)> {
    entries.iter().map(|e| (e.source, e.name.clone())).collect()
}

fn sample_walk() -> Vec<WalkEntry> {
    vec![
        entry(&["/", "game"], false),
        entry(&["/", "game", "main.lua"], true),
        entry(&["/", "game", "assets"], false),
        entry(&["/", "game", "assets", "sprite.png"], true),
        entry(&["/", "game", ".git"], false),
        entry(&["/", "game", ".git", "config"], true),
    ]
}

#[test]
fn git_directory_is_left_out() {
    let root = parts(&["/", "game"]);
    let filter = ExclusionFilter::new(&parts(&[r"^\.git/"])).unwrap();
    let plan = plan_archive(&root, true, &sample_walk(), &filter).unwrap();
    assert_eq!(
        names(&plan),
        vec![(1, "main.lua".to_string()), (3, "assets/sprite.png".to_string())]
    );
}

#[test]
fn empty_source_directory_gives_empty_archive() {
    let root = parts(&["/", "game"]);
    let filter = ExclusionFilter::new(&parts(&[r"^\.git/"])).unwrap();
    let plan = plan_archive(&root, true, &vec![entry(&["/", "game"], false)], &filter).unwrap();
    assert!(plan.is_empty());
    let plan = plan_archive(&root, true, &Vec::new(), &ExclusionFilter::empty()).unwrap();
    assert!(plan.is_empty());
}

#[test]
fn every_file_once_without_patterns() {
    let root = parts(&["/", "game"]);
    let plan = plan_archive(&root, true, &sample_walk(), &ExclusionFilter::empty()).unwrap();
    assert_eq!(
        names(&plan),
        vec![
            (1, "main.lua".to_string()),
            (3, "assets/sprite.png".to_string()),
            (5, ".git/config".to_string()),
        ]
    );
}

#[test]
fn planning_twice_gives_same_entries() {
    let root = parts(&["/", "game"]);
    let filter = ExclusionFilter::new(&parts(&[r"\.png$"])).unwrap();
    let first = plan_archive(&root, true, &sample_walk(), &filter).unwrap();
    let second = plan_archive(&root, true, &sample_walk(), &filter).unwrap();
    assert_eq!(names(&first), names(&second));
    assert_eq!(names(&first), vec![(1, "main.lua".to_string()), (5, ".git/config".to_string())]);
}

#[test]
fn missing_source_directory() {
    let root = parts(&["/", "nowhere"]);
    let r = plan_archive(&root, false, &Vec::new(), &ExclusionFilter::empty());
    assert!(matches!(r, Err(BuildError::SourceNotFound)));
}

#[test]
fn walked_path_outside_root() {
    let root = parts(&["/", "game"]);
    let walk = vec![entry(&["/", "game", "main.lua"], true), entry(&["/", "other", "x.lua"], true)];
    let r = plan_archive(&root, true, &walk, &ExclusionFilter::empty());
    assert!(matches!(r, Err(BuildError::PathOutsideRoot)));
}

#[test]
fn entry_names_use_forward_slashes() {
    let root = parts(&["C:\\", "games", "demo"]);
    let path = parts(&["C:\\", "games", "demo", "lib", "util", "vec.lua"]);
    assert_eq!(entry_name(&root, &path), Some("lib/util/vec.lua".to_string()));
    assert_eq!(entry_name(&root, &root), Some(String::new()));
    assert_eq!(entry_name(&root, &parts(&["C:\\", "games"])), None);
    assert_eq!(entry_name(&root, &parts(&["C:\\", "games", "demo2", "a"])), None);
}

#[test]
fn invalid_pattern_is_an_error() {
    match ExclusionFilter::new(&parts(&["^ok$", "foo(bar", "[z"])) {
        Err(BuildError::PatternError { pattern }) => assert_eq!(pattern, "foo(bar"),
        Err(other) => panic!("unexpected {:?}", other),
        Ok(_) => panic!("an invalid pattern was accepted"),
    }
    assert!(matches!(ExclusionPattern::new("(("), Err(BuildError::PatternError { .. })));
}

#[test]
fn patterns_match_anywhere_in_the_path() {
    let filter = ExclusionFilter::new(&parts(&[r"\.psd$", "^build/"])).unwrap();
    assert!(should_exclude_file("art/hero.psd", &filter));
    assert!(should_exclude_file("build/out.love", &filter));
    assert!(!should_exclude_file("src/build/x.lua", &filter));
    assert!(!should_exclude_file("main.lua", &filter));
    assert!(!should_exclude_file("art/hero.psd", &ExclusionFilter::empty()));
    let p = ExclusionPattern::new("ero").unwrap();
    assert!(p.is_match("hero"));
    assert!(!p.is_match("her"));
}
