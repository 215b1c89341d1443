use boon::plan::{
    entry_point_path, get_release_path, installed_versions, merge_ignore_lists, parse_targets,
    plan_builds, scan_files, BuildJob,
};
use boon::types::{Bitness, BuildError, BuildSettings, LoveVersion, Target};

fn strings(items: &[&str]) -> Vec<String> {
    items.iter().map(|s| s.to_string()).collect()
}

#[test]
fn default_target_uses_configured_ones() {
    assert_eq!(plan_builds(Target::Love, &vec![Target::Love]), vec![BuildJob::Love]);
    assert_eq!(
        plan_builds(Target::Love, &vec![Target::Windows]),
        vec![BuildJob::Love, BuildJob::Windows(Bitness::X86), BuildJob::Windows(Bitness::X64)]
    );
    assert_eq!(
        plan_builds(Target::Love, &vec![Target::All]),
        vec![
            BuildJob::Love,
            BuildJob::Windows(Bitness::X86),
            BuildJob::Windows(Bitness::X64),
            BuildJob::MacOs(Bitness::X64)
        ]
    );
}

#[test]
fn command_line_target_overrides_configured_ones() {
    assert_eq!(
        plan_builds(Target::Macos, &vec![Target::Windows]),
        vec![BuildJob::Love, BuildJob::MacOs(Bitness::X64)]
    );
    assert_eq!(plan_builds(Target::All, &Vec::new()).len(), 4);
}

#[test]
fn target_names() {
    assert_eq!(
        parse_targets(&strings(&["love", "macos", "all", "windows"])).unwrap(),
        vec![Target::Love, Target::Macos, Target::All, Target::Windows]
    );
    match parse_targets(&strings(&["love", "linux", "ios"])) {
        Err(BuildError::InvalidTarget { name }) => assert_eq!(name, "linux"),
        other => panic!("unexpected {:?}", other),
    }
    assert_eq!(Target::from_name("Windows"), None);
}

#[test]
fn ignore_lists_merge_or_replace() {
    let defaults = strings(&["^\\.git/", "^release/"]);
    let project = strings(&["\\.psd$", "^release/", "\\.psd$"]);
    assert_eq!(merge_ignore_lists(&defaults, &project, false), strings(&["^\\.git/", "^release/", "\\.psd$"]));
    assert_eq!(merge_ignore_lists(&defaults, &project, true), strings(&["\\.psd$", "^release/"]));
    assert!(merge_ignore_lists(&Vec::new(), &Vec::new(), false).is_empty());
}

#[test]
fn release_and_entry_point_paths() {
    let settings = BuildSettings {
        output_directory: "release".to_string(),
        ignore_list: Vec::new(),
        exclude_default_ignore_list: false,
        targets: vec![Target::Love],
    };
    let dir = strings(&["/", "home", "me", "game"]);
    assert_eq!(get_release_path(&dir, &settings), strings(&["/", "home", "me", "game", "release"]));
    assert_eq!(entry_point_path(&dir), strings(&["/", "home", "me", "game", "main.lua"]));
}

#[test]
fn project_layout_needs_main_lua() {
    assert!(scan_files(true).is_ok());
    assert!(matches!(scan_files(false), Err(BuildError::InvalidProjectLayout)));
}

#[test]
fn installed_versions_skip_other_folders() {
    let found = installed_versions(&strings(&["11.4", "junk", "0.10.2", "11.9", ""]));
    assert_eq!(found, vec![LoveVersion::V11_4, LoveVersion::V0_10_2]);
}
