use boon::fuse::{
    fuse_executable, get_build_name, macos_build_steps, macos_layout, windows_build_steps,
    windows_layout, FsStep,
};
use boon::types::{Bitness, BuildError, LoveVersion, Platform, Project};

fn project() -> Project {
    Project {
        title: "Space Cats".to_string(),
        package_name: "space_cats".to_string(),
        directory: "game".to_string(),
        uti: "com.example.spacecats".to_string(),
        authors: String::new(),
        description: String::new(),
        email: String::new(),
        url: String::new(),
        version: "0.1.0".to_string(),
    }
}

fn parts(items: &[&str]) -> Vec<String> {
    items.iter().map(|s| s.to_string()).collect()
}

#[test]
fn executable_is_launcher_then_archive() {
    let launcher = vec![0x4d, 0x5a, 0x90, 0x00, 0x03];
    let archive = vec![0x50, 0x4b, 0x03, 0x04, 0xff, 0x00];
    let fused = fuse_executable(&launcher, &archive);
    assert_eq!(fused, vec![0x4d, 0x5a, 0x90, 0x00, 0x03, 0x50, 0x4b, 0x03, 0x04, 0xff, 0x00]);
    assert_eq!(&fused[..launcher.len()], &launcher[..]);
    assert_eq!(&fused[launcher.len()..], &archive[..]);
    assert_eq!(fuse_executable(&[], &[7]), vec![7]);
    assert_eq!(fuse_executable(&[7], &[]), vec![7]);
    assert!(fuse_executable(&[], &[]).is_empty());
}

#[test]
fn build_names() {
    assert_eq!(get_build_name(Platform::Windows, Bitness::X64), "Windows x64");
    assert_eq!(get_build_name(Platform::MacOs, Bitness::X64), "macOS x64");
}

#[test]
fn windows_paths_and_steps() {
    let release = parts(&["/", "p", "release"]);
    let data = parts(&["/", "cache"]);
    let layout = windows_layout(&project(), &release, &data, LoveVersion::V11_4, Bitness::X86);
    assert_eq!(layout.runtime_dir, parts(&["/", "cache", "11.4", "love-11.4-win32"]));
    assert_eq!(layout.launcher, parts(&["/", "cache", "11.4", "love-11.4-win32", "love.exe"]));
    assert_eq!(layout.love_file, parts(&["/", "p", "release", "Space Cats.love"]));
    assert_eq!(layout.staging_dir, parts(&["/", "p", "release", "Space Cats-win32"]));
    assert_eq!(layout.executable, parts(&["/", "p", "release", "Space Cats-win32", "space_cats.exe"]));
    assert_eq!(layout.zip_file, parts(&["/", "p", "release", "Space Cats-win32.zip"]));
    let steps = windows_build_steps(&layout, true, LoveVersion::V11_4, Bitness::X86).unwrap();
    assert_eq!(steps.len(), 6);
    assert!(matches!(&steps[0], FsStep::RemoveDirIfExists { path } if *path == layout.staging_dir));
    assert!(matches!(&steps[1], FsStep::CreateDir { path } if *path == layout.staging_dir));
    assert!(matches!(&steps[2], FsStep::FuseExecutable { launcher, archive, output }
        if *launcher == layout.launcher && *archive == layout.love_file && *output == layout.executable));
    assert!(matches!(&steps[3], FsStep::CopyCompanions { from, to }
        if *from == layout.runtime_dir && *to == layout.staging_dir));
    assert!(matches!(&steps[4], FsStep::ArchiveDirectory { dir, archive }
        if *dir == layout.staging_dir && *archive == layout.zip_file));
    assert!(matches!(&steps[5], FsStep::RemoveDir { path } if *path == layout.staging_dir));
}

#[test]
fn missing_windows_runtime_stops_before_any_step() {
    let layout = windows_layout(&project(), &parts(&["r"]), &parts(&["c"]), LoveVersion::V11_5, Bitness::X64);
    match windows_build_steps(&layout, false, LoveVersion::V11_5, Bitness::X64) {
        Err(BuildError::RuntimeNotFound { version, platform, bitness }) => {
            assert_eq!(version, LoveVersion::V11_5);
            assert_eq!(platform, Platform::Windows);
            assert_eq!(bitness, Bitness::X64);
        }
        other => panic!("unexpected {:?}", other),
    }
}

#[test]
fn macos_paths_and_steps() {
    let release = parts(&["/", "p", "release"]);
    let data = parts(&["/", "cache"]);
    let layout = macos_layout(&project(), &release, &data, LoveVersion::V11_5, Bitness::X64);
    assert_eq!(layout.runtime_bundle, parts(&["/", "cache", "11.5", "love.app"]));
    assert_eq!(layout.copied_bundle, parts(&["/", "p", "release", "love.app"]));
    assert_eq!(layout.final_bundle, parts(&["/", "p", "release", "Space Cats.app"]));
    assert_eq!(
        layout.resources_love,
        parts(&["/", "p", "release", "Space Cats.app", "Contents", "Resources", "Space Cats.love"])
    );
    assert_eq!(layout.descriptor, parts(&["/", "p", "release", "Space Cats.app", "Contents", "Info.plist"]));
    let steps = macos_build_steps(&layout, true, LoveVersion::V11_5, Bitness::X64).unwrap();
    assert_eq!(steps.len(), 5);
    assert!(matches!(&steps[0], FsStep::CopyDirInto { from, into }
        if *from == layout.runtime_bundle && *into == release));
    assert!(matches!(&steps[1], FsStep::RemoveDirIfExists { path } if *path == layout.final_bundle));
    assert!(matches!(&steps[2], FsStep::Rename { from, to }
        if *from == layout.copied_bundle && *to == layout.final_bundle));
    assert!(matches!(&steps[3], FsStep::CopyFile { from, to }
        if *from == layout.love_file && *to == layout.resources_love));
    assert!(matches!(&steps[4], FsStep::RewriteDescriptor { path } if *path == layout.descriptor));
}

#[test]
fn missing_macos_runtime_stops_before_any_step() {
    let layout = macos_layout(&project(), &parts(&["r"]), &parts(&["c"]), LoveVersion::V11_5, Bitness::X64);
    let r = macos_build_steps(&layout, false, LoveVersion::V11_5, Bitness::X64);
    assert!(matches!(
        r,
        Err(BuildError::RuntimeNotFound { version: LoveVersion::V11_5, platform: Platform::MacOs, bitness: Bitness::X64 })
    ));
}
