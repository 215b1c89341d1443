use boon::naming::{
    all_love_versions, get_love_download_location, get_love_file_name, get_love_version_file_name,
    get_love_version_path, get_output_filename, get_zip_output_filename,
};
use boon::types::{Bitness, BuildError, LoveVersion, Platform, Project};

fn project() -> Project {
    Project {
        title: "My Game".to_string(),
        package_name: "my_game".to_string(),
        directory: "game".to_string(),
        uti: "com.example.mygame".to_string(),
        authors: "Someone".to_string(),
        description: "A game".to_string(),
        email: "someone@example.com".to_string(),
        url: "https://example.com".to_string(),
        version: "1.0.0".to_string(),
    }
}

fn parts(items: &[&str]) -> Vec<String> {
    items.iter().map(|s| s.to_string()).collect()
}

#[test]
fn runtime_folder_names() {
    assert_eq!(get_love_version_file_name(LoveVersion::V11_5, Platform::Windows, Bitness::X64), "love-11.5-win64");
    assert_eq!(get_love_version_file_name(LoveVersion::V11_5, Platform::Windows, Bitness::X86), "love-11.5-win32");
    assert_eq!(get_love_version_file_name(LoveVersion::V11_2, Platform::Windows, Bitness::X64), "love-11.2.0-win64");
    assert_eq!(get_love_version_file_name(LoveVersion::V11_0, Platform::Windows, Bitness::X86), "love-11.0.0-win32");
    assert_eq!(get_love_version_file_name(LoveVersion::V0_10_2, Platform::Windows, Bitness::X64), "love-0.10.2-win64");
    assert_eq!(get_love_version_file_name(LoveVersion::V11_4, Platform::MacOs, Bitness::X64), "love.app");
}

#[test]
fn output_names() {
    let p = project();
    assert_eq!(get_love_file_name(&p), "My Game.love");
    assert_eq!(get_output_filename(&p, Platform::Windows, Bitness::X86), "my_game.exe");
    assert_eq!(get_output_filename(&p, Platform::MacOs, Bitness::X64), "My Game.app");
    assert_eq!(get_zip_output_filename(&p, Platform::Windows, Bitness::X64), "My Game-win64");
    assert_eq!(get_zip_output_filename(&p, Platform::Windows, Bitness::X86), "My Game-win32");
    assert_eq!(get_zip_output_filename(&p, Platform::MacOs, Bitness::X64), "My Game-macos");
}

#[test]
fn runtime_path_in_cache() {
    let data = parts(&["/", "home", "me", ".local", "share", "boon"]);
    let path = get_love_version_path(&data, LoveVersion::V11_3, Platform::Windows, Bitness::X64);
    assert_eq!(path, parts(&["/", "home", "me", ".local", "share", "boon", "11.3", "love-11.3-win64"]));
}

#[test]
fn version_names_round_trip() {
    let names = ["11.5", "11.4", "11.3", "11.2", "11.1", "11.0", "0.10.2"];
    let all = all_love_versions();
    assert_eq!(all.len(), names.len());
    for (v, n) in all.iter().zip(names.iter()) {
        assert_eq!(v.as_str(), *n);
        assert_eq!(LoveVersion::parse(n), Some(*v));
    }
    assert_eq!(LoveVersion::parse("11.6"), None);
    assert_eq!(LoveVersion::parse(""), None);
    assert_eq!(Platform::MacOs.as_str(), "macOS");
    assert_eq!(Bitness::X86.as_str(), "x86");
}

#[test]
fn download_locations() {
    let loc = get_love_download_location(LoveVersion::V11_5, Platform::Windows, Bitness::X64).unwrap();
    assert_eq!(loc.filename, "love-11.5-win64.zip");
    assert_eq!(loc.url, "https://github.com/love2d/love/releases/download/11.5/love-11.5-win64.zip");
    let loc = get_love_download_location(LoveVersion::V11_0, Platform::MacOs, Bitness::X64).unwrap();
    assert_eq!(loc.filename, "love-11.0.0-macos.zip");
    assert_eq!(loc.url, "https://github.com/love2d/love/releases/download/11.0/love-11.0.0-macos.zip");
    let loc = get_love_download_location(LoveVersion::V0_10_2, Platform::MacOs, Bitness::X64).unwrap();
    assert_eq!(loc.filename, "love-0.10.2-macosx-x64.zip");
}

#[test]
fn unsupported_combination_is_named() {
    let r = get_love_download_location(LoveVersion::V11_4, Platform::MacOs, Bitness::X86);
    match r {
        Err(BuildError::UnsupportedCombination { version, platform, bitness }) => {
            assert_eq!(version, LoveVersion::V11_4);
            assert_eq!(platform, Platform::MacOs);
            assert_eq!(bitness, Bitness::X86);
        }
        other => panic!("unexpected {:?}", other),
    }
}
