//! Names of versions, platforms, runtime folders and build outputs.
use crate::text::{concat, same_text, texts};
use crate::types::{Bitness, BuildError, LoveDownloadLocation, LoveVersion, Platform, Project};
use vstd::prelude::*;

verus! {

/// The release number of a version, as the engine's releases name it.
pub open spec fn version_name(v: LoveVersion) -> Seq<char> {
    match v {
        LoveVersion::V11_5 => "11.5"@,
        LoveVersion::V11_4 => "11.4"@,
        LoveVersion::V11_3 => "11.3"@,
        LoveVersion::V11_2 => "11.2"@,
        LoveVersion::V11_1 => "11.1"@,
        LoveVersion::V11_0 => "11.0"@,
        LoveVersion::V0_10_2 => "0.10.2"@,
    }
}

pub open spec fn platform_name(p: Platform) -> Seq<char> {
    match p {
        Platform::Windows => "Windows"@,
        Platform::MacOs => "macOS"@,
    }
}

pub open spec fn bitness_name(b: Bitness) -> Seq<char> {
    match b {
        Bitness::X86 => "x86"@,
        Bitness::X64 => "x64"@,
    }
}

impl LoveVersion {
    /// The release number, e.g. "11.5".
    pub fn as_str(&self) -> (r: &'static str)
        ensures
            r@ == version_name(*self),
    {
        match self {
            LoveVersion::V11_5 => "11.5",
            LoveVersion::V11_4 => "11.4",
            LoveVersion::V11_3 => "11.3",
            LoveVersion::V11_2 => "11.2",
            LoveVersion::V11_1 => "11.1",
            LoveVersion::V11_0 => "11.0",
            LoveVersion::V0_10_2 => "0.10.2",
        }
    }

    /// The version whose release number is `s`, if any.
    pub fn parse(s: &str) -> (r: Option<LoveVersion>)
        ensures
            r == version_named(s@),
    {
        let all = all_love_versions();
        let mut i: usize = 0;
        while i < all.len()
            invariant
                i <= all.len(),
                all@ == all_versions_seq(),
                forall|j: int| 0 <= j < i ==> version_name(#[trigger] all@[j]) != s@,
            decreases all.len() - i,
        {
            if same_text(all[i].as_str(), s) {
                return Some(all[i]);
            }
            i = i + 1;
        }
        None
    }
}

/// The version whose release number is `s`, if any.
pub open spec fn version_named(s: Seq<char>) -> Option<LoveVersion> {
    if s == "11.5"@ {
        Some(LoveVersion::V11_5)
    } else if s == "11.4"@ {
        Some(LoveVersion::V11_4)
    } else if s == "11.3"@ {
        Some(LoveVersion::V11_3)
    } else if s == "11.2"@ {
        Some(LoveVersion::V11_2)
    } else if s == "11.1"@ {
        Some(LoveVersion::V11_1)
    } else if s == "11.0"@ {
        Some(LoveVersion::V11_0)
    } else if s == "0.10.2"@ {
        Some(LoveVersion::V0_10_2)
    } else {
        None
    }
}

/// Every version, newest first.
pub open spec fn all_versions_seq() -> Seq<LoveVersion> {
    seq![
        LoveVersion::V11_5,
        LoveVersion::V11_4,
        LoveVersion::V11_3,
        LoveVersion::V11_2,
        LoveVersion::V11_1,
        LoveVersion::V11_0,
        LoveVersion::V0_10_2,
    ]
}

/// Every version, newest first.
pub fn all_love_versions() -> (r: Vec<LoveVersion>)
    ensures
        r@ == all_versions_seq(),
{
    vec![
        LoveVersion::V11_5,
        LoveVersion::V11_4,
        LoveVersion::V11_3,
        LoveVersion::V11_2,
        LoveVersion::V11_1,
        LoveVersion::V11_0,
        LoveVersion::V0_10_2,
    ]
}

impl Platform {
    /// "Windows" or "macOS".
    pub fn as_str(&self) -> (r: &'static str)
        ensures
            r@ == platform_name(*self),
    {
        match self {
            Platform::Windows => "Windows",
            Platform::MacOs => "macOS",
        }
    }
}

impl Bitness {
    /// "x86" or "x64".
    pub fn as_str(&self) -> (r: &'static str)
        ensures
            r@ == bitness_name(*self),
    {
        match self {
            Bitness::X86 => "x86",
            Bitness::X64 => "x64",
        }
    }
}


/// The folder that a runtime is unpacked to in the cache: the name of the
/// runtime's own archive for Windows, the application bundle for macOS.
pub open spec fn runtime_dir_name(v: LoveVersion, p: Platform, b: Bitness) -> Seq<char> {
    match p {
        Platform::MacOs => "love.app"@,
        Platform::Windows => match (v, b) {
            (LoveVersion::V11_5, Bitness::X64) => "love-11.5-win64"@,
            (LoveVersion::V11_5, Bitness::X86) => "love-11.5-win32"@,
            (LoveVersion::V11_4, Bitness::X64) => "love-11.4-win64"@,
            (LoveVersion::V11_4, Bitness::X86) => "love-11.4-win32"@,
            (LoveVersion::V11_3, Bitness::X64) => "love-11.3-win64"@,
            (LoveVersion::V11_3, Bitness::X86) => "love-11.3-win32"@,
            (LoveVersion::V11_2, Bitness::X64) => "love-11.2.0-win64"@,
            (LoveVersion::V11_2, Bitness::X86) => "love-11.2.0-win32"@,
            (LoveVersion::V11_1, Bitness::X64) => "love-11.1.0-win64"@,
            (LoveVersion::V11_1, Bitness::X86) => "love-11.1.0-win32"@,
            (LoveVersion::V11_0, Bitness::X64) => "love-11.0.0-win64"@,
            (LoveVersion::V11_0, Bitness::X86) => "love-11.0.0-win32"@,
            (LoveVersion::V0_10_2, Bitness::X64) => "love-0.10.2-win64"@,
            (LoveVersion::V0_10_2, Bitness::X86) => "love-0.10.2-win32"@,
        },
    }
}

/// Get the folder name of where a version of LÖVE is stored in the app cache.
pub fn get_love_version_file_name(version: LoveVersion, platform: Platform, bitness: Bitness) -> (r: String)
    ensures
        r@ == runtime_dir_name(version, platform, bitness),
{
    let name: &str = match platform {
        Platform::MacOs => "love.app",
        Platform::Windows => match (version, bitness) {
            (LoveVersion::V11_5, Bitness::X64) => "love-11.5-win64",
            (LoveVersion::V11_5, Bitness::X86) => "love-11.5-win32",
            (LoveVersion::V11_4, Bitness::X64) => "love-11.4-win64",
            (LoveVersion::V11_4, Bitness::X86) => "love-11.4-win32",
            (LoveVersion::V11_3, Bitness::X64) => "love-11.3-win64",
            (LoveVersion::V11_3, Bitness::X86) => "love-11.3-win32",
            (LoveVersion::V11_2, Bitness::X64) => "love-11.2.0-win64",
            (LoveVersion::V11_2, Bitness::X86) => "love-11.2.0-win32",
            (LoveVersion::V11_1, Bitness::X64) => "love-11.1.0-win64",
            (LoveVersion::V11_1, Bitness::X86) => "love-11.1.0-win32",
            (LoveVersion::V11_0, Bitness::X64) => "love-11.0.0-win64",
            (LoveVersion::V11_0, Bitness::X86) => "love-11.0.0-win32",
            (LoveVersion::V0_10_2, Bitness::X64) => "love-0.10.2-win64",
            (LoveVersion::V0_10_2, Bitness::X86) => "love-0.10.2-win32",
        },
    };
    name.to_owned()
}

/// The path of a runtime in the cache under `data_dir`: the version's folder,
/// then the runtime's own folder.
pub open spec fn love_version_path(data_dir: Seq<Seq<char>>, v: LoveVersion, p: Platform, b: Bitness) -> Seq<Seq<char>> {
    data_dir.push(version_name(v)).push(runtime_dir_name(v, p, b))
}

/// Get the path, as components under the cache directory `data_dir`, where a
/// runtime is stored.
pub fn get_love_version_path(data_dir: &Vec<String>, version: LoveVersion, platform: Platform, bitness: Bitness) -> (r: Vec<String>)
    ensures
        texts(r@) == love_version_path(texts(data_dir@), version, platform, bitness),
{
    let mut r = data_dir.clone();
    r.push(version.as_str().to_owned());
    r.push(get_love_version_file_name(version, platform, bitness));
    proof {
        assert(texts(r@) =~= love_version_path(texts(data_dir@), version, platform, bitness));
    }
    r
}

/// Get file name of the .love file (same for all platforms).
pub fn get_love_file_name(project: &Project) -> (r: String)
    ensures
        r@ == project.title@ + ".love"@,
{
    concat(project.title.as_str(), ".love")
}

pub open spec fn output_file_name(project: Project, p: Platform) -> Seq<char> {
    match p {
        Platform::Windows => project.package_name@ + ".exe"@,
        Platform::MacOs => project.title@ + ".app"@,
    }
}

/// Get file name for individual binary based on platform and bitness.
pub fn get_output_filename(project: &Project, platform: Platform, bitness: Bitness) -> (r: String)
    ensures
        r@ == output_file_name(*project, platform),
{
    match platform {
        Platform::Windows => concat(project.package_name.as_str(), ".exe"),
        Platform::MacOs => concat(project.title.as_str(), ".app"),
    }
}

pub open spec fn zip_output_file_name(project: Project, p: Platform, b: Bitness) -> Seq<char> {
    match (p, b) {
        (Platform::Windows, Bitness::X64) => project.title@ + "-win64"@,
        (Platform::Windows, Bitness::X86) => project.title@ + "-win32"@,
        (Platform::MacOs, _) => project.title@ + "-macos"@,
    }
}

/// Get file name of the distributed .zip file based on platform and bitness.
pub fn get_zip_output_filename(project: &Project, platform: Platform, bitness: Bitness) -> (r: String)
    ensures
        r@ == zip_output_file_name(*project, platform, bitness),
{
    let suffix: &str = match (platform, bitness) {
        (Platform::Windows, Bitness::X64) => "-win64",
        (Platform::Windows, Bitness::X86) => "-win32",
        (Platform::MacOs, _) => "-macos",
    };
    concat(project.title.as_str(), suffix)
}

/// The name of the published runtime archive for a combination, if there is one.
pub open spec fn release_file_name(v: LoveVersion, p: Platform, b: Bitness) -> Option<Seq<char>> {
    match (v, p, b) {
        (LoveVersion::V11_5, Platform::Windows, Bitness::X64) => Some("love-11.5-win64.zip"@),
        (LoveVersion::V11_5, Platform::Windows, Bitness::X86) => Some("love-11.5-win32.zip"@),
        (LoveVersion::V11_5, Platform::MacOs, Bitness::X64) => Some("love-11.5-macos.zip"@),
        (LoveVersion::V11_4, Platform::Windows, Bitness::X64) => Some("love-11.4-win64.zip"@),
        (LoveVersion::V11_4, Platform::Windows, Bitness::X86) => Some("love-11.4-win32.zip"@),
        (LoveVersion::V11_4, Platform::MacOs, Bitness::X64) => Some("love-11.4-macos.zip"@),
        (LoveVersion::V11_3, Platform::Windows, Bitness::X64) => Some("love-11.3-win64.zip"@),
        (LoveVersion::V11_3, Platform::Windows, Bitness::X86) => Some("love-11.3-win32.zip"@),
        (LoveVersion::V11_3, Platform::MacOs, Bitness::X64) => Some("love-11.3-macos.zip"@),
        (LoveVersion::V11_2, Platform::Windows, Bitness::X64) => Some("love-11.2-win64.zip"@),
        (LoveVersion::V11_2, Platform::Windows, Bitness::X86) => Some("love-11.2-win32.zip"@),
        (LoveVersion::V11_2, Platform::MacOs, Bitness::X64) => Some("love-11.2-macos.zip"@),
        (LoveVersion::V11_1, Platform::Windows, Bitness::X64) => Some("love-11.1-win64.zip"@),
        (LoveVersion::V11_1, Platform::Windows, Bitness::X86) => Some("love-11.1-win32.zip"@),
        (LoveVersion::V11_1, Platform::MacOs, Bitness::X64) => Some("love-11.1-macos.zip"@),
        (LoveVersion::V11_0, Platform::Windows, Bitness::X64) => Some("love-11.0.0-win64.zip"@),
        (LoveVersion::V11_0, Platform::Windows, Bitness::X86) => Some("love-11.0.0-win32.zip"@),
        (LoveVersion::V11_0, Platform::MacOs, Bitness::X64) => Some("love-11.0.0-macos.zip"@),
        (LoveVersion::V0_10_2, Platform::Windows, Bitness::X64) => Some("love-0.10.2-win64.zip"@),
        (LoveVersion::V0_10_2, Platform::Windows, Bitness::X86) => Some("love-0.10.2-win32.zip"@),
        (LoveVersion::V0_10_2, Platform::MacOs, Bitness::X64) => Some("love-0.10.2-macosx-x64.zip"@),
        (_, Platform::MacOs, Bitness::X86) => None,
    }
}

/// Where every runtime archive is published.
pub open spec fn release_location() -> Seq<char> {
    "https://github.com/love2d/love/releases/download"@
}

/// Where the runtime archive of a combination is published; an unsupported
/// combination is an error that names it.
pub fn get_love_download_location(version: LoveVersion, platform: Platform, bitness: Bitness) -> (r: Result<LoveDownloadLocation, BuildError>)
    ensures
        match r {
            Ok(loc) => {
                &&& release_file_name(version, platform, bitness) == Some(loc.filename@)
                &&& loc.url@ == release_location() + "/"@ + version_name(version) + "/"@ + loc.filename@
            },
            Err(e) => {
                &&& release_file_name(version, platform, bitness) is None
                &&& e == BuildError::UnsupportedCombination { version, platform, bitness }
            },
        },
{
    let file: Option<&str> = match (version, platform, bitness) {
        (LoveVersion::V11_5, Platform::Windows, Bitness::X64) => Some("love-11.5-win64.zip"),
        (LoveVersion::V11_5, Platform::Windows, Bitness::X86) => Some("love-11.5-win32.zip"),
        (LoveVersion::V11_5, Platform::MacOs, Bitness::X64) => Some("love-11.5-macos.zip"),
        (LoveVersion::V11_4, Platform::Windows, Bitness::X64) => Some("love-11.4-win64.zip"),
        (LoveVersion::V11_4, Platform::Windows, Bitness::X86) => Some("love-11.4-win32.zip"),
        (LoveVersion::V11_4, Platform::MacOs, Bitness::X64) => Some("love-11.4-macos.zip"),
        (LoveVersion::V11_3, Platform::Windows, Bitness::X64) => Some("love-11.3-win64.zip"),
        (LoveVersion::V11_3, Platform::Windows, Bitness::X86) => Some("love-11.3-win32.zip"),
        (LoveVersion::V11_3, Platform::MacOs, Bitness::X64) => Some("love-11.3-macos.zip"),
        (LoveVersion::V11_2, Platform::Windows, Bitness::X64) => Some("love-11.2-win64.zip"),
        (LoveVersion::V11_2, Platform::Windows, Bitness::X86) => Some("love-11.2-win32.zip"),
        (LoveVersion::V11_2, Platform::MacOs, Bitness::X64) => Some("love-11.2-macos.zip"),
        (LoveVersion::V11_1, Platform::Windows, Bitness::X64) => Some("love-11.1-win64.zip"),
        (LoveVersion::V11_1, Platform::Windows, Bitness::X86) => Some("love-11.1-win32.zip"),
        (LoveVersion::V11_1, Platform::MacOs, Bitness::X64) => Some("love-11.1-macos.zip"),
        (LoveVersion::V11_0, Platform::Windows, Bitness::X64) => Some("love-11.0.0-win64.zip"),
        (LoveVersion::V11_0, Platform::Windows, Bitness::X86) => Some("love-11.0.0-win32.zip"),
        (LoveVersion::V11_0, Platform::MacOs, Bitness::X64) => Some("love-11.0.0-macos.zip"),
        (LoveVersion::V0_10_2, Platform::Windows, Bitness::X64) => Some("love-0.10.2-win64.zip"),
        (LoveVersion::V0_10_2, Platform::Windows, Bitness::X86) => Some("love-0.10.2-win32.zip"),
        (LoveVersion::V0_10_2, Platform::MacOs, Bitness::X64) => Some("love-0.10.2-macosx-x64.zip"),
        (_, Platform::MacOs, Bitness::X86) => None,
    };
    match file {
        None => Err(BuildError::UnsupportedCombination { version, platform, bitness }),
        Some(file) => {
            let base = concat("https://github.com/love2d/love/releases/download", "/");
            let with_version = concat(base.as_str(), version.as_str());
            let dir = concat(with_version.as_str(), "/");
            let url = concat(dir.as_str(), file);
            Ok(LoveDownloadLocation { filename: file.to_owned(), url })
        },
    }
}

} // verus!
