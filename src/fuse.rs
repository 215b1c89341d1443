//! Fusing an archive with an engine runtime: the bytes of a Windows
//! executable, and the file-system steps that build each platform's artifact.
use crate::naming::{
    get_love_file_name, get_love_version_path, get_output_filename, get_zip_output_filename,
    love_version_path, output_file_name, runtime_dir_name, zip_output_file_name,
};
use crate::text::{concat, texts};
use crate::types::{Bitness, BuildError, LoveVersion, Platform, Project};
use vstd::prelude::*;

verus! {

/// The fused executable: the runtime's launcher followed by the archive, byte
/// for byte, with no separator.
pub fn fuse_executable(launcher: &[u8], archive: &[u8]) -> (r: Vec<u8>)
    ensures
        r@ == launcher@ + archive@,
{
    let mut r: Vec<u8> = Vec::new();
    for i in 0..launcher.len()
        invariant
            r@ == launcher@.take(i as int),
    {
        r.push(launcher[i]);
        assert(r@ =~= launcher@.take(i + 1));
    }
    assert(launcher@.take(launcher@.len() as int) =~= launcher@);
    for i in 0..archive.len()
        invariant
            r@ == launcher@ + archive@.take(i as int),
    {
        r.push(archive[i]);
        assert(r@ =~= launcher@ + archive@.take(i + 1));
    }
    assert(archive@.take(archive@.len() as int) =~= archive@);
    r
}

/// One file-system operation of a build, over paths of type `P`.
#[derive(Debug, Clone)]
pub enum FsStep<P> {
    /// Remove the directory and all it holds, if it exists.
    RemoveDirIfExists { path: P },
    /// Create the directory.
    CreateDir { path: P },
    /// Write the bytes of `launcher` followed by those of `archive` to `output`.
    FuseExecutable { launcher: P, archive: P, output: P },
    /// Copy the runtime's companion files (`*.dll`, `*.txt`, `*.ico`) of `from` into `to`.
    CopyCompanions { from: P, to: P },
    /// Archive every file under `dir`, with no exclusions, as `archive`.
    ArchiveDirectory { dir: P, archive: P },
    /// Remove the directory and all it holds.
    RemoveDir { path: P },
    /// Copy the directory `from`, with all it holds, into the directory `into`,
    /// overwriting what is there.
    CopyDirInto { from: P, into: P },
    /// Rename `from` to `to`.
    Rename { from: P, to: P },
    /// Copy the file `from` to `to`, overwriting it.
    CopyFile { from: P, to: P },
    /// Rewrite the bundle's metadata descriptor at `path` for the project.
    RewriteDescriptor { path: P },
}

/// A path as the texts of its components.
pub type PathView = Seq<Seq<char>>;

impl View for FsStep<Vec<String>> {
    type V = FsStep<PathView>;

    open spec fn view(&self) -> FsStep<PathView> {
        match self {
            FsStep::RemoveDirIfExists { path } => FsStep::RemoveDirIfExists { path: texts(path@) },
            FsStep::CreateDir { path } => FsStep::CreateDir { path: texts(path@) },
            FsStep::FuseExecutable { launcher, archive, output } => FsStep::FuseExecutable {
                launcher: texts(launcher@),
                archive: texts(archive@),
                output: texts(output@),
            },
            FsStep::CopyCompanions { from, to } => FsStep::CopyCompanions {
                from: texts(from@),
                to: texts(to@),
            },
            FsStep::ArchiveDirectory { dir, archive } => FsStep::ArchiveDirectory {
                dir: texts(dir@),
                archive: texts(archive@),
            },
            FsStep::RemoveDir { path } => FsStep::RemoveDir { path: texts(path@) },
            FsStep::CopyDirInto { from, into } => FsStep::CopyDirInto {
                from: texts(from@),
                into: texts(into@),
            },
            FsStep::Rename { from, to } => FsStep::Rename { from: texts(from@), to: texts(to@) },
            FsStep::CopyFile { from, to } => FsStep::CopyFile { from: texts(from@), to: texts(to@) },
            FsStep::RewriteDescriptor { path } => FsStep::RewriteDescriptor { path: texts(path@) },
        }
    }
}

pub open spec fn steps_view(steps: Seq<FsStep<Vec<String>>>) -> Seq<FsStep<PathView>> {
    steps.map_values(|s: FsStep<Vec<String>>| s@)
}

/// `dir` with one more component.
pub fn child(dir: &Vec<String>, name: String) -> (r: Vec<String>)
    ensures
        texts(r@) == texts(dir@).push(name@),
{
    let mut r = dir.clone();
    r.push(name);
    assert(texts(r@) =~= texts(dir@).push(name@));
    r
}

/// The paths that building a Windows artifact reads and writes.
#[derive(Debug, Clone)]
pub struct WindowsLayout {
    /// The cached runtime's folder.
    pub runtime_dir: Vec<String>,
    /// The runtime's launcher, `love.exe`.
    pub launcher: Vec<String>,
    /// The project's archive.
    pub love_file: Vec<String>,
    /// The directory where the artifact is assembled, removed afterwards.
    pub staging_dir: Vec<String>,
    /// The fused executable, in the staging directory.
    pub executable: Vec<String>,
    /// The final distributable.
    pub zip_file: Vec<String>,
}

/// The name of a build for its statistics, e.g. "Windows x64".
pub open spec fn build_name(p: Platform, b: Bitness) -> Seq<char> {
    crate::naming::platform_name(p) + " "@ + crate::naming::bitness_name(b)
}

/// The name of a build for its statistics, e.g. "Windows x64".
pub fn get_build_name(platform: Platform, bitness: Bitness) -> (r: String)
    ensures
        r@ == build_name(platform, bitness),
{
    let head = concat(platform.as_str(), " ");
    concat(head.as_str(), bitness.as_str())
}

/// Lays out a Windows build of `project` in the release directory
/// `release_dir`, with the runtime cached under `data_dir`.
pub fn windows_layout(
    project: &Project,
    release_dir: &Vec<String>,
    data_dir: &Vec<String>,
    version: LoveVersion,
    bitness: Bitness,
) -> (r: WindowsLayout)
    ensures
        texts(r.runtime_dir@) == love_version_path(texts(data_dir@), version, Platform::Windows, bitness),
        texts(r.launcher@) == texts(r.runtime_dir@).push("love.exe"@),
        texts(r.love_file@) == texts(release_dir@).push(project.title@ + ".love"@),
        texts(r.staging_dir@) == texts(release_dir@).push(
            zip_output_file_name(*project, Platform::Windows, bitness),
        ),
        texts(r.executable@) == texts(r.staging_dir@).push(output_file_name(*project, Platform::Windows)),
        texts(r.zip_file@) == texts(release_dir@).push(
            zip_output_file_name(*project, Platform::Windows, bitness) + ".zip"@,
        ),
{
    let runtime_dir = get_love_version_path(data_dir, version, Platform::Windows, bitness);
    let launcher = child(&runtime_dir, "love.exe".to_owned());
    let love_file = child(release_dir, get_love_file_name(project));
    let staging_name = get_zip_output_filename(project, Platform::Windows, bitness);
    let zip_name = concat(staging_name.as_str(), ".zip");
    let staging_dir = child(release_dir, staging_name);
    let executable = child(&staging_dir, get_output_filename(project, Platform::Windows, bitness));
    let zip_file = child(release_dir, zip_name);
    WindowsLayout { runtime_dir, launcher, love_file, staging_dir, executable, zip_file }
}

/// The steps of a Windows build, in order.
pub open spec fn windows_steps(
    runtime_dir: PathView,
    launcher: PathView,
    love_file: PathView,
    staging_dir: PathView,
    executable: PathView,
    zip_file: PathView,
) -> Seq<FsStep<PathView>> {
    seq![
        FsStep::RemoveDirIfExists { path: staging_dir },
        FsStep::CreateDir { path: staging_dir },
        FsStep::FuseExecutable { launcher, archive: love_file, output: executable },
        FsStep::CopyCompanions { from: runtime_dir, to: staging_dir },
        FsStep::ArchiveDirectory { dir: staging_dir, archive: zip_file },
        FsStep::RemoveDir { path: staging_dir },
    ]
}

/// The steps that build a Windows artifact, once it is known whether the
/// runtime's launcher is in the cache. Without it the build is
/// `RuntimeNotFound`, and no step is taken.
pub fn windows_build_steps(
    layout: &WindowsLayout,
    launcher_present: bool,
    version: LoveVersion,
    bitness: Bitness,
) -> (r: Result<Vec<FsStep<Vec<String>>>, BuildError>)
    ensures
        !launcher_present ==> r == Err::<Vec<FsStep<Vec<String>>>, BuildError>(
            BuildError::RuntimeNotFound { version, platform: Platform::Windows, bitness },
        ),
        launcher_present ==> (r matches Ok(steps) && steps_view(steps@) == windows_steps(
            texts(layout.runtime_dir@),
            texts(layout.launcher@),
            texts(layout.love_file@),
            texts(layout.staging_dir@),
            texts(layout.executable@),
            texts(layout.zip_file@),
        )),
{
    if !launcher_present {
        return Err(BuildError::RuntimeNotFound { version, platform: Platform::Windows, bitness });
    }
    let steps = vec![
        FsStep::RemoveDirIfExists { path: layout.staging_dir.clone() },
        FsStep::CreateDir { path: layout.staging_dir.clone() },
        FsStep::FuseExecutable {
            launcher: layout.launcher.clone(),
            archive: layout.love_file.clone(),
            output: layout.executable.clone(),
        },
        FsStep::CopyCompanions { from: layout.runtime_dir.clone(), to: layout.staging_dir.clone() },
        FsStep::ArchiveDirectory { dir: layout.staging_dir.clone(), archive: layout.zip_file.clone() },
        FsStep::RemoveDir { path: layout.staging_dir.clone() },
    ];
    assert(steps_view(steps@) =~= windows_steps(
        texts(layout.runtime_dir@),
        texts(layout.launcher@),
        texts(layout.love_file@),
        texts(layout.staging_dir@),
        texts(layout.executable@),
        texts(layout.zip_file@),
    ));
    Ok(steps)
}

/// The paths that building a macOS application bundle reads and writes.
#[derive(Debug, Clone)]
pub struct MacosLayout {
    /// The directory the bundle is built in.
    pub release_dir: Vec<String>,
    /// The cached runtime bundle.
    pub runtime_bundle: Vec<String>,
    /// The runtime bundle once copied into the release directory.
    pub copied_bundle: Vec<String>,
    /// The bundle under the project's name.
    pub final_bundle: Vec<String>,
    /// The project's archive.
    pub love_file: Vec<String>,
    /// Where the archive goes inside the bundle.
    pub resources_love: Vec<String>,
    /// The bundle's metadata descriptor.
    pub descriptor: Vec<String>,
}

/// Lays out a macOS build of `project` in the release directory
/// `release_dir`, with the runtime cached under `data_dir`.
pub fn macos_layout(
    project: &Project,
    release_dir: &Vec<String>,
    data_dir: &Vec<String>,
    version: LoveVersion,
    bitness: Bitness,
) -> (r: MacosLayout)
    ensures
        texts(r.release_dir@) == texts(release_dir@),
        texts(r.runtime_bundle@) == love_version_path(texts(data_dir@), version, Platform::MacOs, bitness),
        texts(r.copied_bundle@) == texts(release_dir@).push(runtime_dir_name(version, Platform::MacOs, bitness)),
        texts(r.final_bundle@) == texts(release_dir@).push(output_file_name(*project, Platform::MacOs)),
        texts(r.love_file@) == texts(release_dir@).push(project.title@ + ".love"@),
        texts(r.resources_love@) == texts(r.final_bundle@).push("Contents"@).push("Resources"@).push(
            project.title@ + ".love"@,
        ),
        texts(r.descriptor@) == texts(r.final_bundle@).push("Contents"@).push("Info.plist"@),
{
    let runtime_bundle = get_love_version_path(data_dir, version, Platform::MacOs, bitness);
    let copied_bundle = child(release_dir, crate::naming::get_love_version_file_name(version, Platform::MacOs, bitness));
    let final_bundle = child(release_dir, get_output_filename(project, Platform::MacOs, bitness));
    let love_file = child(release_dir, get_love_file_name(project));
    let contents = child(&final_bundle, "Contents".to_owned());
    let resources = child(&contents, "Resources".to_owned());
    let resources_love = child(&resources, get_love_file_name(project));
    let descriptor = child(&contents, "Info.plist".to_owned());
    MacosLayout {
        release_dir: release_dir.clone(),
        runtime_bundle,
        copied_bundle,
        final_bundle,
        love_file,
        resources_love,
        descriptor,
    }
}

/// The steps of a macOS build, in order.
pub open spec fn macos_steps(
    release_dir: PathView,
    runtime_bundle: PathView,
    copied_bundle: PathView,
    final_bundle: PathView,
    love_file: PathView,
    resources_love: PathView,
    descriptor: PathView,
) -> Seq<FsStep<PathView>> {
    seq![
        FsStep::CopyDirInto { from: runtime_bundle, into: release_dir },
        FsStep::RemoveDirIfExists { path: final_bundle },
        FsStep::Rename { from: copied_bundle, to: final_bundle },
        FsStep::CopyFile { from: love_file, to: resources_love },
        FsStep::RewriteDescriptor { path: descriptor },
    ]
}

/// The steps that build a macOS application bundle, once it is known whether
/// the runtime bundle is in the cache. Without it the build is
/// `RuntimeNotFound`, and no step is taken.
pub fn macos_build_steps(
    layout: &MacosLayout,
    bundle_present: bool,
    version: LoveVersion,
    bitness: Bitness,
) -> (r: Result<Vec<FsStep<Vec<String>>>, BuildError>)
    ensures
        !bundle_present ==> r == Err::<Vec<FsStep<Vec<String>>>, BuildError>(
            BuildError::RuntimeNotFound { version, platform: Platform::MacOs, bitness },
        ),
        bundle_present ==> (r matches Ok(steps) && steps_view(steps@) == macos_steps(
            texts(layout.release_dir@),
            texts(layout.runtime_bundle@),
            texts(layout.copied_bundle@),
            texts(layout.final_bundle@),
            texts(layout.love_file@),
            texts(layout.resources_love@),
            texts(layout.descriptor@),
        )),
{
    if !bundle_present {
        return Err(BuildError::RuntimeNotFound { version, platform: Platform::MacOs, bitness });
    }
    let steps = vec![
        FsStep::CopyDirInto { from: layout.runtime_bundle.clone(), into: layout.release_dir.clone() },
        FsStep::RemoveDirIfExists { path: layout.final_bundle.clone() },
        FsStep::Rename { from: layout.copied_bundle.clone(), to: layout.final_bundle.clone() },
        FsStep::CopyFile { from: layout.love_file.clone(), to: layout.resources_love.clone() },
        FsStep::RewriteDescriptor { path: layout.descriptor.clone() },
    ];
    assert(steps_view(steps@) =~= macos_steps(
        texts(layout.release_dir@),
        texts(layout.runtime_bundle@),
        texts(layout.copied_bundle@),
        texts(layout.final_bundle@),
        texts(layout.love_file@),
        texts(layout.resources_love@),
        texts(layout.descriptor@),
    ));
    Ok(steps)
}

} // verus!
