//! The data that a build works on: projects, settings, platforms, engine
//! versions, and what a build step reports.
use vstd::prelude::*;

verus! {

/// An operating system that a game is packaged for.
#[derive(Debug, Clone, Copy, PartialEq, Eq, Structural)]
pub enum Platform {
    Windows,
    MacOs,
}

/// A CPU architecture.
#[derive(Debug, Clone, Copy, PartialEq, Eq, Structural)]
pub enum Bitness {
    /// 32 bit
    X86,
    /// 64 bit
    X64,
}

/// A release of the LÖVE engine, newest first.
#[derive(Debug, Clone, Copy, PartialEq, Eq, Structural)]
pub enum LoveVersion {
    V11_5,
    V11_4,
    V11_3,
    V11_2,
    V11_1,
    V11_0,
    V0_10_2,
}

/// What a build command asks for.
#[derive(Debug, Clone, Copy, PartialEq, Eq, Structural)]
pub enum Target {
    Love,
    Windows,
    Macos,
    All,
}

/// Build-wide configuration.
#[derive(Debug, Clone)]
pub struct BuildSettings {
    /// Name of the output directory, relative to the project directory.
    pub output_directory: String,
    /// Regular expressions; a file whose relative path matches one is left out.
    pub ignore_list: Vec<String>,
    /// Whether the project's ignore list replaces the default one.
    pub exclude_default_ignore_list: bool,
    pub targets: Vec<Target>,
}

/// One game to package.
#[derive(Debug, Clone)]
pub struct Project {
    /// Display title, e.g. "My Super Awesome Game".
    pub title: String,
    /// Base name of binaries, e.g. "super_game".
    pub package_name: String,
    /// The source directory.
    pub directory: String,
    /// Uniform Type Identifier, e.g. "org.love2d.love".
    pub uti: String,
    pub authors: String,
    pub description: String,
    pub email: String,
    pub url: String,
    pub version: String,
}

/// Where a runtime archive is published.
#[derive(Debug, Clone)]
pub struct LoveDownloadLocation {
    pub filename: String,
    pub url: String,
}

/// What one build step produced.
#[derive(Debug, Clone)]
pub struct BuildStatistics {
    /// Name of the build, e.g. "Windows x64".
    pub name: String,
    /// File name of the build output.
    pub file_name: String,
    /// Wall-clock time the step took, in milliseconds.
    pub time_ms: u64,
    /// Size of the output in bytes.
    pub size: u64,
}

/// Why a build step stopped.
#[derive(Debug, Clone)]
pub enum BuildError {
    /// The directory to archive does not exist.
    SourceNotFound,
    /// An exclusion pattern is not a valid regular expression.
    PatternError { pattern: String },
    /// The runtime for this version is not in the local cache.
    RuntimeNotFound { version: LoveVersion, platform: Platform, bitness: Bitness },
    /// The project directory has no `main.lua`.
    InvalidProjectLayout,
    /// The bundle's metadata descriptor lacks a field that must be rewritten.
    MetadataRewriteError,
    /// No runtime is published for this combination.
    UnsupportedCombination { version: LoveVersion, platform: Platform, bitness: Bitness },
    /// A configured build target has an unknown name.
    InvalidTarget { name: String },
    /// A walked path does not lie under the directory being archived.
    PathOutsideRoot,
}

} // verus!
