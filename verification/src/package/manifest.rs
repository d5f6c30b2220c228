//! The package manifest (`goida.toml`) and lock file (`goida.lock`).
use vstd::prelude::*;
use crate::text::int_to_text;

verus! {

/// A package manifest.
#[derive(Debug)]
pub struct Manifest {
    pub package: PackageInfo,
    /// Dependencies by local name, each name once.
    pub dependencies: Vec<(String, Dependency)>,
    pub build: BuildConfig,
}

/// The `[package]` table.
#[derive(Debug)]
pub struct PackageInfo {
    pub name: String,
    pub description: String,
    pub version: String,
    pub entry: Option<String>,
}

/// The `[build]` table: an optional command, its working directory and the
/// native artifacts to install.
#[derive(Debug)]
pub struct BuildConfig {
    pub command: Vec<String>,
    pub workdir: Option<String>,
    pub artifacts: Vec<BuildArtifact>,
}

/// A native artifact: where the build leaves it, where it is installed,
/// and the platforms it is for (all when empty).
#[derive(Debug)]
pub struct BuildArtifact {
    pub source: String,
    pub destination: String,
    pub platforms: Vec<String>,
}

/// Where a dependency comes from: a git repository (with at most one of a
/// revision, branch or tag) or a local directory.
#[derive(Debug)]
pub struct Dependency {
    pub git: Option<String>,
    pub path: Option<String>,
    pub rev: Option<String>,
    pub branch: Option<String>,
    pub tag: Option<String>,
}

/// The lock file: its format version and the installed packages.
#[derive(Debug)]
pub struct LockFile {
    pub version: u32,
    pub package: Vec<LockedPackage>,
}

/// An installed package: its name, source, resolved revision, install path
/// and the artifacts it installed.
#[derive(Debug)]
pub struct LockedPackage {
    pub name: String,
    pub source: String,
    pub revision: String,
    pub path: String,
    pub artifacts: Vec<String>,
}

/// The lock file format this version reads and writes.
pub fn lock_version() -> (r: u32)
    ensures
        r == 1,
{
    1
}

impl LockFile {
    /// An empty lock file of the current format.
    pub fn empty() -> (r: LockFile)
        ensures
            r.version == 1,
            r.package@.len() == 0,
    {
        LockFile { version: lock_version(), package: Vec::new() }
    }
}

impl BuildConfig {
    /// No command and no artifacts.
    pub fn empty() -> (r: BuildConfig)
        ensures
            r.command@.len() == 0,
            r.workdir is None,
            r.artifacts@.len() == 0,
    {
        BuildConfig { command: Vec::new(), workdir: None, artifacts: Vec::new() }
    }
}

/// The message for a lock file of another format.
pub open spec fn lock_version_message(version: u32) -> Seq<char> {
    "Unsupported goida.lock version "@ + crate::text::int_text(version as int) + "; expected 1"@
}

/// Accepts a lock file of the current format only.
pub fn check_lock_version(version: u32) -> (r: Result<(), String>)
    ensures
        match r {
            Ok(()) => version == 1,
            Err(m) => version != 1 && m@ == lock_version_message(version),
        },
{
    if version == lock_version() {
        Ok(())
    } else {
        let mut msg = String::from_str("Unsupported goida.lock version ");
        let v = int_to_text(version as i64);
        msg.append(v.as_str());
        msg.append("; expected 1");
        Err(msg)
    }
}

/// The source file of a new project.
pub open spec fn starter_text() -> Seq<char> {
    "функция главная() {\n    печать(\"Привет, мир!\")\n}\n\nглавная()\n"@
}

/// The source file of a new project: a `main` function that greets the
/// world, and its call.
pub fn starter_source() -> (r: &'static str)
    ensures
        r@ == starter_text(),
{
    "функция главная() {\n    печать(\"Привет, мир!\")\n}\n\nглавная()\n"
}

} // verus!
