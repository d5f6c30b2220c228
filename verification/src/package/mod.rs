//! Packages: the manifest and lock file, dependency bookkeeping and the
//! scripts of virtual environments.
pub mod manifest;
pub mod dependencies;
pub mod venv;
