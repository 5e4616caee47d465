//! The launcher's error type.
use vstd::prelude::*;

verus! {

/// The kinds of failure a launch can end with.
#[derive(PartialEq, Eq, Structural, Clone, Copy, Debug)]
pub enum ErrorKind {
    Network,
    ChecksumMismatch,
    ManifestNotFound,
    InheritanceCycle,
    UnsupportedEnvironment,
    ClasspathMissing,
    NativeExtractFailed,
    SpawnFailed,
    Io,
}

/// A launch failure: its kind and what it concerns (a version id, a path, ...).
#[derive(Debug)]
pub struct MinecraftLauncherError {
    pub kind: ErrorKind,
    pub detail: String,
}

} // verus!
