//! Core of a Minecraft game launcher: artifact coordinates, rule evaluation,
//! version inheritance, argument substitution and launch command assembly.

/// Splitting, joining, replacement and decimal rendering of strings.
pub mod text;
/// Artifact coordinates and their repository paths.
pub mod artifact;
/// Allow/disallow rules over the operating system and feature flags.
pub mod rule;
/// Libraries, their downloads and native archives.
pub mod library;
/// Downloadable items and the download engine's decisions.
pub mod download;
/// `${key}` placeholder expansion.
pub mod substitutor;
/// The launcher's error type.
pub mod error;
/// Version manifests, inheritance and the classpath.
pub mod version;
/// The game runner and the launch command line.
pub mod launch;
/// The remote version index.
pub mod remote;
/// Decisions of launch preparation: files, natives, assets, housekeeping.
pub mod prepare;
/// Progress of download jobs.
pub mod progress;

