//! Discovery, archival and synchronisation of game saves.
//!
//! The library holds the decisions: which folders are saves, what a save is
//! called, how two save lists pair up, what a backup archive holds and which
//! backups have expired. Reading and writing the filesystem is left to the
//! caller, who hands the library plain listings and carries out its plans.

pub mod text;
pub mod types;
pub mod steam;
pub mod non_steam;
pub mod backup;
pub mod sync;
