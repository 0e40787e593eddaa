//! The records the scanners, the backup engine and the matcher exchange.
use vstd::prelude::*;
use crate::text::{
    chars_of, contains_str, decimal, decimal_chars, extend_chars, has_infix, string_from_chars,
};

verus! {

/// Which ecosystem a save belongs to.
#[derive(Clone, Copy, Debug, PartialEq, Eq, Structural, PartialOrd, Ord, Hash)]
pub enum SaveType {
    Steam,
    NonSteam,
}

/// What kind of root a scan location is.
#[derive(Clone, Copy, Debug, PartialEq, Eq, Structural)]
pub enum LocationType {
    Documents,
    AppDataRoaming,
    AppDataLocal,
    AppDataLocalLow,
    PublicDocuments,
    GameInstall,
    Steam,
    Custom,
}

/// Which way a pair of saves is copied.
#[derive(Clone, Copy, Debug, PartialEq, Eq, Structural)]
pub enum SyncDirection {
    SteamToNonSteam,
    NonSteamToSteam,
    Bidirectional,
}

/// The colour scheme of the presentation layer.
#[derive(Clone, Copy, Debug, PartialEq, Eq, Structural)]
pub enum Theme {
    Light,
    Dark,
    System,
}

/// An instant in UTC: whole seconds since 1970-01-01T00:00:00Z and the
/// nanoseconds within that second.
#[derive(Clone, Copy, Debug, PartialEq, Eq, Structural)]
pub struct Timestamp {
    pub secs: i64,
    pub nanos: u32,
}

/// `a` is strictly earlier than `b`.
pub open spec fn earlier(a: Timestamp, b: Timestamp) -> bool {
    a.secs < b.secs || (a.secs == b.secs && a.nanos < b.nanos)
}

impl Timestamp {
    /// The Unix epoch.
    pub fn epoch() -> (r: Timestamp)
        ensures
            r == (Timestamp { secs: 0, nanos: 0 }),
    {
        Timestamp { secs: 0, nanos: 0 }
    }

    /// Whether `self` is strictly earlier than `other`.
    pub fn is_before(&self, other: &Timestamp) -> (r: bool)
        ensures
            r == earlier(*self, *other),
    {
        self.secs < other.secs || (self.secs == other.secs && self.nanos < other.nanos)
    }
}

/// Relies on `chrono::Utc::now`: the current time; nothing is known of it.
#[verifier::external_body]
pub(crate) fn now_utc() -> (r: Timestamp) {
    let t = chrono::Utc::now();
    Timestamp { secs: t.timestamp(), nanos: t.timestamp_subsec_nanos() }
}

/// A save found by a scanner, with the size and modification time the
/// filesystem reported when it was found.
#[derive(Debug)]
pub struct GameSave {
    pub name: String,
    pub app_id: Option<u32>,
    pub save_type: SaveType,
    pub save_path: String,
    pub last_modified: Option<Timestamp>,
    pub size: u64,
    pub backup_count: usize,
    pub is_synced: bool,
}

impl GameSave {
    /// A fresh record: no backups yet, not synced.
    pub fn new(
        name: String,
        path: String,
        save_type: SaveType,
        app_id: Option<u32>,
        last_modified: Option<Timestamp>,
        size: u64,
    ) -> (r: GameSave)
        ensures
            r.name == name,
            r.save_path == path,
            r.save_type == save_type,
            r.app_id == app_id,
            r.last_modified == last_modified,
            r.size == size,
            r.backup_count == 0,
            !r.is_synced,
    {
        GameSave {
            name,
            app_id,
            save_type,
            save_path: path,
            last_modified,
            size,
            backup_count: 0,
            is_synced: false,
        }
    }

    /// A field-for-field copy.
    pub fn duplicate(&self) -> (r: GameSave)
        ensures
            r == *self,
    {
        GameSave {
            name: self.name.clone(),
            app_id: self.app_id,
            save_type: self.save_type,
            save_path: self.save_path.clone(),
            last_modified: self.last_modified,
            size: self.size,
            backup_count: self.backup_count,
            is_synced: self.is_synced,
        }
    }

    /// The name, followed by the title id in parentheses when there is one.
    pub fn display_name(&self) -> (r: String)
        ensures
            r@ == match self.app_id {
                Some(id) => self.name@ + " ("@ + decimal(id as nat) + ")"@,
                None => self.name@,
            },
    {
        match self.app_id {
            Some(id) => {
                let mut v = chars_of(self.name.as_str());
                let open = chars_of(" (");
                let digits = decimal_chars(id);
                let close = chars_of(")");
                extend_chars(&mut v, &open);
                extend_chars(&mut v, &digits);
                extend_chars(&mut v, &close);
                string_from_chars(v.as_slice())
            },
            None => self.name.clone(),
        }
    }
}

/// A root that the non-Steam scanner walks.
#[derive(Debug)]
pub struct SaveLocation {
    pub path: String,
    pub location_type: LocationType,
    pub description: String,
    pub is_custom: bool,
}

impl SaveLocation {
    /// A field-for-field copy.
    pub fn duplicate(&self) -> (r: SaveLocation)
        ensures
            r == *self,
    {
        SaveLocation {
            path: self.path.clone(),
            location_type: self.location_type,
            description: self.description.clone(),
            is_custom: self.is_custom,
        }
    }
}

/// A Steam account folder and the saves found under it.
#[derive(Debug)]
pub struct SteamUser {
    pub id: String,
    pub name: Option<String>,
    pub path: String,
    pub games: Vec<GameSave>,
}

/// The description of one backup archive, as its sidecar stores it.
#[derive(Debug)]
pub struct BackupInfo {
    pub id: String,
    pub game_name: String,
    pub app_id: Option<u32>,
    pub save_type: SaveType,
    pub original_path: String,
    pub backup_path: String,
    pub created_at: Timestamp,
    pub size: u64,
    pub description: Option<String>,
}

/// The marker that cloud downloads carry in their description.
pub open spec fn cloud_marker() -> Seq<char> {
    "Downloaded from cloud"@
}

/// A backup that came from the cloud transfer rather than from a local save.
pub open spec fn is_cloud_backup(original_path: Seq<char>, description: Option<String>) -> bool {
    has_infix(original_path, cloud_marker()) || has_infix(original_path, "cloud"@) || match description {
        Some(d) => has_infix(d@, cloud_marker()),
        None => false,
    }
}

impl BackupInfo {
    /// A field-for-field copy.
    pub fn duplicate(&self) -> (r: BackupInfo)
        ensures
            r == *self,
    {
        BackupInfo {
            id: self.id.clone(),
            game_name: self.game_name.clone(),
            app_id: self.app_id,
            save_type: self.save_type,
            original_path: self.original_path.clone(),
            backup_path: self.backup_path.clone(),
            created_at: self.created_at,
            size: self.size,
            description: match &self.description {
                Some(d) => Some(d.clone()),
                None => None,
            },
        }
    }

    /// Whether this backup was downloaded from cloud storage.
    pub fn is_cloud_download(&self) -> (r: bool)
        ensures
            r == is_cloud_backup(self.original_path@, self.description),
    {
        let p = chars_of(self.original_path.as_str());
        if contains_str(&p, "Downloaded from cloud") || contains_str(&p, "cloud") {
            return true;
        }
        match &self.description {
            Some(d) => {
                let dv = chars_of(d.as_str());
                contains_str(&dv, "Downloaded from cloud")
            },
            None => false,
        }
    }

    /// The original location for display: the path itself, or a label for
    /// backups that came from the cloud.
    pub fn display_original_path(&self) -> (r: String)
        ensures
            r@ == if has_infix(self.original_path@, cloud_marker()) || has_infix(
                self.original_path@,
                "cloud"@,
            ) {
                match self.description {
                    Some(d) => if has_infix(d@, cloud_marker()) {
                        "\u{1f4e5} Downloaded from Cloud Storage"@
                    } else {
                        "\u{1f4e5} Cloud Download"@
                    },
                    None => "\u{1f4e5} Cloud Download"@,
                }
            } else {
                self.original_path@
            },
    {
        let p = chars_of(self.original_path.as_str());
        if contains_str(&p, "Downloaded from cloud") || contains_str(&p, "cloud") {
            if let Some(d) = &self.description {
                let dv = chars_of(d.as_str());
                if contains_str(&dv, "Downloaded from cloud") {
                    return String::from_str("\u{1f4e5} Downloaded from Cloud Storage");
                }
            }
            return String::from_str("\u{1f4e5} Cloud Download");
        }
        self.original_path.clone()
    }
}

/// A Steam save and a non-Steam save believed to be the same game; at least
/// one side is present.
#[derive(Debug)]
pub struct SyncPair {
    pub steam_save: Option<GameSave>,
    pub non_steam_save: Option<GameSave>,
    pub game_name: String,
    pub app_id: Option<u32>,
    pub last_synced: Option<Timestamp>,
    pub sync_direction: SyncDirection,
}

impl SyncPair {
    /// At least one side is present.
    pub open spec fn wf(&self) -> bool {
        self.steam_save is Some || self.non_steam_save is Some
    }
}

/// Settings of the cloud transfer collaborator.
#[derive(Debug)]
pub struct KoofrConfig {
    pub enabled: bool,
    pub server_url: String,
    pub username: String,
    pub password: String,
    pub sync_folder: String,
    pub auto_sync: bool,
    pub sync_interval_minutes: u32,
}

impl Default for KoofrConfig {
    /// Disabled, pointing at the provider's WebDAV root, every half hour.
    fn default() -> (r: KoofrConfig)
        ensures
            !r.enabled,
            r.server_url@ == "https://app.koofr.net/dav/Koofr"@,
            r.username@.len() == 0,
            r.password@.len() == 0,
            r.sync_folder@ == "/SaveGuardian"@,
            !r.auto_sync,
            r.sync_interval_minutes == 30,
    {
        KoofrConfig {
            enabled: false,
            server_url: String::from_str("https://app.koofr.net/dav/Koofr"),
            username: String::new(),
            password: String::new(),
            sync_folder: String::from_str("/SaveGuardian"),
            auto_sync: false,
            sync_interval_minutes: 30,
        }
    }
}

/// What a walked filesystem entry is.
#[derive(Clone, Copy, Debug, PartialEq, Eq, Structural)]
pub enum EntryKind {
    File,
    Dir,
    Other,
}

/// One entry of a recursive walk below a root, by its path relative to the
/// root (empty for the root itself) and its kind.
#[derive(Debug)]
pub struct TreeEntry {
    pub relative: String,
    pub kind: EntryKind,
}

/// What can go wrong; each kind carries a message.
#[derive(Debug)]
pub enum SaveGuardianError {
    Io(String),
    Serde(String),
    Toml(String),
    Zip(String),
    PathNotFound(String),
    InvalidSteamUser(String),
    SaveOperationFailed(String),
    BackupOperationFailed(String),
}

} // verus!
