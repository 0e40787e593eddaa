//! The non-Steam scanner: well-known save roots, a strict rule for which
//! folders hold saves, and a game name read off a folder's path.
use vstd::prelude::*;
use crate::text::{
    chars_of, contains_str, count_char, count_of, ends_with_str, equals_str, extend_chars,
    has_infix, has_prefix, has_suffix, join_path, join_space, joined_path, lower_chars, lower_of,
    push_word, replace_char, replaced, split_words, starts_with_str, string_from_chars, trim,
    trimmed, upper_of_char, uppercase_char, words, is_digit,
};
use crate::types::{GameSave, LocationType, SaveLocation, SaveType, Timestamp};
use crate::steam::extension_of;
use crate::steam::extension;

verus! {

// ---------------------------------------------------------------------------
// Listings handed in by the caller
// ---------------------------------------------------------------------------

/// The folders of the environment that the default roots derive from, and
/// whether two fixed roots exist.
#[derive(Debug)]
pub struct SystemDirs {
    pub home: Option<String>,
    pub documents: Option<String>,
    pub config: Option<String>,
    pub cache: Option<String>,
    pub locallow_exists: bool,
    pub public_documents_exists: bool,
}

/// One entry of a folder, by file name, and whether it is a file.
#[derive(Debug)]
pub struct DirEntryInfo {
    pub name: String,
    pub is_file: bool,
}

/// A folder met while walking a root: its path, the path's components
/// (those that are text), its own name, its readable entries in listing
/// order, and the modification time and size the filesystem reports.
#[derive(Debug)]
pub struct DirListing {
    pub path: String,
    pub components: Vec<String>,
    pub file_name: Option<String>,
    pub entries: Vec<DirEntryInfo>,
    pub last_modified: Option<Timestamp>,
    pub size: u64,
}

// ---------------------------------------------------------------------------
// Default roots
// ---------------------------------------------------------------------------

/// A built-in scan root.
pub open spec fn root_matches(l: SaveLocation, path: Seq<char>, t: LocationType, d: Seq<char>) -> bool {
    l.path@ == path && l.location_type == t && l.description@ == d && !l.is_custom
}

/// The documents folder: the one the environment names, else `Documents`
/// under home.
pub open spec fn documents_of(d: SystemDirs) -> Seq<char> {
    match d.documents {
        Some(p) => p@,
        None => joined_path(d.home->0@, "Documents"@),
    }
}

/// The built-in roots, described as (path, kind, description), in order.
/// There are none without a home folder.
pub open spec fn default_roots(d: SystemDirs) -> Seq<(Seq<char>, LocationType, Seq<char>)> {
    if d.home is None {
        Seq::empty()
    } else {
        let docs = documents_of(d);
        let base = seq![
            (joined_path(docs, "My Games"@), LocationType::Documents, "Documents\\My Games - Common for many PC games"@),
            (docs, LocationType::Documents, "Documents - Direct saves in Documents folder"@),
            (joined_path(docs, "Rockstar Games"@), LocationType::Documents, "Documents\\Rockstar Games - Rockstar titles"@),
        ];
        let with_roaming = match d.config {
            Some(r) => base.push((r@, LocationType::AppDataRoaming, "AppData\\Roaming - Config and saves for many games"@)),
            None => base,
        };
        let with_local = match d.cache {
            Some(l) => with_roaming.push((l@, LocationType::AppDataLocal, "AppData\\Local - Modern game saves and settings"@)),
            None => with_roaming,
        };
        let with_low = if d.locallow_exists {
            with_local.push((joined_path(joined_path(d.home->0@, "AppData"@), "LocalLow"@), LocationType::AppDataLocalLow, "AppData\\LocalLow - Unity games persistent data"@))
        } else {
            with_local
        };
        let with_public = if d.public_documents_exists {
            with_low.push(("C:\\Users\\Public\\Documents"@, LocationType::PublicDocuments, "Public Documents - Some cracks and older titles"@))
        } else {
            with_low
        };
        match d.config {
            Some(r) => with_public.push((joined_path(r@, "Goldberg SteamEmu Saves"@), LocationType::AppDataRoaming, "Goldberg SteamEmu Saves - Emulated Steam saves"@)),
            None => with_public,
        }
    }
}

fn root(path: String, t: LocationType, d: &str) -> (r: SaveLocation)
    ensures
        root_matches(r, path@, t, d@),
{
    SaveLocation { path, location_type: t, description: String::from_str(d), is_custom: false }
}

/// The built-in scan roots for an environment.
pub fn get_default_locations(d: &SystemDirs) -> (r: Vec<SaveLocation>)
    ensures
        r.len() == default_roots(*d).len(),
        forall|k: int| 0 <= k < r.len() ==> root_matches(#[trigger] r@[k], default_roots(*d)[k].0, default_roots(*d)[k].1, default_roots(*d)[k].2),
{
    let mut v: Vec<SaveLocation> = Vec::new();
    let home = match &d.home {
        Some(h) => h,
        None => {
            return v;
        },
    };
    let docs = match &d.documents {
        Some(p) => p.clone(),
        None => join_path(home.as_str(), "Documents"),
    };
    v.push(root(join_path(docs.as_str(), "My Games"), LocationType::Documents, "Documents\\My Games - Common for many PC games"));
    v.push(root(docs.clone(), LocationType::Documents, "Documents - Direct saves in Documents folder"));
    v.push(root(join_path(docs.as_str(), "Rockstar Games"), LocationType::Documents, "Documents\\Rockstar Games - Rockstar titles"));
    if let Some(r) = &d.config {
        v.push(root(r.clone(), LocationType::AppDataRoaming, "AppData\\Roaming - Config and saves for many games"));
    }
    if let Some(l) = &d.cache {
        v.push(root(l.clone(), LocationType::AppDataLocal, "AppData\\Local - Modern game saves and settings"));
    }
    if d.locallow_exists {
        let app_data = join_path(home.as_str(), "AppData");
        v.push(root(join_path(app_data.as_str(), "LocalLow"), LocationType::AppDataLocalLow, "AppData\\LocalLow - Unity games persistent data"));
    }
    if d.public_documents_exists {
        v.push(root(String::from_str("C:\\Users\\Public\\Documents"), LocationType::PublicDocuments, "Public Documents - Some cracks and older titles"));
    }
    if let Some(r) = &d.config {
        v.push(root(join_path(r.as_str(), "Goldberg SteamEmu Saves"), LocationType::AppDataRoaming, "Goldberg SteamEmu Saves - Emulated Steam saves"));
    }
    v
}

// ---------------------------------------------------------------------------
// The strict save-folder rule
// ---------------------------------------------------------------------------

/// Extensions that mark a file as a save.
pub open spec fn is_save_extension(e: Seq<char>) -> bool {
    e == "sav"@ || e == "save"@ || e == "savegame"@
}

/// A lower-case file name that mentions saving and none of the words of
/// configuration, caches, logs, backups, versions or Java archives.
pub open spec fn names_a_save(l: Seq<char>) -> bool {
    (has_infix(l, "save"@) || has_infix(l, "savegame"@)) && !has_infix(l, "config"@) && !has_infix(
        l,
        "settings"@,
    ) && !has_infix(l, "cache"@) && !has_infix(l, "temp"@) && !has_infix(l, "log"@) && !has_infix(
        l,
        "backup"@,
    ) && !has_suffix(l, ".jar"@) && !has_suffix(l, ".java"@) && !has_infix(l, "version"@)
}

/// A file name that marks its folder as a save folder under the strict rule.
pub open spec fn marks_save_strictly(name: Seq<char>) -> bool {
    (match extension_of(name) {
        Some(e) => is_save_extension(lower_of(e)),
        None => false,
    }) || names_a_save(lower_of(name))
}

/// How many entries of a folder the strict rule looks at.
pub const STRICT_ENTRY_CAP: usize = 31;

/// Among the first entries of the folder, a file marks it as a save folder.
pub open spec fn has_strict_save(entries: Seq<DirEntryInfo>) -> bool {
    exists|i: int|
        0 <= i < entries.len() && i < STRICT_ENTRY_CAP && (#[trigger] entries[i]).is_file
            && marks_save_strictly(entries[i].name@)
}

/// Words in a path that mark system, vendor, modding or tooling folders.
pub open spec fn is_system_path(l: Seq<char>) -> bool {
    has_infix(l, "windows"@) || has_infix(l, "system32"@) || has_infix(l, "program files"@)
        || has_infix(l, "programdata"@) || has_infix(l, "microsoft"@) || has_infix(l, "adobe"@)
        || has_infix(l, "google"@) || has_infix(l, "mozilla"@) || has_infix(l, "temp"@) || has_infix(
        l,
        "cache"@,
    ) || has_infix(l, "logs"@) || has_infix(l, "crash"@) || has_infix(l, "minecraft"@) || has_infix(
        l,
        ".minecraft"@,
    ) || has_infix(l, "mods"@) || has_infix(l, "versions"@) || has_infix(l, "libraries"@)
        || has_infix(l, "node_modules"@) || has_infix(l, ".git"@) || has_infix(l, "target"@)
        || has_infix(l, "build"@) || has_infix(l, "bin"@) || has_infix(l, "obj"@) || has_infix(
        l,
        ".vs"@,
    ) || has_infix(l, "__pycache__"@)
}

fn marks_save_strictly_exec(name: &String) -> (r: bool)
    ensures
        r == marks_save_strictly(name@),
{
    let v = chars_of(name.as_str());
    let by_ext = match extension(&v) {
        Some(e) => {
            let es = string_from_chars(e.as_slice());
            let l = lower_chars(es.as_str());
            equals_str(&l, "sav") || equals_str(&l, "save") || equals_str(&l, "savegame")
        },
        None => false,
    };
    if by_ext {
        return true;
    }
    let l = lower_chars(name.as_str());
    (contains_str(&l, "save") || contains_str(&l, "savegame")) && !contains_str(&l, "config")
        && !contains_str(&l, "settings") && !contains_str(&l, "cache") && !contains_str(&l, "temp")
        && !contains_str(&l, "log") && !contains_str(&l, "backup") && !ends_with_str(&l, ".jar")
        && !ends_with_str(&l, ".java") && !contains_str(&l, "version")
}

// ---------------------------------------------------------------------------
// Game names from paths
// ---------------------------------------------------------------------------

/// Folder names that say nothing about the game.
pub open spec fn is_generic_segment(l: Seq<char>) -> bool {
    l == "saves"@ || l == "save"@ || l == "profiles"@ || l == "profile"@ || l == "data"@ || l
        == "config"@ || l == "settings"@ || l == "user"@ || l == "users"@ || l == "documents"@ || l
        == "my games"@ || l == "appdata"@ || l == "roaming"@ || l == "local"@ || l == "locallow"@
        || l == "public"@ || l == "remote"@ || l == "steam"@ || l == "steamemu"@ || l
        == "goldberg"@ || l == "minecraft"@ || l == "versions"@ || l == "mods"@ || l
        == "libraries"@ || l == "bin"@ || l == "temp"@ || l == "cache"@
}

/// Folder names that look like a version or a mod-loader build.
pub open spec fn is_version_segment(l: Seq<char>) -> bool {
    count_char(l, '.') >= 2 || has_prefix(l, "1."@) || has_infix(l, "-forge"@) || has_infix(
        l,
        "-fabric"@,
    ) || has_infix(l, "optifine"@) || has_prerelease_tag(l)
}

/// A pre-release tag: `pre` followed by a digit, as in `pre3` or `1.20-pre1`.
pub open spec fn has_prerelease_tag(l: Seq<char>) -> bool {
    exists|i: int|
        0 <= i && i + 3 < l.len() && #[trigger] l[i] == 'p' && l[i + 1] == 'r' && l[i + 2] == 'e'
            && is_digit(l[i + 3])
}

fn has_prerelease_tag_exec(l: &Vec<char>) -> (r: bool)
    ensures
        r == has_prerelease_tag(l@),
{
    if l.len() < 4 {
        return false;
    }
    let mut i: usize = 0;
    while i < l.len() - 3
        invariant
            l.len() >= 4,
            forall|k: int|
                0 <= k < i && k + 3 < l.len() ==> !(#[trigger] l@[k] == 'p' && l@[k + 1] == 'r'
                    && l@[k + 2] == 'e' && is_digit(l@[k + 3])),
        decreases l.len() - i,
    {
        let d = l[i + 3];
        if l[i] == 'p' && l[i + 1] == 'r' && l[i + 2] == 'e' && '0' <= d && d <= '9' {
            return true;
        }
        i += 1;
    }
    false
}

/// A path segment that can name the game.
pub open spec fn names_game(c: Seq<char>) -> bool {
    !is_generic_segment(lower_of(c)) && !is_version_segment(lower_of(c))
}

/// The segment nearest the leaf that can name the game.
pub open spec fn naming_segment(cs: Seq<String>) -> Option<Seq<char>>
    decreases cs.len(),
{
    if cs.len() == 0 {
        None
    } else if names_game(cs.last()@) {
        Some(cs.last()@)
    } else {
        naming_segment(cs.drop_last())
    }
}

/// Trailing words that the cleanup removes, tried in this order.
pub open spec fn noise_suffixes() -> Seq<Seq<char>> {
    seq![" - Save"@, " - Saves"@, " Save"@, " Saves"@, " - Config"@, " Config"@, " - Settings"@,
        " Settings"@, " - Profile"@, " Profile"@, " Profiles"@, " (Steam)"@, " (Non-Steam)"@,
        " (Cracked)"@]
}

/// `s` with each suffix of `sfx` removed in turn where it ends `s`.
pub open spec fn strip_suffixes(s: Seq<char>, sfx: Seq<Seq<char>>) -> Seq<char>
    decreases sfx.len(),
{
    if sfx.len() == 0 {
        s
    } else {
        let t = if has_suffix(s, sfx[0]) {
            s.subrange(0, s.len() - sfx[0].len())
        } else {
            s
        };
        strip_suffixes(t, sfx.drop_first())
    }
}

/// A word with its first character upper-cased and the rest lower-cased.
pub open spec fn title_word(w: Seq<char>) -> Seq<char> {
    if w.len() == 0 {
        w
    } else {
        upper_of_char(w[0]) + lower_of(w.drop_first())
    }
}

/// Every word title-cased.
pub open spec fn title_words(ws: Seq<Seq<char>>) -> Seq<Seq<char>>
    decreases ws.len(),
{
    if ws.len() == 0 {
        ws
    } else {
        title_words(ws.drop_last()).push(title_word(ws.last()))
    }
}

/// A folder name made into a game name: noise suffixes removed,
/// underscores as spaces, words title-cased and single-spaced, trimmed.
pub open spec fn cleaned_name(name: Seq<char>) -> Seq<char> {
    trim(join_space(title_words(words(replace_char(strip_suffixes(name, noise_suffixes()), '_', ' ')))))
}

/// The game name read off a folder's path.
pub open spec fn game_name_of(components: Seq<String>, file_name: Option<String>) -> Option<Seq<char>> {
    match naming_segment(components) {
        Some(c) => Some(cleaned_name(c)),
        None => match file_name {
            Some(f) => Some(cleaned_name(f@)),
            None => None,
        },
    }
}

fn names_game_exec(c: &String) -> (r: bool)
    ensures
        r == names_game(c@),
{
    let l = lower_chars(c.as_str());
    let generic = equals_str(&l, "saves") || equals_str(&l, "save") || equals_str(&l, "profiles")
        || equals_str(&l, "profile") || equals_str(&l, "data") || equals_str(&l, "config")
        || equals_str(&l, "settings") || equals_str(&l, "user") || equals_str(&l, "users")
        || equals_str(&l, "documents") || equals_str(&l, "my games") || equals_str(&l, "appdata")
        || equals_str(&l, "roaming") || equals_str(&l, "local") || equals_str(&l, "locallow")
        || equals_str(&l, "public") || equals_str(&l, "remote") || equals_str(&l, "steam")
        || equals_str(&l, "steamemu") || equals_str(&l, "goldberg") || equals_str(&l, "minecraft")
        || equals_str(&l, "versions") || equals_str(&l, "mods") || equals_str(&l, "libraries")
        || equals_str(&l, "bin") || equals_str(&l, "temp") || equals_str(&l, "cache");
    if generic {
        return false;
    }
    let version = count_of(&l, '.') >= 2 || starts_with_str(&l, "1.") || contains_str(&l, "-forge")
        || contains_str(&l, "-fabric") || contains_str(&l, "optifine") || has_prerelease_tag_exec(&l);
    !version
}

/// Scans well-known and custom roots for non-Steam saves.
#[derive(Debug)]
pub struct NonSteamScanner {
    pub common_locations: Vec<SaveLocation>,
    pub custom_locations: Vec<SaveLocation>,
}

impl NonSteamScanner {
    /// A scanner of the built-in roots of an environment, with no custom
    /// roots.
    pub fn new(d: &SystemDirs) -> (r: NonSteamScanner)
        ensures
            r.common_locations.len() == default_roots(*d).len(),
            forall|k: int| 0 <= k < r.common_locations.len() ==> root_matches(#[trigger] r.common_locations@[k], default_roots(*d)[k].0, default_roots(*d)[k].1, default_roots(*d)[k].2),
            r.custom_locations@.len() == 0,
    {
        NonSteamScanner { common_locations: get_default_locations(d), custom_locations: Vec::new() }
    }

    /// The same scanner with these custom roots instead of its own.
    pub fn with_custom_locations(self, custom_locations: Vec<SaveLocation>) -> (r: NonSteamScanner)
        ensures
            r.common_locations == self.common_locations,
            r.custom_locations == custom_locations,
    {
        NonSteamScanner { common_locations: self.common_locations, custom_locations }
    }

    /// Adds a custom root.
    pub fn add_custom_location(&mut self, location: SaveLocation)
        ensures
            final(self).custom_locations@ == old(self).custom_locations@.push(location),
            final(self).common_locations == old(self).common_locations,
    {
        self.custom_locations.push(location);
    }

    /// Removes every custom root at `path`, keeping the others in order.
    pub fn remove_custom_location(&mut self, path: &String)
        ensures
            final(self).custom_locations@ == without_path(old(self).custom_locations@, path@),
            final(self).common_locations == old(self).common_locations,
    {
        let mut kept: Vec<SaveLocation> = Vec::new();
        let ghost all = self.custom_locations@;
        let mut i: usize = 0;
        while i < self.custom_locations.len()
            invariant
                i <= self.custom_locations.len(),
                self.custom_locations@ == all,
                all == old(self).custom_locations@,
                self.common_locations == old(self).common_locations,
                kept@ == without_path(all.subrange(0, i as int), path@),
            decreases self.custom_locations.len() - i,
        {
            proof {
                assert(all.subrange(0, i + 1).drop_last() =~= all.subrange(0, i as int));
                assert(all.subrange(0, i + 1).last() == all[i as int]);
            }
            if self.custom_locations[i].path != *path {
                kept.push(self.custom_locations[i].duplicate());
            }
            i += 1;
        }
        proof {
            assert(all.subrange(0, all.len() as int) =~= all);
        }
        self.custom_locations = kept;
    }

    /// The built-in roots followed by the custom ones.
    pub fn get_all_locations(&self) -> (r: Vec<SaveLocation>)
        ensures
            r@ == self.common_locations@ + self.custom_locations@,
    {
        let mut v: Vec<SaveLocation> = Vec::new();
        let mut i: usize = 0;
        while i < self.common_locations.len()
            invariant
                i <= self.common_locations.len(),
                v@ == self.common_locations@.subrange(0, i as int),
            decreases self.common_locations.len() - i,
        {
            v.push(self.common_locations[i].duplicate());
            i += 1;
            proof {
                assert(v@ =~= self.common_locations@.subrange(0, i as int));
            }
        }
        let mut j: usize = 0;
        while j < self.custom_locations.len()
            invariant
                j <= self.custom_locations.len(),
                v@ == self.common_locations@ + self.custom_locations@.subrange(0, j as int),
            decreases self.custom_locations.len() - j,
        {
            proof {
                assert(self.common_locations@.subrange(0, self.common_locations.len() as int) =~= self.common_locations@);
            }
            v.push(self.custom_locations[j].duplicate());
            j += 1;
            proof {
                assert(v@ =~= self.common_locations@ + self.custom_locations@.subrange(0, j as int));
            }
        }
        proof {
            assert(self.custom_locations@.subrange(0, self.custom_locations.len() as int) =~= self.custom_locations@);
            assert(v@ =~= self.common_locations@ + self.custom_locations@);
        }
        v
    }

    /// Whether a path lies under a system, vendor, modding or tooling
    /// folder.
    pub fn is_system_directory(&self, path: &str) -> (r: bool)
        ensures
            r == is_system_path(lower_of(path@)),
    {
        let l = lower_chars(path);
        contains_str(&l, "windows") || contains_str(&l, "system32") || contains_str(&l, "program files")
            || contains_str(&l, "programdata") || contains_str(&l, "microsoft") || contains_str(&l, "adobe")
            || contains_str(&l, "google") || contains_str(&l, "mozilla") || contains_str(&l, "temp")
            || contains_str(&l, "cache") || contains_str(&l, "logs") || contains_str(&l, "crash")
            || contains_str(&l, "minecraft") || contains_str(&l, ".minecraft") || contains_str(&l, "mods")
            || contains_str(&l, "versions") || contains_str(&l, "libraries") || contains_str(&l, "node_modules")
            || contains_str(&l, ".git") || contains_str(&l, "target") || contains_str(&l, "build")
            || contains_str(&l, "bin") || contains_str(&l, "obj") || contains_str(&l, ".vs")
            || contains_str(&l, "__pycache__")
    }

    /// The strict rule: among the first entries a file has a save extension
    /// or a save-like name, and the folder is not a system folder.
    pub fn is_potential_game_save_directory(&self, dir: &DirListing) -> (r: bool)
        ensures
            r == (has_strict_save(dir.entries@) && !is_system_path(lower_of(dir.path@))),
    {
        let found = has_strict_save_exec(&dir.entries);
        found && !self.is_system_directory(dir.path.as_str())
    }

    /// A folder name made into a game name.
    pub fn clean_game_name(&self, name: &str) -> (r: String)
        ensures
            r@ == cleaned_name(name@),
    {
        let mut cur = chars_of(name);
        let sfx: Vec<&str> = vec![" - Save", " - Saves", " Save", " Saves", " - Config", " Config", " - Settings",
            " Settings", " - Profile", " Profile", " Profiles", " (Steam)", " (Non-Steam)",
            " (Cracked)"];
        let ghost all = noise_suffixes();
        proof {
            assert(all.subrange(0, all.len() as int) =~= all);
        }
        let mut k: usize = 0;
        while k < sfx.len()
            invariant
                sfx.len() == all.len(),
                forall|q: int| 0 <= q < sfx.len() ==> (#[trigger] sfx@[q])@ == all[q],
                k <= sfx.len(),
                strip_suffixes(cur@, all.subrange(k as int, all.len() as int)) == strip_suffixes(name@, all),
            decreases sfx.len() - k,
        {
            proof {
                assert(all.subrange(k as int, all.len() as int).drop_first() =~= all.subrange(k + 1, all.len() as int));
            }
            let s = chars_of(sfx[k]);
            if ends_with_str(&cur, sfx[k]) {
                let keep = cur.len() - s.len();
                let mut t: Vec<char> = Vec::new();
                let mut i: usize = 0;
                while i < keep
                    invariant
                        keep <= cur.len(),
                        i <= keep,
                        t@ == cur@.subrange(0, i as int),
                    decreases keep - i,
                {
                    t.push(cur[i]);
                    i += 1;
                    proof {
                        assert(t@ =~= cur@.subrange(0, i as int));
                    }
                }
                cur = t;
            }
            k += 1;
        }
        proof {
            assert(all.subrange(all.len() as int, all.len() as int) =~= Seq::<Seq<char>>::empty());
        }
        let spaced = replaced(&cur, '_', ' ');
        let ws = split_words(&spaced);
        let ghost wall = words(spaced@);
        let mut out: Vec<char> = Vec::new();
        let mut i: usize = 0;
        proof {
            assert(wall.subrange(0, 0) =~= Seq::<Seq<char>>::empty());
        }
        while i < ws.len()
            invariant
                i <= ws.len(),
                ws.len() == wall.len(),
                forall|q: int| 0 <= q < ws.len() ==> #[trigger] ws[q]@ == wall[q],
                title_words(wall.subrange(0, i as int)).len() == i,
                out@ == join_space(title_words(wall.subrange(0, i as int))),
            decreases ws.len() - i,
        {
            proof {
                assert(wall.subrange(0, i + 1).drop_last() =~= wall.subrange(0, i as int));
                assert(wall.subrange(0, i + 1).last() == ws[i as int]@);
            }
            let w = &ws[i];
            let tw = title_case(w);
            push_word(&mut out, &tw, i, Ghost(title_words(wall.subrange(0, i as int))));
            i += 1;
        }
        proof {
            assert(wall.subrange(0, ws.len() as int) =~= wall);
        }
        let t = trimmed(&out);
        string_from_chars(t.as_slice())
    }

    /// The game name read off a folder's path: the segment nearest the leaf
    /// that is neither generic nor version-like, else the folder's own name,
    /// cleaned.
    pub fn extract_game_name_from_path(&self, components: &Vec<String>, file_name: &Option<String>) -> (r: Option<String>)
        ensures
            match game_name_of(components@, *file_name) {
                Some(n) => r matches Some(s) && s@ == n,
                None => r is None,
            },
    {
        let mut k: usize = components.len();
        proof {
            assert(components@.subrange(0, k as int) =~= components@);
        }
        while k > 0
            invariant
                k <= components.len(),
                naming_segment(components@) == naming_segment(components@.subrange(0, k as int)),
            decreases k,
        {
            proof {
                assert(components@.subrange(0, k as int).drop_last() =~= components@.subrange(0, k - 1));
                assert(components@.subrange(0, k as int).last() == components@[k - 1]);
            }
            if names_game_exec(&components[k - 1]) {
                return Some(self.clean_game_name(components[k - 1].as_str()));
            }
            k -= 1;
        }
        match file_name {
            Some(f) => Some(self.clean_game_name(f.as_str())),
            None => None,
        }
    }

    /// The saves among the folders of one walked root: every folder that
    /// passes the strict rule and yields a game name, in walk order.
    pub fn scan_location(&self, dirs: &Vec<DirListing>) -> (r: Vec<GameSave>)
        ensures
            r.len() == save_dirs(dirs@).len(),
            forall|k: int| 0 <= k < r.len() ==> found_save(#[trigger] r@[k], save_dirs(dirs@)[k]),
    {
        let mut out: Vec<GameSave> = Vec::new();
        let mut i: usize = 0;
        while i < dirs.len()
            invariant
                i <= dirs.len(),
                out.len() == save_dirs(dirs@.subrange(0, i as int)).len(),
                forall|k: int| 0 <= k < out.len() ==> found_save(#[trigger] out@[k], save_dirs(dirs@.subrange(0, i as int))[k]),
            decreases dirs.len() - i,
        {
            proof {
                assert(dirs@.subrange(0, i + 1).drop_last() =~= dirs@.subrange(0, i as int));
                assert(dirs@.subrange(0, i + 1).last() == dirs@[i as int]);
            }
            let ghost before = save_dirs(dirs@.subrange(0, i as int));
            let ghost old_out = out@;
            let d = &dirs[i];
            if self.is_potential_game_save_directory(d) {
                match self.extract_game_name_from_path(&d.components, &d.file_name) {
                    Some(name) => {
                        out.push(GameSave::new(name, d.path.clone(), SaveType::NonSteam, None, d.last_modified, d.size));
                        proof {
                            assert forall|k: int| 0 <= k < out.len() implies found_save(#[trigger] out@[k], save_dirs(dirs@.subrange(0, i + 1))[k]) by {
                                if k < old_out.len() {
                                    assert(out@[k] == old_out[k]);
                                }
                            }
                        }
                    },
                    None => {},
                }
            }
            i += 1;
        }
        proof {
            assert(dirs@.subrange(0, dirs.len() as int) =~= dirs@);
        }
        out
    }

    /// The saves of all roots, root by root, given each root's walk.
    pub fn scan_non_steam_saves(&self, walks: &Vec<Vec<DirListing>>) -> (r: Vec<GameSave>)
        ensures
            r.len() == saves_in_walks(walks@).len(),
            forall|k: int| 0 <= k < r.len() ==> found_save(#[trigger] r@[k], saves_in_walks(walks@)[k]),
    {
        let mut out: Vec<GameSave> = Vec::new();
        let mut i: usize = 0;
        while i < walks.len()
            invariant
                i <= walks.len(),
                out.len() == saves_in_walks(walks@.subrange(0, i as int)).len(),
                forall|k: int| 0 <= k < out.len() ==> found_save(#[trigger] out@[k], saves_in_walks(walks@.subrange(0, i as int))[k]),
            decreases walks.len() - i,
        {
            proof {
                assert(walks@.subrange(0, i + 1).drop_last() =~= walks@.subrange(0, i as int));
                assert(walks@.subrange(0, i + 1).last() == walks@[i as int]);
            }
            let ghost base = out@;
            let ghost prev = saves_in_walks(walks@.subrange(0, i as int));
            let found = self.scan_location(&walks[i]);
            let mut j: usize = 0;
            while j < found.len()
                invariant
                    j <= found.len(),
                    base.len() == prev.len(),
                    out.len() == base.len() + j,
                    forall|k: int| 0 <= k < base.len() ==> #[trigger] out@[k] == base[k],
                    forall|k: int| 0 <= k < j ==> #[trigger] out@[base.len() + k] == found@[k],
                decreases found.len() - j,
            {
                out.push(found[j].duplicate());
                j += 1;
            }
            proof {
                let cur = saves_in_walks(walks@.subrange(0, i + 1));
                assert(cur == prev + save_dirs(walks@[i as int]@));
                assert forall|k: int| 0 <= k < out.len() implies found_save(#[trigger] out@[k], cur[k]) by {
                    if k < base.len() {
                        assert(out@[k] == base[k]);
                    } else {
                        assert(out@[base.len() + (k - base.len())] == found@[k - base.len()]);
                    }
                }
            }
            i += 1;
        }
        proof {
            assert(walks@.subrange(0, walks.len() as int) =~= walks@);
        }
        out
    }

    /// The subfolders of a game's install folder that may hold saves, in the
    /// order they are tried.
    pub fn install_save_subdirs(&self) -> (r: Vec<String>)
        ensures
            r.len() == 7,
            r@[0]@ == "Save"@,
            r@[1]@ == "Saves"@,
            r@[2]@ == "Saved"@,
            r@[3]@ == "Profile"@,
            r@[4]@ == "Profiles"@,
            r@[5]@ == "Data"@,
            r@[6]@ == "User"@,
    {
        let mut v: Vec<String> = Vec::new();
        v.push(String::from_str("Save"));
        v.push(String::from_str("Saves"));
        v.push(String::from_str("Saved"));
        v.push(String::from_str("Profile"));
        v.push(String::from_str("Profiles"));
        v.push(String::from_str("Data"));
        v.push(String::from_str("User"));
        v
    }

    /// The save in a game's install folder: the first of its save subfolders
    /// (listed in the order of `install_save_subdirs`, absent ones as none)
    /// that passes the strict rule, named `<game> (Install)`.
    pub fn scan_game_install_directory(&self, subdirs: &Vec<Option<DirListing>>, game_name: &str) -> (r: Option<GameSave>)
        ensures
            match first_save_subdir(subdirs@) {
                Some(k) => r matches Some(g) && {
                    let d = subdirs@[k]->0;
                    &&& g.name@ == game_name@ + " (Install)"@
                    &&& g.save_path == d.path
                    &&& g.save_type == SaveType::NonSteam
                    &&& g.app_id is None
                    &&& g.last_modified == d.last_modified
                    &&& g.size == d.size
                },
                None => r is None,
            },
    {
        let mut i: usize = 0;
        proof {
            assert(subdirs@.subrange(0, subdirs.len() as int) =~= subdirs@);
        }
        while i < subdirs.len()
            invariant
                i <= subdirs.len(),
                first_save_subdir(subdirs@) == first_save_subdir_from(subdirs@, i as int),
            decreases subdirs.len() - i,
        {
            match &subdirs[i] {
                Some(d) => {
                    if self.is_potential_game_save_directory(d) {
                        let mut v = chars_of(game_name);
                        let tail = chars_of(" (Install)");
                        extend_chars(&mut v, &tail);
                        let name = string_from_chars(v.as_slice());
                        return Some(GameSave::new(name, d.path.clone(), SaveType::NonSteam, None, d.last_modified, d.size));
                    }
                },
                None => {},
            }
            i += 1;
        }
        None
    }
}

/// The locations of `ls` not at `path`, in order.
pub open spec fn without_path(ls: Seq<SaveLocation>, path: Seq<char>) -> Seq<SaveLocation>
    decreases ls.len(),
{
    if ls.len() == 0 {
        ls
    } else {
        let r = without_path(ls.drop_last(), path);
        if ls.last().path@ != path {
            r.push(ls.last())
        } else {
            r
        }
    }
}

/// The first listed subfolder, from position `i` on, that passes the
/// strict rule.
pub open spec fn first_save_subdir_from(subdirs: Seq<Option<DirListing>>, i: int) -> Option<int>
    decreases subdirs.len() - i,
{
    if i < 0 || i >= subdirs.len() {
        None
    } else if subdirs[i] is Some && has_strict_save(subdirs[i]->0.entries@) && !is_system_path(
        lower_of(subdirs[i]->0.path@),
    ) {
        Some(i)
    } else {
        first_save_subdir_from(subdirs, i + 1)
    }
}

/// The first listed subfolder that passes the strict rule.
pub open spec fn first_save_subdir(subdirs: Seq<Option<DirListing>>) -> Option<int> {
    first_save_subdir_from(subdirs, 0)
}

/// A folder that is reported as a save: it passes the strict rule and its
/// path yields a game name.
pub open spec fn is_save_dir(d: DirListing) -> bool {
    has_strict_save(d.entries@) && !is_system_path(lower_of(d.path@)) && game_name_of(
        d.components@,
        d.file_name,
    ) is Some
}

/// The folders of a walk that are reported as saves, in order.
pub open spec fn save_dirs(dirs: Seq<DirListing>) -> Seq<DirListing>
    decreases dirs.len(),
{
    if dirs.len() == 0 {
        Seq::empty()
    } else {
        let r = save_dirs(dirs.drop_last());
        if is_save_dir(dirs.last()) {
            r.push(dirs.last())
        } else {
            r
        }
    }
}

/// The folders reported as saves over several walks, walk by walk.
pub open spec fn saves_in_walks(walks: Seq<Vec<DirListing>>) -> Seq<DirListing>
    decreases walks.len(),
{
    if walks.len() == 0 {
        Seq::empty()
    } else {
        saves_in_walks(walks.drop_last()) + save_dirs(walks.last()@)
    }
}

/// The save record for a reported folder.
pub open spec fn found_save(g: GameSave, d: DirListing) -> bool {
    &&& g.name@ == game_name_of(d.components@, d.file_name)->0
    &&& g.save_path == d.path
    &&& g.save_type == SaveType::NonSteam
    &&& g.app_id is None
    &&& g.last_modified == d.last_modified
    &&& g.size == d.size
    &&& g.backup_count == 0
    &&& !g.is_synced
}

fn has_strict_save_exec(entries: &Vec<DirEntryInfo>) -> (r: bool)
    ensures
        r == has_strict_save(entries@),
{
    let mut i: usize = 0;
    while i < entries.len() && i < STRICT_ENTRY_CAP
        invariant
            i <= entries.len(),
            i <= STRICT_ENTRY_CAP,
            forall|k: int| 0 <= k < i ==> !((#[trigger] entries@[k]).is_file && marks_save_strictly(entries@[k].name@)),
        decreases entries.len() - i,
    {
        let e = &entries[i];
        if e.is_file && marks_save_strictly_exec(&e.name) {
            return true;
        }
        i += 1;
    }
    false
}

fn title_case(w: &Vec<char>) -> (r: Vec<char>)
    ensures
        r@ == title_word(w@),
{
    if w.len() == 0 {
        return Vec::new();
    }
    let first = uppercase_char(w[0]);
    let mut out = chars_of(first.as_str());
    let mut rest: Vec<char> = Vec::new();
    let mut i: usize = 1;
    while i < w.len()
        invariant
            1 <= i <= w.len(),
            rest@ == w@.subrange(1, i as int),
        decreases w.len() - i,
    {
        rest.push(w[i]);
        i += 1;
        proof {
            assert(rest@ =~= w@.subrange(1, i as int));
        }
    }
    proof {
        assert(rest@ =~= w@.drop_first());
    }
    let rs = string_from_chars(rest.as_slice());
    let lower = lower_chars(rs.as_str());
    extend_chars(&mut out, &lower);
    out
}

} // verus!
