//! The Steam scanner: which title folders hold saves, what the titles are
//! called, and one record per title across accounts.
//!
//! Steam keeps cloud saves under `<root>/<account>/<title id>/remote`. The
//! caller lists those folders; the scanner classifies them with a lenient
//! rule, since the `remote` folder is where Steam itself keeps saves.
use vstd::prelude::*;
use std::collections::HashMap;
use crate::text::{
    chars_of, contains_str, decimal, decimal_chars, equals_str, extend_chars, has_infix,
    has_prefix, is_digit, lower_chars, lower_of, parse_u32, parses_as_u32, starts_with_str,
    string_from_chars, digits_value, unsigned_digits,
};
use crate::types::{earlier, GameSave, SaveGuardianError, SaveType, SteamUser, Timestamp};
use crate::sync::utf8_size;

verus! {

broadcast use vstd::std_specs::hash::group_hash_axioms;

// ---------------------------------------------------------------------------
// Listings handed in by the caller
// ---------------------------------------------------------------------------

/// One entry of a bounded walk of a folder, the folder itself included.
#[derive(Debug)]
pub enum WalkItem {
    /// A file, by its file name.
    File(String),
    /// A directory.
    Dir,
    /// An entry the walk could not read, with the reason.
    Unreadable(String),
}

/// A title's `remote` folder: its path, its walk (three levels deep), and
/// the modification time and size the filesystem reports for it.
#[derive(Debug)]
pub struct RemoteListing {
    pub path: String,
    pub entries: Vec<WalkItem>,
    pub last_modified: Option<Timestamp>,
    pub size: u64,
}

/// A folder inside an account folder, by name, with its `remote` folder
/// when that exists and is a directory.
#[derive(Debug)]
pub struct AppDirListing {
    pub name: String,
    pub remote: Option<RemoteListing>,
}

/// A folder of the Steam user-data root, with its subfolders, or none when
/// they could not be read.
#[derive(Debug)]
pub struct UserDirListing {
    pub name: String,
    pub path: String,
    pub apps: Option<Vec<AppDirListing>>,
}

// ---------------------------------------------------------------------------
// The lenient save-folder rule
// ---------------------------------------------------------------------------

/// The position of the last `.` in `s`.
pub open spec fn last_dot(s: Seq<char>) -> Option<int>
    decreases s.len(),
{
    if s.len() == 0 {
        None
    } else if s.last() == '.' {
        Some(s.len() - 1)
    } else {
        last_dot(s.drop_last())
    }
}

/// The extension of a file name as `Path::extension` finds it: what follows
/// the last `.`, unless that `.` is the first character or the name is `..`.
pub open spec fn extension_of(name: Seq<char>) -> Option<Seq<char>> {
    if name == ".."@ {
        None
    } else {
        match last_dot(name) {
            Some(k) => if k == 0 {
                None
            } else {
                Some(name.subrange(k + 1, name.len() as int))
            },
            None => None,
        }
    }
}

/// Extensions that mark a file in a `remote` folder as save data.
pub open spec fn is_lenient_extension(e: Seq<char>) -> bool {
    e == "sav"@ || e == "save"@ || e == "savegame"@ || e == "dat"@ || e == "bin"@ || e == "json"@
}

/// A file name that marks its folder as a save folder at once.
pub open spec fn marks_save(name: Seq<char>) -> bool {
    (match extension_of(name) {
        Some(e) => is_lenient_extension(lower_of(e)),
        None => false,
    }) || has_infix(lower_of(name), "save"@)
}

/// How many files the lenient rule looks at before it settles.
pub const LENIENT_FILE_CAP: usize = 30;

/// The lenient verdict over the rest of a walk, `seen` files in: `None` when
/// an unreadable entry comes before the verdict. A marking file settles it;
/// so does the file after the cap; at the end, any file at all qualifies.
pub open spec fn lenient_verdict(items: Seq<WalkItem>, seen: nat) -> Option<bool>
    decreases items.len(),
{
    if items.len() == 0 {
        Some(seen > 0)
    } else {
        match items[0] {
            WalkItem::Unreadable(_) => None,
            WalkItem::Dir => lenient_verdict(items.drop_first(), seen),
            WalkItem::File(n) => if marks_save(n@) || seen + 1 > LENIENT_FILE_CAP {
                Some(true)
            } else {
                lenient_verdict(items.drop_first(), seen + 1)
            },
        }
    }
}

/// The extension of a file name.
pub fn extension(name: &Vec<char>) -> (r: Option<Vec<char>>)
    ensures
        match extension_of(name@) {
            Some(e) => r matches Some(v) && v@ == e,
            None => r is None,
        },
{
    if equals_str(name, "..") {
        return None;
    }
    let mut k: usize = name.len();
    proof {
        assert(name@.subrange(0, k as int) =~= name@);
    }
    while k > 0 && name[k - 1] != '.'
        invariant
            k <= name.len(),
            last_dot(name@) == last_dot(name@.subrange(0, k as int)),
        decreases k,
    {
        proof {
            assert(name@.subrange(0, k as int).drop_last() =~= name@.subrange(0, k - 1));
        }
        k -= 1;
    }
    proof {
        assert(name@.subrange(0, name.len() as int) =~= name@);
    }
    if k <= 1 {
        proof {
            if k == 1 {
                assert(name@.subrange(0, 1).last() == '.');
            }
        }
        return None;
    }
    let mut e: Vec<char> = Vec::new();
    let mut i: usize = k;
    while i < name.len()
        invariant
            k <= i <= name.len(),
            e@ == name@.subrange(k as int, i as int),
        decreases name.len() - i,
    {
        e.push(name[i]);
        i += 1;
        proof {
            assert(e@ =~= name@.subrange(k as int, i as int));
        }
    }
    Some(e)
}

fn marks_save_exec(name: &String) -> (r: bool)
    ensures
        r == marks_save(name@),
{
    let v = chars_of(name.as_str());
    let by_ext = match extension(&v) {
        Some(e) => {
            let es = string_from_chars(e.as_slice());
            let l = lower_chars(es.as_str());
            equals_str(&l, "sav") || equals_str(&l, "save") || equals_str(&l, "savegame")
                || equals_str(&l, "dat") || equals_str(&l, "bin") || equals_str(&l, "json")
        },
        None => false,
    };
    if by_ext {
        return true;
    }
    let l = lower_chars(name.as_str());
    contains_str(&l, "save")
}

/// How many files the strict Steam rule looks at.
pub const STRICT_FILE_CAP: usize = 20;

/// A file name that marks a Steam folder as a save folder under the strict
/// rule: a save extension, or a save-like name that is not configuration,
/// cache, temporary data or a log.
pub open spec fn marks_steam_save_strictly(name: Seq<char>) -> bool {
    let l = lower_of(name);
    (match extension_of(name) {
        Some(e) => {
            let le = lower_of(e);
            le == "sav"@ || le == "save"@ || le == "savegame"@
        },
        None => false,
    }) || ((has_infix(l, "save"@) || has_infix(l, "savegame"@)) && !has_infix(l, "config"@)
        && !has_infix(l, "settings"@) && !has_infix(l, "cache"@) && !has_infix(l, "temp"@)
        && !has_infix(l, "log"@))
}

/// The strict verdict over the rest of a walk, `seen` files in: `None` when
/// an unreadable entry comes first. A marking file settles it; past the cap
/// the folder does not qualify.
pub open spec fn strict_verdict(items: Seq<WalkItem>, seen: nat) -> Option<bool>
    decreases items.len(),
{
    if items.len() == 0 {
        Some(false)
    } else {
        match items[0] {
            WalkItem::Unreadable(_) => None,
            WalkItem::Dir => strict_verdict(items.drop_first(), seen),
            WalkItem::File(n) => if marks_steam_save_strictly(n@) {
                Some(true)
            } else if seen + 1 > STRICT_FILE_CAP {
                Some(false)
            } else {
                strict_verdict(items.drop_first(), seen + 1)
            },
        }
    }
}

fn marks_steam_save_strictly_exec(name: &String) -> (r: bool)
    ensures
        r == marks_steam_save_strictly(name@),
{
    let v = chars_of(name.as_str());
    let by_ext = match extension(&v) {
        Some(e) => {
            let es = string_from_chars(e.as_slice());
            let l = lower_chars(es.as_str());
            equals_str(&l, "sav") || equals_str(&l, "save") || equals_str(&l, "savegame")
        },
        None => false,
    };
    if by_ext {
        return true;
    }
    let l = lower_chars(name.as_str());
    (contains_str(&l, "save") || contains_str(&l, "savegame")) && !contains_str(&l, "config")
        && !contains_str(&l, "settings") && !contains_str(&l, "cache") && !contains_str(&l, "temp")
        && !contains_str(&l, "log")
}

// ---------------------------------------------------------------------------
// Names
// ---------------------------------------------------------------------------

/// A cached name that should be looked up again.
pub open spec fn is_incorrect_name(name: Seq<char>) -> bool {
    has_prefix(name, "Unknown Game"@) || has_infix(name, "(ac)"@) || has_infix(name, "(workshop)"@)
        || has_infix(name, "(screenshots)"@) || parses_as_u32(name) || name.len() == 0 || name
        == "null"@ || utf8_size(name) < 3
}

/// The name used when no source knows a title.
pub open spec fn placeholder_name(app_id: u32) -> Seq<char> {
    "Unknown Game "@ + decimal(app_id as nat)
}

/// The cache holds a trustworthy name for `app_id`.
pub open spec fn has_trusted_name(cache: Map<u32, String>, app_id: u32) -> bool {
    cache.contains_key(app_id) && !is_incorrect_name(cache[app_id]@)
}

/// The name `get_game_name` settles on, given what a lookup found.
pub open spec fn settled_name(cache: Map<u32, String>, app_id: u32, fetched: Option<String>) -> Seq<char> {
    if has_trusted_name(cache, app_id) {
        cache[app_id]@
    } else {
        match fetched {
            Some(n) => n@,
            None => placeholder_name(app_id),
        }
    }
}

/// The first name that `fetched` holds for `app_id`.
pub open spec fn lookup_fetched(fetched: Seq<(u32, String)>, app_id: u32) -> Option<String>
    decreases fetched.len(),
{
    if fetched.len() == 0 {
        None
    } else if fetched[0].0 == app_id {
        Some(fetched[0].1)
    } else {
        lookup_fetched(fetched.drop_first(), app_id)
    }
}

/// The known names of popular titles; where a title is listed twice the
/// later name stands.
pub open spec fn known_title(app_id: u32) -> Option<Seq<char>> {
    if app_id == 570 { Some("Dota 2"@) }
    else if app_id == 730 { Some("Counter-Strike: Global Offensive"@) }
    else if app_id == 440 { Some("Team Fortress 2"@) }
    else if app_id == 578080 { Some("PLAYERUNKNOWN'S BATTLEGROUNDS"@) }
    else if app_id == 252490 { Some("Rust"@) }
    else if app_id == 377160 { Some("Fallout 4"@) }
    else if app_id == 1172470 { Some("Apex Legends"@) }
    else if app_id == 1938090 { Some("Call of Duty: Modern Warfare II"@) }
    else if app_id == 271590 { Some("Grand Theft Auto V"@) }
    else if app_id == 292030 { Some("The Witcher 3: Wild Hunt"@) }
    else if app_id == 367520 { Some("Hollow Knight"@) }
    else if app_id == 431960 { Some("Wallpaper Engine"@) }
    else if app_id == 1174180 { Some("Red Dead Redemption 2"@) }
    else if app_id == 435150 { Some("Divinity: Original Sin 2"@) }
    else if app_id == 489830 { Some("The Elder Scrolls V: Skyrim Special Edition"@) }
    else if app_id == 896660 { Some("Valheim"@) }
    else if app_id == 892970 { Some("Valheim Dedicated Server"@) }
    else if app_id == 1063730 { Some("New World"@) }
    else if app_id == 548430 { Some("Deep Rock Galactic"@) }
    else if app_id == 674940 { Some("Stick Fight: The Game"@) }
    else if app_id == 1325200 { Some("Phasmophobia"@) }
    else if app_id == 739630 { Some("Phasmophobia Beta"@) }
    else if app_id == 291550 { Some("Brawlhalla"@) }
    else if app_id == 413150 { Some("Stardew Valley"@) }
    else if app_id == 646570 { Some("Slay the Spire"@) }
    else if app_id == 1091500 { Some("Cyberpunk 2077"@) }
    else if app_id == 620980 { Some("Beat Saber"@) }
    else if app_id == 322330 { Some("Don't Starve Together"@) }
    else if app_id == 239140 { Some("Dying Light"@) }
    else if app_id == 881020 { Some("Dying Light: The Following"@) }
    else if app_id == 534380 { Some("Dying Light: Bad Blood"@) }
    else if app_id == 1966720 { Some("Dying Light 2 Stay Human"@) }
    else if app_id == 394360 { Some("Hearts of Iron IV"@) }
    else if app_id == 281990 { Some("Stellaris"@) }
    else if app_id == 236850 { Some("Europa Universalis IV"@) }
    else if app_id == 1158310 { Some("Crusader Kings III"@) }
    else if app_id == 255710 { Some("Cities: Skylines"@) }
    else if app_id == 823500 { Some("Satisfactory"@) }
    else if app_id == 544550 { Some("Kaspersky Rescue Disk"@) }
    else if app_id == 1384160 { Some("Street Fighter 6"@) }
    else if app_id == 1778820 { Some("Tekken 8"@) }
    else if app_id == 582010 { Some("Monster Hunter: World"@) }
    else if app_id == 1551360 { Some("Forza Horizon 5"@) }
    else if app_id == 1293830 { Some("Forza Horizon 4"@) }
    else if app_id == 1172620 { Some("Sea of Thieves"@) }
    else if app_id == 546560 { Some("Half-Life: Alyx"@) }
    else if app_id == 359550 { Some("Tom Clancy's Rainbow Six Siege"@) }
    else if app_id == 550 { Some("Left 4 Dead 2"@) }
    else if app_id == 4000 { Some("Garry's Mod"@) }
    else if app_id == 105600 { Some("Terraria"@) }
    else if app_id == 72850 { Some("The Elder Scrolls V: Skyrim"@) }
    else if app_id == 8930 { Some("Sid Meier's Civilization V"@) }
    else if app_id == 289070 { Some("Sid Meier's Civilization VI"@) }
    else if app_id == 812140 { Some("Assassin's Creed Odyssey"@) }
    else if app_id == 881100 { Some("Assassin's Creed Origins"@) }
    else if app_id == 1693980 { Some("Assassin's Creed Mirage"@) }
    else if app_id == 306130 { Some("The Elder Scrolls Online"@) }
    else if app_id == 39120 { Some("Final Fantasy XIV Online"@) }
    else if app_id == 230410 { Some("Warframe"@) }
    else if app_id == 238960 { Some("Path of Exile"@) }
    else if app_id == 381210 { Some("Dead by Daylight"@) }
    else if app_id == 1449850 { Some("Yu-Gi-Oh! Master Duel"@) }
    else { None }
}

fn known_title_name(app_id: u32) -> (r: Option<String>)
    ensures
        match known_title(app_id) {
            Some(n) => r matches Some(s) && s@ == n,
            None => r is None,
        },
{
    let s: &str = if app_id == 570 { "Dota 2" }
    else if app_id == 730 { "Counter-Strike: Global Offensive" }
    else if app_id == 440 { "Team Fortress 2" }
    else if app_id == 578080 { "PLAYERUNKNOWN'S BATTLEGROUNDS" }
    else if app_id == 252490 { "Rust" }
    else if app_id == 377160 { "Fallout 4" }
    else if app_id == 1172470 { "Apex Legends" }
    else if app_id == 1938090 { "Call of Duty: Modern Warfare II" }
    else if app_id == 271590 { "Grand Theft Auto V" }
    else if app_id == 292030 { "The Witcher 3: Wild Hunt" }
    else if app_id == 367520 { "Hollow Knight" }
    else if app_id == 431960 { "Wallpaper Engine" }
    else if app_id == 1174180 { "Red Dead Redemption 2" }
    else if app_id == 435150 { "Divinity: Original Sin 2" }
    else if app_id == 489830 { "The Elder Scrolls V: Skyrim Special Edition" }
    else if app_id == 896660 { "Valheim" }
    else if app_id == 892970 { "Valheim Dedicated Server" }
    else if app_id == 1063730 { "New World" }
    else if app_id == 548430 { "Deep Rock Galactic" }
    else if app_id == 674940 { "Stick Fight: The Game" }
    else if app_id == 1325200 { "Phasmophobia" }
    else if app_id == 739630 { "Phasmophobia Beta" }
    else if app_id == 291550 { "Brawlhalla" }
    else if app_id == 413150 { "Stardew Valley" }
    else if app_id == 646570 { "Slay the Spire" }
    else if app_id == 1091500 { "Cyberpunk 2077" }
    else if app_id == 620980 { "Beat Saber" }
    else if app_id == 322330 { "Don't Starve Together" }
    else if app_id == 239140 { "Dying Light" }
    else if app_id == 881020 { "Dying Light: The Following" }
    else if app_id == 534380 { "Dying Light: Bad Blood" }
    else if app_id == 1966720 { "Dying Light 2 Stay Human" }
    else if app_id == 394360 { "Hearts of Iron IV" }
    else if app_id == 281990 { "Stellaris" }
    else if app_id == 236850 { "Europa Universalis IV" }
    else if app_id == 1158310 { "Crusader Kings III" }
    else if app_id == 255710 { "Cities: Skylines" }
    else if app_id == 823500 { "Satisfactory" }
    else if app_id == 544550 { "Kaspersky Rescue Disk" }
    else if app_id == 1384160 { "Street Fighter 6" }
    else if app_id == 1778820 { "Tekken 8" }
    else if app_id == 582010 { "Monster Hunter: World" }
    else if app_id == 1551360 { "Forza Horizon 5" }
    else if app_id == 1293830 { "Forza Horizon 4" }
    else if app_id == 1172620 { "Sea of Thieves" }
    else if app_id == 546560 { "Half-Life: Alyx" }
    else if app_id == 359550 { "Tom Clancy's Rainbow Six Siege" }
    else if app_id == 550 { "Left 4 Dead 2" }
    else if app_id == 4000 { "Garry's Mod" }
    else if app_id == 105600 { "Terraria" }
    else if app_id == 72850 { "The Elder Scrolls V: Skyrim" }
    else if app_id == 8930 { "Sid Meier's Civilization V" }
    else if app_id == 289070 { "Sid Meier's Civilization VI" }
    else if app_id == 812140 { "Assassin's Creed Odyssey" }
    else if app_id == 881100 { "Assassin's Creed Origins" }
    else if app_id == 1693980 { "Assassin's Creed Mirage" }
    else if app_id == 306130 { "The Elder Scrolls Online" }
    else if app_id == 39120 { "Final Fantasy XIV Online" }
    else if app_id == 230410 { "Warframe" }
    else if app_id == 238960 { "Path of Exile" }
    else if app_id == 381210 { "Dead by Daylight" }
    else if app_id == 1449850 { "Yu-Gi-Oh! Master Duel" }
    else { return None; };
    Some(String::from_str(s))
}

/// The titles the known-name table lists, each once.
pub open spec fn known_title_ids() -> Seq<u32> {
    seq![570u32, 730, 440, 578080, 252490, 377160, 1172470, 1938090, 271590, 292030, 367520,
        431960, 1174180, 435150, 489830, 896660, 892970, 1063730, 548430, 674940, 1325200, 739630,
        291550, 413150, 646570, 1091500, 620980, 322330, 239140, 881020, 534380, 1966720, 394360,
        281990, 236850, 1158310, 255710, 823500, 544550, 1384160, 1778820, 582010, 1551360,
        1293830, 1172620, 546560, 359550, 550, 4000, 105600, 72850, 8930, 289070, 812140, 881100,
        1693980, 306130, 39120, 230410, 238960, 381210, 1449850]
}

/// What a lookup found, or the placeholder when it found nothing.
pub open spec fn found_or_placeholder(fetched: Option<String>, app_id: u32) -> Seq<char> {
    match fetched {
        Some(n) => n@,
        None => placeholder_name(app_id),
    }
}

/// The title id a folder name stands for.
pub open spec fn title_id_of(name: Seq<char>) -> u32 {
    digits_value(unsigned_digits(name)) as u32
}

/// A title folder whose `remote` folder qualifies under the lenient rule.
pub open spec fn app_qualifies(app: AppDirListing) -> bool {
    parses_as_u32(app.name@) && app.remote is Some && lenient_verdict(app.remote->0.entries@, 0)
        == Some(true)
}

/// The title folders of an account that hold saves, in order.
pub open spec fn qualifying_apps(apps: Seq<AppDirListing>) -> Seq<AppDirListing>
    decreases apps.len(),
{
    if apps.len() == 0 {
        Seq::empty()
    } else {
        let r = qualifying_apps(apps.drop_last());
        if app_qualifies(apps.last()) {
            r.push(apps.last())
        } else {
            r
        }
    }
}

/// An account folder the scan reports: numeric name, readable contents.
pub open spec fn is_account_dir(u: UserDirListing) -> bool {
    (forall|i: int| 0 <= i < u.name@.len() ==> is_digit(#[trigger] u.name@[i])) && u.apps is Some
}

/// The account folders the scan reports, in order.
pub open spec fn account_dirs(users: Seq<UserDirListing>) -> Seq<UserDirListing>
    decreases users.len(),
{
    if users.len() == 0 {
        Seq::empty()
    } else {
        let r = account_dirs(users.drop_last());
        if is_account_dir(users.last()) {
            r.push(users.last())
        } else {
            r
        }
    }
}

/// The save found in a qualifying title folder, but for its name.
pub open spec fn save_matches_app(g: GameSave, app: AppDirListing) -> bool {
    &&& g.save_type == SaveType::Steam
    &&& g.app_id == Some(title_id_of(app.name@))
    &&& g.save_path == app.remote->0.path
    &&& g.last_modified == app.remote->0.last_modified
    &&& g.size == app.remote->0.size
    &&& g.backup_count == 0
    &&& !g.is_synced
}

/// Each save's name is the cached name of its title, and a name the cache
/// would not trust is what the lookup found (or the placeholder).
pub open spec fn names_settled(games: Seq<GameSave>, cache: Map<u32, String>, fetched: Seq<(u32, String)>) -> bool {
    forall|k: int|
        0 <= k < games.len() ==> {
            let g = #[trigger] games[k];
            let id = g.app_id->0;
            &&& g.app_id is Some
            &&& cache.contains_key(id)
            &&& cache[id]@ == g.name@
            &&& is_incorrect_name(g.name@) ==> g.name@ == found_or_placeholder(
                lookup_fetched(fetched, id),
                id,
            )
        }
}

proof fn lemma_names_stay_settled(
    games: Seq<GameSave>,
    cache: Map<u32, String>,
    cache2: Map<u32, String>,
    fetched: Seq<(u32, String)>,
    id: u32,
    r: String,
)
    requires
        names_settled(games, cache, fetched),
        r@ == settled_name(cache, id, lookup_fetched(fetched, id)),
        has_trusted_name(cache, id) ==> cache2 == cache,
        !has_trusted_name(cache, id) ==> cache2 == cache.insert(id, r),
    ensures
        names_settled(games, cache2, fetched),
{
    assert forall|k: int| 0 <= k < games.len() implies {
        let g = #[trigger] games[k];
        let gid = g.app_id->0;
        &&& g.app_id is Some
        &&& cache2.contains_key(gid)
        &&& cache2[gid]@ == g.name@
        &&& is_incorrect_name(g.name@) ==> g.name@ == found_or_placeholder(
            lookup_fetched(fetched, gid),
            gid,
        )
    } by {
    }
}

// ---------------------------------------------------------------------------
// One record per title
// ---------------------------------------------------------------------------

/// `a` was modified more recently than `b`; a time beats no time.
pub open spec fn newer(a: GameSave, b: GameSave) -> bool {
    match (a.last_modified, b.last_modified) {
        (Some(x), Some(y)) => earlier(y, x),
        (Some(_), None) => true,
        _ => false,
    }
}

/// The save at `k` is kept when saves of one title are merged: it has no
/// title id, or no save of its title is newer and every earlier save of its
/// title is older (so the first of equally new saves is kept).
pub open spec fn survives(s: Seq<GameSave>, k: int) -> bool {
    s[k].app_id is None || ((forall|j: int|
        0 <= j < s.len() && (#[trigger] s[j]).app_id == s[k].app_id ==> !newer(s[j], s[k]))
        && (forall|j: int| 0 <= j < k && (#[trigger] s[j]).app_id == s[k].app_id ==> newer(s[k], s[j])))
}

/// The saves among the first `n` of `s` that are kept, in order.
pub open spec fn survivors(s: Seq<GameSave>, n: int) -> Seq<GameSave>
    decreases n,
{
    if n <= 0 {
        Seq::empty()
    } else {
        let r = survivors(s, n - 1);
        if survives(s, n - 1) {
            r.push(s[n - 1])
        } else {
            r
        }
    }
}

/// All games of all accounts, account by account.
pub open spec fn all_games(users: Seq<SteamUser>) -> Seq<GameSave>
    decreases users.len(),
{
    if users.len() == 0 {
        Seq::empty()
    } else {
        all_games(users.drop_last()) + users.last().games@
    }
}

fn newer_exec(a: &GameSave, b: &GameSave) -> (r: bool)
    ensures
        r == newer(*a, *b),
{
    match (a.last_modified, b.last_modified) {
        (Some(x), Some(y)) => y.is_before(&x),
        (Some(_), None) => true,
        _ => false,
    }
}

fn survives_exec(s: &Vec<GameSave>, k: usize) -> (r: bool)
    requires
        k < s.len(),
    ensures
        r == survives(s@, k as int),
{
    let id = match s[k].app_id {
        Some(id) => id,
        None => {
            return true;
        },
    };
    let mut j: usize = 0;
    while j < s.len()
        invariant
            k < s.len(),
            j <= s.len(),
            s@[k as int].app_id == Some(id),
            forall|q: int| 0 <= q < j && (#[trigger] s@[q]).app_id == Some(id) ==> !newer(s@[q], s@[k as int]),
            forall|q: int| 0 <= q < j && q < k && (#[trigger] s@[q]).app_id == Some(id) ==> newer(s@[k as int], s@[q]),
        decreases s.len() - j,
    {
        if s[j].app_id == Some(id) {
            if newer_exec(&s[j], &s[k]) {
                return false;
            }
            if j < k && !newer_exec(&s[k], &s[j]) {
                return false;
            }
        }
        j += 1;
    }
    true
}

/// Merges saves of the same title into the most recently modified one (a
/// save with a time beats one without; among equally new saves the first
/// is kept). Saves without a title id are all kept. Order is kept.
pub fn dedupe_by_app_id(saves: &Vec<GameSave>) -> (r: Vec<GameSave>)
    ensures
        r@ == survivors(saves@, saves.len() as int),
{
    let mut out: Vec<GameSave> = Vec::new();
    let mut k: usize = 0;
    while k < saves.len()
        invariant
            k <= saves.len(),
            out@ == survivors(saves@, k as int),
        decreases saves.len() - k,
    {
        if survives_exec(saves, k) {
            out.push(saves[k].duplicate());
        }
        k += 1;
    }
    out
}

/// The saves of all accounts, one per title.
pub fn unique_saves(users: &Vec<SteamUser>) -> (r: Vec<GameSave>)
    ensures
        r@ == survivors(all_games(users@), all_games(users@).len() as int),
{
    let mut all: Vec<GameSave> = Vec::new();
    let mut i: usize = 0;
    while i < users.len()
        invariant
            i <= users.len(),
            all@ == all_games(users@.subrange(0, i as int)),
        decreases users.len() - i,
    {
        proof {
            assert(users@.subrange(0, i + 1).drop_last() =~= users@.subrange(0, i as int));
            assert(users@.subrange(0, i + 1).last() == users@[i as int]);
        }
        let games = &users[i].games;
        let ghost base = all@;
        let mut j: usize = 0;
        while j < games.len()
            invariant
                j <= games.len(),
                all@ == base + games@.subrange(0, j as int),
            decreases games.len() - j,
        {
            all.push(games[j].duplicate());
            j += 1;
            proof {
                assert(all@ =~= base + games@.subrange(0, j as int));
            }
        }
        proof {
            assert(games@.subrange(0, games.len() as int) =~= games@);
        }
        i += 1;
    }
    proof {
        assert(users@.subrange(0, users.len() as int) =~= users@);
    }
    dedupe_by_app_id(&all)
}

/// Merging keeps at most one save per title.
pub proof fn lemma_one_save_per_title(s: Seq<GameSave>, i: int, j: int)
    requires
        0 <= i < s.len(),
        0 <= j < s.len(),
        s[i].app_id is Some,
        s[i].app_id == s[j].app_id,
        survives(s, i),
        survives(s, j),
    ensures
        i == j,
{
    if i < j {
        assert(newer(s[j], s[i]));
        assert(!newer(s[j], s[i]));
    } else if j < i {
        assert(newer(s[i], s[j]));
        assert(!newer(s[i], s[j]));
    }
}

/// Among the first `n` saves, the first of the newest saves with title
/// `id`.
proof fn newest_index(s: Seq<GameSave>, id: u32, n: int) -> (m: int)
    requires
        0 <= n <= s.len(),
        exists|j: int| 0 <= j < n && (#[trigger] s[j]).app_id == Some(id),
    ensures
        0 <= m < n,
        s[m].app_id == Some(id),
        forall|j: int| 0 <= j < n && (#[trigger] s[j]).app_id == Some(id) ==> !newer(s[j], s[m]),
        forall|j: int| 0 <= j < m && (#[trigger] s[j]).app_id == Some(id) ==> newer(s[m], s[j]),
    decreases n,
{
    if exists|j: int| 0 <= j < n - 1 && (#[trigger] s[j]).app_id == Some(id) {
        let p = newest_index(s, id, n - 1);
        if s[n - 1].app_id == Some(id) && newer(s[n - 1], s[p]) {
            n - 1
        } else {
            p
        }
    } else {
        n - 1
    }
}

/// Every title among the saves keeps a save when they are merged.
pub proof fn lemma_each_title_kept(s: Seq<GameSave>, k: int)
    requires
        0 <= k < s.len(),
        s[k].app_id is Some,
    ensures
        exists|i: int| 0 <= i < s.len() && s[i].app_id == s[k].app_id && survives(s, i),
{
    let m = newest_index(s, s[k].app_id->0, s.len() as int);
    assert(survives(s, m));
}

/// The merged list holds exactly the saves that are kept, in order.
pub proof fn lemma_survivors_are_kept(s: Seq<GameSave>, n: int, x: GameSave)
    requires
        0 <= n <= s.len(),
    ensures
        survivors(s, n).contains(x) <==> exists|i: int| 0 <= i < n && survives(s, i) && s[i] == x,
    decreases n,
{
    if n > 0 {
        lemma_survivors_are_kept(s, n - 1, x);
        let r = survivors(s, n - 1);
        if survives(s, n - 1) {
            let rp = r.push(s[n - 1]);
            if rp.contains(x) {
                let w = choose|w: int| 0 <= w < rp.len() && #[trigger] rp[w] == x;
                if w < r.len() {
                    assert(r[w] == x);
                } else {
                    assert(s[n - 1] == x);
                }
            }
            if exists|i: int| 0 <= i < n && survives(s, i) && s[i] == x {
                let i = choose|i: int| 0 <= i < n && survives(s, i) && #[trigger] s[i] == x;
                if i < n - 1 {
                    let w = choose|w: int| 0 <= w < r.len() && #[trigger] r[w] == x;
                    assert(rp[w] == x);
                } else {
                    assert(rp[r.len() as int] == x);
                }
            }
        } else {
            if exists|i: int| 0 <= i < n && survives(s, i) && s[i] == x {
                let i = choose|i: int| 0 <= i < n && survives(s, i) && #[trigger] s[i] == x;
                assert(i < n - 1);
            }
        }
    }
}

/// The positions in `s` of the saves kept among the first `n`, in order.
pub open spec fn survivor_positions(s: Seq<GameSave>, n: int) -> Seq<int>
    decreases n,
{
    if n <= 0 {
        Seq::empty()
    } else {
        let r = survivor_positions(s, n - 1);
        if survives(s, n - 1) {
            r.push(n - 1)
        } else {
            r
        }
    }
}

proof fn lemma_survivor_positions(s: Seq<GameSave>, n: int)
    requires
        0 <= n <= s.len(),
    ensures
        survivor_positions(s, n).len() == survivors(s, n).len(),
        forall|i: int|
            0 <= i < survivor_positions(s, n).len() ==> {
                let q = #[trigger] survivor_positions(s, n)[i];
                &&& 0 <= q < n
                &&& survives(s, q)
                &&& survivors(s, n)[i] == s[q]
            },
        forall|i: int, j: int|
            0 <= i < j < survivor_positions(s, n).len() ==> #[trigger] survivor_positions(s, n)[i]
                < #[trigger] survivor_positions(s, n)[j],
    decreases n,
{
    if n > 0 {
        lemma_survivor_positions(s, n - 1);
    }
}

/// Merging keeps exactly one save of each title that occurs among the
/// saves, and keeps only saves that occur among them.
pub proof fn lemma_one_save_kept_per_title(s: Seq<GameSave>, a: u32)
    ensures
        (exists|k: int| 0 <= k < s.len() && (#[trigger] s[k]).app_id == Some(a)) ==> exists|i: int|
            0 <= i < survivors(s, s.len() as int).len() && (#[trigger] survivors(
                s,
                s.len() as int,
            )[i]).app_id == Some(a),
        forall|i: int, j: int|
            0 <= i < survivors(s, s.len() as int).len() && 0 <= j < survivors(s, s.len() as int).len()
                && (#[trigger] survivors(s, s.len() as int)[i]).app_id == Some(a) && (
            #[trigger] survivors(s, s.len() as int)[j]).app_id == Some(a) ==> i == j,
        forall|i: int|
            0 <= i < survivors(s, s.len() as int).len() ==> s.contains(
                #[trigger] survivors(s, s.len() as int)[i],
            ),
{
    let n = s.len() as int;
    let r = survivors(s, n);
    let p = survivor_positions(s, n);
    lemma_survivor_positions(s, n);
    if exists|k: int| 0 <= k < s.len() && (#[trigger] s[k]).app_id == Some(a) {
        let k = choose|k: int| 0 <= k < s.len() && (#[trigger] s[k]).app_id == Some(a);
        lemma_each_title_kept(s, k);
        let m = choose|m: int| 0 <= m < s.len() && s[m].app_id == s[k].app_id && survives(s, m);
        lemma_survivors_are_kept(s, n, s[m]);
        let i = choose|i: int| 0 <= i < r.len() && #[trigger] r[i] == s[m];
        assert(r[i].app_id == Some(a));
    }
    assert forall|i: int, j: int|
        0 <= i < r.len() && 0 <= j < r.len() && (#[trigger] r[i]).app_id == Some(a) && (
        #[trigger] r[j]).app_id == Some(a) implies i == j by {
        let pi = p[i];
        let pj = p[j];
        assert(r[i] == s[pi] && r[j] == s[pj]);
        lemma_one_save_per_title(s, pi, pj);
        if i < j {
            assert(p[i] < p[j]);
        } else if j < i {
            assert(p[j] < p[i]);
        }
    }
    assert forall|i: int| 0 <= i < r.len() implies s.contains(#[trigger] r[i]) by {
        let pi = p[i];
        assert(r[i] == s[pi]);
    }
}

/// Of two saves of one title, merging keeps exactly the more recently
/// modified one (the one with a time, when only one has a time), and the
/// first when neither is newer.
pub proof fn lemma_dedupe_keeps_newer(a: GameSave, b: GameSave)
    requires
        a.app_id is Some,
        a.app_id == b.app_id,
    ensures
        survivors(seq![a, b], 2) == if newer(b, a) {
            seq![b]
        } else {
            seq![a]
        },
{
    let s = seq![a, b];
    assert(s[0] == a && s[1] == b);
    assert(survivors(s, 0) == Seq::<GameSave>::empty());
    if newer(b, a) {
        assert(!survives(s, 0));
        assert(survives(s, 1));
        assert(survivors(s, 1) =~= Seq::<GameSave>::empty());
        assert(survivors(s, 2) =~= seq![b]);
    } else {
        assert(survives(s, 0));
        assert(!survives(s, 1)) by {
            if survives(s, 1) {
                assert(newer(b, a));
            }
        }
        assert(survivors(s, 1) == Seq::<GameSave>::empty().push(a));
        assert(survivors(s, 1) =~= seq![a]);
        assert(survivors(s, 2) == survivors(s, 1));
    }
}

/// The first name `fetched` holds for `app_id`.
fn lookup_name(fetched: &Vec<(u32, String)>, app_id: u32) -> (r: Option<String>)
    ensures
        r == lookup_fetched(fetched@, app_id),
{
    let mut i: usize = 0;
    proof {
        assert(fetched@.subrange(0, fetched.len() as int) =~= fetched@);
    }
    while i < fetched.len()
        invariant
            i <= fetched.len(),
            lookup_fetched(fetched@, app_id) == lookup_fetched(fetched@.subrange(i as int, fetched.len() as int), app_id),
        decreases fetched.len() - i,
    {
        proof {
            let rest = fetched@.subrange(i as int, fetched.len() as int);
            assert(rest.drop_first() =~= fetched@.subrange(i + 1, fetched.len() as int));
            assert(rest[0] == fetched@[i as int]);
        }
        if fetched[i].0 == app_id {
            return Some(fetched[i].1.clone());
        }
        i += 1;
    }
    proof {
        assert(fetched@.subrange(i as int, fetched.len() as int).len() == 0);
    }
    None
}

/// Scans Steam's user-data folders and keeps the title-name cache.
#[derive(Debug)]
pub struct SteamScanner {
    pub steam_userdata_path: String,
    pub app_cache: HashMap<u32, String>,
    pub cache_file_path: String,
}

impl SteamScanner {
    /// A scanner of `steam_path` whose name cache, empty for now, is kept in
    /// `cache_file_path`.
    pub fn new(steam_path: String, cache_file_path: String) -> (r: SteamScanner)
        ensures
            r.steam_userdata_path == steam_path,
            r.cache_file_path == cache_file_path,
            r.app_cache@ == Map::<u32, String>::empty(),
    {
        SteamScanner { steam_userdata_path: steam_path, app_cache: HashMap::new(), cache_file_path }
    }

    /// Replaces the name cache with one read back from its file.
    pub fn replace_cache(&mut self, cache: HashMap<u32, String>)
        ensures
            final(self).app_cache@ == cache@,
            final(self).steam_userdata_path == old(self).steam_userdata_path,
            final(self).cache_file_path == old(self).cache_file_path,
    {
        self.app_cache = cache;
    }

    /// Whether a cached name should be looked up again.
    pub fn is_likely_incorrect_name(&self, name: &str, app_id: u32) -> (r: bool)
        ensures
            r == is_incorrect_name(name@),
    {
        let v = chars_of(name);
        starts_with_str(&v, "Unknown Game") || contains_str(&v, "(ac)") || contains_str(
            &v,
            "(workshop)",
        ) || contains_str(&v, "(screenshots)") || parse_u32(&v).is_some() || v.len() == 0
            || equals_str(&v, "null") || name.len() < 3
    }

    /// Whether `get_game_name` would look `app_id` up: the cache holds no
    /// trustworthy name for it.
    pub fn needs_lookup(&self, app_id: u32) -> (r: bool)
        ensures
            r == !has_trusted_name(self.app_cache@, app_id),
    {
        match self.app_cache.get(&app_id) {
            Some(name) => self.is_likely_incorrect_name(name.as_str(), app_id),
            None => true,
        }
    }

    /// The name of a title: the cached one when it is trustworthy, else the
    /// looked-up one (`fetched`), else a placeholder; a name not taken from
    /// the cache is cached.
    pub fn get_game_name(&mut self, app_id: u32, fetched: Option<String>) -> (r: String)
        ensures
            r@ == settled_name(old(self).app_cache@, app_id, fetched),
            has_trusted_name(old(self).app_cache@, app_id) ==> final(self).app_cache@ == old(
                self,
            ).app_cache@,
            !has_trusted_name(old(self).app_cache@, app_id) ==> final(self).app_cache@ == old(
                self,
            ).app_cache@.insert(app_id, r),
            final(self).steam_userdata_path == old(self).steam_userdata_path,
            final(self).cache_file_path == old(self).cache_file_path,
    {
        match self.app_cache.get(&app_id) {
            Some(cached) => {
                if !self.is_likely_incorrect_name(cached.as_str(), app_id) {
                    return cached.clone();
                }
            },
            None => {},
        }
        let name = match fetched {
            Some(n) => n,
            None => {
                let mut v = chars_of("Unknown Game ");
                let d = decimal_chars(app_id);
                extend_chars(&mut v, &d);
                string_from_chars(v.as_slice())
            },
        };
        self.app_cache.insert(app_id, name.clone());
        name
    }

    /// The name from the online sources: the store's when it gave one, else
    /// SteamSpy's when that is neither empty nor `null`.
    pub fn fetch_game_name_from_api(&self, store_name: Option<String>, steamspy_name: Option<String>) -> (r: Option<String>)
        ensures
            store_name is Some ==> r == store_name,
            store_name is None ==> match steamspy_name {
                Some(n) => if n@.len() > 0 && n@ != "null"@ {
                    r == Some(n)
                } else {
                    r is None
                },
                None => r is None,
            },
    {
        match store_name {
            Some(n) => Some(n),
            None => match steamspy_name {
                Some(n) => {
                    let v = chars_of(n.as_str());
                    if v.len() > 0 && !equals_str(&v, "null") {
                        Some(n)
                    } else {
                        None
                    }
                },
                None => None,
            },
        }
    }

    /// The name from any source, in order: the online sources, the
    /// registry, Steam's configuration files.
    pub fn fetch_game_name_from_steam(&self, app_id: u32, api_name: Option<String>, registry_name: Option<String>) -> (r: Option<String>)
        ensures
            api_name is Some ==> r == api_name,
            api_name is None ==> r == registry_name,
    {
        if api_name.is_some() {
            return api_name;
        }
        if registry_name.is_some() {
            return registry_name;
        }
        match self.get_game_name_from_config(app_id) {
            Ok(n) => Some(n),
            Err(_) => None,
        }
    }

    /// Names from Steam's configuration files are not read yet.
    pub fn get_game_name_from_config(&self, app_id: u32) -> (r: Result<String, SaveGuardianError>)
        ensures
            r matches Err(SaveGuardianError::SaveOperationFailed(m)) && m@ == "Not implemented"@,
    {
        Err(SaveGuardianError::SaveOperationFailed(String::from_str("Not implemented")))
    }

    /// Puts the known names of popular titles into the cache.
    pub fn load_game_database(&mut self)
        ensures
            forall|id: u32|
                #![trigger final(self).app_cache@.contains_key(id)]
                known_title(id) is Some ==> final(self).app_cache@.contains_key(id)
                    && final(self).app_cache@[id]@ == known_title(id)->0,
            forall|id: u32|
                #![trigger final(self).app_cache@.contains_key(id)]
                known_title(id) is None ==> (final(self).app_cache@.contains_key(id) == old(
                    self,
                ).app_cache@.contains_key(id) && (old(self).app_cache@.contains_key(id)
                    ==> final(self).app_cache@[id] == old(self).app_cache@[id])),
            final(self).steam_userdata_path == old(self).steam_userdata_path,
            final(self).cache_file_path == old(self).cache_file_path,
    {
        let ids: Vec<u32> = vec![570u32, 730, 440, 578080, 252490, 377160, 1172470, 1938090, 271590, 292030, 367520,
            431960, 1174180, 435150, 489830, 896660, 892970, 1063730, 548430, 674940, 1325200, 739630,
            291550, 413150, 646570, 1091500, 620980, 322330, 239140, 881020, 534380, 1966720, 394360,
            281990, 236850, 1158310, 255710, 823500, 544550, 1384160, 1778820, 582010, 1551360,
            1293830, 1172620, 546560, 359550, 550, 4000, 105600, 72850, 8930, 289070, 812140, 881100,
            1693980, 306130, 39120, 230410, 238960, 381210, 1449850];
        proof {
            assert(ids@ =~= known_title_ids());
            assert forall|id: u32| #[trigger] known_title(id) is Some implies known_title_ids().contains(id) by {
                if known_title(id) is Some {
                    assert(known_title_ids().contains(id));
                }
            }
        }
        let mut i: usize = 0;
        while i < ids.len()
            invariant
                i <= ids.len(),
                ids@ == known_title_ids(),
                self.steam_userdata_path == old(self).steam_userdata_path,
                self.cache_file_path == old(self).cache_file_path,
                forall|k: int|
                    0 <= k < i ==> #[trigger] self.app_cache@.contains_key(ids@[k])
                        && self.app_cache@[ids@[k]]@ == known_title(ids@[k])->0,
                forall|id: u32|
                    #![trigger self.app_cache@.contains_key(id)]
                    !ids@.subrange(0, i as int).contains(id) ==> (self.app_cache@.contains_key(id)
                        == old(self).app_cache@.contains_key(id) && (old(self).app_cache@.contains_key(
                        id,
                    ) ==> self.app_cache@[id] == old(self).app_cache@[id])),
            decreases ids.len() - i,
        {
            let id = ids[i];
            let ghost prev = self.app_cache@;
            proof {
                assert(known_title_ids().contains(id));
                assert(known_title(id) is Some);
            }
            match known_title_name(id) {
                Some(name) => {
                    self.app_cache.insert(id, name);
                },
                None => {},
            }
            proof {
                assert forall|id2: u32| !ids@.subrange(0, i + 1).contains(id2) implies (#[trigger] self.app_cache@.contains_key(id2)
                        == old(self).app_cache@.contains_key(id2) && (old(self).app_cache@.contains_key(
                        id2,
                    ) ==> self.app_cache@[id2] == old(self).app_cache@[id2])) by {
                    if ids@.subrange(0, i as int).contains(id2) {
                        let w = choose|w: int| 0 <= w < i && ids@.subrange(0, i as int)[w] == id2;
                        assert(ids@.subrange(0, i + 1)[w] == id2);
                    }
                    assert(ids@.subrange(0, i + 1)[i as int] == id);
                    assert(prev.contains_key(id2) == old(self).app_cache@.contains_key(id2));
                }
                assert forall|k: int| 0 <= k < i + 1 implies #[trigger] self.app_cache@.contains_key(ids@[k])
                    && self.app_cache@[ids@[k]]@ == known_title(ids@[k])->0 by {
                    if k < i && ids@[k] != id {
                        assert(prev.contains_key(ids@[k]));
                    }
                }
            }
            i += 1;
        }
        proof {
            assert(ids@.subrange(0, ids.len() as int) =~= ids@);
            assert forall|id: u32| known_title(id) is Some implies #[trigger] self.app_cache@.contains_key(id) && self.app_cache@[id]@ == known_title(id)->0 by {
                let w = choose|w: int| 0 <= w < ids.len() && ids@[w] == id;
            }
        }
    }

    /// How many names are cached, and a line on the cache file.
    pub fn get_cache_stats(&self, cache_file_exists: bool) -> (r: (usize, String))
        ensures
            r.0 == self.app_cache@.len(),
            r.1@ == "Cache file: "@ + self.cache_file_path@ + " (exists: "@ + (if cache_file_exists {
                "true"@
            } else {
                "false"@
            }) + ")"@,
    {
        let mut v = chars_of("Cache file: ");
        let p = chars_of(self.cache_file_path.as_str());
        extend_chars(&mut v, &p);
        let mid = chars_of(" (exists: ");
        extend_chars(&mut v, &mid);
        let b = if cache_file_exists {
            chars_of("true")
        } else {
            chars_of("false")
        };
        extend_chars(&mut v, &b);
        let close = chars_of(")");
        extend_chars(&mut v, &close);
        (self.app_cache.len(), string_from_chars(v.as_slice()))
    }

    /// Empties the name cache.
    pub fn clear_cache(&mut self)
        ensures
            final(self).app_cache@ == Map::<u32, String>::empty(),
            final(self).steam_userdata_path == old(self).steam_userdata_path,
            final(self).cache_file_path == old(self).cache_file_path,
    {
        self.app_cache.clear();
    }

    /// Records the outcome of looking a doubtful cached name up again: the
    /// new name, or no entry when the lookup failed.
    pub fn apply_refreshed_name(&mut self, app_id: u32, fetched: Option<String>)
        ensures
            match fetched {
                Some(n) => final(self).app_cache@ == old(self).app_cache@.insert(app_id, n),
                None => final(self).app_cache@ == old(self).app_cache@.remove(app_id),
            },
            final(self).steam_userdata_path == old(self).steam_userdata_path,
            final(self).cache_file_path == old(self).cache_file_path,
    {
        match fetched {
            Some(n) => {
                self.app_cache.insert(app_id, n);
            },
            None => {
                self.app_cache.remove(&app_id);
            },
        }
    }

    /// The lenient rule on a walk of a `remote` folder: a file with a
    /// save-like extension or `save` in its name qualifies the folder at
    /// once; after the cap, or at the end, any file at all does. An
    /// unreadable entry met first is an error.
    pub fn has_save_files_lenient(&self, entries: &Vec<WalkItem>) -> (r: Result<bool, SaveGuardianError>)
        ensures
            match lenient_verdict(entries@, 0) {
                Some(b) => r matches Ok(x) && x == b,
                None => r matches Err(SaveGuardianError::Io(_)),
            },
    {
        let n = entries.len();
        let mut seen: usize = 0;
        let mut i: usize = 0;
        proof {
            assert(entries@.subrange(0, n as int) =~= entries@);
        }
        while i < n
            invariant
                n == entries.len(),
                i <= n,
                seen <= LENIENT_FILE_CAP,
                lenient_verdict(entries@, 0) == lenient_verdict(
                    entries@.subrange(i as int, n as int),
                    seen as nat,
                ),
            decreases n - i,
        {
            proof {
                let rest = entries@.subrange(i as int, n as int);
                assert(rest.drop_first() =~= entries@.subrange(i + 1, n as int));
                assert(rest[0] == entries@[i as int]);
            }
            match &entries[i] {
                WalkItem::Unreadable(m) => {
                    return Err(SaveGuardianError::Io(m.clone()));
                },
                WalkItem::Dir => {},
                WalkItem::File(name) => {
                    if marks_save_exec(name) || seen + 1 > LENIENT_FILE_CAP {
                        return Ok(true);
                    }
                    seen += 1;
                },
            }
            i += 1;
        }
        proof {
            assert(entries@.subrange(n as int, n as int) =~= Seq::<WalkItem>::empty());
        }
        Ok(seen > 0)
    }

    /// The strict rule on a walk of a Steam folder: a file with a save
    /// extension or a save-like name (not configuration, cache, temporary
    /// data or a log) qualifies it; after the cap it does not. An
    /// unreadable entry met first is an error.
    pub fn has_save_files(&self, entries: &Vec<WalkItem>) -> (r: Result<bool, SaveGuardianError>)
        ensures
            match strict_verdict(entries@, 0) {
                Some(b) => r matches Ok(x) && x == b,
                None => r matches Err(SaveGuardianError::Io(_)),
            },
    {
        let n = entries.len();
        let mut seen: usize = 0;
        let mut i: usize = 0;
        proof {
            assert(entries@.subrange(0, n as int) =~= entries@);
        }
        while i < n
            invariant
                n == entries.len(),
                i <= n,
                seen <= STRICT_FILE_CAP,
                strict_verdict(entries@, 0) == strict_verdict(
                    entries@.subrange(i as int, n as int),
                    seen as nat,
                ),
            decreases n - i,
        {
            proof {
                let rest = entries@.subrange(i as int, n as int);
                assert(rest.drop_first() =~= entries@.subrange(i + 1, n as int));
                assert(rest[0] == entries@[i as int]);
            }
            match &entries[i] {
                WalkItem::Unreadable(m) => {
                    return Err(SaveGuardianError::Io(m.clone()));
                },
                WalkItem::Dir => {},
                WalkItem::File(name) => {
                    if marks_steam_save_strictly_exec(name) {
                        return Ok(true);
                    }
                    if seen + 1 > STRICT_FILE_CAP {
                        return Ok(false);
                    }
                    seen += 1;
                },
            }
            i += 1;
        }
        proof {
            assert(entries@.subrange(n as int, n as int) =~= Seq::<WalkItem>::empty());
        }
        Ok(false)
    }

    /// The save in one title folder, if its `remote` folder qualifies; the
    /// title's name is settled first (see [`SteamScanner::get_game_name`]).
    pub fn scan_app_saves(&mut self, app_id: u32, app: &AppDirListing, fetched: Option<String>) -> (r: Vec<GameSave>)
        ensures
            r.len() <= 1,
            r.len() == 1 <==> (app.remote is Some && lenient_verdict(app.remote->0.entries@, 0) == Some(true)),
            r.len() == 1 ==> {
                &&& r[0].save_type == SaveType::Steam
                &&& r[0].app_id == Some(app_id)
                &&& r[0].save_path == app.remote->0.path
                &&& r[0].last_modified == app.remote->0.last_modified
                &&& r[0].size == app.remote->0.size
                &&& r[0].backup_count == 0
                &&& !r[0].is_synced
                &&& r[0].name@ == settled_name(old(self).app_cache@, app_id, fetched)
            },
            has_trusted_name(old(self).app_cache@, app_id) ==> final(self).app_cache@ == old(self).app_cache@,
            !has_trusted_name(old(self).app_cache@, app_id) ==> {
                &&& final(self).app_cache@.contains_key(app_id)
                &&& final(self).app_cache@[app_id]@ == settled_name(old(self).app_cache@, app_id, fetched)
                &&& final(self).app_cache@ == old(self).app_cache@.insert(app_id, final(self).app_cache@[app_id])
            },
            final(self).steam_userdata_path == old(self).steam_userdata_path,
            final(self).cache_file_path == old(self).cache_file_path,
    {
        let name = self.get_game_name(app_id, fetched);
        let mut saves: Vec<GameSave> = Vec::new();
        match &app.remote {
            Some(rem) => {
                match self.has_save_files_lenient(&rem.entries) {
                    Ok(true) => {
                        saves.push(GameSave::new(name, rem.path.clone(), SaveType::Steam, Some(app_id), rem.last_modified, rem.size));
                    },
                    _ => {},
                }
            },
            None => {},
        }
        saves
    }

    /// The saves under one account folder's title folders, in order; only
    /// folders named by a title id count. Names already settled stay so.
    fn scan_user_saves(
        &mut self,
        apps: &Vec<AppDirListing>,
        fetched: &Vec<(u32, String)>,
        Ghost(earlier): Ghost<Seq<Seq<GameSave>>>,
    ) -> (r: Vec<GameSave>)
        requires
            forall|q: int| 0 <= q < earlier.len() ==> names_settled(#[trigger] earlier[q], old(self).app_cache@, fetched@),
        ensures
            forall|q: int| 0 <= q < earlier.len() ==> names_settled(#[trigger] earlier[q], final(self).app_cache@, fetched@),
            names_settled(r@, final(self).app_cache@, fetched@),
            r.len() == qualifying_apps(apps@).len(),
            forall|k: int| 0 <= k < r.len() ==> save_matches_app(#[trigger] r@[k], qualifying_apps(apps@)[k]),
            final(self).steam_userdata_path == old(self).steam_userdata_path,
            final(self).cache_file_path == old(self).cache_file_path,
    {
        let mut games: Vec<GameSave> = Vec::new();
        let mut i: usize = 0;
        while i < apps.len()
            invariant
                i <= apps.len(),
                forall|q: int| 0 <= q < earlier.len() ==> names_settled(#[trigger] earlier[q], self.app_cache@, fetched@),
                names_settled(games@, self.app_cache@, fetched@),
                games.len() == qualifying_apps(apps@.subrange(0, i as int)).len(),
                forall|k: int| 0 <= k < games.len() ==> save_matches_app(#[trigger] games@[k], qualifying_apps(apps@.subrange(0, i as int))[k]),
                self.steam_userdata_path == old(self).steam_userdata_path,
                self.cache_file_path == old(self).cache_file_path,
            decreases apps.len() - i,
        {
            proof {
                assert(apps@.subrange(0, i + 1).drop_last() =~= apps@.subrange(0, i as int));
                assert(apps@.subrange(0, i + 1).last() == apps@[i as int]);
            }
            let ghost before = qualifying_apps(apps@.subrange(0, i as int));
            let ghost after = qualifying_apps(apps@.subrange(0, i + 1));
            let app = &apps[i];
            let name = chars_of(app.name.as_str());
            match parse_u32(&name) {
                Some(id) => {
                    let f = lookup_name(fetched, id);
                    let ghost cache = self.app_cache@;
                    let ghost old_games = games@;
                    let mut got = self.scan_app_saves(id, app, f);
                    proof {
                        let cache2 = self.app_cache@;
                        let rn: String = if has_trusted_name(cache, id) { cache[id] } else { cache2[id] };
                        lemma_names_stay_settled(old_games, cache, cache2, fetched@, id, rn);
                        assert forall|q: int| 0 <= q < earlier.len() implies names_settled(#[trigger] earlier[q], cache2, fetched@) by {
                            lemma_names_stay_settled(earlier[q], cache, cache2, fetched@, id, rn);
                        }
                    }
                    match got.pop() {
                        Some(g) => {
                            games.push(g);
                            proof {
                                assert(after == before.push(apps@[i as int]));
                                assert forall|k: int| 0 <= k < games.len() implies save_matches_app(#[trigger] games@[k], after[k]) by {
                                    if k < old_games.len() {
                                        assert(games@[k] == old_games[k]);
                                    }
                                }
                                assert forall|k: int| 0 <= k < games@.len() implies {
                                    let g = #[trigger] games@[k];
                                    let gid = g.app_id->0;
                                    &&& g.app_id is Some
                                    &&& self.app_cache@.contains_key(gid)
                                    &&& self.app_cache@[gid]@ == g.name@
                                    &&& is_incorrect_name(g.name@) ==> g.name@ == found_or_placeholder(
                                        lookup_fetched(fetched@, gid),
                                        gid,
                                    )
                                } by {
                                    if k < old_games.len() {
                                        assert(games@[k] == old_games[k]);
                                    }
                                }
                            }
                        },
                        None => {
                            proof {
                                assert(after == before);
                            }
                        },
                    }
                },
                None => {
                    proof {
                        assert(after == before);
                    }
                },
            }
            i += 1;
        }
        proof {
            assert(apps@.subrange(0, apps.len() as int) =~= apps@);
        }
        games
    }

    /// Scans the listed user-data folders: each folder with an all-digit
    /// name whose contents could be read is an account, and each of its
    /// title folders whose `remote` folder qualifies gives one save. Names
    /// come from the cache or from `fetched` (what lookups found, by title
    /// id), and end up cached.
    pub fn scan_steam_saves(&mut self, users: &Vec<UserDirListing>, fetched: &Vec<(u32, String)>) -> (r: Vec<SteamUser>)
        ensures
            r.len() == account_dirs(users@).len(),
            forall|k: int| 0 <= k < r.len() ==> {
                let u = account_dirs(users@)[k];
                &&& (#[trigger] r@[k]).id@ == u.name@
                &&& r@[k].path == u.path
                &&& r@[k].name is None
                &&& r@[k].games.len() == qualifying_apps(u.apps->0@).len()
                &&& forall|j: int| 0 <= j < r@[k].games.len() ==> save_matches_app(#[trigger] r@[k].games@[j], qualifying_apps(u.apps->0@)[j])
                &&& names_settled(r@[k].games@, final(self).app_cache@, fetched@)
            },
            final(self).steam_userdata_path == old(self).steam_userdata_path,
            final(self).cache_file_path == old(self).cache_file_path,
    {
        let mut out: Vec<SteamUser> = Vec::new();
        let ghost mut earlier: Seq<Seq<GameSave>> = Seq::empty();
        let mut i: usize = 0;
        while i < users.len()
            invariant
                i <= users.len(),
                earlier.len() == out.len(),
                forall|k: int| 0 <= k < out.len() ==> (#[trigger] out@[k]).games@ == earlier[k],
                forall|q: int| 0 <= q < earlier.len() ==> names_settled(#[trigger] earlier[q], self.app_cache@, fetched@),
                out.len() == account_dirs(users@.subrange(0, i as int)).len(),
                forall|k: int| 0 <= k < out.len() ==> {
                    let u = account_dirs(users@.subrange(0, i as int))[k];
                    &&& (#[trigger] out@[k]).id@ == u.name@
                    &&& out@[k].path == u.path
                    &&& out@[k].name is None
                    &&& out@[k].games.len() == qualifying_apps(u.apps->0@).len()
                    &&& forall|j: int| 0 <= j < out@[k].games.len() ==> save_matches_app(#[trigger] out@[k].games@[j], qualifying_apps(u.apps->0@)[j])
                },
                self.steam_userdata_path == old(self).steam_userdata_path,
                self.cache_file_path == old(self).cache_file_path,
            decreases users.len() - i,
        {
            proof {
                assert(users@.subrange(0, i + 1).drop_last() =~= users@.subrange(0, i as int));
                assert(users@.subrange(0, i + 1).last() == users@[i as int]);
            }
            let ghost before = account_dirs(users@.subrange(0, i as int));
            let ghost after = account_dirs(users@.subrange(0, i + 1));
            let u = &users[i];
            let name = chars_of(u.name.as_str());
            let mut digits = true;
            let mut k: usize = 0;
            while k < name.len()
                invariant
                    k <= name.len(),
                    digits == forall|p: int| 0 <= p < k ==> is_digit(#[trigger] name@[p]),
                decreases name.len() - k,
            {
                let c = name[k];
                if !('0' <= c && c <= '9') {
                    digits = false;
                }
                k += 1;
            }
            if digits {
                match &u.apps {
                    Some(apps) => {
                        let ghost old_out = out@;
                        let games = self.scan_user_saves(apps, fetched, Ghost(earlier));
                        proof {
                            earlier = earlier.push(games@);
                        }
                        out.push(SteamUser { id: u.name.clone(), name: None, path: u.path.clone(), games });
                        proof {
                            assert(after == before.push(users@[i as int]));
                            assert forall|q: int| 0 <= q < out.len() implies (#[trigger] out@[q]).games@ == earlier[q] by {
                                if q < old_out.len() {
                                    assert(out@[q] == old_out[q]);
                                }
                            }
                            assert forall|q: int| 0 <= q < out.len() implies {
                                let uu = after[q];
                                &&& (#[trigger] out@[q]).id@ == uu.name@
                                &&& out@[q].path == uu.path
                                &&& out@[q].name is None
                                &&& out@[q].games.len() == qualifying_apps(uu.apps->0@).len()
                                &&& forall|j: int| 0 <= j < out@[q].games.len() ==> save_matches_app(#[trigger] out@[q].games@[j], qualifying_apps(uu.apps->0@)[j])
                            } by {
                                if q < old_out.len() {
                                    assert(out@[q] == old_out[q]);
                                    assert(after[q] == before[q]);
                                }
                            }
                        }
                    },
                    None => {
                        proof {
                            assert(after == before);
                        }
                    },
                }
            } else {
                proof {
                    assert(after == before);
                }
            }
            i += 1;
        }
        proof {
            assert(users@.subrange(0, users.len() as int) =~= users@);
        }
        out
    }

    /// Stores a looked-up name when it differs from the cached one; says
    /// whether it did.
    pub fn update_name(&mut self, app_id: u32, new_name: String) -> (r: bool)
        ensures
            r == !(old(self).app_cache@.contains_key(app_id) && old(self).app_cache@[app_id]@ == new_name@),
            r ==> final(self).app_cache@ == old(self).app_cache@.insert(app_id, new_name),
            !r ==> final(self).app_cache@ == old(self).app_cache@,
            final(self).steam_userdata_path == old(self).steam_userdata_path,
            final(self).cache_file_path == old(self).cache_file_path,
    {
        let same = match self.app_cache.get(&app_id) {
            Some(old_name) => *old_name == new_name,
            None => false,
        };
        if same {
            return false;
        }
        self.app_cache.insert(app_id, new_name);
        true
    }
}

} // verus!
