use save_guardian::non_steam::{DirEntryInfo, DirListing, NonSteamScanner, SystemDirs};
use save_guardian::steam::{
    dedupe_by_app_id, extension, unique_saves, AppDirListing, RemoteListing, SteamScanner,
    UserDirListing, WalkItem,
};
use save_guardian::types::{GameSave, LocationType, SaveLocation, SaveType, SteamUser, Timestamp};
use std::collections::HashMap;

fn no_dirs() -> SystemDirs {
    SystemDirs {
        home: None,
        documents: None,
        config: None,
        cache: None,
        locallow_exists: false,
        public_documents_exists: false,
    }
}

fn listing(path: &str, components: &[&str], files: &[&str]) -> DirListing {
    DirListing {
        path: path.to_string(),
        components: components.iter().map(|c| c.to_string()).collect(),
        file_name: components.last().map(|c| c.to_string()),
        entries: files
            .iter()
            .map(|f| DirEntryInfo { name: f.to_string(), is_file: true })
            .collect(),
        last_modified: None,
        size: 0,
    }
}

fn timed(id: u32, path: &str, secs: Option<i64>) -> GameSave {
    GameSave::new(
        format!("Game {}", id),
        path.to_string(),
        SaveType::Steam,
        Some(id),
        secs.map(|s| Timestamp { secs: s, nanos: 0 }),
        1,
    )
}

#[test]
fn config_only_folder_is_rejected() {
    let s = NonSteamScanner::new(&no_dirs());
    let d = listing("/home/u/Documents/MyGame", &["/", "home", "u", "Documents", "MyGame"], &["config.ini", "settings.json"]);
    assert!(!s.is_potential_game_save_directory(&d));
}

#[test]
fn sav_file_folder_is_accepted() {
    let s = NonSteamScanner::new(&no_dirs());
    let d = listing("/home/u/Documents/MyGame", &["/", "home", "u", "Documents", "MyGame"], &["player1.sav"]);
    assert!(s.is_potential_game_save_directory(&d));
}

#[test]
fn strict_rule_excludes_system_paths_and_noise_names() {
    let s = NonSteamScanner::new(&no_dirs());
    let sys = listing("/home/u/.cache/MyGame", &["/", "home", "u", ".cache", "MyGame"], &["player1.sav"]);
    assert!(!s.is_potential_game_save_directory(&sys));
    let backup = listing("/home/u/Documents/G", &["/", "home", "u", "Documents", "G"], &["savebackup.dat"]);
    assert!(!s.is_potential_game_save_directory(&backup));
    let named = listing("/home/u/Documents/G", &["/", "home", "u", "Documents", "G"], &["quicksave.dat"]);
    assert!(s.is_potential_game_save_directory(&named));
    let upper = listing("/home/u/Documents/G", &["/", "home", "u", "Documents", "G"], &["SLOT.SAV"]);
    assert!(s.is_potential_game_save_directory(&upper));
}

#[test]
fn strict_rule_looks_at_thirty_one_entries() {
    let s = NonSteamScanner::new(&no_dirs());
    let mut names: Vec<String> = (0..31).map(|i| format!("f{}.txt", i)).collect();
    names.push("late.sav".to_string());
    let refs: Vec<&str> = names.iter().map(|n| n.as_str()).collect();
    let late = listing("/home/u/Documents/G", &["/", "home", "u", "Documents", "G"], &refs);
    assert!(!s.is_potential_game_save_directory(&late));
    let early = listing("/home/u/Documents/G", &["/", "home", "u", "Documents", "G"], &refs[1..]);
    assert!(s.is_potential_game_save_directory(&early));
}

#[test]
fn system_directory_words() {
    let s = NonSteamScanner::new(&no_dirs());
    assert!(s.is_system_directory("C:\\Program Files\\Game"));
    assert!(s.is_system_directory("/home/u/.minecraft/saves"));
    assert!(!s.is_system_directory("/home/u/Documents/Hades"));
}

#[test]
fn game_names_from_paths() {
    let s = NonSteamScanner::new(&no_dirs());
    let comps: Vec<String> = ["/", "home", "u", "Documents", "My Games", "dark_souls", "saves"].iter().map(|c| c.to_string()).collect();
    assert_eq!(s.extract_game_name_from_path(&comps, &Some("saves".to_string())), Some("Dark Souls".to_string()));
    let versions: Vec<String> = ["/", "data", "Terraria", "1.4.4", "Profile"].iter().map(|c| c.to_string()).collect();
    assert_eq!(s.extract_game_name_from_path(&versions, &Some("Profile".to_string())), Some("Terraria".to_string()));
    let none: Vec<String> = Vec::new();
    assert_eq!(s.extract_game_name_from_path(&none, &None), None);
}

#[test]
fn names_are_cleaned() {
    let s = NonSteamScanner::new(&no_dirs());
    assert_eq!(s.clean_game_name("my_cool_game Save"), "My Cool Game");
    assert_eq!(s.clean_game_name("ELDEN RING - Saves"), "Elden Ring");
    assert_eq!(s.clean_game_name("  spaced   out  "), "Spaced Out");
    assert_eq!(s.clean_game_name("Game (Cracked)"), "Game");
}

#[test]
fn default_roots_follow_the_environment() {
    let d = SystemDirs {
        home: Some("/home/u".to_string()),
        documents: Some("/home/u/Documents".to_string()),
        config: Some("/home/u/.config".to_string()),
        cache: None,
        locallow_exists: false,
        public_documents_exists: false,
    };
    let s = NonSteamScanner::new(&d);
    let all = s.get_all_locations();
    assert_eq!(all.len(), 5);
    assert_eq!(all[0].path, "/home/u/Documents/My Games");
    assert_eq!(all[1].path, "/home/u/Documents");
    assert_eq!(all[3].location_type, LocationType::AppDataRoaming);
    assert_eq!(all[4].path, "/home/u/.config/Goldberg SteamEmu Saves");
    assert!(NonSteamScanner::new(&no_dirs()).get_all_locations().is_empty());
}

#[test]
fn custom_locations_are_added_and_removed() {
    let mut s = NonSteamScanner::new(&no_dirs()).with_custom_locations(vec![]);
    let loc = |p: &str| SaveLocation { path: p.to_string(), location_type: LocationType::Custom, description: "c".to_string(), is_custom: true };
    s.add_custom_location(loc("/a"));
    s.add_custom_location(loc("/b"));
    s.add_custom_location(loc("/a"));
    s.remove_custom_location(&"/a".to_string());
    let all = s.get_all_locations();
    assert_eq!(all.len(), 1);
    assert_eq!(all[0].path, "/b");
}

#[test]
fn scanning_a_root_reports_named_save_folders() {
    let s = NonSteamScanner::new(&no_dirs());
    let dirs = vec![
        listing("/home/u/Documents", &["/", "home", "u", "Documents"], &["notes.txt"]),
        listing("/home/u/Documents/Hades", &["/", "home", "u", "Documents", "Hades"], &["Profile1.sav"]),
    ];
    let found = s.scan_location(&dirs);
    assert_eq!(found.len(), 1);
    assert_eq!(found[0].name, "Hades");
    assert_eq!(found[0].save_type, SaveType::NonSteam);
    let all = s.scan_non_steam_saves(&vec![dirs, vec![]]);
    assert_eq!(all.len(), 1);
}

#[test]
fn install_directory_uses_first_save_subfolder() {
    let s = NonSteamScanner::new(&no_dirs());
    assert_eq!(s.install_save_subdirs()[0], "Save");
    let subdirs = vec![
        None,
        Some(listing("/games/G/Saves", &["/", "games", "G", "Saves"], &["a.txt"])),
        Some(listing("/games/G/Saved", &["/", "games", "G", "Saved"], &["slot.save"])),
    ];
    let g = s.scan_game_install_directory(&subdirs, "G").unwrap();
    assert_eq!(g.name, "G (Install)");
    assert_eq!(g.save_path, "/games/G/Saved");
}

#[test]
fn extensions_follow_path_rules() {
    let ext = |s: &str| extension(&s.chars().collect()).map(|v| v.into_iter().collect::<String>());
    assert_eq!(ext("a.b.sav"), Some("sav".to_string()));
    assert_eq!(ext(".bashrc"), None);
    assert_eq!(ext("noext"), None);
    assert_eq!(ext("trail."), Some(String::new()));
    assert_eq!(ext(".."), None);
}

#[test]
fn lenient_rule_trusts_any_file() {
    let s = SteamScanner::new("/steam".to_string(), "/cache.json".to_string());
    assert!(s.has_save_files_lenient(&vec![WalkItem::Dir, WalkItem::File("readme.txt".to_string())]).unwrap());
    assert!(!s.has_save_files_lenient(&vec![WalkItem::Dir]).unwrap());
    assert!(s.has_save_files_lenient(&vec![WalkItem::Dir, WalkItem::Unreadable("denied".to_string())]).is_err());
    assert!(s.has_save_files_lenient(&vec![WalkItem::File("SLOT.DAT".to_string()), WalkItem::Unreadable("x".to_string())]).unwrap());
    assert!(s.has_save_files_lenient(&vec![WalkItem::File("a.txt".to_string()), WalkItem::Unreadable("x".to_string())]).is_err());
}

#[test]
fn incorrect_names() {
    let s = SteamScanner::new("/steam".to_string(), "/cache.json".to_string());
    assert!(s.is_likely_incorrect_name("Unknown Game 5", 5));
    assert!(s.is_likely_incorrect_name("12345", 5));
    assert!(s.is_likely_incorrect_name("+7", 5));
    assert!(s.is_likely_incorrect_name("ab", 5));
    assert!(s.is_likely_incorrect_name("null", 5));
    assert!(s.is_likely_incorrect_name("Game (workshop)", 5));
    assert!(!s.is_likely_incorrect_name("Portal", 5));
    assert!(!s.is_likely_incorrect_name("99999999999", 5));
}

#[test]
fn game_names_come_from_cache_lookup_or_placeholder() {
    let mut s = SteamScanner::new("/steam".to_string(), "/cache.json".to_string());
    let mut cache = HashMap::new();
    cache.insert(10u32, "Half-Life".to_string());
    cache.insert(20u32, "Unknown Game 20".to_string());
    s.replace_cache(cache);
    assert!(!s.needs_lookup(10));
    assert!(s.needs_lookup(20));
    assert_eq!(s.get_game_name(10, Some("Other".to_string())), "Half-Life");
    assert_eq!(s.get_game_name(20, Some("Portal 2".to_string())), "Portal 2");
    assert_eq!(s.get_game_name(42, None), "Unknown Game 42");
    assert_eq!(s.app_cache.get(&20).unwrap(), "Portal 2");
    assert_eq!(s.app_cache.get(&42).unwrap(), "Unknown Game 42");
    let (n, line) = s.get_cache_stats(false);
    assert_eq!(n, 3);
    assert_eq!(line, "Cache file: /cache.json (exists: false)");
    s.clear_cache();
    assert!(s.app_cache.is_empty());
}

#[test]
fn lookup_sources_in_order() {
    let s = SteamScanner::new("/steam".to_string(), "/cache.json".to_string());
    assert_eq!(s.fetch_game_name_from_api(None, Some("null".to_string())), None);
    assert_eq!(s.fetch_game_name_from_api(None, Some("Spy".to_string())), Some("Spy".to_string()));
    assert_eq!(s.fetch_game_name_from_api(Some("Store".to_string()), Some("Spy".to_string())), Some("Store".to_string()));
    assert_eq!(s.fetch_game_name_from_steam(1, None, Some("Reg".to_string())), Some("Reg".to_string()));
    assert_eq!(s.fetch_game_name_from_steam(1, None, None), None);
    assert!(s.get_game_name_from_config(1).is_err());
}

#[test]
fn known_title_table_prefers_later_entries() {
    let mut s = SteamScanner::new("/steam".to_string(), "/cache.json".to_string());
    s.load_game_database();
    assert_eq!(s.app_cache.get(&377160).unwrap(), "Fallout 4");
    assert_eq!(s.app_cache.get(&1938090).unwrap(), "Call of Duty: Modern Warfare II");
    assert_eq!(s.app_cache.get(&239140).unwrap(), "Dying Light");
    assert_eq!(s.app_cache.len(), 62);
}

#[test]
fn refresh_outcomes_update_the_cache() {
    let mut s = SteamScanner::new("/steam".to_string(), "/cache.json".to_string());
    s.apply_refreshed_name(1, Some("Name".to_string()));
    assert!(!s.update_name(1, "Name".to_string()));
    assert!(s.update_name(1, "Better".to_string()));
    s.apply_refreshed_name(1, None);
    assert!(s.app_cache.is_empty());
}

fn remote(path: &str, files: &[&str], secs: Option<i64>) -> Option<RemoteListing> {
    let mut entries = vec![WalkItem::Dir];
    entries.extend(files.iter().map(|f| WalkItem::File(f.to_string())));
    Some(RemoteListing { path: path.to_string(), entries, last_modified: secs.map(|s| Timestamp { secs: s, nanos: 0 }), size: 5 })
}

#[test]
fn steam_scan_reports_accounts_and_titles() {
    let mut s = SteamScanner::new("/steam".to_string(), "/cache.json".to_string());
    let users = vec![
        UserDirListing {
            name: "1234".to_string(),
            path: "/steam/1234".to_string(),
            apps: Some(vec![
                AppDirListing { name: "239140".to_string(), remote: remote("/steam/1234/239140/remote", &["save1.bin"], Some(10)) },
                AppDirListing { name: "7".to_string(), remote: remote("/steam/1234/7/remote", &[], None) },
                AppDirListing { name: "config".to_string(), remote: remote("/steam/1234/config/remote", &["x.sav"], None) },
            ]),
        },
        UserDirListing { name: "anonymous".to_string(), path: "/steam/anonymous".to_string(), apps: Some(vec![]) },
        UserDirListing { name: "99".to_string(), path: "/steam/99".to_string(), apps: None },
    ];
    let fetched = vec![(239140u32, "Dying Light".to_string())];
    let found = s.scan_steam_saves(&users, &fetched);
    assert_eq!(found.len(), 1);
    assert_eq!(found[0].id, "1234");
    assert_eq!(found[0].games.len(), 1);
    let g = &found[0].games[0];
    assert_eq!(g.name, "Dying Light");
    assert_eq!(g.app_id, Some(239140));
    assert_eq!(g.save_path, "/steam/1234/239140/remote");
    assert_eq!(s.app_cache.get(&7).unwrap(), "Unknown Game 7");
}

#[test]
fn dedupe_keeps_the_newest_save_of_a_title() {
    let saves = vec![timed(1, "/u1", Some(100)), timed(1, "/u2", Some(200)), timed(2, "/u1b", None), timed(2, "/u2b", Some(5))];
    let kept = dedupe_by_app_id(&saves);
    assert_eq!(kept.len(), 2);
    assert_eq!(kept[0].save_path, "/u2");
    assert_eq!(kept[1].save_path, "/u2b");
}

#[test]
fn dedupe_keeps_the_first_of_equally_new_saves() {
    let saves = vec![timed(3, "/a", None), timed(3, "/b", None), timed(4, "/c", Some(9)), timed(4, "/d", Some(9))];
    let kept = dedupe_by_app_id(&saves);
    let paths: Vec<&str> = kept.iter().map(|g| g.save_path.as_str()).collect();
    assert_eq!(paths, vec!["/a", "/c"]);
}

#[test]
fn unique_saves_across_accounts() {
    let users = vec![
        SteamUser { id: "1".to_string(), name: None, path: "/1".to_string(), games: vec![timed(5, "/1/5", Some(1))] },
        SteamUser { id: "2".to_string(), name: None, path: "/2".to_string(), games: vec![timed(5, "/2/5", Some(2)), timed(6, "/2/6", None)] },
    ];
    let all = unique_saves(&users);
    let paths: Vec<&str> = all.iter().map(|g| g.save_path.as_str()).collect();
    assert_eq!(paths, vec!["/2/5", "/2/6"]);
}

#[test]
fn display_names_carry_the_title_id() {
    assert_eq!(timed(730, "/p", None).display_name(), "Game 730 (730)");
    let plain = GameSave::new("Hades".to_string(), "/h".to_string(), SaveType::NonSteam, None, None, 0);
    assert_eq!(plain.display_name(), "Hades");
}

#[test]
fn strict_steam_rule_stops_after_twenty_files() {
    let s = SteamScanner::new("/steam".to_string(), "/cache.json".to_string());
    let mut items = vec![WalkItem::Dir];
    items.extend((0..21).map(|i| WalkItem::File(format!("f{}.txt", i))));
    items.push(WalkItem::File("slot.sav".to_string()));
    assert!(!s.has_save_files(&items).unwrap());
    assert!(s.has_save_files(&vec![WalkItem::File("autosave.bin".to_string())]).unwrap());
    assert!(!s.has_save_files(&vec![WalkItem::File("save_config.ini".to_string())]).unwrap());
    assert!(s.has_save_files(&vec![WalkItem::Unreadable("denied".to_string())]).is_err());
}

#[test]
fn only_numbered_pre_release_tags_are_skipped() {
    let s = NonSteamScanner::new(&no_dirs());
    let comps = |cs: &[&str]| -> Vec<String> { cs.iter().map(|c| c.to_string()).collect() };
    let prey = comps(&["/", "games", "Prey", "Saves"]);
    assert_eq!(s.extract_game_name_from_path(&prey, &Some("Saves".to_string())), Some("Prey".to_string()));
    let tagged = comps(&["/", "games", "Factorio", "pre3", "save"]);
    assert_eq!(s.extract_game_name_from_path(&tagged, &Some("save".to_string())), Some("Factorio".to_string()));
    let snapshot = comps(&["/", "data", "Cubes", "2.0-pre1"]);
    assert_eq!(s.extract_game_name_from_path(&snapshot, &Some("2.0-pre1".to_string())), Some("Cubes".to_string()));
}
