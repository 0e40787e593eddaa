use save_guardian::sync::{CopyStep, SyncManager};
use save_guardian::types::{EntryKind, GameSave, SaveGuardianError, SaveType, SyncDirection, Timestamp, TreeEntry};

fn steam_save(name: &str, id: u32, path: &str, secs: Option<i64>) -> GameSave {
    GameSave::new(
        name.to_string(),
        path.to_string(),
        SaveType::Steam,
        Some(id),
        secs.map(|s| Timestamp { secs: s, nanos: 0 }),
        10,
    )
}

fn other_save(name: &str, path: &str, secs: Option<i64>) -> GameSave {
    GameSave::new(
        name.to_string(),
        path.to_string(),
        SaveType::NonSteam,
        None,
        secs.map(|s| Timestamp { secs: s, nanos: 0 }),
        20,
    )
}

#[test]
fn witcher_titles_match_after_normalisation() {
    let m = SyncManager::new(false);
    assert!(m.is_likely_same_game("The Witcher 3", "Witcher 3: Wild Hunt", None));
}

#[test]
fn unrelated_titles_do_not_match() {
    let m = SyncManager::new(false);
    assert!(!m.is_likely_same_game("Stardew Valley", "Minecraft", None));
}

#[test]
fn normalisation_lowercases_and_drops_stop_words() {
    let m = SyncManager::new(false);
    assert_eq!(m.normalize_game_name("The Witcher 3: Wild Hunt"), "witcher 3 wild hunt");
    assert_eq!(m.normalize_game_name("THE LORD of-the_RINGS!"), "lord rings");
    assert_eq!(m.normalize_game_name(""), "");
}

#[test]
fn levenshtein_known_values() {
    let m = SyncManager::new(false);
    assert_eq!(m.levenshtein_distance("kitten", "sitting"), 3);
    assert_eq!(m.levenshtein_distance("", "abc"), 3);
    assert_eq!(m.levenshtein_distance("abc", "abc"), 0);
    assert_eq!(m.levenshtein_distance("flaw", "lawn"), 2);
}

#[test]
fn similarity_threshold_is_strict() {
    let m = SyncManager::new(false);
    // distance 3 over length 10: similarity exactly 0.7, not above it
    assert!(!m.is_similar("abcdefghij", "abcdefgxyz"));
    // distance 2 over length 10: similarity 0.8
    assert!(m.is_similar("abcdefghij", "abcdefghxy"));
    assert!(m.is_similar("", ""));
    assert!(!m.is_similar("a", ""));
}

#[test]
fn edition_aliases_and_known_ids() {
    let m = SyncManager::new(false);
    assert!(m.check_common_variations("skyrim goty", "skyrim game year"));
    assert!(m.is_likely_same_game("Skyrim GOTY", "Skyrim Game of the Year", None));
    assert!(m.check_common_variations("blade runner directors", "blade runner director s cut"));
    assert!(!m.check_common_variations("skyrim", "oblivion"));
    assert!(m.check_app_id_name_match(271590, "gta v"));
    assert!(!m.check_app_id_name_match(570, "gta v"));
    assert!(m.is_likely_same_game("Counter Strike", "CS:GO", Some(730)));
}

#[test]
fn common_name_is_the_shorter() {
    let m = SyncManager::new(false);
    assert_eq!(m.get_common_game_name(&"Dying Light".to_string(), &"Dying Light: The Following".to_string()), "Dying Light");
    assert_eq!(m.get_common_game_name(&"abcd".to_string(), &"wxyz".to_string()), "abcd");
}

#[test]
fn dying_light_pairs_in_first_pass() {
    let m = SyncManager::new(false);
    let steam = vec![steam_save("Dying Light", 239140, "/steam/239140/remote", Some(100))];
    let others = vec![other_save("Dying Light: The Following", "/docs/DyingLight", Some(200))];
    let pairs = m.find_sync_pairs(&steam, &others);
    assert_eq!(pairs.len(), 1);
    let p = &pairs[0];
    assert_eq!(p.sync_direction, SyncDirection::Bidirectional);
    assert_eq!(p.game_name, "Dying Light");
    assert_eq!(p.app_id, Some(239140));
    assert_eq!(p.steam_save.as_ref().unwrap().save_path, "/steam/239140/remote");
    assert_eq!(p.non_steam_save.as_ref().unwrap().save_path, "/docs/DyingLight");
}

#[test]
fn unmatched_saves_stand_alone() {
    let m = SyncManager::new(false);
    let steam = vec![steam_save("Stardew Valley", 413150, "/steam/413150/remote", None)];
    let others = vec![other_save("Minecraft", "/docs/mc", None)];
    let pairs = m.find_sync_pairs(&steam, &others);
    assert_eq!(pairs.len(), 2);
    assert_eq!(pairs[0].sync_direction, SyncDirection::SteamToNonSteam);
    assert!(pairs[0].non_steam_save.is_none());
    assert_eq!(pairs[1].sync_direction, SyncDirection::NonSteamToSteam);
    assert!(pairs[1].steam_save.is_none());
    assert_eq!(pairs[1].game_name, "Minecraft");
    assert_eq!(pairs[1].app_id, None);
}

#[test]
fn second_pass_takes_first_free_match_and_shorter_name() {
    let m = SyncManager::new(false);
    let mut no_id = other_save("Hollow Knight Saves", "/s/hk", None);
    no_id.save_type = SaveType::Steam;
    let steam = vec![no_id];
    let others = vec![other_save("Hollow Knight", "/o/hk1", None), other_save("Hollow Knight", "/o/hk2", None)];
    let pairs = m.find_sync_pairs(&steam, &others);
    assert_eq!(pairs.len(), 2);
    assert_eq!(pairs[0].game_name, "Hollow Knight");
    assert_eq!(pairs[0].non_steam_save.as_ref().unwrap().save_path, "/o/hk1");
    assert_eq!(pairs[1].non_steam_save.as_ref().unwrap().save_path, "/o/hk2");
    assert!(pairs[1].steam_save.is_none());
}

#[test]
fn bidirectional_sync_copies_from_the_newer_side() {
    let m = SyncManager::new(true);
    let steam = vec![steam_save("Dying Light", 239140, "/steam/remote", Some(100))];
    let others = vec![other_save("Dying Light", "/docs/dl", Some(500))];
    let mut pairs = m.find_sync_pairs(&steam, &others);
    let plan = m.plan_sync(&pairs[0], SyncDirection::Bidirectional, true).unwrap();
    assert_eq!(plan.source.save_path, "/docs/dl");
    assert_eq!(plan.destination.save_path, "/steam/remote");
    assert!(plan.backup_first);
    let tree = vec![
        TreeEntry { relative: String::new(), kind: EntryKind::Dir },
        TreeEntry { relative: "a.sav".to_string(), kind: EntryKind::File },
        TreeEntry { relative: "sub".to_string(), kind: EntryKind::Dir },
        TreeEntry { relative: "sub/b.sav".to_string(), kind: EntryKind::File },
        TreeEntry { relative: "sub/c.dat".to_string(), kind: EntryKind::File },
    ];
    let copy = m.plan_copy(EntryKind::Dir, Some("dl".to_string()), &tree).unwrap();
    assert!(copy.replace_destination);
    assert_eq!(copy.steps.len(), 4);
    assert!(matches!(&copy.steps[1], CopyStep::CreateDir(p) if p == "sub"));
    let files = m.files_in_plan(&copy);
    assert_eq!(files, 3);
    let result = m.complete_sync(&mut pairs[0], SyncDirection::Bidirectional, &plan, files, 42);
    assert_eq!(result.files_copied, 3);
    assert_eq!(result.bytes_copied, 42);
    assert_eq!(result.source_path, "/docs/dl");
    assert!(pairs[0].last_synced.is_some());
}

#[test]
fn equal_times_copy_from_non_steam() {
    let m = SyncManager::new(false);
    let steam = vec![steam_save("X Game", 1, "/s", None)];
    let others = vec![other_save("X Game", "/o", None)];
    let pairs = m.find_sync_pairs(&steam, &others);
    let plan = m.plan_sync(&pairs[0], SyncDirection::Bidirectional, true).unwrap();
    assert_eq!(plan.source.save_path, "/o");
    assert!(!plan.backup_first);
}

#[test]
fn one_sided_pairs_cannot_sync() {
    let m = SyncManager::new(false);
    let steam = vec![steam_save("Only Steam", 7, "/s", None)];
    let pairs = m.find_sync_pairs(&steam, &vec![]);
    match m.plan_sync(&pairs[0], SyncDirection::SteamToNonSteam, false) {
        Err(SaveGuardianError::SaveOperationFailed(msg)) => assert_eq!(msg, "No non-Steam save location specified"),
        other => panic!("unexpected {:?}", other),
    }
    match m.plan_sync(&pairs[0], SyncDirection::NonSteamToSteam, false) {
        Err(SaveGuardianError::SaveOperationFailed(msg)) => assert_eq!(msg, "No non-Steam save found to sync from"),
        other => panic!("unexpected {:?}", other),
    }
    match m.plan_sync(&pairs[0], SyncDirection::Bidirectional, false) {
        Err(SaveGuardianError::SaveOperationFailed(msg)) => assert_eq!(msg, "Both save locations required for bidirectional sync"),
        other => panic!("unexpected {:?}", other),
    }
}

#[test]
fn copy_plans_for_files_and_other_kinds() {
    let m = SyncManager::new(false);
    let single = m.plan_copy(EntryKind::File, Some("slot1.sav".to_string()), &vec![]).unwrap();
    assert!(!single.replace_destination);
    assert_eq!(m.files_in_plan(&single), 1);
    assert!(matches!(m.plan_copy(EntryKind::Other, None, &vec![]), Err(SaveGuardianError::SaveOperationFailed(_))));
}

#[test]
fn manual_pairs() {
    let m = SyncManager::new(false);
    assert!(matches!(m.create_manual_sync_pair(None, None, None), Err(SaveGuardianError::SaveOperationFailed(_))));
    let p = m.create_manual_sync_pair(Some(steam_save("A", 3, "/a", None)), None, Some("Custom".to_string())).unwrap();
    assert_eq!(p.game_name, "Custom");
    assert_eq!(p.app_id, Some(3));
    assert_eq!(p.sync_direction, SyncDirection::SteamToNonSteam);
    let q = m.create_manual_sync_pair(None, Some(other_save("B", "/b", None)), None).unwrap();
    assert_eq!(q.game_name, "B");
    assert_eq!(q.sync_direction, SyncDirection::NonSteamToSteam);
}

#[test]
fn all_ascii_punctuation_separates_words() {
    let m = SyncManager::new(false);
    assert_eq!(m.normalize_game_name("Assassin's Creed"), "assassin s creed");
    assert_eq!(m.normalize_game_name("Mr. X, & Co."), "mr x co");
    assert_eq!(m.normalize_game_name("(Half-Life) [2]"), "half life 2");
}
