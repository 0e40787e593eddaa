use save_guardian::backup::{
    archive_entries, compute_stats, is_sidecar_file_name, restore_steps, select_expired,
    BackupManager, ExtractStep,
};
use save_guardian::types::{BackupInfo, EntryKind, GameSave, SaveGuardianError, SaveType, Timestamp, TreeEntry};

const DAY: i64 = 86400;

fn info(id: &str, name: &str, app_id: Option<u32>, t: SaveType, secs: i64, size: u64) -> BackupInfo {
    BackupInfo {
        id: id.to_string(),
        game_name: name.to_string(),
        app_id,
        save_type: t,
        original_path: "/saves/x".to_string(),
        backup_path: format!("/b/{}.zip", id),
        created_at: Timestamp { secs, nanos: 0 },
        size,
        description: None,
    }
}

fn tree() -> Vec<TreeEntry> {
    vec![
        TreeEntry { relative: String::new(), kind: EntryKind::Dir },
        TreeEntry { relative: "slot1.sav".to_string(), kind: EntryKind::File },
        TreeEntry { relative: "profiles".to_string(), kind: EntryKind::Dir },
        TreeEntry { relative: "profiles\\p1.dat".to_string(), kind: EntryKind::File },
        TreeEntry { relative: "link".to_string(), kind: EntryKind::Other },
    ]
}

#[test]
fn backup_ids_are_safe_file_names() {
    let m = BackupManager::new("/b".to_string(), 30);
    let s = GameSave::new("The Witcher 3: Wild Hunt".to_string(), "/p".to_string(), SaveType::Steam, Some(292030), None, 0);
    assert_eq!(m.generate_backup_id(&s), "The_Witcher_3__Wild_Hunt_292030_steam");
    let n = GameSave::new("a/b*c".to_string(), "/p".to_string(), SaveType::NonSteam, None, None, 0);
    assert_eq!(m.generate_backup_id(&n), "a_b_c_nonsteam");
}

#[test]
fn sidecar_and_archive_paths() {
    let m = BackupManager::new("/b".to_string(), 30);
    assert_eq!(m.get_metadata_path("game_steam"), "/b/game_steam.backup.json");
    assert_eq!(m.archive_path("game_steam", "20240101_120000"), "/b/game_steam_20240101_120000.zip");
    assert!(is_sidecar_file_name("x.backup.json"));
    assert!(!is_sidecar_file_name("x.json"));
    assert!(!is_sidecar_file_name("x_20240101_120000.zip"));
}

#[test]
fn prepared_backups_are_stamped_now() {
    let m = BackupManager::new("/b".to_string(), 30);
    let s = GameSave::new("Hades".to_string(), "/p".to_string(), SaveType::NonSteam, None, None, 0);
    let plan = m.prepare_backup(&s).unwrap();
    assert_eq!(plan.id, "Hades_nonsteam");
    assert_eq!(plan.metadata_path, "/b/Hades_nonsteam.backup.json");
    let file = plan.archive_path.strip_prefix("/b/Hades_nonsteam_").unwrap();
    let stamp = file.strip_suffix(".zip").unwrap();
    assert_eq!(stamp.len(), 15);
    assert_eq!(&stamp[8..9], "_");
    assert!(stamp.starts_with("20"));
    let done = m.finish_backup(&plan, &s, Some("manual".to_string()), 99);
    assert_eq!(done.size, 99);
    assert_eq!(done.backup_path, plan.archive_path);
    assert!(done.created_at.secs > 1_600_000_000);
}

#[test]
fn archive_layout_and_restore_round_trip() {
    let entries = archive_entries(&tree());
    let names: Vec<&str> = entries.iter().map(|e| e.name.as_str()).collect();
    assert_eq!(names, vec!["slot1.sav", "profiles/", "profiles/p1.dat"]);
    assert!(entries[1].is_dir);
    assert_eq!(entries[2].relative, "profiles\\p1.dat");
    let owned: Vec<String> = names.iter().map(|n| n.to_string()).collect();
    let steps = restore_steps(&owned);
    assert!(matches!(&steps[0], ExtractStep::WriteFile(n) if n == "slot1.sav"));
    assert!(matches!(&steps[1], ExtractStep::CreateDir(n) if n == "profiles/"));
    assert!(matches!(&steps[2], ExtractStep::WriteFile(n) if n == "profiles/p1.dat"));
}

#[test]
fn single_files_and_odd_sources() {
    let m = BackupManager::new("/b".to_string(), 30);
    let one = m.plan_archive(EntryKind::File, Some("save.dat".to_string()), &vec![]).unwrap();
    assert_eq!(one.len(), 1);
    assert_eq!(one[0].name, "save.dat");
    let unnamed = m.plan_archive(EntryKind::File, None, &vec![]).unwrap();
    assert_eq!(unnamed[0].name, "unknown");
    match m.plan_archive(EntryKind::Other, None, &vec![]) {
        Err(SaveGuardianError::BackupOperationFailed(msg)) => assert_eq!(msg, "Source path is neither file nor directory"),
        other => panic!("unexpected {:?}", other),
    }
}

#[test]
fn restore_refuses_existing_target_without_overwrite() {
    let m = BackupManager::new("/b".to_string(), 30);
    assert!(matches!(m.check_restore_target(true, false), Err(SaveGuardianError::BackupOperationFailed(_))));
    assert!(m.check_restore_target(true, true).is_ok());
    assert!(m.check_restore_target(false, false).is_ok());
}

#[test]
fn listing_filters_and_orders_newest_first() {
    let m = BackupManager::new("/b".to_string(), 30);
    let all = vec![
        info("a", "Hades", None, SaveType::NonSteam, 100, 1),
        info("b", "Hades II", Some(5), SaveType::Steam, 300, 1),
        info("c", "Portal", Some(5), SaveType::Steam, 200, 1),
        info("d", "Hades", Some(5), SaveType::Steam, 300, 1),
    ];
    let hades = m.select_backups(all, Some("Hades"), None);
    let ids: Vec<&str> = hades.iter().map(|b| b.id.as_str()).collect();
    assert_eq!(ids, vec!["b", "d", "a"]);
    let all2 = vec![
        info("a", "Hades", None, SaveType::NonSteam, 100, 1),
        info("c", "Portal", Some(5), SaveType::Steam, 200, 1),
        info("d", "Hades", Some(5), SaveType::Steam, 300, 1),
    ];
    let both = m.select_backups(all2, Some("Hades"), Some(5));
    assert_eq!(both.len(), 1);
    assert_eq!(both[0].id, "d");
}

#[test]
fn retention_boundary_is_kept() {
    let now = Timestamp { secs: 100 * DAY, nanos: 500 };
    let all = vec![
        info("old", "A", None, SaveType::Steam, 60 * DAY, 1),
        info("edge", "B", None, SaveType::Steam, 70 * DAY, 1),
        info("young", "C", None, SaveType::Steam, 90 * DAY, 1),
    ];
    let mut edge = info("edge2", "D", None, SaveType::Steam, 70 * DAY, 1);
    edge.created_at.nanos = 500;
    let mut all2 = all;
    all2.push(edge);
    let expired = select_expired(&all2, now, 30);
    let ids: Vec<&str> = expired.iter().map(|b| b.id.as_str()).collect();
    assert_eq!(ids, vec!["old", "edge"]);
    assert!(select_expired(&all2, now, 365).is_empty());
}

#[test]
fn expiry_now_uses_the_clock() {
    let m = BackupManager::new("/b".to_string(), 1);
    let all = vec![info("ancient", "A", None, SaveType::Steam, 0, 1), info("future", "B", None, SaveType::Steam, i64::MAX, 1)];
    let expired = m.expired_backups(&all);
    assert_eq!(expired.len(), 1);
    assert_eq!(expired[0].id, "ancient");
}

#[test]
fn stats_add_up() {
    let all = vec![
        info("a", "A", None, SaveType::NonSteam, 100, 10),
        info("b", "B", Some(1), SaveType::Steam, 300, 20),
        info("c", "C", Some(2), SaveType::Steam, 50, u64::MAX),
    ];
    let s = compute_stats(&all);
    assert_eq!(s.total_count, 3);
    assert_eq!(s.total_size, u64::MAX);
    assert_eq!(s.steam_count, 2);
    assert_eq!(s.non_steam_count, 1);
    assert_eq!(s.oldest_backup.unwrap().secs, 50);
    assert_eq!(s.newest_backup.unwrap().secs, 300);
    let empty = compute_stats(&vec![]);
    assert_eq!(empty.total_count, 0);
    assert!(empty.oldest_backup.is_none());
}

#[test]
fn cloud_downloads_are_labelled() {
    let mut b = info("a", "A", None, SaveType::Steam, 0, 1);
    assert!(!b.is_cloud_download());
    assert_eq!(b.display_original_path(), "/saves/x");
    b.original_path = "from cloud".to_string();
    assert!(b.is_cloud_download());
    assert_eq!(b.display_original_path(), "\u{1f4e5} Cloud Download");
    b.description = Some("Downloaded from cloud storage".to_string());
    assert_eq!(b.display_original_path(), "\u{1f4e5} Downloaded from Cloud Storage");
}

#[test]
fn cloud_settings_defaults() {
    let k = save_guardian::types::KoofrConfig::default();
    assert!(!k.enabled);
    assert_eq!(k.server_url, "https://app.koofr.net/dav/Koofr");
    assert_eq!(k.sync_folder, "/SaveGuardian");
    assert_eq!(k.sync_interval_minutes, 30);
}
