//! Backups: naming, archive layout, restore, listing, retention and totals.
//!
//! A backup is an archive `<id>_<YYYYMMDD_HHMMSS>.zip` beside a sidecar
//! `<id>.backup.json` describing it. The caller writes and reads those files;
//! this module decides their names, what goes into an archive and what comes
//! out of it, which backups a listing shows and which have expired.
use vstd::prelude::*;
use crate::text::{
    chars_of, contains_chars, decimal, decimal_chars, ends_with_str, extend_chars, has_infix,
    has_suffix, join_path, joined_path, string_from_chars,
};
use crate::types::{
    earlier, now_utc, BackupInfo, EntryKind, GameSave, SaveGuardianError, SaveType, Timestamp,
    TreeEntry,
};

verus! {

/// The text chrono renders for an instant with the format `%Y%m%d_%H%M%S`.
pub uninterp spec fn compact_stamp(secs: int, nanos: int) -> Seq<char>;

/// Relies on `chrono::DateTime::from_timestamp` and its `format`: the UTC
/// date and time of `t` as `YYYYMMDD_HHMMSS`; nothing when chrono cannot
/// represent the instant.
#[verifier::external_body]
fn format_compact_stamp(t: &Timestamp) -> (r: Option<String>)
    ensures
        r matches Some(s) ==> s@ == compact_stamp(t.secs as int, t.nanos as int),
{
    chrono::DateTime::from_timestamp(t.secs, t.nanos).map(
        |d| d.format("%Y%m%d_%H%M%S").to_string(),
    )
}

/// Characters that cannot stand in a file name and become `_` in an id.
pub open spec fn is_unsafe_name_char(c: char) -> bool {
    c == ' ' || c == '/' || c == '\\' || c == ':' || c == '*' || c == '?' || c == '"' || c == '<'
        || c == '>' || c == '|'
}

/// A game name made safe for a file name.
pub open spec fn clean_id_name(name: Seq<char>) -> Seq<char> {
    Seq::new(name.len(), |i: int| if is_unsafe_name_char(name[i]) { '_' } else { name[i] })
}

/// The tag of a save's origin in an id.
pub open spec fn origin_tag(t: SaveType) -> Seq<char> {
    match t {
        SaveType::Steam => "steam"@,
        SaveType::NonSteam => "nonsteam"@,
    }
}

/// The id of a save's backups: `clean(name)[_titleId]_origin`.
pub open spec fn backup_id_of(save: GameSave) -> Seq<char> {
    clean_id_name(save.name@) + match save.app_id {
        Some(id) => seq!['_'] + decimal(id as nat),
        None => Seq::empty(),
    } + seq!['_'] + origin_tag(save.save_type)
}

/// The archive file name for an id and a time stamp.
pub open spec fn archive_name_of(id: Seq<char>, stamp: Seq<char>) -> Seq<char> {
    id + seq!['_'] + stamp + ".zip"@
}

/// The sidecar file name for an id.
pub open spec fn sidecar_name_of(id: Seq<char>) -> Seq<char> {
    id + ".backup.json"@
}

/// One entry of an archive: its name inside the archive (forward slashes,
/// directories ending in `/`) and the path, relative to the source, it is
/// read from.
#[derive(Debug)]
pub struct ArchiveEntry {
    pub name: String,
    pub relative: String,
    pub is_dir: bool,
}

/// A relative path with its separators made forward slashes.
pub open spec fn slashed(p: Seq<char>) -> Seq<char> {
    Seq::new(p.len(), |i: int| if p[i] == '\\' { '/' } else { p[i] })
}

/// The entries (name, relative path, whether a directory) of an archive of
/// a walked directory: each file under its slashed relative path, each
/// directory below the root under its slashed path and a trailing `/`, in
/// walk order.
pub open spec fn archive_entries_of(entries: Seq<TreeEntry>) -> Seq<(Seq<char>, Seq<char>, bool)>
    decreases entries.len(),
{
    if entries.len() == 0 {
        Seq::empty()
    } else {
        let r = archive_entries_of(entries.drop_last());
        match archive_entry_of(entries.last()) {
            Some(t) => r.push(t),
            None => r,
        }
    }
}

/// The archive entry (name, relative path, whether a directory) of one
/// walked entry: files and directories below the root have one.
pub open spec fn archive_entry_of(e: TreeEntry) -> Option<(Seq<char>, Seq<char>, bool)> {
    match e.kind {
        EntryKind::File => Some((slashed(e.relative@), e.relative@, false)),
        EntryKind::Dir => if e.relative@.len() > 0 {
            Some((slashed(e.relative@) + seq!['/'], e.relative@, true))
        } else {
            None
        },
        EntryKind::Other => None,
    }
}

/// What restoring one archive entry does, by its name in the archive.
#[derive(Debug)]
pub enum ExtractStep {
    CreateDir(String),
    WriteFile(String),
}

/// The backups of `all` whose game name contains `name` (when given) and
/// whose title id is `app_id` (when given), in order.
pub open spec fn backups_matching(all: Seq<BackupInfo>, name: Option<Seq<char>>, app_id: Option<u32>) -> Seq<BackupInfo>
    decreases all.len(),
{
    if all.len() == 0 {
        Seq::empty()
    } else {
        let r = backups_matching(all.drop_last(), name, app_id);
        let b = all.last();
        let by_name = match name {
            Some(n) => has_infix(b.game_name@, n),
            None => true,
        };
        let by_id = match app_id {
            Some(id) => b.app_id == Some(id),
            None => true,
        };
        if by_name && by_id {
            r.push(b)
        } else {
            r
        }
    }
}

/// `bs` runs from the newest creation time to the oldest.
pub open spec fn newest_first(bs: Seq<BackupInfo>) -> bool {
    forall|i: int, j: int| 0 <= i < j < bs.len() ==> !earlier(#[trigger] bs[i].created_at, #[trigger] bs[j].created_at)
}

/// The instant `days` whole days before `now`.
pub open spec fn cutoff_of(now: Timestamp, days: u32) -> (int, int) {
    (now.secs - days * 86400, now.nanos as int)
}

/// `t` lies strictly before the retention cutoff.
pub open spec fn expired_at(t: Timestamp, now: Timestamp, days: u32) -> bool {
    let (cs, cn) = cutoff_of(now, days);
    t.secs < cs || (t.secs == cs && t.nanos < cn)
}

/// The backups of `all` created strictly before the cutoff, in order.
pub open spec fn expired_of(all: Seq<BackupInfo>, now: Timestamp, days: u32) -> Seq<BackupInfo>
    decreases all.len(),
{
    if all.len() == 0 {
        Seq::empty()
    } else {
        let r = expired_of(all.drop_last(), now, days);
        if expired_at(all.last().created_at, now, days) {
            r.push(all.last())
        } else {
            r
        }
    }
}

/// Totals over a list of backups.
#[derive(Debug)]
pub struct BackupStats {
    pub total_count: usize,
    pub total_size: u64,
    pub steam_count: usize,
    pub non_steam_count: usize,
    pub oldest_backup: Option<Timestamp>,
    pub newest_backup: Option<Timestamp>,
}

/// The sum of the sizes of `bs`.
pub open spec fn size_sum(bs: Seq<BackupInfo>) -> nat
    decreases bs.len(),
{
    if bs.len() == 0 {
        0
    } else {
        size_sum(bs.drop_last()) + bs.last().size as nat
    }
}

/// How many of `bs` have origin `t`.
pub open spec fn count_of_type(bs: Seq<BackupInfo>, t: SaveType) -> nat
    decreases bs.len(),
{
    if bs.len() == 0 {
        0
    } else {
        count_of_type(bs.drop_last(), t) + if bs.last().save_type == t { 1nat } else { 0nat }
    }
}

/// The earliest creation time in `bs`.
pub open spec fn oldest_of(bs: Seq<BackupInfo>) -> Option<Timestamp>
    decreases bs.len(),
{
    if bs.len() == 0 {
        None
    } else {
        match oldest_of(bs.drop_last()) {
            Some(o) => if earlier(bs.last().created_at, o) {
                Some(bs.last().created_at)
            } else {
                Some(o)
            },
            None => Some(bs.last().created_at),
        }
    }
}

/// The latest creation time in `bs`.
pub open spec fn newest_of(bs: Seq<BackupInfo>) -> Option<Timestamp>
    decreases bs.len(),
{
    if bs.len() == 0 {
        None
    } else {
        match newest_of(bs.drop_last()) {
            Some(o) => if earlier(o, bs.last().created_at) {
                Some(bs.last().created_at)
            } else {
                Some(o)
            },
            None => Some(bs.last().created_at),
        }
    }
}

/// Where a new backup goes: its id, the archive path and the sidecar path.
#[derive(Debug)]
pub struct BackupPlan {
    pub id: String,
    pub archive_path: String,
    pub metadata_path: String,
}

/// Names, plans and selects backups under one root folder.
#[derive(Debug)]
pub struct BackupManager {
    pub backup_root: String,
    pub retention_days: u32,
}

impl BackupManager {
    /// A manager for the backups under `backup_root`, keeping them
    /// `retention_days` days.
    pub fn new(backup_root: String, retention_days: u32) -> (r: BackupManager)
        ensures
            r.backup_root == backup_root,
            r.retention_days == retention_days,
    {
        BackupManager { backup_root, retention_days }
    }

    /// The id of a save's backups.
    pub fn generate_backup_id(&self, game_save: &GameSave) -> (r: String)
        ensures
            r@ == backup_id_of(*game_save),
    {
        let name = chars_of(game_save.name.as_str());
        let mut v: Vec<char> = Vec::new();
        let mut i: usize = 0;
        while i < name.len()
            invariant
                i <= name.len(),
                name@ == game_save.name@,
                v@ == clean_id_name(name@).subrange(0, i as int),
            decreases name.len() - i,
        {
            let c = name[i];
            if c == ' ' || c == '/' || c == '\\' || c == ':' || c == '*' || c == '?' || c == '"'
                || c == '<' || c == '>' || c == '|' {
                v.push('_');
            } else {
                v.push(c);
            }
            i += 1;
            proof {
                assert(v@ =~= clean_id_name(name@).subrange(0, i as int));
            }
        }
        proof {
            assert(v@ =~= clean_id_name(name@));
        }
        let ghost cleaned = v@;
        match game_save.app_id {
            Some(id) => {
                v.push('_');
                let digits = decimal_chars(id);
                extend_chars(&mut v, &digits);
                proof {
                    assert(v@ =~= cleaned + (seq!['_'] + decimal(id as nat)));
                }
            },
            None => {
                proof {
                    assert(v@ =~= cleaned + Seq::<char>::empty());
                }
            },
        }
        let ghost mid = v@;
        v.push('_');
        let tag = match game_save.save_type {
            SaveType::Steam => chars_of("steam"),
            SaveType::NonSteam => chars_of("nonsteam"),
        };
        extend_chars(&mut v, &tag);
        proof {
            assert(v@ =~= mid + seq!['_'] + origin_tag(game_save.save_type));
        }
        string_from_chars(v.as_slice())
    }

    /// The sidecar path of the backups with id `backup_id`.
    pub fn get_metadata_path(&self, backup_id: &str) -> (r: String)
        ensures
            r@ == joined_path(self.backup_root@, sidecar_name_of(backup_id@)),
    {
        let mut v = chars_of(backup_id);
        let suffix = chars_of(".backup.json");
        extend_chars(&mut v, &suffix);
        let name = string_from_chars(v.as_slice());
        join_path(self.backup_root.as_str(), name.as_str())
    }

    /// The archive path for id `backup_id` and stamp `stamp`.
    pub fn archive_path(&self, backup_id: &str, stamp: &str) -> (r: String)
        ensures
            r@ == joined_path(self.backup_root@, archive_name_of(backup_id@, stamp@)),
    {
        let mut v = chars_of(backup_id);
        v.push('_');
        let s = chars_of(stamp);
        extend_chars(&mut v, &s);
        let z = chars_of(".zip");
        extend_chars(&mut v, &z);
        proof {
            assert(v@ =~= archive_name_of(backup_id@, stamp@));
        }
        let name = string_from_chars(v.as_slice());
        join_path(self.backup_root.as_str(), name.as_str())
    }

    /// Where a backup of `game_save` taken now goes: its id, the archive
    /// stamped with the current UTC time, and its sidecar.
    pub fn prepare_backup(&self, game_save: &GameSave) -> (r: Result<BackupPlan, SaveGuardianError>)
        ensures
            r matches Ok(p) ==> {
                &&& p.id@ == backup_id_of(*game_save)
                &&& p.metadata_path@ == joined_path(self.backup_root@, sidecar_name_of(p.id@))
                &&& exists|t: Timestamp|
                    p.archive_path@ == joined_path(
                        self.backup_root@,
                        archive_name_of(p.id@, compact_stamp(t.secs as int, t.nanos as int)),
                    )
            },
            r matches Err(e) ==> e is BackupOperationFailed,
    {
        let id = self.generate_backup_id(game_save);
        let now = now_utc();
        match format_compact_stamp(&now) {
            Some(stamp) => {
                let archive_path = self.archive_path(id.as_str(), stamp.as_str());
                let metadata_path = self.get_metadata_path(id.as_str());
                Ok(BackupPlan { id, archive_path, metadata_path })
            },
            None => Err(
                SaveGuardianError::BackupOperationFailed(
                    String::from_str("The current time cannot be written as a date"),
                ),
            ),
        }
    }

    /// The entries of an archive of a save: a single file under its own
    /// name (`unknown` when it has none); a directory's walked tree as
    /// [`archive_entries_of`] lays it out; anything else cannot be archived.
    pub fn plan_archive(&self, source_kind: EntryKind, source_file_name: Option<String>, entries: &Vec<TreeEntry>) -> (r: Result<Vec<ArchiveEntry>, SaveGuardianError>)
        ensures
            source_kind == EntryKind::File ==> match r {
                Ok(v) => v.len() == 1 && !v[0].is_dir && v[0].relative@.len() == 0 && v[0].name@
                    == match source_file_name {
                    Some(f) => f@,
                    None => "unknown"@,
                },
                Err(_) => false,
            },
            source_kind == EntryKind::Dir ==> match r {
                Ok(v) => v@.map_values(|a: ArchiveEntry| entry_view(a)) == archive_entries_of(entries@),
                Err(_) => false,
            },
            source_kind == EntryKind::Other ==> match r {
                Err(SaveGuardianError::BackupOperationFailed(e)) => e@
                    == "Source path is neither file nor directory"@,
                _ => false,
            },
    {
        match source_kind {
            EntryKind::File => {
                let name = match source_file_name {
                    Some(f) => f,
                    None => String::from_str("unknown"),
                };
                let mut v: Vec<ArchiveEntry> = Vec::new();
                v.push(ArchiveEntry { name, relative: String::new(), is_dir: false });
                Ok(v)
            },
            EntryKind::Dir => Ok(archive_entries(entries)),
            EntryKind::Other => Err(
                SaveGuardianError::BackupOperationFailed(
                    String::from_str("Source path is neither file nor directory"),
                ),
            ),
        }
    }

    /// The record of a finished backup, created now.
    pub fn finish_backup(&self, plan: &BackupPlan, game_save: &GameSave, description: Option<String>, size: u64) -> (r: BackupInfo)
        ensures
            r.id == plan.id,
            r.game_name == game_save.name,
            r.app_id == game_save.app_id,
            r.save_type == game_save.save_type,
            r.original_path == game_save.save_path,
            r.backup_path == plan.archive_path,
            r.size == size,
            r.description == description,
    {
        BackupInfo {
            id: plan.id.clone(),
            game_name: game_save.name.clone(),
            app_id: game_save.app_id,
            save_type: game_save.save_type,
            original_path: game_save.save_path.clone(),
            backup_path: plan.archive_path.clone(),
            created_at: now_utc(),
            size,
            description,
        }
    }

    /// Whether a restore may go ahead: not when the target exists and may
    /// not be overwritten. The refusal comes before anything is written.
    pub fn check_restore_target(&self, target_exists: bool, overwrite: bool) -> (r: Result<(), SaveGuardianError>)
        ensures
            r is Err <==> (target_exists && !overwrite),
            r matches Err(e) ==> (e matches SaveGuardianError::BackupOperationFailed(m) && m@
                == "Restore path already exists and overwrite is disabled"@),
    {
        if target_exists && !overwrite {
            return Err(
                SaveGuardianError::BackupOperationFailed(
                    String::from_str("Restore path already exists and overwrite is disabled"),
                ),
            );
        }
        Ok(())
    }

    /// The backups a listing shows: those matching the filters, newest first.
    pub fn select_backups(&self, all: Vec<BackupInfo>, game_name: Option<&str>, app_id: Option<u32>) -> (r: Vec<BackupInfo>)
        ensures
            newest_first(r@),
            r@.to_multiset() == backups_matching(
                all@,
                match game_name {
                    Some(n) => Some(n@),
                    None => None,
                },
                app_id,
            ).to_multiset(),
    {
        let ghost name = match game_name {
            Some(n) => Some(n@),
            None => None,
        };
        let filter: Option<Vec<char>> = match game_name {
            Some(n) => Some(chars_of(n)),
            None => None,
        };
        let mut out: Vec<BackupInfo> = Vec::new();
        let mut i: usize = 0;
        while i < all.len()
            invariant
                i <= all.len(),
                name == match game_name {
                    Some(n) => Some(n@),
                    None => None::<Seq<char>>,
                },
                match filter {
                    Some(f) => name == Some(f@),
                    None => name is None,
                },
                newest_first(out@),
                out@.to_multiset() == backups_matching(all@.subrange(0, i as int), name, app_id).to_multiset(),
            decreases all.len() - i,
        {
            proof {
                assert(all@.subrange(0, i + 1).drop_last() =~= all@.subrange(0, i as int));
            }
            let b = &all[i];
            let by_name = match &filter {
                Some(f) => {
                    let g = chars_of(b.game_name.as_str());
                    contains_chars(&g, f)
                },
                None => true,
            };
            let by_id = match app_id {
                Some(id) => match b.app_id {
                    Some(x) => x == id,
                    None => false,
                },
                None => true,
            };
            let ghost sofar = backups_matching(all@.subrange(0, i as int), name, app_id);
            proof {
                assert(all@.subrange(0, i + 1).last() == all@[i as int]);
            }
            if by_name && by_id {
                let x = b.duplicate();
                insert_newest_first(&mut out, x);
                proof {
                    vstd::seq_lib::to_multiset_build(sofar, all@[i as int]);
                }
            }
            i += 1;
        }
        proof {
            assert(all@.subrange(0, all.len() as int) =~= all@);
        }
        out
    }

    /// The backups of `all` that have outlived the retention period as of
    /// now: created strictly before now minus `retention_days` days.
    pub fn expired_backups(&self, all: &Vec<BackupInfo>) -> (r: Vec<BackupInfo>)
        ensures
            exists|now: Timestamp| r@ == expired_of(all@, now, self.retention_days),
    {
        let now = now_utc();
        select_expired(all, now, self.retention_days)
    }
}

/// A walked tree whose file paths do not end in a separator, as no file
/// path does.
pub open spec fn files_not_slashed(tree: Seq<TreeEntry>) -> bool {
    forall|k: int|
        0 <= k < tree.len() && (#[trigger] tree[k]).kind == EntryKind::File ==> !has_suffix(
            slashed(tree[k].relative@),
            "/"@,
        )
}

/// Archiving a tree and restoring the archive gives the tree back: every
/// entry of the archive is restored as a directory exactly when it was a
/// directory, under its own relative path with forward slashes (and a
/// trailing `/` for directories); every file and every directory below the
/// root has its entry.
pub proof fn lemma_archive_restores_tree(tree: Seq<TreeEntry>)
    requires
        files_not_slashed(tree),
    ensures
        forall|k: int|
            0 <= k < archive_entries_of(tree).len() ==> {
                let e = #[trigger] archive_entries_of(tree)[k];
                &&& has_suffix(e.0, "/"@) == e.2
                &&& e.2 ==> e.0 == slashed(e.1) + seq!['/']
                &&& !e.2 ==> e.0 == slashed(e.1)
            },
        archive_entries_of(tree).len() == files_in_tree(tree) + dirs_below_root(tree),
    decreases tree.len(),
{
    if tree.len() > 0 {
        let rest = tree.drop_last();
        assert(files_not_slashed(rest)) by {
            assert forall|k: int| 0 <= k < rest.len() && (#[trigger] rest[k]).kind == EntryKind::File implies !has_suffix(
                slashed(rest[k].relative@),
                "/"@,
            ) by {
                assert(rest[k] == tree[k]);
            }
        }
        lemma_archive_restores_tree(rest);
        let r = archive_entries_of(rest);
        let e = tree.last();
        assert(tree[tree.len() - 1] == e);
        if e.kind == EntryKind::Dir && e.relative@.len() > 0 {
            let name = slashed(e.relative@) + seq!['/'];
            assert(name.subrange(name.len() - 1, name.len() as int) =~= "/"@) by {
                reveal_strlit("/");
            }
        }
        if e.kind == EntryKind::File {
            assert(!has_suffix(slashed(e.relative@), "/"@));
        }
    }
}

/// How many files a walked tree holds.
pub open spec fn files_in_tree(tree: Seq<TreeEntry>) -> nat
    decreases tree.len(),
{
    if tree.len() == 0 {
        0
    } else {
        files_in_tree(tree.drop_last()) + if tree.last().kind == EntryKind::File { 1nat } else { 0nat }
    }
}

/// How many directories below the root a walked tree holds.
pub open spec fn dirs_below_root(tree: Seq<TreeEntry>) -> nat
    decreases tree.len(),
{
    if tree.len() == 0 {
        0
    } else {
        dirs_below_root(tree.drop_last()) + if tree.last().kind == EntryKind::Dir
            && tree.last().relative@.len() > 0 {
            1nat
        } else {
            0nat
        }
    }
}

/// Retention removes all and only the backups created strictly before the
/// cutoff; one created exactly at the cutoff is kept.
pub proof fn lemma_expired_all_and_only(all: Seq<BackupInfo>, now: Timestamp, days: u32, b: BackupInfo)
    ensures
        expired_of(all, now, days).contains(b) <==> (all.contains(b) && expired_at(b.created_at, now, days)),
        b.created_at.secs == now.secs - days * 86400 && b.created_at.nanos == now.nanos ==> !expired_of(
            all,
            now,
            days,
        ).contains(b),
    decreases all.len(),
{
    if all.len() > 0 {
        lemma_expired_all_and_only(all.drop_last(), now, days, b);
        let r = expired_of(all.drop_last(), now, days);
        assert(all =~= all.drop_last().push(all.last()));
        if expired_at(all.last().created_at, now, days) {
            assert(r.push(all.last()).contains(b) <==> (r.contains(b) || b == all.last())) by {
                if r.push(all.last()).contains(b) {
                    let w = choose|w: int| 0 <= w < r.push(all.last()).len() && r.push(all.last())[w] == b;
                    if w < r.len() {
                        assert(r[w] == b);
                    }
                }
                if r.contains(b) {
                    let w = choose|w: int| 0 <= w < r.len() && r[w] == b;
                    assert(r.push(all.last())[w] == b);
                }
                if b == all.last() {
                    assert(r.push(all.last())[r.len() as int] == b);
                }
            }
        }
        assert(all.contains(b) <==> (all.drop_last().contains(b) || b == all.last())) by {
            if all.contains(b) {
                let w = choose|w: int| 0 <= w < all.len() && all[w] == b;
                if w < all.len() - 1 {
                    assert(all.drop_last()[w] == b);
                }
            }
            if all.drop_last().contains(b) {
                let w = choose|w: int| 0 <= w < all.drop_last().len() && all.drop_last()[w] == b;
                assert(all[w] == b);
            }
            if b == all.last() {
                assert(all[all.len() - 1] == b);
            }
        }
    }
}

/// Inserts `x` after every backup not older than it, keeping the list
/// newest first and stable among equal times.
fn insert_newest_first(out: &mut Vec<BackupInfo>, x: BackupInfo)
    requires
        newest_first(old(out)@),
    ensures
        newest_first(final(out)@),
        final(out)@.to_multiset() == old(out)@.to_multiset().insert(x),
{
    let mut p: usize = 0;
    while p < out.len() && !out[p].created_at.is_before(&x.created_at)
        invariant
            p <= out.len(),
            forall|k: int| 0 <= k < p ==> !earlier(#[trigger] out@[k].created_at, x.created_at),
        decreases out.len() - p,
    {
        p += 1;
    }
    let ghost before = out@;
    out.insert(p, x);
    proof {
        vstd::seq_lib::to_multiset_insert(before, p as int, x);
        assert forall|i: int, j: int| 0 <= i < j < out@.len() implies !earlier(
            #[trigger] out@[i].created_at,
            #[trigger] out@[j].created_at,
        ) by {
            if j < p {
                assert(out@[i] == before[i] && out@[j] == before[j]);
            } else if j == p {
                assert(out@[i] == before[i]);
            } else if i == p {
                assert(out@[j] == before[j - 1]);
                if p < before.len() {
                    assert(earlier(before[p as int].created_at, x.created_at));
                    if j - 1 > p {
                        assert(!earlier(before[p as int].created_at, before[j - 1].created_at));
                    }
                }
            } else if i < p {
                assert(out@[i] == before[i] && out@[j] == before[j - 1]);
            } else {
                assert(out@[i] == before[i - 1] && out@[j] == before[j - 1]);
            }
        }
    }
}

/// An archive entry as (name, relative path, whether a directory).
pub open spec fn entry_view(a: ArchiveEntry) -> (Seq<char>, Seq<char>, bool) {
    (a.name@, a.relative@, a.is_dir)
}

/// The archive entry for one walked entry, if it has one.
fn archive_entry_for(e: &TreeEntry) -> (r: Option<ArchiveEntry>)
    ensures
        match archive_entry_of(*e) {
            Some(t) => r matches Some(a) && entry_view(a) == t,
            None => r is None,
        },
{
    let rel = chars_of(e.relative.as_str());
    let mut name: Vec<char> = Vec::new();
    let mut k: usize = 0;
    while k < rel.len()
        invariant
            k <= rel.len(),
            name@ == slashed(rel@).subrange(0, k as int),
        decreases rel.len() - k,
    {
        if rel[k] == '\\' {
            name.push('/');
        } else {
            name.push(rel[k]);
        }
        k += 1;
        proof {
            assert(name@ =~= slashed(rel@).subrange(0, k as int));
        }
    }
    proof {
        assert(name@ =~= slashed(rel@));
    }
    match e.kind {
        EntryKind::File => {
            let n = string_from_chars(name.as_slice());
            let a = ArchiveEntry { name: n, relative: e.relative.clone(), is_dir: false };
            Some(a)
        },
        EntryKind::Dir => {
            if rel.len() > 0 {
                name.push('/');
                let n = string_from_chars(name.as_slice());
                let a = ArchiveEntry { name: n, relative: e.relative.clone(), is_dir: true };
                Some(a)
            } else {
                None
            }
        },
        EntryKind::Other => None,
    }
}

/// The entries of an archive of a walked directory.
pub fn archive_entries(entries: &Vec<TreeEntry>) -> (r: Vec<ArchiveEntry>)
    ensures
        r@.map_values(|a: ArchiveEntry| entry_view(a)) == archive_entries_of(entries@),
{
    let mut out: Vec<ArchiveEntry> = Vec::new();
    let mut i: usize = 0;
    while i < entries.len()
        invariant
            i <= entries.len(),
            out@.map_values(|a: ArchiveEntry| entry_view(a)) == archive_entries_of(entries@.subrange(0, i as int)),
        decreases entries.len() - i,
    {
        let ghost prefix = entries@.subrange(0, i as int);
        let ghost old_out = out@;
        proof {
            assert(entries@.subrange(0, i + 1).drop_last() =~= prefix);
            assert(entries@.subrange(0, i + 1).last() == entries@[i as int]);
        }
        let got = archive_entry_for(&entries[i]);
        match got {
            Some(a) => {
                out.push(a);
                proof {
                    assert(out@.map_values(|a: ArchiveEntry| entry_view(a)) =~= old_out.map_values(|a: ArchiveEntry| entry_view(a)).push(entry_view(out@.last())));
                }
            },
            None => {},
        }
        i += 1;
    }
    proof {
        assert(entries@.subrange(0, entries.len() as int) =~= entries@);
    }
    out
}

/// The restore steps for the entry names of an archive, in archive order.
pub fn restore_steps(names: &Vec<String>) -> (r: Vec<ExtractStep>)
    ensures
        r.len() == names.len(),
        forall|k: int|
            0 <= k < r.len() ==> match #[trigger] r@[k] {
                ExtractStep::CreateDir(n) => n == names@[k] && has_suffix(names@[k]@, "/"@),
                ExtractStep::WriteFile(n) => n == names@[k] && !has_suffix(names@[k]@, "/"@),
            },
{
    let mut out: Vec<ExtractStep> = Vec::new();
    let mut i: usize = 0;
    while i < names.len()
        invariant
            i <= names.len(),
            out.len() == i,
            forall|k: int|
                0 <= k < i ==> match #[trigger] out@[k] {
                    ExtractStep::CreateDir(n) => n == names@[k] && has_suffix(names@[k]@, "/"@),
                    ExtractStep::WriteFile(n) => n == names@[k] && !has_suffix(names@[k]@, "/"@),
                },
        decreases names.len() - i,
    {
        let v = chars_of(names[i].as_str());
        if ends_with_str(&v, "/") {
            out.push(ExtractStep::CreateDir(names[i].clone()));
        } else {
            out.push(ExtractStep::WriteFile(names[i].clone()));
        }
        i += 1;
    }
    out
}

/// Whether a file name is that of a backup sidecar.
pub fn is_sidecar_file_name(name: &str) -> (r: bool)
    ensures
        r == has_suffix(name@, ".backup.json"@),
{
    let v = chars_of(name);
    ends_with_str(&v, ".backup.json")
}

/// The backups of `all` created strictly before `now` minus `days` days;
/// one created exactly at that instant is kept.
pub fn select_expired(all: &Vec<BackupInfo>, now: Timestamp, days: u32) -> (r: Vec<BackupInfo>)
    ensures
        r@ == expired_of(all@, now, days),
{
    let cut_secs: i128 = (now.secs as i128) - (days as i128) * 86400;
    let mut out: Vec<BackupInfo> = Vec::new();
    let mut i: usize = 0;
    while i < all.len()
        invariant
            i <= all.len(),
            cut_secs == now.secs - days * 86400,
            out@ == expired_of(all@.subrange(0, i as int), now, days),
        decreases all.len() - i,
    {
        proof {
            assert(all@.subrange(0, i + 1).drop_last() =~= all@.subrange(0, i as int));
        }
        let t = all[i].created_at;
        let s = t.secs as i128;
        if s < cut_secs || (s == cut_secs && t.nanos < now.nanos) {
            out.push(all[i].duplicate());
        }
        i += 1;
    }
    proof {
        assert(all@.subrange(0, all.len() as int) =~= all@);
    }
    out
}

/// Totals over `backups`: how many, their size (saturating at the largest
/// `u64`), how many of each origin, and the oldest and newest creation times.
pub fn compute_stats(backups: &Vec<BackupInfo>) -> (r: BackupStats)
    ensures
        r.total_count == backups.len(),
        r.total_size as nat == if size_sum(backups@) <= u64::MAX { size_sum(backups@) } else { u64::MAX as nat },
        r.steam_count == count_of_type(backups@, SaveType::Steam),
        r.non_steam_count == count_of_type(backups@, SaveType::NonSteam),
        r.oldest_backup == oldest_of(backups@),
        r.newest_backup == newest_of(backups@),
{
    let mut total_size: u64 = 0;
    let mut steam_count: usize = 0;
    let mut non_steam_count: usize = 0;
    let mut oldest: Option<Timestamp> = None;
    let mut newest: Option<Timestamp> = None;
    let mut i: usize = 0;
    while i < backups.len()
        invariant
            i <= backups.len(),
            steam_count + non_steam_count == i,
            total_size as nat == if size_sum(backups@.subrange(0, i as int)) <= u64::MAX {
                size_sum(backups@.subrange(0, i as int))
            } else {
                u64::MAX as nat
            },
            steam_count == count_of_type(backups@.subrange(0, i as int), SaveType::Steam),
            non_steam_count == count_of_type(backups@.subrange(0, i as int), SaveType::NonSteam),
            oldest == oldest_of(backups@.subrange(0, i as int)),
            newest == newest_of(backups@.subrange(0, i as int)),
        decreases backups.len() - i,
    {
        proof {
            assert(backups@.subrange(0, i + 1).drop_last() =~= backups@.subrange(0, i as int));
        }
        let b = &backups[i];
        total_size = total_size.saturating_add(b.size);
        match b.save_type {
            SaveType::Steam => {
                steam_count += 1;
            },
            SaveType::NonSteam => {
                non_steam_count += 1;
            },
        }
        oldest = match oldest {
            Some(o) => if b.created_at.is_before(&o) {
                Some(b.created_at)
            } else {
                Some(o)
            },
            None => Some(b.created_at),
        };
        newest = match newest {
            Some(o) => if o.is_before(&b.created_at) {
                Some(b.created_at)
            } else {
                Some(o)
            },
            None => Some(b.created_at),
        };
        i += 1;
    }
    proof {
        assert(backups@.subrange(0, backups.len() as int) =~= backups@);
    }
    BackupStats {
        total_count: backups.len(),
        total_size,
        steam_count,
        non_steam_count,
        oldest_backup: oldest,
        newest_backup: newest,
    }
}

} // verus!
