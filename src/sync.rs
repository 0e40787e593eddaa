//! Pairing Steam saves with non-Steam saves, and the decisions of a sync.
use vstd::prelude::*;
use vstd::utf8::encode_utf8;
use crate::text::{
    chars_of, contains_chars, contains_str, has_infix, join_space, lower_chars, lower_of,
    push_word, split_words, string_from_chars, words, equals_str,
};
use crate::types::{
    earlier, now_utc, EntryKind, GameSave, SaveGuardianError, SyncDirection, SyncPair, Timestamp,
    TreeEntry,
};

verus! {

// ---------------------------------------------------------------------------
// Name normalisation
// ---------------------------------------------------------------------------

/// ASCII punctuation, which separates words in a title.
pub open spec fn is_title_punct(c: char) -> bool {
    let v = c as u32;
    (0x21 <= v && v <= 0x2f) || (0x3a <= v && v <= 0x40) || (0x5b <= v && v <= 0x60) || (0x7b <= v
        && v <= 0x7e)
}

fn is_title_punct_exec(c: char) -> (r: bool)
    ensures
        r == is_title_punct(c),
{
    let v = c as u32;
    (0x21 <= v && v <= 0x2f) || (0x3a <= v && v <= 0x40) || (0x5b <= v && v <= 0x60) || (0x7b <= v
        && v <= 0x7e)
}

/// `s` with punctuation turned into spaces.
pub open spec fn punct_to_space(s: Seq<char>) -> Seq<char> {
    Seq::new(s.len(), |i: int| if is_title_punct(s[i]) { ' ' } else { s[i] })
}

/// English words that carry no weight when comparing titles.
pub open spec fn is_stop_word(w: Seq<char>) -> bool {
    w == "the"@ || w == "a"@ || w == "an"@ || w == "and"@ || w == "or"@ || w == "of"@ || w
        == "in"@ || w == "on"@ || w == "at"@ || w == "to"@ || w == "for"@ || w == "with"@
}

/// The words of `ws` that are not stop words, in order.
pub open spec fn content_words(ws: Seq<Seq<char>>) -> Seq<Seq<char>>
    decreases ws.len(),
{
    if ws.len() == 0 {
        ws
    } else {
        let r = content_words(ws.drop_last());
        if is_stop_word(ws.last()) {
            r
        } else {
            r.push(ws.last())
        }
    }
}

/// A title in the form used for comparison: lower case, ASCII punctuation as
/// spaces, stop words dropped, words joined by single spaces.
pub open spec fn normalized(name: Seq<char>) -> Seq<char> {
    join_space(content_words(words(punct_to_space(lower_of(name)))))
}

fn is_stop_word_exec(w: &Vec<char>) -> (r: bool)
    ensures
        r == is_stop_word(w@),
{
    equals_str(w, "the") || equals_str(w, "a") || equals_str(w, "an") || equals_str(w, "and")
        || equals_str(w, "or") || equals_str(w, "of") || equals_str(w, "in") || equals_str(w, "on")
        || equals_str(w, "at") || equals_str(w, "to") || equals_str(w, "for") || equals_str(
        w,
        "with",
    )
}

fn normalize_chars(name: &str) -> (r: Vec<char>)
    ensures
        r@ == normalized(name@),
{
    let lower = lower_chars(name);
    let mut spaced: Vec<char> = Vec::new();
    let mut i: usize = 0;
    while i < lower.len()
        invariant
            i <= lower.len(),
            spaced@ == punct_to_space(lower@).subrange(0, i as int),
        decreases lower.len() - i,
    {
        let c = lower[i];
        if is_title_punct_exec(c) {
            spaced.push(' ');
        } else {
            spaced.push(c);
        }
        i += 1;
        proof {
            assert(spaced@ =~= punct_to_space(lower@).subrange(0, i as int));
        }
    }
    proof {
        assert(spaced@ =~= punct_to_space(lower@));
    }
    let ws = split_words(&spaced);
    let ghost all = words(spaced@);
    let mut out: Vec<char> = Vec::new();
    let mut kept: usize = 0;
    let mut k: usize = 0;
    proof {
        assert(all.subrange(0, 0) =~= Seq::<Seq<char>>::empty());
    }
    while k < ws.len()
        invariant
            k <= ws.len(),
            ws.len() == all.len(),
            forall|q: int| 0 <= q < ws.len() ==> #[trigger] ws[q]@ == all[q],
            kept <= k,
            kept == content_words(all.subrange(0, k as int)).len(),
            out@ == join_space(content_words(all.subrange(0, k as int))),
        decreases ws.len() - k,
    {
        proof {
            assert(all.subrange(0, k + 1).drop_last() =~= all.subrange(0, k as int));
            assert(all.subrange(0, k + 1).last() == ws[k as int]@);
        }
        if !is_stop_word_exec(&ws[k]) {
            push_word(&mut out, &ws[k], kept, Ghost(content_words(all.subrange(0, k as int))));
            kept = kept + 1;
        }
        k += 1;
    }
    proof {
        assert(all.subrange(0, ws.len() as int) =~= all);
    }
    out
}

// ---------------------------------------------------------------------------
// Edition aliases, known titles, edit distance
// ---------------------------------------------------------------------------

/// One name holds the short form of an alias and the other the long form.
pub open spec fn alias_match(a: Seq<char>, b: Seq<char>, short: Seq<char>, long: Seq<char>) -> bool {
    (has_infix(a, short) && has_infix(b, long)) || (has_infix(a, long) && has_infix(b, short))
}

/// The two names differ by a known edition alias. Both forms of each alias
/// are written as [`normalized`] leaves them ("game of the year" without its
/// stop words, "director's cut" with the apostrophe as a space), since they
/// are compared with normalised names.
pub open spec fn variations_match(a: Seq<char>, b: Seq<char>) -> bool {
    alias_match(a, b, "goty"@, "game year"@) || alias_match(a, b, "deluxe"@, "deluxe edition"@)
        || alias_match(a, b, "ultimate"@, "ultimate edition"@) || alias_match(
        a,
        b,
        "remastered"@,
        "remaster"@,
    ) || alias_match(a, b, "enhanced"@, "enhanced edition"@) || alias_match(
        a,
        b,
        "definitive"@,
        "definitive edition"@,
    ) || alias_match(a, b, "directors"@, "director s cut"@) || alias_match(
        a,
        b,
        "complete"@,
        "complete edition"@,
    )
}

/// `name` holds a fragment known to belong to the title with id `app_id`.
pub open spec fn known_title_match(app_id: u32, name: Seq<char>) -> bool {
    (app_id == 239140 && has_infix(name, "dying light"@)) || (app_id == 881020 && has_infix(
        name,
        "dying light"@,
    )) || (app_id == 271590 && has_infix(name, "grand theft auto"@)) || (app_id == 271590
        && has_infix(name, "gta"@)) || (app_id == 730 && has_infix(name, "counter strike"@)) || (
    app_id == 730 && has_infix(name, "cs go"@)) || (app_id == 440 && has_infix(
        name,
        "team fortress"@,
    )) || (app_id == 570 && has_infix(name, "dota"@))
}

/// The least of three numbers.
pub open spec fn min3(x: nat, y: nat, z: nat) -> nat {
    if x <= y && x <= z {
        x
    } else if y <= z {
        y
    } else {
        z
    }
}

/// The Levenshtein distance: the fewest single-character insertions,
/// deletions and substitutions that turn `a` into `b`.
pub open spec fn edit_distance(a: Seq<char>, b: Seq<char>) -> nat
    decreases a.len() + b.len(),
{
    if a.len() == 0 {
        b.len()
    } else if b.len() == 0 {
        a.len()
    } else {
        min3(
            edit_distance(a.drop_last(), b) + 1,
            edit_distance(a, b.drop_last()) + 1,
            edit_distance(a.drop_last(), b.drop_last()) + if a.last() == b.last() {
                0nat
            } else {
                1nat
            },
        )
    }
}

/// The larger of two lengths.
pub open spec fn max_len(a: nat, b: nat) -> nat {
    if a >= b {
        a
    } else {
        b
    }
}

proof fn lemma_edit_distance_bound(a: Seq<char>, b: Seq<char>)
    ensures
        edit_distance(a, b) <= max_len(a.len(), b.len()),
    decreases a.len() + b.len(),
{
    if a.len() > 0 && b.len() > 0 {
        lemma_edit_distance_bound(a.drop_last(), b.drop_last());
    }
}

/// Normalised similarity `1 - distance / max(len)` exceeds seven tenths,
/// stated over whole numbers; two empty names are fully similar.
pub open spec fn similar_enough(a: Seq<char>, b: Seq<char>) -> bool {
    if a.len() == 0 && b.len() == 0 {
        true
    } else if a.len() == 0 || b.len() == 0 {
        false
    } else {
        10 * edit_distance(a, b) < 3 * max_len(a.len(), b.len())
    }
}

/// Two titles are likely the same game.
pub open spec fn likely_same(n1: Seq<char>, n2: Seq<char>, app_id: Option<u32>) -> bool {
    let a = normalized(n1);
    let b = normalized(n2);
    a == b || has_infix(a, b) || has_infix(b, a) || variations_match(a, b) || (match app_id {
        Some(id) => known_title_match(id, b),
        None => false,
    }) || similar_enough(a, b)
}

fn alias_matches(a: &Vec<char>, b: &Vec<char>, short: &str, long: &str) -> (r: bool)
    ensures
        r == alias_match(a@, b@, short@, long@),
{
    (contains_str(a, short) && contains_str(b, long)) || (contains_str(a, long) && contains_str(
        b,
        short,
    ))
}

fn variations_exec(a: &Vec<char>, b: &Vec<char>) -> (r: bool)
    ensures
        r == variations_match(a@, b@),
{
    alias_matches(a, b, "goty", "game year") || alias_matches(a, b, "deluxe", "deluxe edition")
        || alias_matches(a, b, "ultimate", "ultimate edition") || alias_matches(
        a,
        b,
        "remastered",
        "remaster",
    ) || alias_matches(a, b, "enhanced", "enhanced edition") || alias_matches(
        a,
        b,
        "definitive",
        "definitive edition",
    ) || alias_matches(a, b, "directors", "director s cut") || alias_matches(
        a,
        b,
        "complete",
        "complete edition",
    )
}

fn known_title_exec(app_id: u32, name: &Vec<char>) -> (r: bool)
    ensures
        r == known_title_match(app_id, name@),
{
    (app_id == 239140 && contains_str(name, "dying light")) || (app_id == 881020 && contains_str(
        name,
        "dying light",
    )) || (app_id == 271590 && contains_str(name, "grand theft auto")) || (app_id == 271590
        && contains_str(name, "gta")) || (app_id == 730 && contains_str(name, "counter strike")) || (
    app_id == 730 && contains_str(name, "cs go")) || (app_id == 440 && contains_str(
        name,
        "team fortress",
    )) || (app_id == 570 && contains_str(name, "dota"))
}

fn edit_distance_exec(a: &Vec<char>, b: &Vec<char>) -> (r: usize)
    ensures
        r == edit_distance(a@, b@),
{
    let n = a.len();
    let m = b.len();
    let mut prev: Vec<usize> = Vec::new();
    prev.push(0);
    let mut j: usize = 0;
    while j < m
        invariant
            j <= m,
            m == b.len(),
            prev.len() == j + 1,
            forall|q: int| 0 <= q <= j ==> #[trigger] prev[q] == q,
        decreases m - j,
    {
        j += 1;
        prev.push(j);
    }
    proof {
        assert forall|q: int| 0 <= q <= m implies #[trigger] prev[q] == edit_distance(
            a@.subrange(0, 0),
            b@.subrange(0, q),
        ) by {
            assert(a@.subrange(0, 0).len() == 0);
        }
    }
    let mut i: usize = 0;
    while i < n
        invariant
            i <= n,
            n == a.len(),
            m == b.len(),
            prev.len() == m + 1,
            forall|q: int|
                0 <= q <= m ==> #[trigger] prev[q] == edit_distance(
                    a@.subrange(0, i as int),
                    b@.subrange(0, q),
                ),
        decreases n - i,
    {
        let ghost ai = a@.subrange(0, i as int);
        let ghost ai1 = a@.subrange(0, i + 1);
        proof {
            assert(ai1.drop_last() =~= ai);
            assert(ai1.last() == a@[i as int]);
        }
        let mut cur: Vec<usize> = Vec::new();
        cur.push(i + 1);
        proof {
            assert(b@.subrange(0, 0).len() == 0);
        }
        let mut q: usize = 1;
        while q <= m
            invariant
                1 <= q <= m + 1,
                i < n,
                n == a.len(),
                m == b.len(),
                prev.len() == m + 1,
                cur.len() == q,
                ai == a@.subrange(0, i as int),
                ai1 == a@.subrange(0, i + 1),
                ai1.drop_last() == ai,
                ai1.last() == a@[i as int],
                forall|p: int|
                    0 <= p <= m ==> #[trigger] prev[p] == edit_distance(ai, b@.subrange(0, p)),
                forall|p: int|
                    0 <= p < q ==> #[trigger] cur[p] == edit_distance(ai1, b@.subrange(0, p)),
            decreases m + 1 - q,
        {
            let ghost bq = b@.subrange(0, q as int);
            proof {
                assert(bq.drop_last() =~= b@.subrange(0, q - 1));
                assert(bq.last() == b@[q - 1]);
                lemma_edit_distance_bound(ai, b@.subrange(0, q - 1));
            }
            let cost: usize = if a[i] == b[q - 1] {
                0
            } else {
                1
            };
            let diag = prev[q - 1] + cost;
            let side = if prev[q] <= cur[q - 1] {
                prev[q]
            } else {
                cur[q - 1]
            };
            let v = if side < diag {
                side + 1
            } else {
                diag
            };
            cur.push(v);
            q += 1;
        }
        prev = cur;
        i += 1;
    }
    proof {
        assert(a@.subrange(0, n as int) =~= a@);
        assert(b@.subrange(0, m as int) =~= b@);
    }
    prev[m]
}

fn similar_exec(a: &Vec<char>, b: &Vec<char>) -> (r: bool)
    ensures
        r == similar_enough(a@, b@),
{
    if a.len() == 0 && b.len() == 0 {
        return true;
    }
    if a.len() == 0 || b.len() == 0 {
        return false;
    }
    let d = edit_distance_exec(a, b);
    let mx = if a.len() >= b.len() {
        a.len()
    } else {
        b.len()
    };
    (d as u128) * 10 < (mx as u128) * 3
}

/// The length of a text in UTF-8 bytes, as `str::len` reports it.
pub open spec fn utf8_size(s: Seq<char>) -> usize {
    encode_utf8(s).len() as usize
}

/// The name of the pair built from two matching saves: the one with fewer
/// UTF-8 bytes, the first when they are equally long.
pub open spec fn common_name(n1: String, n2: String) -> String {
    if utf8_size(n1@) <= utf8_size(n2@) {
        n1
    } else {
        n2
    }
}

// ---------------------------------------------------------------------------
// Pairing
// ---------------------------------------------------------------------------

/// A pair holding both saves, to be reconciled in either direction.
pub open spec fn both_sides(s: GameSave, n: GameSave, name: String, app_id: Option<u32>) -> SyncPair {
    SyncPair {
        steam_save: Some(s),
        non_steam_save: Some(n),
        game_name: name,
        app_id,
        last_synced: None,
        sync_direction: SyncDirection::Bidirectional,
    }
}

/// A pair holding a Steam save alone.
pub open spec fn steam_alone(s: GameSave) -> SyncPair {
    SyncPair {
        steam_save: Some(s),
        non_steam_save: None,
        game_name: s.name,
        app_id: s.app_id,
        last_synced: None,
        sync_direction: SyncDirection::SteamToNonSteam,
    }
}

/// A pair holding a non-Steam save alone.
pub open spec fn non_steam_alone(n: GameSave) -> SyncPair {
    SyncPair {
        steam_save: None,
        non_steam_save: Some(n),
        game_name: n.name,
        app_id: None,
        last_synced: None,
        sync_direction: SyncDirection::NonSteamToSteam,
    }
}

/// Some pair already holds a Steam save at `path`.
pub open spec fn steam_taken(pairs: Seq<SyncPair>, path: Seq<char>) -> bool {
    exists|k: int|
        0 <= k < pairs.len() && (#[trigger] pairs[k]).steam_save is Some
            && pairs[k].steam_save->0.save_path@ == path
}

/// Some pair already holds a non-Steam save at `path`.
pub open spec fn non_steam_taken(pairs: Seq<SyncPair>, path: Seq<char>) -> bool {
    exists|k: int|
        0 <= k < pairs.len() && (#[trigger] pairs[k]).non_steam_save is Some
            && pairs[k].non_steam_save->0.save_path@ == path
}

/// First pass, for one Steam save with a title id: a pair with every
/// non-Steam save that matches it, in order.
pub open spec fn title_pairs(s: GameSave, ns: Seq<GameSave>) -> Seq<SyncPair>
    decreases ns.len(),
{
    if ns.len() == 0 {
        Seq::empty()
    } else {
        let r = title_pairs(s, ns.drop_last());
        if likely_same(s.name@, ns.last().name@, s.app_id) {
            r.push(both_sides(s, ns.last(), s.name, s.app_id))
        } else {
            r
        }
    }
}

/// First pass: the pairs of every Steam save that has a title id.
pub open spec fn pass_by_title(steam: Seq<GameSave>, ns: Seq<GameSave>) -> Seq<SyncPair>
    decreases steam.len(),
{
    if steam.len() == 0 {
        Seq::empty()
    } else {
        let r = pass_by_title(steam.drop_last(), ns);
        if steam.last().app_id is Some {
            r + title_pairs(steam.last(), ns)
        } else {
            r
        }
    }
}

/// The first non-Steam save from position `j` on that no pair holds yet and
/// that matches `s`.
pub open spec fn first_free_match(pairs: Seq<SyncPair>, s: GameSave, ns: Seq<GameSave>, j: int) -> Option<int>
    decreases ns.len() - j,
{
    if j < 0 || j >= ns.len() {
        None
    } else if !non_steam_taken(pairs, ns[j].save_path@) && likely_same(s.name@, ns[j].name@, s.app_id) {
        Some(j)
    } else {
        first_free_match(pairs, s, ns, j + 1)
    }
}

/// Second pass: each Steam save still unpaired takes the first free
/// non-Steam save that matches it.
pub open spec fn pass_by_name(pairs: Seq<SyncPair>, steam: Seq<GameSave>, ns: Seq<GameSave>) -> Seq<SyncPair>
    decreases steam.len(),
{
    if steam.len() == 0 {
        pairs
    } else {
        let acc = pass_by_name(pairs, steam.drop_last(), ns);
        let s = steam.last();
        if steam_taken(acc, s.save_path@) {
            acc
        } else {
            match first_free_match(acc, s, ns, 0) {
                Some(j) => acc.push(both_sides(s, ns[j], common_name(s.name, ns[j].name), s.app_id)),
                None => acc,
            }
        }
    }
}

/// Third pass: every Steam save still unpaired stands alone.
pub open spec fn pass_steam_alone(pairs: Seq<SyncPair>, steam: Seq<GameSave>) -> Seq<SyncPair>
    decreases steam.len(),
{
    if steam.len() == 0 {
        pairs
    } else {
        let acc = pass_steam_alone(pairs, steam.drop_last());
        if steam_taken(acc, steam.last().save_path@) {
            acc
        } else {
            acc.push(steam_alone(steam.last()))
        }
    }
}

/// Fourth pass: every non-Steam save still unpaired stands alone.
pub open spec fn pass_non_steam_alone(pairs: Seq<SyncPair>, ns: Seq<GameSave>) -> Seq<SyncPair>
    decreases ns.len(),
{
    if ns.len() == 0 {
        pairs
    } else {
        let acc = pass_non_steam_alone(pairs, ns.drop_last());
        if non_steam_taken(acc, ns.last().save_path@) {
            acc
        } else {
            acc.push(non_steam_alone(ns.last()))
        }
    }
}

/// All four passes, in order.
pub open spec fn sync_pairs_of(steam: Seq<GameSave>, ns: Seq<GameSave>) -> Seq<SyncPair> {
    pass_non_steam_alone(
        pass_steam_alone(pass_by_name(pass_by_title(steam, ns), steam, ns), steam),
        ns,
    )
}

fn steam_taken_exec(pairs: &Vec<SyncPair>, path: &String) -> (r: bool)
    ensures
        r == steam_taken(pairs@, path@),
{
    let mut k: usize = 0;
    while k < pairs.len()
        invariant
            k <= pairs.len(),
            forall|q: int|
                0 <= q < k ==> !((#[trigger] pairs@[q]).steam_save is Some
                    && pairs@[q].steam_save->0.save_path@ == path@),
        decreases pairs.len() - k,
    {
        match &pairs[k].steam_save {
            Some(s) => {
                if s.save_path == *path {
                    return true;
                }
            },
            None => {},
        }
        k += 1;
    }
    false
}

fn non_steam_taken_exec(pairs: &Vec<SyncPair>, path: &String) -> (r: bool)
    ensures
        r == non_steam_taken(pairs@, path@),
{
    let mut k: usize = 0;
    while k < pairs.len()
        invariant
            k <= pairs.len(),
            forall|q: int|
                0 <= q < k ==> !((#[trigger] pairs@[q]).non_steam_save is Some
                    && pairs@[q].non_steam_save->0.save_path@ == path@),
        decreases pairs.len() - k,
    {
        match &pairs[k].non_steam_save {
            Some(n) => {
                if n.save_path == *path {
                    return true;
                }
            },
            None => {},
        }
        k += 1;
    }
    false
}

proof fn lemma_title_pairs_wf(s: GameSave, ns: Seq<GameSave>)
    ensures
        forall|k: int| 0 <= k < title_pairs(s, ns).len() ==> (#[trigger] title_pairs(s, ns)[k]).wf(),
    decreases ns.len(),
{
    if ns.len() > 0 {
        lemma_title_pairs_wf(s, ns.drop_last());
        let acc = title_pairs(s, ns.drop_last());
        let x = both_sides(s, ns.last(), s.name, s.app_id);
        assert forall|k: int| 0 <= k < acc.push(x).len() implies (#[trigger] acc.push(x)[k]).wf() by {
            if k < acc.len() {
                assert(acc.push(x)[k] == acc[k]);
            }
        }
    }
}

proof fn lemma_pass_by_title_wf(steam: Seq<GameSave>, ns: Seq<GameSave>)
    ensures
        forall|k: int| 0 <= k < pass_by_title(steam, ns).len() ==> (#[trigger] pass_by_title(steam, ns)[k]).wf(),
    decreases steam.len(),
{
    if steam.len() > 0 {
        lemma_pass_by_title_wf(steam.drop_last(), ns);
        lemma_title_pairs_wf(steam.last(), ns);
        let r = pass_by_title(steam.drop_last(), ns);
        let t = title_pairs(steam.last(), ns);
        assert forall|k: int| 0 <= k < (r + t).len() implies (#[trigger] (r + t)[k]).wf() by {
            if k >= r.len() {
                assert((r + t)[k] == t[k - r.len()]);
            }
        }
    }
}

proof fn lemma_pass_by_name_wf(pairs: Seq<SyncPair>, steam: Seq<GameSave>, ns: Seq<GameSave>)
    requires
        forall|k: int| 0 <= k < pairs.len() ==> (#[trigger] pairs[k]).wf(),
    ensures
        forall|k: int| 0 <= k < pass_by_name(pairs, steam, ns).len() ==> (#[trigger] pass_by_name(pairs, steam, ns)[k]).wf(),
    decreases steam.len(),
{
    if steam.len() > 0 {
        lemma_pass_by_name_wf(pairs, steam.drop_last(), ns);
        let acc = pass_by_name(pairs, steam.drop_last(), ns);
        let s = steam.last();
        if let Some(j) = first_free_match(acc, s, ns, 0) {
            let x = both_sides(s, ns[j], common_name(s.name, ns[j].name), s.app_id);
            assert forall|k: int| 0 <= k < acc.push(x).len() implies (#[trigger] acc.push(x)[k]).wf() by {
                if k < acc.len() {
                    assert(acc.push(x)[k] == acc[k]);
                }
            }
        }
    }
}

proof fn lemma_pass_steam_alone_wf(pairs: Seq<SyncPair>, steam: Seq<GameSave>)
    requires
        forall|k: int| 0 <= k < pairs.len() ==> (#[trigger] pairs[k]).wf(),
    ensures
        forall|k: int| 0 <= k < pass_steam_alone(pairs, steam).len() ==> (#[trigger] pass_steam_alone(pairs, steam)[k]).wf(),
    decreases steam.len(),
{
    if steam.len() > 0 {
        lemma_pass_steam_alone_wf(pairs, steam.drop_last());
        let acc = pass_steam_alone(pairs, steam.drop_last());
        let x = steam_alone(steam.last());
        assert forall|k: int| 0 <= k < acc.push(x).len() implies (#[trigger] acc.push(x)[k]).wf() by {
            if k < acc.len() {
                assert(acc.push(x)[k] == acc[k]);
            }
        }
    }
}

proof fn lemma_pass_non_steam_alone_wf(pairs: Seq<SyncPair>, ns: Seq<GameSave>)
    requires
        forall|k: int| 0 <= k < pairs.len() ==> (#[trigger] pairs[k]).wf(),
    ensures
        forall|k: int| 0 <= k < pass_non_steam_alone(pairs, ns).len() ==> (#[trigger] pass_non_steam_alone(pairs, ns)[k]).wf(),
    decreases ns.len(),
{
    if ns.len() > 0 {
        lemma_pass_non_steam_alone_wf(pairs, ns.drop_last());
        let acc = pass_non_steam_alone(pairs, ns.drop_last());
        let x = non_steam_alone(ns.last());
        assert forall|k: int| 0 <= k < acc.push(x).len() implies (#[trigger] acc.push(x)[k]).wf() by {
            if k < acc.len() {
                assert(acc.push(x)[k] == acc[k]);
            }
        }
    }
}

proof fn lemma_pairs_wf(steam: Seq<GameSave>, ns: Seq<GameSave>)
    ensures
        forall|k: int| 0 <= k < sync_pairs_of(steam, ns).len() ==> (#[trigger] sync_pairs_of(steam, ns)[k]).wf(),
{
    lemma_pass_by_title_wf(steam, ns);
    let by_title = pass_by_title(steam, ns);
    lemma_pass_by_name_wf(by_title, steam, ns);
    let by_name = pass_by_name(by_title, steam, ns);
    lemma_pass_steam_alone_wf(by_name, steam);
    lemma_pass_non_steam_alone_wf(pass_steam_alone(by_name, steam), ns);
}

/// The copy steps for a walked tree.
pub fn copy_steps(entries: &Vec<TreeEntry>) -> (r: Vec<CopyStep>)
    ensures
        r@ == copy_steps_of(entries@),
{
    let mut steps: Vec<CopyStep> = Vec::new();
    let mut i: usize = 0;
    while i < entries.len()
        invariant
            i <= entries.len(),
            steps@ == copy_steps_of(entries@.subrange(0, i as int)),
        decreases entries.len() - i,
    {
        proof {
            assert(entries@.subrange(0, i + 1).drop_last() =~= entries@.subrange(0, i as int));
        }
        let e = &entries[i];
        match e.kind {
            EntryKind::File => {
                steps.push(CopyStep::CopyFile(e.relative.clone()));
            },
            EntryKind::Dir => {
                if e.relative.as_str().unicode_len() > 0 {
                    steps.push(CopyStep::CreateDir(e.relative.clone()));
                }
            },
            EntryKind::Other => {},
        }
        i += 1;
    }
    proof {
        assert(entries@.subrange(0, entries.len() as int) =~= entries@);
    }
    steps
}

/// The outcome of a completed sync.
#[derive(Debug)]
pub struct SyncResult {
    pub files_copied: usize,
    pub bytes_copied: u64,
    pub source_path: String,
    pub destination_path: String,
    pub sync_time: Timestamp,
}

/// What a sync will do: copy `source` over `destination`, after backing the
/// destination up when `backup_first` is set.
#[derive(Debug)]
pub struct SyncPlan {
    pub source: GameSave,
    pub destination: GameSave,
    pub backup_first: bool,
}

/// A modification time, or the epoch when there is none.
pub open spec fn time_or_epoch(t: Option<Timestamp>) -> Timestamp {
    match t {
        Some(x) => x,
        None => Timestamp { secs: 0, nanos: 0 },
    }
}

/// The source and destination of a sync in `direction`, or the reason there
/// is none. Both ways, the side modified later is the source; on equal
/// times the non-Steam side is.
pub open spec fn sync_endpoints(pair: SyncPair, direction: SyncDirection) -> Result<(GameSave, GameSave), Seq<char>> {
    match direction {
        SyncDirection::SteamToNonSteam => match (pair.steam_save, pair.non_steam_save) {
            (Some(s), Some(n)) => Ok((s, n)),
            (Some(_), None) => Err("No non-Steam save location specified"@),
            _ => Err("No Steam save found to sync from"@),
        },
        SyncDirection::NonSteamToSteam => match (pair.non_steam_save, pair.steam_save) {
            (Some(n), Some(s)) => Ok((n, s)),
            (Some(_), None) => Err("No Steam save location specified"@),
            _ => Err("No non-Steam save found to sync from"@),
        },
        SyncDirection::Bidirectional => match (pair.steam_save, pair.non_steam_save) {
            (Some(s), Some(n)) => if earlier(time_or_epoch(n.last_modified), time_or_epoch(s.last_modified)) {
                Ok((s, n))
            } else {
                Ok((n, s))
            },
            _ => Err("Both save locations required for bidirectional sync"@),
        },
    }
}

/// One step of copying a directory tree, by path relative to its root.
#[derive(Debug)]
pub enum CopyStep {
    CreateDir(String),
    CopyFile(String),
}

/// The steps that copy a walked tree: every file is copied and every
/// directory below the root is created, in walk order.
pub open spec fn copy_steps_of(entries: Seq<TreeEntry>) -> Seq<CopyStep>
    decreases entries.len(),
{
    if entries.len() == 0 {
        Seq::empty()
    } else {
        let r = copy_steps_of(entries.drop_last());
        let e = entries.last();
        match e.kind {
            EntryKind::File => r.push(CopyStep::CopyFile(e.relative)),
            EntryKind::Dir => if e.relative@.len() > 0 {
                r.push(CopyStep::CreateDir(e.relative))
            } else {
                r
            },
            EntryKind::Other => r,
        }
    }
}

/// How many files `steps` copy.
pub open spec fn files_copied_by(steps: Seq<CopyStep>) -> nat
    decreases steps.len(),
{
    if steps.len() == 0 {
        0
    } else {
        files_copied_by(steps.drop_last()) + if steps.last() is CopyFile { 1nat } else { 0nat }
    }
}

/// What copying a save does: a single file is copied into the destination
/// folder under its own name; a directory replaces the destination wholesale.
#[derive(Debug)]
pub struct CopyPlan {
    pub replace_destination: bool,
    pub steps: Vec<CopyStep>,
}

/// Pairs saves across the two ecosystems and decides how they are synced.
#[derive(Debug)]
pub struct SyncManager {
    pub backup_before_sync: bool,
}

impl SyncManager {
    /// A manager that backs the destination up before a sync when asked to.
    pub fn new(backup_before_sync: bool) -> (r: SyncManager)
        ensures
            r.backup_before_sync == backup_before_sync,
    {
        SyncManager { backup_before_sync }
    }

    /// Decides the direction of a sync: its source, its destination, and
    /// whether the destination is backed up first (when the manager asks for
    /// it and a backup manager is at hand).
    pub fn plan_sync(&self, pair: &SyncPair, direction: SyncDirection, has_backup_manager: bool) -> (r: Result<SyncPlan, SaveGuardianError>)
        ensures
            match sync_endpoints(*pair, direction) {
                Ok((src, dst)) => match r {
                    Ok(p) => p.source == src && p.destination == dst && p.backup_first == (
                    self.backup_before_sync && has_backup_manager),
                    Err(_) => false,
                },
                Err(m) => match r {
                    Err(SaveGuardianError::SaveOperationFailed(e)) => e@ == m,
                    _ => false,
                },
            },
    {
        let backup_first = self.backup_before_sync && has_backup_manager;
        match direction {
            SyncDirection::SteamToNonSteam => match (&pair.steam_save, &pair.non_steam_save) {
                (Some(s), Some(n)) => Ok(SyncPlan { source: s.duplicate(), destination: n.duplicate(), backup_first }),
                (Some(_), None) => Err(SaveGuardianError::SaveOperationFailed(String::from_str("No non-Steam save location specified"))),
                _ => Err(SaveGuardianError::SaveOperationFailed(String::from_str("No Steam save found to sync from"))),
            },
            SyncDirection::NonSteamToSteam => match (&pair.non_steam_save, &pair.steam_save) {
                (Some(n), Some(s)) => Ok(SyncPlan { source: n.duplicate(), destination: s.duplicate(), backup_first }),
                (Some(_), None) => Err(SaveGuardianError::SaveOperationFailed(String::from_str("No Steam save location specified"))),
                _ => Err(SaveGuardianError::SaveOperationFailed(String::from_str("No non-Steam save found to sync from"))),
            },
            SyncDirection::Bidirectional => match (&pair.steam_save, &pair.non_steam_save) {
                (Some(s), Some(n)) => {
                    let st = match s.last_modified {
                        Some(t) => t,
                        None => Timestamp::epoch(),
                    };
                    let nt = match n.last_modified {
                        Some(t) => t,
                        None => Timestamp::epoch(),
                    };
                    if nt.is_before(&st) {
                        Ok(SyncPlan { source: s.duplicate(), destination: n.duplicate(), backup_first })
                    } else {
                        Ok(SyncPlan { source: n.duplicate(), destination: s.duplicate(), backup_first })
                    }
                },
                _ => Err(SaveGuardianError::SaveOperationFailed(String::from_str("Both save locations required for bidirectional sync"))),
            },
        }
    }

    /// The copy of a save: a file goes into the destination folder under its
    /// own name (nothing to copy when it has none); a directory's walked tree
    /// replaces the destination; anything else cannot be copied.
    pub fn plan_copy(&self, source_kind: EntryKind, source_file_name: Option<String>, entries: &Vec<TreeEntry>) -> (r: Result<CopyPlan, SaveGuardianError>)
        ensures
            source_kind == EntryKind::File ==> match r {
                Ok(p) => !p.replace_destination && p.steps@ == match source_file_name {
                    Some(f) => seq![CopyStep::CopyFile(f)],
                    None => Seq::<CopyStep>::empty(),
                },
                Err(_) => false,
            },
            source_kind == EntryKind::Dir ==> match r {
                Ok(p) => p.replace_destination && p.steps@ == copy_steps_of(entries@),
                Err(_) => false,
            },
            source_kind == EntryKind::Other ==> match r {
                Err(SaveGuardianError::SaveOperationFailed(e)) => e@ == "Source path is neither file nor directory"@,
                _ => false,
            },
    {
        match source_kind {
            EntryKind::File => {
                let mut steps: Vec<CopyStep> = Vec::new();
                match source_file_name {
                    Some(f) => {
                        steps.push(CopyStep::CopyFile(f));
                    },
                    None => {},
                }
                proof {
                    assert(steps@ =~= match source_file_name {
                        Some(f) => seq![CopyStep::CopyFile(f)],
                        None => Seq::<CopyStep>::empty(),
                    });
                }
                Ok(CopyPlan { replace_destination: false, steps })
            },
            EntryKind::Dir => {
                let steps = copy_steps(entries);
                Ok(CopyPlan { replace_destination: true, steps })
            },
            EntryKind::Other => Err(SaveGuardianError::SaveOperationFailed(String::from_str("Source path is neither file nor directory"))),
        }
    }

    /// Records a finished copy on the pair (the time and the direction) and
    /// reports it.
    pub fn complete_sync(&self, pair: &mut SyncPair, direction: SyncDirection, plan: &SyncPlan, files_copied: usize, bytes_copied: u64) -> (r: SyncResult)
        ensures
            final(pair).last_synced is Some,
            final(pair).sync_direction == direction,
            final(pair).steam_save == old(pair).steam_save,
            final(pair).non_steam_save == old(pair).non_steam_save,
            final(pair).game_name == old(pair).game_name,
            final(pair).app_id == old(pair).app_id,
            r.files_copied == files_copied,
            r.bytes_copied == bytes_copied,
            r.source_path == plan.source.save_path,
            r.destination_path == plan.destination.save_path,
    {
        pair.last_synced = Some(now_utc());
        pair.sync_direction = direction;
        SyncResult {
            files_copied,
            bytes_copied,
            source_path: plan.source.save_path.clone(),
            destination_path: plan.destination.save_path.clone(),
            sync_time: now_utc(),
        }
    }

    /// How many files a copy plan copies.
    pub fn files_in_plan(&self, plan: &CopyPlan) -> (r: usize)
        ensures
            r == files_copied_by(plan.steps@),
    {
        let mut n: usize = 0;
        let mut i: usize = 0;
        while i < plan.steps.len()
            invariant
                i <= plan.steps.len(),
                n <= i,
                n == files_copied_by(plan.steps@.subrange(0, i as int)),
            decreases plan.steps.len() - i,
        {
            proof {
                assert(plan.steps@.subrange(0, i + 1).drop_last() =~= plan.steps@.subrange(0, i as int));
            }
            match &plan.steps[i] {
                CopyStep::CopyFile(_) => {
                    n += 1;
                },
                CopyStep::CreateDir(_) => {},
            }
            i += 1;
        }
        proof {
            assert(plan.steps@.subrange(0, plan.steps.len() as int) =~= plan.steps@);
        }
        n
    }

    /// A pair chosen by hand. Its name is the custom name, else the Steam
    /// save's, else the non-Steam save's; its direction follows from the
    /// sides present. At least one side is needed.
    pub fn create_manual_sync_pair(&self, steam_save: Option<GameSave>, non_steam_save: Option<GameSave>, custom_name: Option<String>) -> (r: Result<SyncPair, SaveGuardianError>)
        ensures
            (steam_save is None && non_steam_save is None) ==> match r {
                Err(SaveGuardianError::SaveOperationFailed(e)) => e@ == "At least one save location must be provided"@,
                _ => false,
            },
            (steam_save is Some || non_steam_save is Some) ==> match r {
                Ok(p) => {
                    &&& p.steam_save == steam_save
                    &&& p.non_steam_save == non_steam_save
                    &&& p.game_name == match custom_name {
                        Some(c) => c,
                        None => match steam_save {
                            Some(s) => s.name,
                            None => non_steam_save->0.name,
                        },
                    }
                    &&& p.app_id == match steam_save {
                        Some(s) => s.app_id,
                        None => None,
                    }
                    &&& p.last_synced is None
                    &&& p.sync_direction == if steam_save is Some && non_steam_save is Some {
                        SyncDirection::Bidirectional
                    } else if steam_save is Some {
                        SyncDirection::SteamToNonSteam
                    } else {
                        SyncDirection::NonSteamToSteam
                    }
                    &&& p.wf()
                },
                Err(_) => false,
            },
    {
        let direction = match (&steam_save, &non_steam_save) {
            (Some(_), Some(_)) => SyncDirection::Bidirectional,
            (Some(_), None) => SyncDirection::SteamToNonSteam,
            (None, Some(_)) => SyncDirection::NonSteamToSteam,
            (None, None) => {
                return Err(SaveGuardianError::SaveOperationFailed(String::from_str("At least one save location must be provided")));
            },
        };
        let game_name = match custom_name {
            Some(c) => c,
            None => match &steam_save {
                Some(s) => s.name.clone(),
                None => match &non_steam_save {
                    Some(n) => n.name.clone(),
                    None => String::new(),
                },
            },
        };
        let app_id = match &steam_save {
            Some(s) => s.app_id,
            None => None,
        };
        Ok(SyncPair { steam_save, non_steam_save, game_name, app_id, last_synced: None, sync_direction: direction })
    }

    /// The title in comparison form.
    pub fn normalize_game_name(&self, name: &str) -> (r: String)
        ensures
            r@ == normalized(name@),
    {
        let v = normalize_chars(name);
        string_from_chars(v.as_slice())
    }

    /// Whether two normalised names differ by a known edition alias.
    pub fn check_common_variations(&self, name1: &str, name2: &str) -> (r: bool)
        ensures
            r == variations_match(name1@, name2@),
    {
        let a = chars_of(name1);
        let b = chars_of(name2);
        variations_exec(&a, &b)
    }

    /// Whether `name` holds a fragment known to belong to `app_id`.
    pub fn check_app_id_name_match(&self, app_id: u32, name: &str) -> (r: bool)
        ensures
            r == known_title_match(app_id, name@),
    {
        let v = chars_of(name);
        known_title_exec(app_id, &v)
    }

    /// The Levenshtein distance between two texts, counted in characters.
    pub fn levenshtein_distance(&self, s1: &str, s2: &str) -> (r: usize)
        ensures
            r == edit_distance(s1@, s2@),
    {
        let a = chars_of(s1);
        let b = chars_of(s2);
        edit_distance_exec(&a, &b)
    }

    /// Whether the normalised similarity of two normalised names exceeds
    /// seven tenths.
    pub fn is_similar(&self, s1: &str, s2: &str) -> (r: bool)
        ensures
            r == similar_enough(s1@, s2@),
    {
        let a = chars_of(s1);
        let b = chars_of(s2);
        similar_exec(&a, &b)
    }

    /// The shorter of two names (in UTF-8 bytes), the first on a tie.
    pub fn get_common_game_name(&self, name1: &String, name2: &String) -> (r: String)
        ensures
            r == common_name(*name1, *name2),
    {
        if name1.as_str().len() <= name2.as_str().len() {
            name1.clone()
        } else {
            name2.clone()
        }
    }

    /// The first non-Steam save, from position 0 on, that no pair holds yet
    /// and that matches `s`.
    fn find_free_match(&self, pairs: &Vec<SyncPair>, s: &GameSave, ns: &Vec<GameSave>) -> (r: Option<usize>)
        ensures
            r matches Some(j) ==> j < ns.len() && first_free_match(pairs@, *s, ns@, 0) == Some(j as int),
            r is None ==> first_free_match(pairs@, *s, ns@, 0) is None,
    {
        let mut j: usize = 0;
        while j < ns.len()
            invariant
                j <= ns.len(),
                first_free_match(pairs@, *s, ns@, 0) == first_free_match(pairs@, *s, ns@, j as int),
            decreases ns.len() - j,
        {
            let n = &ns[j];
            if !non_steam_taken_exec(pairs, &n.save_path) && self.is_likely_same_game(
                s.name.as_str(),
                n.name.as_str(),
                s.app_id,
            ) {
                return Some(j);
            }
            j += 1;
        }
        None
    }

    /// Pairs Steam saves with non-Steam saves in four passes: every match of
    /// a Steam save with a title id; then, for each Steam save still
    /// unpaired, the first free match; then the unpaired Steam saves alone;
    /// then the unpaired non-Steam saves alone. Saves are told apart by path.
    pub fn find_sync_pairs(&self, steam_saves: &Vec<GameSave>, non_steam_saves: &Vec<GameSave>) -> (r: Vec<SyncPair>)
        ensures
            r@ == sync_pairs_of(steam_saves@, non_steam_saves@),
            forall|k: int| 0 <= k < r.len() ==> (#[trigger] r@[k]).wf(),
    {
        let ghost steam = steam_saves@;
        let ghost ns = non_steam_saves@;
        let mut pairs: Vec<SyncPair> = Vec::new();
        let mut i: usize = 0;
        proof {
            assert(steam.subrange(0, 0).len() == 0);
        }
        while i < steam_saves.len()
            invariant
                i <= steam_saves.len(),
                steam == steam_saves@,
                ns == non_steam_saves@,
                pairs@ == pass_by_title(steam.subrange(0, i as int), ns),
            decreases steam_saves.len() - i,
        {
            proof {
                assert(steam.subrange(0, i + 1).drop_last() =~= steam.subrange(0, i as int));
            }
            let s = &steam_saves[i];
            if let Some(id) = s.app_id {
                let ghost base = pairs@;
                let mut j: usize = 0;
                proof {
                    assert(ns.subrange(0, 0).len() == 0);
                    assert(base + title_pairs(*s, ns.subrange(0, 0)) =~= base);
                }
                while j < non_steam_saves.len()
                    invariant
                        j <= non_steam_saves.len(),
                        ns == non_steam_saves@,
                        s.app_id == Some(id),
                        pairs@ == base + title_pairs(*s, ns.subrange(0, j as int)),
                    decreases non_steam_saves.len() - j,
                {
                    proof {
                        assert(ns.subrange(0, j + 1).drop_last() =~= ns.subrange(0, j as int));
                    }
                    let n = &non_steam_saves[j];
                    let ghost before = pairs@;
                    if self.is_likely_same_game(s.name.as_str(), n.name.as_str(), Some(id)) {
                        pairs.push(
                            SyncPair {
                                steam_save: Some(s.duplicate()),
                                non_steam_save: Some(n.duplicate()),
                                game_name: s.name.clone(),
                                app_id: Some(id),
                                last_synced: None,
                                sync_direction: SyncDirection::Bidirectional,
                            },
                        );
                    }
                    proof {
                        assert(pairs@ =~= base + title_pairs(*s, ns.subrange(0, j + 1)));
                    }
                    j += 1;
                }
                proof {
                    assert(ns.subrange(0, ns.len() as int) =~= ns);
                }
            }
            i += 1;
        }
        proof {
            assert(steam.subrange(0, steam.len() as int) =~= steam);
        }
        let ghost first = pairs@;
        i = 0;
        while i < steam_saves.len()
            invariant
                i <= steam_saves.len(),
                steam == steam_saves@,
                ns == non_steam_saves@,
                pairs@ == pass_by_name(first, steam.subrange(0, i as int), ns),
            decreases steam_saves.len() - i,
        {
            proof {
                assert(steam.subrange(0, i + 1).drop_last() =~= steam.subrange(0, i as int));
                assert(steam.subrange(0, i + 1).last() == steam[i as int]);
            }
            let s = &steam_saves[i];
            if !steam_taken_exec(&pairs, &s.save_path) {
                match self.find_free_match(&pairs, s, non_steam_saves) {
                    Some(j) => {
                        let n = &non_steam_saves[j];
                        let name = self.get_common_game_name(&s.name, &n.name);
                        pairs.push(
                            SyncPair {
                                steam_save: Some(s.duplicate()),
                                non_steam_save: Some(n.duplicate()),
                                game_name: name,
                                app_id: s.app_id,
                                last_synced: None,
                                sync_direction: SyncDirection::Bidirectional,
                            },
                        );
                    },
                    None => {},
                }
            }
            i += 1;
        }
        let ghost second = pairs@;
        i = 0;
        while i < steam_saves.len()
            invariant
                i <= steam_saves.len(),
                steam == steam_saves@,
                ns == non_steam_saves@,
                pairs@ == pass_steam_alone(second, steam.subrange(0, i as int)),
            decreases steam_saves.len() - i,
        {
            proof {
                assert(steam.subrange(0, i + 1).drop_last() =~= steam.subrange(0, i as int));
            }
            let s = &steam_saves[i];
            if !steam_taken_exec(&pairs, &s.save_path) {
                pairs.push(
                    SyncPair {
                        steam_save: Some(s.duplicate()),
                        non_steam_save: None,
                        game_name: s.name.clone(),
                        app_id: s.app_id,
                        last_synced: None,
                        sync_direction: SyncDirection::SteamToNonSteam,
                    },
                );
            }
            i += 1;
        }
        let ghost third = pairs@;
        i = 0;
        proof {
            assert(ns.subrange(0, 0).len() == 0);
        }
        while i < non_steam_saves.len()
            invariant
                i <= non_steam_saves.len(),
                steam == steam_saves@,
                ns == non_steam_saves@,
                pairs@ == pass_non_steam_alone(third, ns.subrange(0, i as int)),
            decreases non_steam_saves.len() - i,
        {
            proof {
                assert(ns.subrange(0, i + 1).drop_last() =~= ns.subrange(0, i as int));
            }
            let n = &non_steam_saves[i];
            if !non_steam_taken_exec(&pairs, &n.save_path) {
                pairs.push(
                    SyncPair {
                        steam_save: None,
                        non_steam_save: Some(n.duplicate()),
                        game_name: n.name.clone(),
                        app_id: None,
                        last_synced: None,
                        sync_direction: SyncDirection::NonSteamToSteam,
                    },
                );
            }
            i += 1;
        }
        proof {
            assert(ns.subrange(0, ns.len() as int) =~= ns);
            assert(pairs@ == sync_pairs_of(steam, ns));
            lemma_pairs_wf(steam, ns);
            assert forall|k: int| 0 <= k < pairs.len() implies (#[trigger] pairs@[k]).wf() by {
                assert(pairs@[k] == sync_pairs_of(steam, ns)[k]);
            }
        }
        pairs
    }

    /// Whether two titles likely name the same game.
    pub fn is_likely_same_game(&self, name1: &str, name2: &str, app_id: Option<u32>) -> (r: bool)
        ensures
            r == likely_same(name1@, name2@, app_id),
    {
        let a = normalize_chars(name1);
        let b = normalize_chars(name2);
        if vec_eq(&a, &b) {
            return true;
        }
        if contains_chars(&a, &b) || contains_chars(&b, &a) {
            return true;
        }
        if variations_exec(&a, &b) {
            return true;
        }
        if let Some(id) = app_id {
            if known_title_exec(id, &b) {
                return true;
            }
        }
        similar_exec(&a, &b)
    }
}

fn vec_eq(a: &Vec<char>, b: &Vec<char>) -> (r: bool)
    ensures
        r == (a@ == b@),
{
    if a.len() != b.len() {
        return false;
    }
    let mut i: usize = 0;
    while i < a.len()
        invariant
            a.len() == b.len(),
            i <= a.len(),
            forall|k: int| 0 <= k < i ==> a@[k] == b@[k],
        decreases a.len() - i,
    {
        if a[i] != b[i] {
            return false;
        }
        i += 1;
    }
    proof {
        assert(a@ =~= b@);
    }
    true
}

} // verus!
