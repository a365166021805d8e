//! Game-folder detection. A scan root holds one folder per game; within each
//! game folder the largest `.exe` found at any depth is taken as the game's
//! executable. Folder and file names that contain a blocklist entry (case
//! folded) are skipped together with everything below them.
//!
//! The directory walk itself is I/O and happens outside this module: it hands
//! in, per scan root, the root's path components and the name the walk
//! reports for it, and for every entry it reached the index of its root, its
//! components below the root, its path text, the text of its game folder
//! (the root joined with the first component) and its size in bytes.

use vstd::prelude::*;
use crate::text::{ascii_lower, ascii_lower_char, chars_of, contains_chars, is_infix, lowercase, to_lowercase};

verus! {

/// A scan root as the walk sees it.
pub struct ScanRoot {
    /// The root's path components; two roots name the same place exactly
    /// when their components are equal.
    pub components: Vec<String>,
    /// The name the walk reports for the root entry itself.
    pub name: String,
}

/// One entry reached by the walk below a scan root.
pub struct ScanEntry {
    /// Index of the scan root the entry was found under.
    pub root: usize,
    /// Path components below the root; the last one is the entry's own name.
    pub rel: Vec<String>,
    /// Text of the entry's full path.
    pub path: String,
    /// Text of the root joined with the first component of `rel`.
    pub game_dir: String,
    /// Size in bytes (0 where it could not be read).
    pub size: u64,
}

/// A detected game: one per game folder.
pub struct DetectedGame {
    /// The game folder's name.
    pub name: String,
    /// Path text of the chosen executable.
    pub exe_path: String,
    /// Path text of the game folder.
    pub install_dir: String,
}

/// What the scan keeps per game folder while it walks.
pub struct GameRecord {
    pub key: Seq<Seq<char>>,
    pub name: Seq<char>,
    pub install_dir: Seq<char>,
    pub exe_path: Seq<char>,
    pub size: u64,
}

/// Does `name`, case folded, contain some blocklist entry, case folded?
pub open spec fn blocked(name: Seq<char>, blocklist: Seq<Seq<char>>) -> bool {
    exists|i: int| 0 <= i < blocklist.len() && is_infix(lowercase(blocklist[i]), lowercase(name))
}

/// Does a file name have the extension `exe`, in any ASCII case? The
/// extension is what follows the last `.`, provided that `.` is not the
/// name's first character.
pub open spec fn is_exe_name(name: Seq<char>) -> bool {
    let n = name.len();
    &&& n >= 5
    &&& name[n - 4] == '.'
    &&& ascii_lower(name[n - 3]) == 'e'
    &&& ascii_lower(name[n - 2]) == 'x'
    &&& ascii_lower(name[n - 1]) == 'e'
}

/// Does an entry take part in the scan: it survives the blocklist (its root
/// and every component), lies inside a game folder rather than directly in
/// the root, and is named like an executable?
pub open spec fn entry_ok(roots: Seq<ScanRoot>, blocklist: Seq<Seq<char>>, e: ScanEntry) -> bool {
    let rel = e.rel.deep_view();
    &&& e.root < roots.len()
    &&& !blocked(roots[e.root as int].name@, blocklist)
    &&& forall|i: int| 0 <= i < rel.len() ==> !blocked(#[trigger] rel[i], blocklist)
    &&& rel.len() >= 2
    &&& is_exe_name(rel.last())
}

/// The game folder an entry belongs to: its root's components followed by
/// the first component below the root.
pub open spec fn entry_key(roots: Seq<ScanRoot>, e: ScanEntry) -> Seq<Seq<char>> {
    roots[e.root as int].components.deep_view().push(e.rel.deep_view()[0])
}

/// Does some record already stand for `key`?
pub open spec fn has_key(acc: Seq<GameRecord>, key: Seq<Seq<char>>) -> bool {
    exists|j: int| 0 <= j < acc.len() && (#[trigger] acc[j]).key == key
}

/// One step of the scan: a new game folder gets a record; a known one takes
/// the entry as its executable when the entry is strictly larger.
pub open spec fn scan_step(
    roots: Seq<ScanRoot>,
    blocklist: Seq<Seq<char>>,
    acc: Seq<GameRecord>,
    e: ScanEntry,
) -> Seq<GameRecord> {
    if !entry_ok(roots, blocklist, e) {
        acc
    } else {
        let key = entry_key(roots, e);
        if has_key(acc, key) {
            let j = choose|j: int| 0 <= j < acc.len() && (#[trigger] acc[j]).key == key;
            if e.size > acc[j].size {
                acc.update(
                    j,
                    GameRecord {
                        key: acc[j].key,
                        name: acc[j].name,
                        install_dir: acc[j].install_dir,
                        exe_path: e.path@,
                        size: e.size,
                    },
                )
            } else {
                acc
            }
        } else {
            acc.push(
                GameRecord {
                    key,
                    name: e.rel.deep_view()[0],
                    install_dir: e.game_dir@,
                    exe_path: e.path@,
                    size: e.size,
                },
            )
        }
    }
}

/// The records after walking `entries` in order.
pub open spec fn scan_records(
    roots: Seq<ScanRoot>,
    blocklist: Seq<Seq<char>>,
    entries: Seq<ScanEntry>,
) -> Seq<GameRecord>
    decreases entries.len(),
{
    if entries.len() == 0 {
        seq![]
    } else {
        scan_step(roots, blocklist, scan_records(roots, blocklist, entries.drop_last()), entries.last())
    }
}

/// Are the records' game folders pairwise distinct?
pub open spec fn distinct_keys(acc: Seq<GameRecord>) -> bool {
    forall|a: int, b: int| 0 <= a < acc.len() && 0 <= b < acc.len() && a != b ==> (#[trigger] acc[a]).key != (#[trigger] acc[b]).key
}

/// Does `name` contain, after case folding, any entry of `blocklist` after
/// case folding?
pub fn is_blocked(name: &str, blocklist: &Vec<String>) -> (b: bool)
    ensures
        b == blocked(name@, blocklist.deep_view()),
{
    let lower = chars_of(to_lowercase(name).as_str());
    let mut i: usize = 0;
    while i < blocklist.len()
        invariant
            i <= blocklist.len(),
            lower@ == lowercase(name@),
            forall|k: int| 0 <= k < i ==> !is_infix(lowercase(#[trigger] blocklist.deep_view()[k]), lowercase(name@)),
        decreases blocklist.len() - i,
    {
        let b = chars_of(to_lowercase(blocklist[i].as_str()).as_str());
        if contains_chars(&lower, &b) {
            assert(is_infix(lowercase(blocklist.deep_view()[i as int]), lowercase(name@)));
            return true;
        }
        i = i + 1;
    }
    false
}

/// Is `name` the name of an executable (extension `exe`, any ASCII case)?
pub fn has_exe_extension(name: &str) -> (b: bool)
    ensures
        b == is_exe_name(name@),
{
    let v = chars_of(name);
    let n = v.len();
    n >= 5 && v[n - 4] == '.' && ascii_lower_char(v[n - 3]) == 'e'
        && ascii_lower_char(v[n - 2]) == 'x' && ascii_lower_char(v[n - 1]) == 'e'
}


fn entry_ok_exec(roots: &Vec<ScanRoot>, blocklist: &Vec<String>, e: &ScanEntry) -> (b: bool)
    ensures
        b == entry_ok(roots@, blocklist.deep_view(), *e),
{
    if e.root >= roots.len() {
        return false;
    }
    if is_blocked(roots[e.root].name.as_str(), blocklist) {
        return false;
    }
    let ghost rel = e.rel.deep_view();
    let mut k: usize = 0;
    while k < e.rel.len()
        invariant
            k <= e.rel.len(),
            rel == e.rel.deep_view(),
            forall|m: int| 0 <= m < k ==> !blocked(#[trigger] rel[m], blocklist.deep_view()),
        decreases e.rel.len() - k,
    {
        if is_blocked(e.rel[k].as_str(), blocklist) {
            assert(blocked(rel[k as int], blocklist.deep_view()));
            return false;
        }
        k = k + 1;
    }
    if e.rel.len() < 2 {
        return false;
    }
    has_exe_extension(e.rel[e.rel.len() - 1].as_str())
}

/// Copies a list of strings.
pub fn clone_strings(v: &Vec<String>) -> (r: Vec<String>)
    ensures
        r.deep_view() == v.deep_view(),
{
    let mut r: Vec<String> = Vec::new();
    let mut i: usize = 0;
    while i < v.len()
        invariant
            i <= v.len(),
            r.len() == i,
            forall|k: int| 0 <= k < i ==> (#[trigger] r@[k])@ == v@[k]@,
        decreases v.len() - i,
    {
        let c = v[i].clone();
        r.push(c);
        i = i + 1;
    }
    assert(r.deep_view() =~= v.deep_view());
    r
}

/// The game folder of an executable found under a scan root, both given by
/// their path components: the root joined with the first component below
/// it, provided the executable lies under the root and at least one folder
/// deep (an executable directly in the root has no game folder).
pub open spec fn game_root_spec(exe_path: Seq<Seq<char>>, scan_root: Seq<Seq<char>>) -> Option<Seq<Seq<char>>> {
    if scan_root.len() + 2 <= exe_path.len() && exe_path.take(scan_root.len() as int) == scan_root {
        Some(scan_root.push(exe_path[scan_root.len() as int]))
    } else {
        None
    }
}

/// The game folder an executable belongs to, by path components.
pub fn game_root_for(exe_path: &Vec<String>, scan_root: &Vec<String>) -> (r: Option<Vec<String>>)
    ensures
        match r {
            Some(dir) => game_root_spec(exe_path.deep_view(), scan_root.deep_view()) == Some(dir.deep_view()),
            None => game_root_spec(exe_path.deep_view(), scan_root.deep_view()) is None,
        },
{
    let n = scan_root.len();
    if exe_path.len() < 2 || n > exe_path.len() - 2 {
        return None;
    }
    let mut i: usize = 0;
    while i < n
        invariant
            n == scan_root.len(),
            n + 2 <= exe_path.len(),
            i <= n,
            forall|k: int| 0 <= k < i ==> exe_path.deep_view()[k] == scan_root.deep_view()[k],
        decreases n - i,
    {
        if exe_path[i] != scan_root[i] {
            assert(exe_path.deep_view().take(n as int)[i as int] != scan_root.deep_view()[i as int]);
            return None;
        }
        i = i + 1;
    }
    assert(exe_path.deep_view().take(n as int) =~= scan_root.deep_view());
    let mut dir = clone_strings(scan_root);
    let first = exe_path[n].clone();
    dir.push(first);
    assert(dir.deep_view() =~= scan_root.deep_view().push(exe_path.deep_view()[n as int]));
    Some(dir)
}

/// Do two lists of strings hold the same strings?
pub fn same_strings(a: &Vec<String>, b: &Vec<String>) -> (r: bool)
    ensures
        r == (a.deep_view() == b.deep_view()),
{
    if a.len() != b.len() {
        assert(a.deep_view().len() != b.deep_view().len());
        return false;
    }
    let mut i: usize = 0;
    while i < a.len()
        invariant
            a.len() == b.len(),
            i <= a.len(),
            forall|k: int| 0 <= k < i ==> a.deep_view()[k] == b.deep_view()[k],
        decreases a.len() - i,
    {
        if a[i] != b[i] {
            assert(a.deep_view()[i as int] != b.deep_view()[i as int]);
            return false;
        }
        i = i + 1;
    }
    assert(a.deep_view() == b.deep_view());
    true
}

proof fn lemma_step_keeps_distinct(
    roots: Seq<ScanRoot>,
    blocklist: Seq<Seq<char>>,
    acc: Seq<GameRecord>,
    e: ScanEntry,
)
    requires
        distinct_keys(acc),
    ensures
        distinct_keys(scan_step(roots, blocklist, acc, e)),
{
    let r = scan_step(roots, blocklist, acc, e);
    if entry_ok(roots, blocklist, e) {
        let key = entry_key(roots, e);
        if has_key(acc, key) {
            let j = choose|j: int| 0 <= j < acc.len() && (#[trigger] acc[j]).key == key;
            assert forall|a: int, b: int| 0 <= a < r.len() && 0 <= b < r.len() && a != b implies (#[trigger] r[a]).key != (#[trigger] r[b]).key by {
                assert(r[a].key == acc[a].key);
                assert(r[b].key == acc[b].key);
            }
        } else {
            assert forall|a: int, b: int| 0 <= a < r.len() && 0 <= b < r.len() && a != b implies (#[trigger] r[a]).key != (#[trigger] r[b]).key by {
                if a < acc.len() && b < acc.len() {
                    assert(r[a] == acc[a]);
                    assert(r[b] == acc[b]);
                } else if a < acc.len() {
                    assert(r[a] == acc[a]);
                } else {
                    assert(r[b] == acc[b]);
                }
            }
        }
    }
}

/// The records of a scan have pairwise distinct game folders.
pub proof fn lemma_scan_distinct(roots: Seq<ScanRoot>, blocklist: Seq<Seq<char>>, entries: Seq<ScanEntry>)
    ensures
        distinct_keys(scan_records(roots, blocklist, entries)),
    decreases entries.len(),
{
    if entries.len() > 0 {
        lemma_scan_distinct(roots, blocklist, entries.drop_last());
        lemma_step_keeps_distinct(roots, blocklist, scan_records(roots, blocklist, entries.drop_last()), entries.last());
    }
}

/// Every entry taking part in the scan is covered by the record of its game
/// folder, whose executable is at least as large as the entry.
pub open spec fn covers_entries(
    roots: Seq<ScanRoot>,
    blocklist: Seq<Seq<char>>,
    entries: Seq<ScanEntry>,
    recs: Seq<GameRecord>,
) -> bool {
    forall|k: int|
        0 <= k < entries.len() && entry_ok(roots, blocklist, #[trigger] entries[k]) ==> exists|j: int|
            0 <= j < recs.len() && (#[trigger] recs[j]).key == entry_key(roots, entries[k])
                && entries[k].size <= recs[j].size
}

/// Every record stems from an entry taking part in the scan: it is named
/// after its game folder, and its executable is such an entry of that folder.
pub open spec fn records_from_entries(
    roots: Seq<ScanRoot>,
    blocklist: Seq<Seq<char>>,
    entries: Seq<ScanEntry>,
    recs: Seq<GameRecord>,
) -> bool {
    forall|j: int|
        0 <= j < recs.len() ==> {
            &&& (#[trigger] recs[j]).name == recs[j].key.last()
            &&& exists|k: int|
                0 <= k < entries.len() && entry_ok(roots, blocklist, #[trigger] entries[k])
                    && entry_key(roots, entries[k]) == recs[j].key && entries[k].path@ == recs[j].exe_path
                    && entries[k].size == recs[j].size
        }
}

proof fn lemma_step_covers(roots: Seq<ScanRoot>, blocklist: Seq<Seq<char>>, pre: Seq<ScanEntry>, e: ScanEntry)
    requires
        covers_entries(roots, blocklist, pre, scan_records(roots, blocklist, pre)),
    ensures
        covers_entries(roots, blocklist, pre.push(e), scan_step(roots, blocklist, scan_records(roots, blocklist, pre), e)),
{
    let entries = pre.push(e);
    let acc = scan_records(roots, blocklist, pre);
    let recs = scan_step(roots, blocklist, acc, e);
    let n = pre.len() as int;
    assert forall|k: int| 0 <= k < n implies #[trigger] entries[k] == pre[k] by {}
    if entry_ok(roots, blocklist, e) {
        let key = entry_key(roots, e);
        if has_key(acc, key) {
            let jj = choose|jj: int| 0 <= jj < acc.len() && (#[trigger] acc[jj]).key == key;
            assert forall|j: int| 0 <= j < recs.len() && j != jj implies #[trigger] recs[j] == acc[j] by {}
            assert forall|k: int|
                0 <= k < entries.len() && entry_ok(roots, blocklist, #[trigger] entries[k]) implies exists|j: int|
                    0 <= j < recs.len() && (#[trigger] recs[j]).key == entry_key(roots, entries[k])
                        && entries[k].size <= recs[j].size by {
                if k == n {
                    assert(recs[jj].key == key);
                } else {
                    assert(entry_ok(roots, blocklist, pre[k]));
                    let j = choose|j: int|
                        0 <= j < acc.len() && (#[trigger] acc[j]).key == entry_key(roots, pre[k])
                            && pre[k].size <= acc[j].size;
                    assert(recs[j].key == acc[j].key);
                }
            }
        } else {
            assert forall|j: int| 0 <= j < acc.len() implies #[trigger] recs[j] == acc[j] by {}
            assert forall|k: int|
                0 <= k < entries.len() && entry_ok(roots, blocklist, #[trigger] entries[k]) implies exists|j: int|
                    0 <= j < recs.len() && (#[trigger] recs[j]).key == entry_key(roots, entries[k])
                        && entries[k].size <= recs[j].size by {
                if k == n {
                    assert(recs[acc.len() as int].key == key);
                } else {
                    assert(entry_ok(roots, blocklist, pre[k]));
                    let j = choose|j: int|
                        0 <= j < acc.len() && (#[trigger] acc[j]).key == entry_key(roots, pre[k])
                            && pre[k].size <= acc[j].size;
                    assert(recs[j] == acc[j]);
                }
            }
        }
    } else {
        assert forall|k: int|
            0 <= k < entries.len() && entry_ok(roots, blocklist, #[trigger] entries[k]) implies exists|j: int|
                0 <= j < recs.len() && (#[trigger] recs[j]).key == entry_key(roots, entries[k])
                    && entries[k].size <= recs[j].size by {
            assert(entry_ok(roots, blocklist, pre[k]));
        }
    }
}

proof fn lemma_step_from_entries(roots: Seq<ScanRoot>, blocklist: Seq<Seq<char>>, pre: Seq<ScanEntry>, e: ScanEntry)
    requires
        records_from_entries(roots, blocklist, pre, scan_records(roots, blocklist, pre)),
    ensures
        records_from_entries(roots, blocklist, pre.push(e), scan_step(roots, blocklist, scan_records(roots, blocklist, pre), e)),
{
    let entries = pre.push(e);
    let acc = scan_records(roots, blocklist, pre);
    let recs = scan_step(roots, blocklist, acc, e);
    let n = pre.len() as int;
    assert forall|k: int| 0 <= k < n implies #[trigger] entries[k] == pre[k] by {}
    assert(entries[n] == e);
    assert forall|j: int| 0 <= j < recs.len() implies {
        &&& (#[trigger] recs[j]).name == recs[j].key.last()
        &&& exists|k: int|
            0 <= k < entries.len() && entry_ok(roots, blocklist, #[trigger] entries[k])
                && entry_key(roots, entries[k]) == recs[j].key && entries[k].path@ == recs[j].exe_path
                && entries[k].size == recs[j].size
    } by {
        if j < acc.len() && recs[j] == acc[j] {
            let k = choose|k: int|
                0 <= k < pre.len() && entry_ok(roots, blocklist, #[trigger] pre[k])
                    && entry_key(roots, pre[k]) == acc[j].key && pre[k].path@ == acc[j].exe_path
                    && pre[k].size == acc[j].size;
            assert(entries[k] == pre[k]);
        } else {
            assert(entry_ok(roots, blocklist, e));
            let key = entry_key(roots, e);
            if has_key(acc, key) {
                let jj = choose|jj: int| 0 <= jj < acc.len() && (#[trigger] acc[jj]).key == key;
                assert(j == jj);
            } else {
                assert(j == acc.len());
            }
        }
    }
}

/// Scan law: the detected games are exactly the game folders of the entries
/// that take part (blocked entries and executables lying directly in a scan
/// root take no part), one per folder, each named after its folder, and each
/// game's executable is the largest executable found in its folder.
pub proof fn lemma_scan_finds_largest_per_folder(
    roots: Seq<ScanRoot>,
    blocklist: Seq<Seq<char>>,
    entries: Seq<ScanEntry>,
)
    ensures
        distinct_keys(scan_records(roots, blocklist, entries)),
        covers_entries(roots, blocklist, entries, scan_records(roots, blocklist, entries)),
        records_from_entries(roots, blocklist, entries, scan_records(roots, blocklist, entries)),
    decreases entries.len(),
{
    lemma_scan_distinct(roots, blocklist, entries);
    if entries.len() > 0 {
        let pre = entries.drop_last();
        lemma_scan_finds_largest_per_folder(roots, blocklist, pre);
        assert(pre.push(entries.last()) == entries);
        lemma_step_covers(roots, blocklist, pre, entries.last());
        lemma_step_from_entries(roots, blocklist, pre, entries.last());
    }
}

/// Does a detected game hold what a record says?
pub open spec fn game_matches(g: DetectedGame, r: GameRecord) -> bool {
    &&& g.name@ == r.name
    &&& g.exe_path@ == r.exe_path
    &&& g.install_dir@ == r.install_dir
}

/// Detects the games under the scan roots from the entries the walk reached,
/// in walk order. There is one game per game folder (a folder directly
/// inside a scan root), in the order in which the folders were first met;
/// its executable is the first of the folder's largest executables. Entries
/// directly inside a root, entries whose root or any component is blocked,
/// and entries not named like an executable are ignored.
pub fn scan_dirs(roots: &Vec<ScanRoot>, entries: &Vec<ScanEntry>, blocklist: &Vec<String>) -> (games: Vec<DetectedGame>)
    ensures
        games.len() == scan_records(roots@, blocklist.deep_view(), entries@).len(),
        forall|j: int| 0 <= j < games.len() ==> game_matches(#[trigger] games[j], scan_records(roots@, blocklist.deep_view(), entries@)[j]),
{
    let ghost bl = blocklist.deep_view();
    let mut keys: Vec<Vec<String>> = Vec::new();
    let mut sizes: Vec<u64> = Vec::new();
    let mut games: Vec<DetectedGame> = Vec::new();
    let mut i: usize = 0;
    while i < entries.len()
        invariant
            i <= entries.len(),
            bl == blocklist.deep_view(),
            keys.len() == scan_records(roots@, bl, entries@.take(i as int)).len(),
            sizes.len() == keys.len(),
            games.len() == keys.len(),
            distinct_keys(scan_records(roots@, bl, entries@.take(i as int))),
            forall|j: int| 0 <= j < keys.len() ==> {
                let r = #[trigger] scan_records(roots@, bl, entries@.take(i as int))[j];
                &&& keys[j].deep_view() == r.key
                &&& sizes[j] == r.size
                &&& game_matches(games[j], r)
            },
        decreases entries.len() - i,
    {
        let ghost acc = scan_records(roots@, bl, entries@.take(i as int));
        let e = &entries[i];
        assert(entries@.take(i + 1).drop_last() == entries@.take(i as int));
        assert(entries@.take(i + 1).last() == *e);
        proof {
            lemma_step_keeps_distinct(roots@, bl, acc, *e);
        }
        if entry_ok_exec(roots, blocklist, e) {
            let mut key = clone_strings(&roots[e.root].components);
            key.push(e.rel[0].clone());
            assert(key.deep_view() == entry_key(roots@, *e));
            let mut j: usize = 0;
            let mut found = false;
            while j < keys.len()
                invariant
                    j <= keys.len(),
                    keys.len() == acc.len(),
                    forall|m: int| 0 <= m < keys.len() ==> (#[trigger] keys[m]).deep_view() == acc[m].key,
                    !found ==> forall|m: int| 0 <= m < j ==> acc[m].key != key.deep_view(),
                    found ==> j < keys.len() && acc[j as int].key == key.deep_view(),
                ensures
                    !found ==> j == keys.len(),
                    !found ==> forall|m: int| 0 <= m < j ==> acc[m].key != key.deep_view(),
                    found ==> j < keys.len() && acc[j as int].key == key.deep_view(),
                decreases keys.len() - j + (if found { 0int } else { 1int }),
            {
                if same_strings(&keys[j], &key) {
                    found = true;
                    break;
                }
                j = j + 1;
            }
            if found {
                assert(has_key(acc, key.deep_view()));
                let ghost jj = choose|jj: int| 0 <= jj < acc.len() && (#[trigger] acc[jj]).key == key.deep_view();
                assert(jj == j as int);
                if e.size > sizes[j] {
                    let name = games[j].name.clone();
                    let dir = games[j].install_dir.clone();
                    games.set(j, DetectedGame { name, exe_path: e.path.clone(), install_dir: dir });
                    sizes.set(j, e.size);
                }
            } else {
                assert(!has_key(acc, key.deep_view()));
                keys.push(key);
                sizes.push(e.size);
                games.push(DetectedGame { name: e.rel[0].clone(), exe_path: e.path.clone(), install_dir: e.game_dir.clone() });
            }
        }
        i = i + 1;
    }
    assert(entries@.take(entries.len() as int) == entries@);
    games
}

} // verus!
