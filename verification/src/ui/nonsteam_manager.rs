//! The rules of the non-Steam games manager: how shortcut fields are shown
//! and edited, which scanned games count as new, and how the shortcut list
//! changes when games are added or removed.

use vstd::prelude::*;
use crate::scanner::detector::DetectedGame;
use crate::steam::appid::{app_id_spec, calculate_app_id};
use crate::steam::shortcuts::{models, new_shortcut, new_shortcut_spec, numbered, quoted, Shortcut, ShortcutModel};
pub use crate::steam::shortcuts::add_quotes;
use crate::text::{chars_of, decimal, decimal_string, lowercase, lowercase_chars, string_of};

verus! {

/// `s` without the given character at either end, however often it is
/// repeated there (what `str::trim_matches(c)` gives).
pub open spec fn trim_char(s: Seq<char>, c: char) -> Seq<char> {
    trim_end_char(trim_start_char(s, c), c)
}

/// `s` without leading `c`s.
pub open spec fn trim_start_char(s: Seq<char>, c: char) -> Seq<char>
    decreases s.len(),
{
    if s.len() > 0 && s[0] == c {
        trim_start_char(s.drop_first(), c)
    } else {
        s
    }
}

/// `s` without trailing `c`s.
pub open spec fn trim_end_char(s: Seq<char>, c: char) -> Seq<char>
    decreases s.len(),
{
    if s.len() > 0 && s.last() == c {
        trim_end_char(s.drop_last(), c)
    } else {
        s
    }
}

proof fn lemma_trim_start(s: Seq<char>, c: char, k: int)
    requires
        0 <= k <= s.len(),
        forall|j: int| 0 <= j < k ==> s[j] == c,
        k == s.len() || s[k] != c,
    ensures
        trim_start_char(s, c) == s.skip(k),
    decreases s.len(),
{
    if k > 0 {
        lemma_trim_start(s.drop_first(), c, k - 1);
        assert(s.drop_first().skip(k - 1) == s.skip(k));
    } else {
        assert(s.skip(0) == s);
    }
}

proof fn lemma_trim_end(s: Seq<char>, c: char, k: int)
    requires
        0 <= k <= s.len(),
        forall|j: int| k <= j < s.len() ==> s[j] == c,
        k == 0 || s[k - 1] != c,
    ensures
        trim_end_char(s, c) == s.take(k),
    decreases s.len(),
{
    if k < s.len() {
        lemma_trim_end(s.drop_last(), c, k);
        assert(s.drop_last().take(k) == s.take(k));
    } else {
        assert(s.take(k) == s);
    }
}

/// The text of a path without Steam's surrounding quotes.
pub fn strip_quotes(s: &str) -> (r: String)
    ensures
        r@ == trim_char(s@, '"'),
{
    let v = chars_of(s);
    let mut a: usize = 0;
    while a < v.len() && v[a] == '"'
        invariant
            a <= v.len(),
            forall|j: int| 0 <= j < a ==> v@[j] == '"',
        decreases v.len() - a,
    {
        a = a + 1;
    }
    proof {
        lemma_trim_start(v@, '"', a as int);
    }
    let ghost t = v@.skip(a as int);
    let mut b: usize = v.len();
    while b > a && v[b - 1] == '"'
        invariant
            a <= b <= v.len(),
            forall|j: int| b <= j < v.len() ==> v@[j] == '"',
        decreases b,
    {
        b = b - 1;
    }
    proof {
        assert forall|j: int| b - a <= j < t.len() implies t[j] == '"' by {
            assert(t[j] == v@[a + j]);
        }
        if b > a {
            assert(t[b - a - 1] == v@[b - 1]);
        }
        lemma_trim_end(t, '"', b - a);
    }
    let mut r: Vec<char> = Vec::new();
    let mut i: usize = a;
    while i < b
        invariant
            a <= i <= b <= v.len(),
            r@ == v@.subrange(a as int, i as int),
        decreases b - i,
    {
        r.push(v[i]);
        i = i + 1;
        assert(r@ =~= v@.subrange(a as int, i as int));
    }
    assert(r@ =~= t.take(b - a));
    string_of(&r)
}

/// `s` with every `/` turned into `\`.
pub open spec fn backslashed(s: Seq<char>) -> Seq<char> {
    Seq::new(s.len(), |i: int| if s[i] == '/' { '\\' } else { s[i] })
}

/// The form in which install directories are compared: lower-cased, with
/// `\` as the separator.
pub open spec fn norm_spec(s: Seq<char>) -> Seq<char> {
    backslashed(lowercase(s))
}

/// Normalises a path text for comparison.
pub fn norm(s: &str) -> (r: String)
    ensures
        r@ == norm_spec(s@),
{
    let v = lowercase_chars(&chars_of(s));
    let mut r: Vec<char> = Vec::new();
    let mut i: usize = 0;
    while i < v.len()
        invariant
            i <= v.len(),
            r@ == backslashed(v@).take(i as int),
        decreases v.len() - i,
    {
        let c = if v[i] == '/' {
            '\\'
        } else {
            v[i]
        };
        r.push(c);
        i = i + 1;
        assert(r@ =~= backslashed(v@).take(i as int));
    }
    assert(backslashed(v@).take(v.len() as int) == backslashed(v@));
    string_of(&r)
}

/// A scanned game offered for adding, editable before it is added.
pub struct ScanResult {
    pub name: String,
    pub exe: String,
    pub start_dir: String,
    pub launch_options: String,
    pub app_id: u32,
    /// Is the game ticked for adding?
    pub ticked: bool,
}

/// A scan result as plain values.
pub struct ScanResultModel {
    pub name: Seq<char>,
    pub exe: Seq<char>,
    pub start_dir: Seq<char>,
    pub launch_options: Seq<char>,
    pub app_id: u32,
    pub ticked: bool,
}

impl View for ScanResult {
    type V = ScanResultModel;

    open spec fn view(&self) -> ScanResultModel {
        ScanResultModel {
            name: self.name@,
            exe: self.exe@,
            start_dir: self.start_dir@,
            launch_options: self.launch_options@,
            app_id: self.app_id,
            ticked: self.ticked,
        }
    }
}

/// The scan result offered for a detected game: quoted paths, no launch
/// options, its AppID, ticked.
pub open spec fn scan_result_of(g: DetectedGame) -> ScanResultModel {
    ScanResultModel {
        name: g.name@,
        exe: quoted(g.exe_path@),
        start_dir: quoted(g.install_dir@),
        launch_options: seq![],
        app_id: app_id_spec(quoted(g.exe_path@), g.name@),
        ticked: true,
    }
}

/// The scan results for the detected games not marked as already added,
/// in order.
pub open spec fn scan_results_spec(detected: Seq<DetectedGame>, already_added: Seq<bool>) -> Seq<ScanResultModel>
    decreases detected.len(),
{
    if detected.len() == 0 {
        seq![]
    } else {
        let rest = scan_results_spec(detected.drop_last(), already_added);
        if already_added[detected.len() - 1] {
            rest
        } else {
            rest.push(scan_result_of(detected.last()))
        }
    }
}

/// The scan results for the detected games, leaving out those marked in
/// `already_added` (one flag per game).
pub fn scan_results_from(detected: &Vec<DetectedGame>, already_added: &Vec<bool>) -> (r: Vec<ScanResult>)
    requires
        already_added.len() == detected.len(),
    ensures
        r@.map_values(|x: ScanResult| x@) == scan_results_spec(detected@, already_added@),
{
    let mut r: Vec<ScanResult> = Vec::new();
    let mut i: usize = 0;
    while i < detected.len()
        invariant
            i <= detected.len(),
            already_added.len() == detected.len(),
            r@.map_values(|x: ScanResult| x@) == scan_results_spec(detected@.take(i as int), already_added@),
        decreases detected.len() - i,
    {
        assert(detected@.take(i + 1).drop_last() == detected@.take(i as int));
        if !already_added[i] {
            let g = &detected[i];
            let exe = add_quotes(g.exe_path.as_str());
            let dir = add_quotes(g.install_dir.as_str());
            let app_id = calculate_app_id(exe.as_str(), g.name.as_str());
            let ghost before = r@;
            r.push(ScanResult { name: g.name.clone(), exe, start_dir: dir, launch_options: String::new(), app_id, ticked: true });
            assert(r@.map_values(|x: ScanResult| x@) =~= before.map_values(|x: ScanResult| x@).push(r@.last()@));
        }
        i = i + 1;
    }
    assert(detected@.take(detected.len() as int) == detected@);
    r
}

/// `Path::starts_with` on two path texts: does `base` form a prefix of
/// `path`, whole components only? Which texts split into which components
/// depends on the platform's path syntax, so what is stated is what holds on
/// every platform: a path starts with itself; every path starts with the
/// empty path (which has no component); and the empty path starts with no
/// non-empty path (a non-empty text has at least one component).
#[verifier::external_body]
fn path_starts_with(path: &str, base: &str) -> (b: bool)
    ensures
        path@ == base@ ==> b,
        base@.len() == 0 ==> b,
        path@.len() == 0 && base@.len() > 0 ==> !b,
{
    std::path::Path::new(path).starts_with(std::path::Path::new(base))
}

/// The install directories of the shortcuts, normalised for comparison.
pub fn known_dirs(shortcuts: &Vec<Shortcut>) -> (dirs: Vec<String>)
    ensures
        dirs.len() == shortcuts.len(),
        forall|i: int| 0 <= i < dirs.len() ==> (#[trigger] dirs@[i])@ == norm_spec(trim_char(shortcuts@[i].start_dir@, '"')),
{
    let mut dirs: Vec<String> = Vec::new();
    let mut i: usize = 0;
    while i < shortcuts.len()
        invariant
            i <= shortcuts.len(),
            dirs.len() == i,
            forall|k: int| 0 <= k < i ==> (#[trigger] dirs@[k])@ == norm_spec(trim_char(shortcuts@[k].start_dir@, '"')),
        decreases shortcuts.len() - i,
    {
        let d = norm(strip_quotes(shortcuts[i].start_dir.as_str()).as_str());
        dirs.push(d);
        i = i + 1;
    }
    dirs
}

/// Is a game already added, given for each known directory whether it lies
/// in the game's folder: does some known directory lie there?
pub open spec fn under_any(row: Seq<bool>) -> bool {
    exists|k: int| 0 <= k < row.len() && row[k]
}

/// The already-added flags of the games, from their rows of answers.
pub open spec fn added_flags(under: Seq<Vec<bool>>) -> Seq<bool> {
    Seq::new(under.len(), |j: int| under_any(under[j]@))
}

/// The scan results for the detected games, given for game `j` and known
/// directory `k` whether that directory lies in the game's folder
/// (`under[j][k]`): a game is offered exactly when no known directory lies
/// in its folder.
pub fn new_scan_results_from(detected: &Vec<DetectedGame>, known: &Vec<String>, under: &Vec<Vec<bool>>) -> (r: Vec<ScanResult>)
    requires
        under.len() == detected.len(),
        forall|j: int| 0 <= j < under.len() ==> (#[trigger] under@[j]).len() == known.len(),
    ensures
        r@.map_values(|x: ScanResult| x@) == scan_results_spec(detected@, added_flags(under@)),
{
    let mut flags: Vec<bool> = Vec::new();
    let mut j: usize = 0;
    while j < under.len()
        invariant
            j <= under.len(),
            flags@ == added_flags(under@).take(j as int),
        decreases under.len() - j,
    {
        let row = &under[j];
        let mut any = false;
        let mut k: usize = 0;
        while k < row.len()
            invariant
                k <= row.len(),
                any == exists|m: int| 0 <= m < k && row@[m],
            decreases row.len() - k,
        {
            if row[k] {
                any = true;
            }
            k = k + 1;
        }
        flags.push(any);
        j = j + 1;
        assert(flags@ =~= added_flags(under@).take(j as int));
    }
    assert(flags@ =~= added_flags(under@));
    scan_results_from(detected, &flags)
}

/// The scan results for the detected games whose install directory none
/// of the known directories lies in. Whether a directory lies in another is
/// decided by the platform's path rules (`Path::starts_with` on the known
/// directory and the game's normalised folder); the results are what
/// `new_scan_results_from` gives for those answers. Whatever the platform
/// decides, a game whose normalised folder is itself a known directory is
/// left out, a game with an empty normalised folder counts as added by every
/// known directory, an empty known directory marks no game with a non-empty
/// folder as added, and with no known directory every detected game is
/// offered.
pub fn new_scan_results(detected: &Vec<DetectedGame>, known: &Vec<String>) -> (r: Vec<ScanResult>)
    ensures
        exists|under: Seq<Vec<bool>>|
            #![trigger added_flags(under)]
            under.len() == detected.len()
            && (forall|j: int| 0 <= j < under.len() ==> (#[trigger] under[j]).len() == known.len())
            && r@.map_values(|x: ScanResult| x@) == scan_results_spec(detected@, added_flags(under))
            && (forall|j: int, k: int|
                0 <= j < detected.len() && 0 <= k < known.len()
                    && known@[k]@ == norm_spec(detected@[j].install_dir@) ==> #[trigger] under[j]@[k])
            && (forall|j: int, k: int|
                0 <= j < detected.len() && 0 <= k < known.len() && norm_spec(detected@[j].install_dir@).len() == 0
                    ==> #[trigger] under[j]@[k])
            && (forall|j: int, k: int|
                0 <= j < detected.len() && 0 <= k < known.len() && known@[k]@.len() == 0
                    && norm_spec(detected@[j].install_dir@).len() > 0 ==> !#[trigger] under[j]@[k]),
        known@.len() == 0 ==> r@.map_values(|x: ScanResult| x@) == scan_results_spec(
            detected@,
            Seq::new(detected@.len(), |j: int| false),
        ),
{
    let mut under: Vec<Vec<bool>> = Vec::new();
    let mut i: usize = 0;
    while i < detected.len()
        invariant
            i <= detected.len(),
            under.len() == i,
            forall|j: int| 0 <= j < i ==> (#[trigger] under@[j]).len() == known.len(),
            forall|j: int, k: int|
                0 <= j < i && 0 <= k < known.len() && known@[k]@ == norm_spec(detected@[j].install_dir@)
                    ==> #[trigger] under@[j]@[k],
            forall|j: int, k: int|
                0 <= j < i && 0 <= k < known.len() && norm_spec(detected@[j].install_dir@).len() == 0
                    ==> #[trigger] under@[j]@[k],
            forall|j: int, k: int|
                0 <= j < i && 0 <= k < known.len() && known@[k]@.len() == 0
                    && norm_spec(detected@[j].install_dir@).len() > 0 ==> !#[trigger] under@[j]@[k],
        decreases detected.len() - i,
    {
        let root = norm(detected[i].install_dir.as_str());
        let mut row: Vec<bool> = Vec::new();
        let mut k: usize = 0;
        while k < known.len()
            invariant
                k <= known.len(),
                row.len() == k,
                forall|m: int| 0 <= m < k && known@[m]@ == root@ ==> #[trigger] row@[m],
                forall|m: int| 0 <= m < k && root@.len() == 0 ==> #[trigger] row@[m],
                forall|m: int| 0 <= m < k && known@[m]@.len() == 0 && root@.len() > 0 ==> !#[trigger] row@[m],
            decreases known.len() - k,
        {
            row.push(path_starts_with(known[k].as_str(), root.as_str()));
            k = k + 1;
        }
        under.push(row);
        i = i + 1;
    }
    let r = new_scan_results_from(detected, known, &under);
    if known.len() == 0 {
        assert(added_flags(under@) =~= Seq::new(detected@.len(), |j: int| false));
    }
    r
}

/// The shortcuts after adding the ticked scan results in order, each
/// numbered by its position.
pub open spec fn added_spec(shortcuts: Seq<ShortcutModel>, results: Seq<ScanResultModel>) -> Seq<ShortcutModel>
    decreases results.len(),
{
    if results.len() == 0 {
        shortcuts
    } else {
        let p = added_spec(shortcuts, results.drop_last());
        let r = results.last();
        if r.ticked {
            p.push(new_shortcut_spec(decimal(p.len()), r.app_id, r.name, r.exe, r.start_dir, r.launch_options))
        } else {
            p
        }
    }
}

/// The AppID and name of each ticked scan result, in order.
pub open spec fn ticked_spec(results: Seq<ScanResultModel>) -> Seq<(u32, Seq<char>)>
    decreases results.len(),
{
    if results.len() == 0 {
        seq![]
    } else {
        let p = ticked_spec(results.drop_last());
        let r = results.last();
        if r.ticked {
            p.push((r.app_id, r.name))
        } else {
            p
        }
    }
}

/// Appends a shortcut for every ticked scan result and returns the AppID and
/// name of each added game.
pub fn add_selected(shortcuts: &mut Vec<Shortcut>, results: &Vec<ScanResult>) -> (added: Vec<(u32, String)>)
    requires
        old(shortcuts).len() + results.len() <= usize::MAX,
    ensures
        models(final(shortcuts)@) == added_spec(models(old(shortcuts)@), results@.map_values(|x: ScanResult| x@)),
        added@.len() == ticked_spec(results@.map_values(|x: ScanResult| x@)).len(),
        forall|j: int| 0 <= j < added@.len() ==> (#[trigger] added@[j]).0 == ticked_spec(results@.map_values(|x: ScanResult| x@))[j].0
            && added@[j].1@ == ticked_spec(results@.map_values(|x: ScanResult| x@))[j].1,
{
    let ghost start = models(shortcuts@);
    let ghost rs = results@.map_values(|x: ScanResult| x@);
    let mut added: Vec<(u32, String)> = Vec::new();
    let mut i: usize = 0;
    while i < results.len()
        invariant
            i <= results.len(),
            rs == results@.map_values(|x: ScanResult| x@),
            shortcuts.len() <= start.len() + i,
            start.len() + results.len() <= usize::MAX,
            models(shortcuts@) == added_spec(start, rs.take(i as int)),
            added@.len() == ticked_spec(rs.take(i as int)).len(),
            forall|j: int| 0 <= j < added@.len() ==> (#[trigger] added@[j]).0 == ticked_spec(rs.take(i as int))[j].0
                && added@[j].1@ == ticked_spec(rs.take(i as int))[j].1,
        decreases results.len() - i,
    {
        assert(rs.take(i + 1).drop_last() == rs.take(i as int));
        assert(rs.take(i + 1).last() == results@[i as int]@);
        let r = &results[i];
        if r.ticked {
            let order = decimal_string(shortcuts.len() as u64);
            let s = new_shortcut(order, r.app_id, r.name.clone(), r.exe.clone(), r.start_dir.clone(), r.launch_options.clone());
            let ghost before = shortcuts@;
            shortcuts.push(s);
            assert(models(shortcuts@) =~= models(before).push(s@));
            added.push((r.app_id, r.name.clone()));
        }
        i = i + 1;
    }
    assert(rs.take(results.len() as int) == rs);
    added
}

/// Manager law: adding the ticked scan results keeps a list numbered by
/// position numbered by position.
pub proof fn lemma_adding_keeps_numbering(shortcuts: Seq<ShortcutModel>, results: Seq<ScanResultModel>)
    requires
        numbered(shortcuts),
    ensures
        numbered(added_spec(shortcuts, results)),
    decreases results.len(),
{
    if results.len() > 0 {
        lemma_adding_keeps_numbering(shortcuts, results.drop_last());
        let p = added_spec(shortcuts, results.drop_last());
        let q = added_spec(shortcuts, results);
        assert forall|i: int| 0 <= i < q.len() implies (#[trigger] q[i]).order == decimal(i as nat) by {
            if i < p.len() {
                assert(q[i] == p[i]);
            }
        }
    }
}

/// Does a shortcut carry a scan result's name, target, start directory,
/// launch options and AppID unchanged?
pub open spec fn carries(s: ShortcutModel, r: ScanResultModel) -> bool {
    &&& s.app_name == r.name
    &&& s.exe == r.exe
    &&& s.start_dir == r.start_dir
    &&& s.launch_options == r.launch_options
    &&& s.app_id == r.app_id
}

/// Manager law: adding keeps the existing shortcuts as they are, every
/// shortcut it appends carries a ticked scan result's fields unchanged
/// (including the launch options typed in the editor), and every ticked
/// result gets such a shortcut. Unticked results add nothing.
pub proof fn lemma_adding_carries_the_results(shortcuts: Seq<ShortcutModel>, results: Seq<ScanResultModel>)
    ensures
        added_spec(shortcuts, results).len() >= shortcuts.len(),
        added_spec(shortcuts, results).take(shortcuts.len() as int) == shortcuts,
        forall|m: int|
            shortcuts.len() <= m < added_spec(shortcuts, results).len() ==> exists|i: int|
                0 <= i < results.len() && (#[trigger] results[i]).ticked
                    && carries(#[trigger] added_spec(shortcuts, results)[m], results[i]),
        forall|i: int|
            0 <= i < results.len() && (#[trigger] results[i]).ticked ==> exists|m: int|
                shortcuts.len() <= m < added_spec(shortcuts, results).len()
                    && carries(#[trigger] added_spec(shortcuts, results)[m], results[i]),
        (forall|i: int| 0 <= i < results.len() ==> !(#[trigger] results[i]).ticked)
            ==> added_spec(shortcuts, results) == shortcuts,
    decreases results.len(),
{
    let q = added_spec(shortcuts, results);
    if results.len() == 0 {
        assert(q.take(shortcuts.len() as int) =~= shortcuts);
    } else {
        let pre = results.drop_last();
        lemma_adding_carries_the_results(shortcuts, pre);
        let p = added_spec(shortcuts, pre);
        let r = results.last();
        assert(q.take(shortcuts.len() as int) =~= p.take(shortcuts.len() as int));
        assert forall|m: int| shortcuts.len() <= m < q.len() implies exists|i: int|
            0 <= i < results.len() && (#[trigger] results[i]).ticked && carries(#[trigger] q[m], results[i]) by {
            if m < p.len() {
                assert(q[m] == p[m]);
                let i = choose|i: int| 0 <= i < pre.len() && (#[trigger] pre[i]).ticked && carries(p[m], pre[i]);
                assert(results[i] == pre[i]);
            } else {
                assert(results[results.len() - 1] == r);
            }
        }
        assert forall|i: int| 0 <= i < results.len() && (#[trigger] results[i]).ticked implies exists|m: int|
            shortcuts.len() <= m < q.len() && carries(#[trigger] q[m], results[i]) by {
            if i < pre.len() {
                assert(pre[i] == results[i]);
                let m = choose|m: int| shortcuts.len() <= m < p.len() && carries(#[trigger] p[m], pre[i]);
                assert(q[m] == p[m]);
            } else {
                assert(q[p.len() as int] == new_shortcut_spec(decimal(p.len()), r.app_id, r.name, r.exe, r.start_dir, r.launch_options));
                assert(carries(q[p.len() as int], results[i]));
            }
        }
        if forall|i: int| 0 <= i < results.len() ==> !(#[trigger] results[i]).ticked {
            assert forall|i: int| 0 <= i < pre.len() implies !(#[trigger] pre[i]).ticked by {
                assert(pre[i] == results[i]);
            }
            assert(!results[results.len() - 1].ticked);
        }
    }
}

/// A shortcut with another order number.
pub open spec fn renumbered(s: ShortcutModel, order: Seq<char>) -> ShortcutModel {
    ShortcutModel { order, ..s }
}

/// Removes the shortcut at `idx` and numbers the remaining ones by their
/// new positions.
pub fn remove_shortcut(shortcuts: &mut Vec<Shortcut>, idx: usize)
    requires
        idx < old(shortcuts).len(),
    ensures
        final(shortcuts).len() == old(shortcuts).len() - 1,
        forall|i: int| 0 <= i < final(shortcuts).len() ==> (#[trigger] final(shortcuts)@[i])@ == renumbered(
            (if i < idx { old(shortcuts)@[i] } else { old(shortcuts)@[i + 1] })@,
            decimal(i as nat),
        ),
        numbered(models(final(shortcuts)@)),
{
    let ghost before = shortcuts@;
    shortcuts.remove(idx);
    let ghost removed = shortcuts@;
    let mut i: usize = 0;
    while i < shortcuts.len()
        invariant
            i <= shortcuts.len(),
            shortcuts.len() == removed.len(),
            removed == before.remove(idx as int),
            forall|k: int| 0 <= k < i ==> (#[trigger] shortcuts@[k])@ == renumbered(removed[k]@, decimal(k as nat)),
            forall|k: int| i <= k < shortcuts.len() ==> #[trigger] shortcuts@[k] == removed[k],
        decreases shortcuts.len() - i,
    {
        let mut s = shortcuts.remove(i);
        s.order = decimal_string(i as u64);
        shortcuts.insert(i, s);
        i = i + 1;
    }
    assert forall|k: int| 0 <= k < shortcuts.len() implies (#[trigger] models(shortcuts@)[k]).order == decimal(k as nat) by {
        assert(models(shortcuts@)[k] == shortcuts@[k]@);
    }
}

/// The fields the editor shows for a shortcut: its name, its target
/// without quotes and its launch options.
pub fn editor_fields(s: &Shortcut) -> (r: (String, String, String))
    ensures
        r.0@ == s.app_name@,
        r.1@ == trim_char(s.exe@, '"'),
        r.2@ == s.launch_options@,
{
    (s.app_name.clone(), strip_quotes(s.exe.as_str()), s.launch_options.clone())
}

/// Writes the editor's fields back into a shortcut: the name, the target in
/// quotes and the launch options; nothing else changes.
pub fn apply_edits(s: &mut Shortcut, name: &str, exe: &str, launch_options: &str)
    ensures
        final(s)@ == (ShortcutModel { app_name: name@, exe: quoted(exe@), launch_options: launch_options@, ..old(s)@ }),
{
    s.app_name = String::from_str(name);
    s.exe = add_quotes(exe);
    s.launch_options = String::from_str(launch_options);
}

} // verus!
