//! The rules of the artwork browser: labels, which game is selected and what
//! it is called, which query a page needs, which images a page shows, and
//! the thumbnail loading queue with its retries.

use vstd::prelude::*;
use crate::config::SteamGridDbConfig;
use crate::griddb::client::{GetImagesOptions, ImageKind};
use crate::steam::library::{lemma_name_le_total, lemma_name_le_trans, name_le, name_le_exec, SteamGame};
use crate::steam::shortcuts::Shortcut;
use crate::text::{ascii_lower, ascii_lower_char, chars_of, contains_chars, is_infix, lowercase, to_lowercase};

verus! {

/// The label of each artwork kind.
pub open spec fn kind_label_spec(kind: ImageKind) -> Seq<char> {
    match kind {
        ImageKind::Cover => "Cover"@,
        ImageKind::WideCover => "Wide Cover"@,
        ImageKind::Background => "Background"@,
        ImageKind::Logo => "Logo"@,
        ImageKind::Icon => "Icon"@,
    }
}

/// The label shown for an artwork kind.
pub fn kind_label(kind: ImageKind) -> (s: &'static str)
    ensures
        s@ == kind_label_spec(kind),
{
    match kind {
        ImageKind::Cover => "Cover",
        ImageKind::WideCover => "Wide Cover",
        ImageKind::Background => "Background",
        ImageKind::Logo => "Logo",
        ImageKind::Icon => "Icon",
    }
}

/// A game found by a Steam store search.
pub struct SteamSearchResult {
    pub app_id: u32,
    pub name: String,
}

/// The image options for a page under the given settings.
pub fn make_opts(config: &SteamGridDbConfig, page: usize) -> (o: GetImagesOptions)
    ensures
        o.page == page,
        o.limit == config.page_size as usize,
        o.show_nsfw == config.show_nsfw,
        o.show_humor == config.show_humor,
        !o.show_animated,
{
    GetImagesOptions {
        page,
        limit: config.page_size as usize,
        show_nsfw: config.show_nsfw,
        show_humor: config.show_humor,
        show_animated: false,
    }
}

/// The name of the selected game: the chosen store search result's name;
/// otherwise the name of the first shortcut, or failing that the first
/// installed game, with the selected AppID; empty when there is none.
pub open spec fn selected_name_spec(
    is_fetch: bool,
    fetch_idx: usize,
    fetch: Seq<SteamSearchResult>,
    selected: Option<u32>,
    shortcuts: Seq<Shortcut>,
    games: Seq<SteamGame>,
) -> Seq<char> {
    if is_fetch {
        if fetch_idx < fetch.len() {
            fetch[fetch_idx as int].name@
        } else {
            seq![]
        }
    } else {
        match selected {
            None => seq![],
            Some(id) => if exists|i: int| 0 <= i < shortcuts.len() && (#[trigger] shortcuts[i]).app_id == id {
                shortcuts[first_shortcut(shortcuts, id)].app_name@
            } else if exists|i: int| 0 <= i < games.len() && (#[trigger] games[i]).app_id == id {
                games[first_game(games, id)].name@
            } else {
                seq![]
            },
        }
    }
}

/// The position of the first shortcut with AppID `id`.
pub open spec fn first_shortcut(shortcuts: Seq<Shortcut>, id: u32) -> int {
    choose|i: int|
        0 <= i < shortcuts.len() && (#[trigger] shortcuts[i]).app_id == id && forall|k: int| 0 <= k < i ==> shortcuts[k].app_id != id
}

/// The position of the first installed game with AppID `id`.
pub open spec fn first_game(games: Seq<SteamGame>, id: u32) -> int {
    choose|i: int| 0 <= i < games.len() && (#[trigger] games[i]).app_id == id && forall|k: int| 0 <= k < i ==> games[k].app_id != id
}

/// The name of the selected game.
pub fn selected_game_name(
    is_fetch: bool,
    fetch_idx: usize,
    fetch: &Vec<SteamSearchResult>,
    selected: Option<u32>,
    shortcuts: &Vec<Shortcut>,
    games: &Vec<SteamGame>,
) -> (name: String)
    ensures
        name@ == selected_name_spec(is_fetch, fetch_idx, fetch@, selected, shortcuts@, games@),
{
    if is_fetch {
        if fetch_idx < fetch.len() {
            return fetch[fetch_idx].name.clone();
        }
        return String::new();
    }
    let id = match selected {
        None => {
            return String::new();
        },
        Some(id) => id,
    };
    let mut i: usize = 0;
    while i < shortcuts.len()
        invariant
            i <= shortcuts.len(),
            !is_fetch,
            selected == Some(id),
            forall|k: int| 0 <= k < i ==> shortcuts@[k].app_id != id,
        decreases shortcuts.len() - i,
    {
        if shortcuts[i].app_id == id {
            assert(shortcuts@[i as int].app_id == id);
            assert(0 <= i < shortcuts@.len() && (#[trigger] shortcuts@[i as int]).app_id == id && forall|k: int| 0 <= k < i ==> shortcuts@[k].app_id != id);
            let ghost f = first_shortcut(shortcuts@, id);
            assert(f == i) by {
                if f > i {
                    assert(shortcuts@[i as int].app_id != id);
                }
            }
            return shortcuts[i].app_name.clone();
        }
        i = i + 1;
    }
    let mut j: usize = 0;
    while j < games.len()
        invariant
            j <= games.len(),
            !is_fetch,
            selected == Some(id),
            forall|k: int| 0 <= k < shortcuts@.len() ==> shortcuts@[k].app_id != id,
            forall|k: int| 0 <= k < j ==> games@[k].app_id != id,
        decreases games.len() - j,
    {
        if games[j].app_id == id {
            assert(games@[j as int].app_id == id);
            assert(0 <= j < games@.len() && (#[trigger] games@[j as int]).app_id == id && forall|k: int| 0 <= k < j ==> games@[k].app_id != id);
            let ghost f = first_game(games@, id);
            assert(f == j) by {
                if f > j {
                    assert(games@[j as int].app_id != id);
                }
            }
            return games[j].name.clone();
        }
        j = j + 1;
    }
    String::new()
}

/// The key the game list is ordered by: the name with ASCII letters in
/// lower case.
pub open spec fn lower_key(name: Seq<char>) -> Seq<char> {
    name.map_values(|c: char| ascii_lower(c))
}

/// Game-list law: the key a name is sorted by is the whole name with every
/// ASCII capital letter turned into its small letter and every other
/// character kept, position by position.
pub proof fn lemma_sort_key_folds_every_letter(name: Seq<char>)
    ensures
        lower_key(name).len() == name.len(),
        forall|i: int|
            0 <= i < name.len() ==> #[trigger] lower_key(name)[i] == (if 'A' <= name[i] <= 'Z' {
                ((name[i] as u32) + 32) as char
            } else {
                name[i]
            }),
{
}

/// The games the list can show, as plain values: the shortcuts, then the
/// installed games.
pub open spec fn list_candidates(shortcuts: Seq<Shortcut>, games: Seq<SteamGame>) -> Seq<(u32, Seq<char>)> {
    shortcuts.map_values(|s: Shortcut| (s.app_id, s.app_name@)) + games.map_values(|g: SteamGame| (g.app_id, g.name@))
}

/// Is a game of this name listed for the search text? Every game is while
/// the lower-cased search text is empty; otherwise those whose lower-cased
/// name contains it.
pub open spec fn listed(name: Seq<char>, query: Seq<char>) -> bool {
    lowercase(query).len() == 0 || is_infix(lowercase(query), lowercase(name))
}

/// The listed games among `c`, in the order of `c`.
pub open spec fn listed_games(c: Seq<(u32, Seq<char>)>, query: Seq<char>) -> Seq<(u32, Seq<char>)>
    decreases c.len(),
{
    if c.len() == 0 {
        seq![]
    } else {
        let rest = listed_games(c.drop_last(), query);
        if listed(c.last().1, query) {
            rest.push(c.last())
        } else {
            rest
        }
    }
}

/// `g` placed into a list sorted by key, after every game whose key is not
/// greater.
pub open spec fn insert_by_key(sorted: Seq<(u32, Seq<char>)>, g: (u32, Seq<char>)) -> Seq<(u32, Seq<char>)>
    decreases sorted.len(),
{
    if sorted.len() == 0 || name_le(lower_key(sorted.last().1), lower_key(g.1)) {
        sorted.push(g)
    } else {
        insert_by_key(sorted.drop_last(), g).push(sorted.last())
    }
}

/// A stable sort by key.
pub open spec fn sort_by_key(s: Seq<(u32, Seq<char>)>) -> Seq<(u32, Seq<char>)>
    decreases s.len(),
{
    if s.len() == 0 {
        seq![]
    } else {
        insert_by_key(sort_by_key(s.drop_last()), s.last())
    }
}

/// The plain values of a list of (AppID, name) pairs.
pub open spec fn pairs_of(v: Seq<(u32, String)>) -> Seq<(u32, Seq<char>)> {
    v.map_values(|p: (u32, String)| (p.0, p.1@))
}

fn lower_key_chars(name: &str) -> (v: Vec<char>)
    ensures
        v@ == lower_key(name@),
{
    let c = chars_of(name);
    let mut v: Vec<char> = Vec::new();
    let mut i: usize = 0;
    while i < c.len()
        invariant
            i <= c.len(),
            c@ == name@,
            v@ == c@.take(i as int).map_values(|x: char| ascii_lower(x)),
        decreases c.len() - i,
    {
        v.push(ascii_lower_char(c[i]));
        i = i + 1;
        assert(v@ =~= c@.take(i as int).map_values(|x: char| ascii_lower(x)));
    }
    assert(c@.take(c.len() as int) == c@);
    v
}

fn insert_pair(sorted: &mut Vec<(u32, String)>, g: (u32, String))
    ensures
        pairs_of(final(sorted)@) == insert_by_key(pairs_of(old(sorted)@), (g.0, g.1@)),
    decreases old(sorted).len(),
{
    let n = sorted.len();
    let ghost before = pairs_of(sorted@);
    if n == 0 {
        sorted.push(g);
        assert(pairs_of(sorted@) =~= before.push((g.0, g.1@)));
        return;
    }
    let last_key = lower_key_chars(sorted[n - 1].1.as_str());
    let g_key = lower_key_chars(g.1.as_str());
    if name_le_exec(&last_key, &g_key) {
        sorted.push(g);
        assert(pairs_of(sorted@) =~= before.push((g.0, g.1@)));
    } else {
        let last = sorted.pop().unwrap();
        assert(pairs_of(sorted@) =~= before.drop_last());
        let ghost lv = (last.0, last.1@);
        insert_pair(sorted, g);
        let ghost mid = pairs_of(sorted@);
        sorted.push(last);
        assert(pairs_of(sorted@) =~= mid.push(lv));
    }
}

/// The left-hand game list of the artwork browser: the shortcuts and the
/// installed games that the search text selects, sorted (stably) by their
/// ASCII lower-case names.
pub fn game_list(shortcuts: &Vec<Shortcut>, games: &Vec<SteamGame>, query: &str) -> (r: Vec<(u32, String)>)
    ensures
        pairs_of(r@) == sort_by_key(listed_games(list_candidates(shortcuts@, games@), query@)),
{
    let mut cands: Vec<(u32, String)> = Vec::new();
    let mut i: usize = 0;
    while i < shortcuts.len()
        invariant
            i <= shortcuts.len(),
            pairs_of(cands@) == shortcuts@.take(i as int).map_values(|s: Shortcut| (s.app_id, s.app_name@)),
        decreases shortcuts.len() - i,
    {
        let name = shortcuts[i].app_name.clone();
        let ghost prev = pairs_of(cands@);
        cands.push((shortcuts[i].app_id, name));
        assert(pairs_of(cands@) =~= prev.push((shortcuts@[i as int].app_id, shortcuts@[i as int].app_name@)));
        assert(shortcuts@.take(i + 1).drop_last() =~= shortcuts@.take(i as int));
        i = i + 1;
        assert(pairs_of(cands@) =~= shortcuts@.take(i as int).map_values(|s: Shortcut| (s.app_id, s.app_name@)));
    }
    assert(shortcuts@.take(shortcuts.len() as int) == shortcuts@);
    let ghost head = pairs_of(cands@);
    let mut j: usize = 0;
    while j < games.len()
        invariant
            j <= games.len(),
            head == shortcuts@.map_values(|s: Shortcut| (s.app_id, s.app_name@)),
            pairs_of(cands@) == head + games@.take(j as int).map_values(|g: SteamGame| (g.app_id, g.name@)),
        decreases games.len() - j,
    {
        let name = games[j].name.clone();
        let ghost prev = pairs_of(cands@);
        cands.push((games[j].app_id, name));
        assert(pairs_of(cands@) =~= prev.push((games@[j as int].app_id, games@[j as int].name@)));
        assert(games@.take(j + 1).drop_last() =~= games@.take(j as int));
        j = j + 1;
        assert(pairs_of(cands@) =~= head + games@.take(j as int).map_values(|g: SteamGame| (g.app_id, g.name@)));
    }
    assert(games@.take(games.len() as int) == games@);
    let ghost all = pairs_of(cands@);
    assert(all == list_candidates(shortcuts@, games@));

    let q = chars_of(to_lowercase(query).as_str());
    let mut sorted: Vec<(u32, String)> = Vec::new();
    let ghost mut kept: Seq<(u32, Seq<char>)> = seq![];
    let mut k: usize = 0;
    while k < cands.len()
        invariant
            k <= cands.len(),
            all == pairs_of(cands@),
            q@ == lowercase(query@),
            kept == listed_games(all.take(k as int), query@),
            pairs_of(sorted@) == sort_by_key(kept),
        decreases cands.len() - k,
    {
        assert(all.take(k + 1).drop_last() == all.take(k as int));
        assert(all.take(k + 1).last() == all[k as int]);
        let name = chars_of(to_lowercase(cands[k].1.as_str()).as_str());
        if q.len() == 0 || contains_chars(&name, &q) {
            let ghost prev = kept;
            proof {
                kept = kept.push(all[k as int]);
                assert(kept.drop_last() == prev);
            }
            insert_pair(&mut sorted, (cands[k].0, cands[k].1.clone()));
        }
        k = k + 1;
    }
    assert(all.take(cands.len() as int) == all);
    sorted
}

/// Is a list of games in order of key?
pub open spec fn sorted_by_key(s: Seq<(u32, Seq<char>)>) -> bool {
    forall|i: int, j: int| 0 <= i < j < s.len() ==> name_le(lower_key(#[trigger] s[i].1), lower_key(#[trigger] s[j].1))
}

proof fn lemma_insert_by_key_elems(s: Seq<(u32, Seq<char>)>, x: (u32, Seq<char>))
    ensures
        insert_by_key(s, x).len() == s.len() + 1,
        forall|j: int| 0 <= j < s.len() + 1 ==> insert_by_key(s, x)[j] == x || s.contains(#[trigger] insert_by_key(s, x)[j]),
    decreases s.len(),
{
    if s.len() > 0 && !name_le(lower_key(s.last().1), lower_key(x.1)) {
        lemma_insert_by_key_elems(s.drop_last(), x);
        let r = insert_by_key(s, x);
        let t = insert_by_key(s.drop_last(), x);
        assert forall|j: int| 0 <= j < s.len() + 1 implies r[j] == x || s.contains(#[trigger] r[j]) by {
            if j < s.len() {
                assert(r[j] == t[j]);
                if t[j] != x {
                    let k = choose|k: int| 0 <= k < s.drop_last().len() && s.drop_last()[k] == t[j];
                    assert(s[k] == t[j]);
                }
            } else {
                assert(r[j] == s[s.len() - 1]);
            }
        }
    } else {
        let r = insert_by_key(s, x);
        assert forall|j: int| 0 <= j < s.len() + 1 implies r[j] == x || s.contains(#[trigger] r[j]) by {
            if j < s.len() {
                assert(r[j] == s[j]);
            }
        }
    }
}

proof fn lemma_insert_by_key_sorted(s: Seq<(u32, Seq<char>)>, x: (u32, Seq<char>))
    requires
        sorted_by_key(s),
    ensures
        sorted_by_key(insert_by_key(s, x)),
    decreases s.len(),
{
    let r = insert_by_key(s, x);
    if s.len() == 0 {
    } else if name_le(lower_key(s.last().1), lower_key(x.1)) {
        assert forall|i: int, j: int| 0 <= i < j < r.len() implies name_le(lower_key(#[trigger] r[i].1), lower_key(#[trigger] r[j].1)) by {
            if j == s.len() {
                if i < s.len() - 1 {
                    lemma_name_le_trans(lower_key(s[i].1), lower_key(s.last().1), lower_key(x.1));
                }
            } else {
                assert(r[i] == s[i] && r[j] == s[j]);
            }
        }
    } else {
        let last = s.last();
        let pre = s.drop_last();
        lemma_insert_by_key_sorted(pre, x);
        lemma_insert_by_key_elems(pre, x);
        lemma_name_le_total(lower_key(last.1), lower_key(x.1));
        let t = insert_by_key(pre, x);
        assert forall|i: int, j: int| 0 <= i < j < r.len() implies name_le(lower_key(#[trigger] r[i].1), lower_key(#[trigger] r[j].1)) by {
            if j == s.len() {
                assert(r[j] == last);
                assert(r[i] == t[i]);
                if t[i] != x {
                    let k = choose|k: int| 0 <= k < pre.len() && pre[k] == t[i];
                    assert(s[k] == pre[k]);
                }
            } else {
                assert(r[i] == t[i] && r[j] == t[j]);
            }
        }
    }
}

/// Game list law: whatever the games and the search text, the list comes
/// out in order of lower-case name.
pub proof fn lemma_game_list_sorted(shortcuts: Seq<Shortcut>, games: Seq<SteamGame>, query: Seq<char>)
    ensures
        sorted_by_key(sort_by_key(listed_games(list_candidates(shortcuts, games), query))),
{
    lemma_sort_by_key_sorted(listed_games(list_candidates(shortcuts, games), query));
}

proof fn lemma_insert_by_key_multiset(s: Seq<(u32, Seq<char>)>, x: (u32, Seq<char>))
    ensures
        insert_by_key(s, x).to_multiset() =~= s.to_multiset().insert(x),
    decreases s.len(),
{
    broadcast use vstd::seq_lib::group_to_multiset_ensures;
    if s.len() > 0 && !name_le(lower_key(s.last().1), lower_key(x.1)) {
        lemma_insert_by_key_multiset(s.drop_last(), x);
        assert(s.drop_last().push(s.last()) =~= s);
    }
}

proof fn lemma_sort_by_key_multiset(s: Seq<(u32, Seq<char>)>)
    ensures
        sort_by_key(s).to_multiset() =~= s.to_multiset(),
    decreases s.len(),
{
    broadcast use vstd::seq_lib::group_to_multiset_ensures;
    if s.len() > 0 {
        lemma_sort_by_key_multiset(s.drop_last());
        lemma_insert_by_key_multiset(sort_by_key(s.drop_last()), s.last());
        assert(s.drop_last().push(s.last()) =~= s);
    }
}

/// Game list law: sorting the list loses and adds no game; it holds
/// exactly the games the search text selects, each as often as it occurs
/// among them.
pub proof fn lemma_game_list_complete(shortcuts: Seq<Shortcut>, games: Seq<SteamGame>, query: Seq<char>)
    ensures
        sort_by_key(listed_games(list_candidates(shortcuts, games), query)).to_multiset()
            == listed_games(list_candidates(shortcuts, games), query).to_multiset(),
{
    lemma_sort_by_key_multiset(listed_games(list_candidates(shortcuts, games), query));
}

proof fn lemma_sort_by_key_sorted(s: Seq<(u32, Seq<char>)>)
    ensures
        sorted_by_key(sort_by_key(s)),
    decreases s.len(),
{
    if s.len() > 0 {
        lemma_sort_by_key_sorted(s.drop_last());
        lemma_insert_by_key_sorted(sort_by_key(s.drop_last()), s.last());
    }
}

/// The number of thumbnails loaded at the same time, at most.
pub const MAX_ACTIVE_LOADS: usize = 5;

/// Attempts made to load a thumbnail before giving up.
pub const MAX_ATTEMPTS: u8 = 3;

/// Where a thumbnail stands.
#[derive(Debug, Clone, Copy, PartialEq, Eq, Structural)]
pub enum ThumbStatus {
    /// Waiting to be loaded.
    Pending,
    /// Being loaded.
    Loading,
    Loaded,
    /// Given up after `MAX_ATTEMPTS` failed attempts.
    Failed,
}

/// A gallery tile's thumbnail state.
#[derive(Debug, Clone, Copy)]
pub struct ThumbSlot {
    pub status: ThumbStatus,
    /// Failed attempts so far.
    pub attempts: u8,
}

/// A fresh tile: pending, with no failed attempt.
pub fn new_thumb_slot() -> (s: ThumbSlot)
    ensures
        s.status == ThumbStatus::Pending,
        s.attempts == 0,
{
    ThumbSlot { status: ThumbStatus::Pending, attempts: 0 }
}

/// A tile after the outcome of a load: loaded, or one more failed attempt,
/// after which it waits for another try unless it has failed
/// `MAX_ATTEMPTS` times.
pub open spec fn finished(slot: ThumbSlot, ok: bool) -> ThumbSlot {
    if ok {
        ThumbSlot { status: ThumbStatus::Loaded, attempts: slot.attempts }
    } else {
        ThumbSlot {
            status: if slot.attempts + 1 < MAX_ATTEMPTS { ThumbStatus::Pending } else { ThumbStatus::Failed },
            attempts: (slot.attempts + 1) as u8,
        }
    }
}

/// Records the outcome of a thumbnail load: loaded, or one more failed
/// attempt, after which the tile waits for another try unless it has
/// failed `MAX_ATTEMPTS` times.
pub fn thumb_finished(slot: &mut ThumbSlot, ok: bool)
    requires
        old(slot).attempts < MAX_ATTEMPTS,
    ensures
        *final(slot) == finished(*old(slot), ok),
        ok ==> final(slot).status == ThumbStatus::Loaded && final(slot).attempts == old(slot).attempts,
        !ok ==> final(slot).attempts == old(slot).attempts + 1,
        !ok ==> final(slot).status == (if final(slot).attempts < MAX_ATTEMPTS {
            ThumbStatus::Pending
        } else {
            ThumbStatus::Failed
        }),
        final(slot).attempts <= MAX_ATTEMPTS,
{
    if ok {
        slot.status = ThumbStatus::Loaded;
    } else {
        slot.attempts = slot.attempts + 1;
        if slot.attempts < MAX_ATTEMPTS {
            slot.status = ThumbStatus::Pending;
        } else {
            slot.status = ThumbStatus::Failed;
        }
    }
}

/// Starts loading pending thumbnails in gallery order while fewer than
/// `MAX_ACTIVE_LOADS` loads are under way: marks them as loading and
/// returns their positions. Nothing else changes.
pub fn start_thumb_loads(slots: &mut Vec<ThumbSlot>, active: usize) -> (started: Vec<usize>)
    ensures
        final(slots).len() == old(slots).len(),
        active >= MAX_ACTIVE_LOADS ==> started@.len() == 0,
        active < MAX_ACTIVE_LOADS ==> active + started@.len() <= MAX_ACTIVE_LOADS,
        forall|a: int, b: int| 0 <= a < b < started@.len() ==> started@[a] < started@[b],
        forall|a: int| 0 <= a < started@.len() ==> started@[a] < old(slots).len()
            && old(slots)@[started@[a] as int].status == ThumbStatus::Pending
            && final(slots)@[started@[a] as int].status == ThumbStatus::Loading
            && final(slots)@[started@[a] as int].attempts == old(slots)@[started@[a] as int].attempts,
        forall|i: int| 0 <= i < old(slots).len() && !started@.contains(i as usize) ==> final(slots)@[i] == old(slots)@[i],
        forall|i: int|
            0 <= i < old(slots).len() && old(slots)@[i].status == ThumbStatus::Pending && !started@.contains(i as usize)
                ==> active + started@.len() >= MAX_ACTIVE_LOADS,
        forall|i: int, a: int|
            0 <= i < old(slots).len() && old(slots)@[i].status == ThumbStatus::Pending && !started@.contains(i as usize)
                && 0 <= a < started@.len() ==> started@[a] < i,
{
    let mut started: Vec<usize> = Vec::new();
    let mut n = active;
    let mut i: usize = 0;
    let ghost orig = slots@;
    while i < slots.len()
        invariant_except_break
            i <= slots.len(),
            slots.len() == orig.len(),
            n == active + started@.len(),
            active >= MAX_ACTIVE_LOADS ==> started@.len() == 0,
            active < MAX_ACTIVE_LOADS ==> n <= MAX_ACTIVE_LOADS,
            forall|a: int, b: int| 0 <= a < b < started@.len() ==> started@[a] < started@[b],
            forall|a: int| 0 <= a < started@.len() ==> started@[a] < i && orig[started@[a] as int].status == ThumbStatus::Pending
                && slots@[started@[a] as int].status == ThumbStatus::Loading
                && slots@[started@[a] as int].attempts == orig[started@[a] as int].attempts,
            forall|k: int| 0 <= k < orig.len() && !started@.contains(k as usize) ==> slots@[k] == orig[k],
            forall|k: int| 0 <= k < i && orig[k].status == ThumbStatus::Pending ==> started@.contains(k as usize),
        ensures
            slots.len() == orig.len(),
            n == active + started@.len(),
            active >= MAX_ACTIVE_LOADS ==> started@.len() == 0,
            active < MAX_ACTIVE_LOADS ==> n <= MAX_ACTIVE_LOADS,
            forall|a: int, b: int| 0 <= a < b < started@.len() ==> started@[a] < started@[b],
            forall|a: int| 0 <= a < started@.len() ==> started@[a] < orig.len() && orig[started@[a] as int].status == ThumbStatus::Pending
                && slots@[started@[a] as int].status == ThumbStatus::Loading
                && slots@[started@[a] as int].attempts == orig[started@[a] as int].attempts,
            forall|k: int| 0 <= k < orig.len() && !started@.contains(k as usize) ==> slots@[k] == orig[k],
            forall|k: int| 0 <= k < orig.len() && orig[k].status == ThumbStatus::Pending && !started@.contains(k as usize) ==> n >= MAX_ACTIVE_LOADS,
            forall|k: int, a: int|
                0 <= k < orig.len() && orig[k].status == ThumbStatus::Pending && !started@.contains(k as usize)
                    && 0 <= a < started@.len() ==> started@[a] < k,
        decreases slots.len() - i,
    {
        if n >= MAX_ACTIVE_LOADS {
            break;
        }
        if slots[i].status == ThumbStatus::Pending {
            let ghost old_started = started@;
            let ghost old_slots = slots@;
            let attempts = slots[i].attempts;
            slots.set(i, ThumbSlot { status: ThumbStatus::Loading, attempts });
            started.push(i);
            n = n + 1;
            assert forall|k: int| 0 <= k < i + 1 && orig[k].status == ThumbStatus::Pending implies started@.contains(k as usize) by {
                if k < i {
                    let j = choose|j: int| 0 <= j < old_started.len() && old_started[j] == k as usize;
                    assert(started@[j] == old_started[j]);
                } else {
                    assert(started@[started@.len() - 1] == i);
                }
            }
            assert forall|k: int| 0 <= k < orig.len() && !started@.contains(k as usize) implies slots@[k] == orig[k] by {
                if k != i {
                    assert(!old_started.contains(k as usize)) by {
                        if old_started.contains(k as usize) {
                            let j = choose|j: int| 0 <= j < old_started.len() && old_started[j] == k as usize;
                            assert(started@[j] == old_started[j]);
                        }
                    }
                } else {
                    assert(started@[started@.len() - 1] == i);
                }
            }
        }
        i = i + 1;
    }
    started
}

/// Is a tile's count of failed attempts in line with its state: fewer than
/// `MAX_ATTEMPTS` while it waits or loads, exactly `MAX_ATTEMPTS` once it
/// has failed, never more?
pub open spec fn slot_ok(s: ThumbSlot) -> bool {
    &&& s.attempts <= MAX_ATTEMPTS
    &&& (s.status == ThumbStatus::Pending || s.status == ThumbStatus::Loading) ==> s.attempts < MAX_ATTEMPTS
    &&& s.status == ThumbStatus::Failed ==> s.attempts == MAX_ATTEMPTS
}

/// What the thumbnail queue keeps at all times: at most `MAX_ACTIVE_LOADS`
/// loads under way, and every tile's attempts in line with its state.
pub open spec fn queue_ok(slots: Seq<ThumbSlot>, active: nat) -> bool {
    &&& active <= MAX_ACTIVE_LOADS
    &&& forall|i: int| 0 <= i < slots.len() ==> slot_ok(#[trigger] slots[i])
}

/// The thumbnail queue of a gallery page: one tile per image and the
/// number of loads under way.
pub struct ThumbQueue {
    slots: Vec<ThumbSlot>,
    active: usize,
}

impl View for ThumbQueue {
    type V = (Seq<ThumbSlot>, nat);

    closed spec fn view(&self) -> (Seq<ThumbSlot>, nat) {
        (self.slots@, self.active as nat)
    }
}

impl ThumbQueue {
    #[verifier::type_invariant]
    spec fn wf(self) -> bool {
        queue_ok(self.slots@, self.active as nat)
    }

    /// A queue of `n` fresh tiles with no load under way.
    pub fn new(n: usize) -> (q: Self)
        ensures
            q@.0.len() == n,
            forall|i: int| 0 <= i < n ==> #[trigger] q@.0[i] == (ThumbSlot { status: ThumbStatus::Pending, attempts: 0 }),
            q@.1 == 0,
            queue_ok(q@.0, q@.1),
    {
        let mut slots: Vec<ThumbSlot> = Vec::new();
        let mut i: usize = 0;
        while i < n
            invariant
                i <= n,
                slots@.len() == i,
                forall|k: int| 0 <= k < i ==> #[trigger] slots@[k] == (ThumbSlot { status: ThumbStatus::Pending, attempts: 0 }),
            decreases n - i,
        {
            slots.push(new_thumb_slot());
            i = i + 1;
        }
        ThumbQueue { slots, active: 0 }
    }

    /// The number of tiles.
    pub fn len(&self) -> (n: usize)
        ensures
            n == self@.0.len(),
    {
        self.slots.len()
    }

    /// The state of tile `i`, if there is one.
    pub fn status(&self, i: usize) -> (r: Option<ThumbStatus>)
        ensures
            i < self@.0.len() ==> r == Some(self@.0[i as int].status),
            i >= self@.0.len() ==> r is None,
    {
        if i < self.slots.len() {
            Some(self.slots[i].status)
        } else {
            None
        }
    }

    /// The number of loads under way; never more than `MAX_ACTIVE_LOADS`.
    pub fn active(&self) -> (n: usize)
        ensures
            n == self@.1,
            n <= MAX_ACTIVE_LOADS,
    {
        proof {
            use_type_invariant(self);
        }
        self.active
    }

    /// Starts loading waiting tiles, in gallery order, while fewer than
    /// `MAX_ACTIVE_LOADS` loads are under way, and returns their positions.
    /// Loaded and failed tiles are never started again.
    pub fn start(&mut self) -> (started: Vec<usize>)
        ensures
            final(self)@.1 == old(self)@.1 + started@.len(),
            queue_ok(final(self)@.0, final(self)@.1),
            final(self)@.0.len() == old(self)@.0.len(),
            forall|a: int, b: int| 0 <= a < b < started@.len() ==> started@[a] < started@[b],
            forall|a: int| 0 <= a < started@.len() ==> started@[a] < old(self)@.0.len()
                && old(self)@.0[started@[a] as int].status == ThumbStatus::Pending
                && final(self)@.0[started@[a] as int] == (ThumbSlot {
                    status: ThumbStatus::Loading,
                    attempts: old(self)@.0[started@[a] as int].attempts,
                }),
            forall|i: int| 0 <= i < old(self)@.0.len() && !started@.contains(i as usize) ==> final(self)@.0[i] == old(self)@.0[i],
            forall|i: int|
                0 <= i < old(self)@.0.len() && old(self)@.0[i].status == ThumbStatus::Pending && !started@.contains(i as usize)
                    ==> final(self)@.1 == MAX_ACTIVE_LOADS,
            forall|i: int, a: int|
                0 <= i < old(self)@.0.len() && old(self)@.0[i].status == ThumbStatus::Pending && !started@.contains(i as usize)
                    && 0 <= a < started@.len() ==> started@[a] < i,
    {
        proof {
            use_type_invariant(&*self);
        }
        let active = self.active;
        let mut slots: Vec<ThumbSlot> = Vec::new();
        std::mem::swap(&mut slots, &mut self.slots);
        let ghost before = slots@;
        let started = start_thumb_loads(&mut slots, active);
        assert forall|i: int| 0 <= i < slots@.len() implies slot_ok(#[trigger] slots@[i]) by {
            if started@.contains(i as usize) {
                let a = choose|a: int| 0 <= a < started@.len() && started@[a] == i as usize;
                assert(slot_ok(before[i]));
            } else {
                assert(slot_ok(before[i]));
            }
        }
        *self = ThumbQueue { slots, active: active + started.len() };
        started
    }

    /// Records the outcome of the load of tile `idx`: one load fewer under
    /// way, and a loading tile becomes loaded, or waits for another try, or
    /// has failed for good after `MAX_ATTEMPTS` failures. Any other tile is
    /// left as it is.
    pub fn finish(&mut self, idx: usize, ok: bool)
        ensures
            final(self)@.1 == (if old(self)@.1 > 0 { old(self)@.1 - 1 } else { 0 }),
            final(self)@.0 == (if idx < old(self)@.0.len() && old(self)@.0[idx as int].status == ThumbStatus::Loading {
                old(self)@.0.update(idx as int, finished(old(self)@.0[idx as int], ok))
            } else {
                old(self)@.0
            }),
            queue_ok(final(self)@.0, final(self)@.1),
    {
        proof {
            use_type_invariant(&*self);
        }
        let active = if self.active > 0 { self.active - 1 } else { 0 };
        let mut slots: Vec<ThumbSlot> = Vec::new();
        std::mem::swap(&mut slots, &mut self.slots);
        let ghost before = slots@;
        if idx < slots.len() && slots[idx].status == ThumbStatus::Loading {
            let mut s = slots[idx];
            thumb_finished(&mut s, ok);
            slots.set(idx, s);
            assert forall|i: int| 0 <= i < slots@.len() implies slot_ok(#[trigger] slots@[i]) by {
                if i != idx {
                    assert(slot_ok(before[i]));
                }
            }
        }
        *self = ThumbQueue { slots, active };
    }
}

/// Of a page of images (given by their epilepsy flags), the positions shown:
/// all of them when epilepsy-flagged images are allowed, the unflagged ones
/// otherwise.
pub open spec fn shown_spec(epilepsy: Seq<bool>, show_epilepsy: bool) -> Seq<usize>
    decreases epilepsy.len(),
{
    if epilepsy.len() == 0 {
        seq![]
    } else {
        let rest = shown_spec(epilepsy.drop_last(), show_epilepsy);
        if show_epilepsy || !epilepsy.last() {
            rest.push((epilepsy.len() - 1) as usize)
        } else {
            rest
        }
    }
}

/// The images of a page that the gallery shows, and whether another page
/// may follow: it does when at least a full page is shown.
pub fn gallery_page(epilepsy: &Vec<bool>, show_epilepsy: bool, page_size: u8) -> (r: (Vec<usize>, bool))
    ensures
        r.0@ == shown_spec(epilepsy@, show_epilepsy),
        r.1 == (r.0@.len() >= page_size),
{
    let mut shown: Vec<usize> = Vec::new();
    let mut i: usize = 0;
    while i < epilepsy.len()
        invariant
            i <= epilepsy.len(),
            shown@ == shown_spec(epilepsy@.take(i as int), show_epilepsy),
        decreases epilepsy.len() - i,
    {
        assert(epilepsy@.take(i + 1).drop_last() == epilepsy@.take(i as int));
        if show_epilepsy || !epilepsy[i] {
            shown.push(i);
        }
        i = i + 1;
    }
    assert(epilepsy@.take(epilepsy.len() as int) == epilepsy@);
    let more = shown.len() >= page_size as usize;
    (shown, more)
}

/// An image fetch to start: a page of one kind of images of a SteamGridDB
/// game.
#[derive(Debug, Clone, Copy)]
pub struct FetchRequest {
    pub sgdb_id: usize,
    pub kind: ImageKind,
    pub page: usize,
}

/// What the artwork browser keeps about the images it asks for and shows.
#[derive(Debug, Clone, Copy)]
pub struct GalleryNav {
    /// The kind of images shown.
    pub active_kind: ImageKind,
    /// The chosen match of the name search.
    pub selected_sgdb_idx: usize,
    /// The SteamGridDB game found for a store search result.
    pub resolved_sgdb_id: Option<usize>,
    /// The page shown.
    pub current_page: usize,
    /// The page being fetched.
    pub fetching_page: usize,
    /// The match and kind of the page shown, if one is.
    pub loaded_for: Option<(usize, ImageKind)>,
}

impl GalleryNav {
    /// Covers, the first match, nothing resolved, fetched or shown.
    pub fn new() -> (n: Self)
        ensures
            n.active_kind == ImageKind::Cover,
            n.selected_sgdb_idx == 0,
            n.resolved_sgdb_id is None,
            n.current_page == 0,
            n.fetching_page == 0,
            n.loaded_for is None,
    {
        GalleryNav {
            active_kind: ImageKind::Cover,
            selected_sgdb_idx: 0,
            resolved_sgdb_id: None,
            current_page: 0,
            fetching_page: 0,
            loaded_for: None,
        }
    }

    /// The gallery is emptied: no page is shown.
    pub fn clear(&mut self)
        ensures
            *final(self) == (GalleryNav { current_page: 0, loaded_for: None, ..*old(self) }),
    {
        self.current_page = 0;
        self.loaded_for = None;
    }

    /// A fetch of `page` starts: the gallery is emptied meanwhile.
    pub fn fetch_started(&mut self, page: usize)
        ensures
            *final(self) == (GalleryNav { current_page: 0, loaded_for: None, fetching_page: page, ..*old(self) }),
    {
        self.fetching_page = page;
        self.clear();
    }

    /// The name search found `match_ids`: the first match is chosen, and
    /// when there is one its first page of the shown kind is fetched.
    pub fn search_done(&mut self, match_ids: &Vec<usize>) -> (r: Option<FetchRequest>)
        ensures
            *final(self) == (GalleryNav { selected_sgdb_idx: 0, ..*old(self) }),
            match_ids@.len() == 0 ==> r is None,
            match_ids@.len() > 0 ==> r == Some(FetchRequest { sgdb_id: match_ids@[0], kind: old(self).active_kind, page: 0 }),
    {
        self.selected_sgdb_idx = 0;
        if match_ids.len() > 0 {
            Some(FetchRequest { sgdb_id: match_ids[0], kind: self.active_kind, page: 0 })
        } else {
            None
        }
    }

    /// The lookup of a store result's SteamGridDB game came back with `id`:
    /// a found game is remembered, and its first page of the shown kind is
    /// fetched when an API key is set.
    pub fn id_resolved(&mut self, id: Option<usize>, has_api_key: bool) -> (r: Option<FetchRequest>)
        ensures
            *final(self) == (match id {
                Some(_) => GalleryNav { resolved_sgdb_id: id, ..*old(self) },
                None => *old(self),
            }),
            r == (match id {
                Some(g) => if has_api_key {
                    Some(FetchRequest { sgdb_id: g, kind: old(self).active_kind, page: 0 })
                } else {
                    None
                },
                None => None,
            }),
    {
        match id {
            Some(g) => {
                self.resolved_sgdb_id = Some(g);
                if has_api_key {
                    Some(FetchRequest { sgdb_id: g, kind: self.active_kind, page: 0 })
                } else {
                    None
                }
            },
            None => None,
        }
    }

    /// The page being fetched arrived: it is the page shown, for the chosen
    /// match and the shown kind.
    pub fn images_loaded(&mut self)
        ensures
            *final(self) == (GalleryNav {
                current_page: old(self).fetching_page,
                loaded_for: Some((old(self).selected_sgdb_idx, old(self).active_kind)),
                ..*old(self)
            }),
    {
        self.current_page = self.fetching_page;
        self.loaded_for = Some((self.selected_sgdb_idx, self.active_kind));
    }
}

/// The SteamGridDB game whose images are shown: for a store search result
/// the id resolved for it, otherwise the chosen match of the name search.
pub open spec fn current_sgdb_id_spec(is_fetch: bool, resolved: Option<usize>, matches: Seq<usize>, chosen: usize) -> Option<usize> {
    if is_fetch {
        resolved
    } else if matches.len() > 0 {
        Some(matches[chosen as int])
    } else {
        None
    }
}

/// The SteamGridDB game whose images are shown.
pub fn current_sgdb_id(is_fetch: bool, resolved: Option<usize>, matches: &Vec<usize>, chosen: usize) -> (r: Option<usize>)
    requires
        matches.len() > 0 ==> chosen < matches.len(),
    ensures
        r == current_sgdb_id_spec(is_fetch, resolved, matches@, chosen),
{
    if is_fetch {
        resolved
    } else if matches.len() > 0 {
        Some(matches[chosen])
    } else {
        None
    }
}

/// Must images be fetched after switching to `kind`: when a page is loaded,
/// exactly when it is of another kind; when none is, exactly when a game is
/// known.
pub fn needs_fetch(loaded_for: Option<(usize, ImageKind)>, kind: ImageKind, sgdb_id: Option<usize>) -> (b: bool)
    ensures
        b == match loaded_for {
            Some((_, k)) => k != kind,
            None => sgdb_id is Some,
        },
{
    match loaded_for {
        Some((_, k)) => k != kind,
        None => sgdb_id.is_some(),
    }
}

/// The page to load after a page-navigation click: the next page, or the
/// previous one (not below the first), or none.
pub fn page_after_nav(current: usize, next: bool, prev: bool) -> (r: Option<usize>)
    requires
        next ==> current < usize::MAX,
    ensures
        r == (if next {
            Some((current + 1) as usize)
        } else if prev {
            Some(if current > 0 { (current - 1) as usize } else { 0usize })
        } else {
            None::<usize>
        }),
{
    if next {
        Some(current + 1)
    } else if prev {
        Some(if current > 0 { current - 1 } else { 0 })
    } else {
        None
    }
}

} // verus!
