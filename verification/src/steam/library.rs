//! Installed Steam games: which installed apps count as games, and their
//! order by name. Finding the libraries and their apps is done by the
//! caller.

use vstd::prelude::*;
use crate::text::{chars_of, contains_chars, is_infix};

verus! {

/// An installed Steam game.
pub struct SteamGame {
    pub app_id: u32,
    pub name: String,
}

/// An installed app as the library manifests describe it.
pub struct InstalledApp {
    pub app_id: u32,
    pub name: Option<String>,
}

/// Does `s` begin with `prefix`?
pub open spec fn starts_with(s: Seq<char>, prefix: Seq<char>) -> bool {
    prefix.len() <= s.len() && s.take(prefix.len() as int) == prefix
}

/// Is an installed app a game rather than a compatibility tool, runtime
/// or SDK: its name does not start with "Proton" and does not contain
/// "Steam Linux Runtime" or "Steamworks", and its AppID is above 1000?
pub open spec fn is_game_spec(app_id: u32, name: Seq<char>) -> bool {
    &&& !starts_with(name, "Proton"@)
    &&& !is_infix("Steam Linux Runtime"@, name)
    &&& !is_infix("Steamworks"@, name)
    &&& app_id > 1000
}

fn starts_with_exec(s: &Vec<char>, prefix: &Vec<char>) -> (b: bool)
    ensures
        b == starts_with(s@, prefix@),
{
    if prefix.len() > s.len() {
        return false;
    }
    let mut i: usize = 0;
    while i < prefix.len()
        invariant
            prefix.len() <= s.len(),
            i <= prefix.len(),
            forall|k: int| 0 <= k < i ==> s@[k] == prefix@[k],
        decreases prefix.len() - i,
    {
        if s[i] != prefix[i] {
            assert(s@.take(prefix.len() as int)[i as int] != prefix@[i as int]);
            return false;
        }
        i = i + 1;
    }
    assert(s@.take(prefix.len() as int) =~= prefix@);
    true
}

/// Decides whether an installed app is a game; an app without a name is
/// judged by the empty name.
pub fn is_game(app_id: u32, name: Option<&str>) -> (b: bool)
    ensures
        b == is_game_spec(app_id, match name { Some(n) => n@, None => Seq::<char>::empty() }),
{
    let n = match name {
        Some(n) => chars_of(n),
        None => Vec::new(),
    };
    !starts_with_exec(&n, &chars_of("Proton")) && !contains_chars(&n, &chars_of("Steam Linux Runtime"))
        && !contains_chars(&n, &chars_of("Steamworks")) && app_id > 1000
}

/// Lexicographic order of strings by character code (the order of `String`).
pub open spec fn name_le(a: Seq<char>, b: Seq<char>) -> bool
    decreases a.len(),
{
    if a.len() == 0 {
        true
    } else if b.len() == 0 {
        false
    } else if a[0] != b[0] {
        a[0] < b[0]
    } else {
        name_le(a.drop_first(), b.drop_first())
    }
}

pub(crate) fn name_le_exec(a: &Vec<char>, b: &Vec<char>) -> (r: bool)
    ensures
        r == name_le(a@, b@),
{
    let mut i: usize = 0;
    assert(a@.skip(0) == a@);
    assert(b@.skip(0) == b@);
    while i < a.len() && i < b.len() && a[i] == b[i]
        invariant
            i <= a.len(),
            i <= b.len(),
            name_le(a@, b@) == name_le(a@.skip(i as int), b@.skip(i as int)),
        decreases a.len() - i,
    {
        assert(a@.skip(i as int).drop_first() == a@.skip(i + 1));
        assert(b@.skip(i as int).drop_first() == b@.skip(i + 1));
        i = i + 1;
    }
    assert(i < a.len() ==> a@.skip(i as int)[0] == a@[i as int]);
    assert(i < b.len() ==> b@.skip(i as int)[0] == b@[i as int]);
    if i == a.len() {
        true
    } else if i == b.len() {
        false
    } else {
        a[i] < b[i]
    }
}

/// The games, given as plain values, in the order a stable sort by name
/// puts them: `g` is placed after every earlier game whose name is not
/// greater.
pub open spec fn insert_by_name(sorted: Seq<(u32, Seq<char>)>, g: (u32, Seq<char>)) -> Seq<(u32, Seq<char>)>
    decreases sorted.len(),
{
    if sorted.len() == 0 || name_le(sorted.last().1, g.1) {
        sorted.push(g)
    } else {
        insert_by_name(sorted.drop_last(), g).push(sorted.last())
    }
}

/// A stable sort by name.
pub open spec fn sort_by_name(games: Seq<(u32, Seq<char>)>) -> Seq<(u32, Seq<char>)>
    decreases games.len(),
{
    if games.len() == 0 {
        seq![]
    } else {
        insert_by_name(sort_by_name(games.drop_last()), games.last())
    }
}

/// The games among the installed apps, as plain values, in listing order.
pub open spec fn games_of(apps: Seq<InstalledApp>) -> Seq<(u32, Seq<char>)>
    decreases apps.len(),
{
    if apps.len() == 0 {
        seq![]
    } else {
        let rest = games_of(apps.drop_last());
        let a = apps.last();
        match a.name {
            Some(n) => if is_game_spec(a.app_id, n@) {
                rest.push((a.app_id, n@))
            } else {
                rest
            },
            None => rest,
        }
    }
}

/// The plain values of a list of games.
pub open spec fn game_values(v: Seq<SteamGame>) -> Seq<(u32, Seq<char>)> {
    v.map_values(|g: SteamGame| (g.app_id, g.name@))
}

fn insert_game(sorted: &mut Vec<SteamGame>, g: SteamGame)
    ensures
        game_values(final(sorted)@) == insert_by_name(game_values(old(sorted)@), (g.app_id, g.name@)),
    decreases old(sorted).len(),
{
    let n = sorted.len();
    if n == 0 {
        sorted.push(g);
        assert(game_values(sorted@) =~= seq![(g.app_id, g.name@)]);
        return;
    }
    let last_name = chars_of(sorted[n - 1].name.as_str());
    let g_name = chars_of(g.name.as_str());
    let ghost before = game_values(sorted@);
    if name_le_exec(&last_name, &g_name) {
        sorted.push(g);
        assert(game_values(sorted@) =~= before.push((g.app_id, g.name@)));
    } else {
        let last = sorted.pop().unwrap();
        assert(game_values(sorted@) =~= before.drop_last());
        let ghost lv = (last.app_id, last.name@);
        insert_game(sorted, g);
        let ghost mid = game_values(sorted@);
        sorted.push(last);
        assert(game_values(sorted@) =~= mid.push(lv));
    }
}

/// The installed games among the apps, sorted by name (stable), leaving out
/// apps without a name and apps that are not games.
pub fn installed_games(apps: &Vec<InstalledApp>) -> (games: Vec<SteamGame>)
    ensures
        game_values(games@) == sort_by_name(games_of(apps@)),
{
    let mut sorted: Vec<SteamGame> = Vec::new();
    let ghost mut found: Seq<(u32, Seq<char>)> = seq![];
    let mut i: usize = 0;
    while i < apps.len()
        invariant
            i <= apps.len(),
            found == games_of(apps@.take(i as int)),
            game_values(sorted@) == sort_by_name(found),
        decreases apps.len() - i,
    {
        assert(apps@.take(i + 1).drop_last() == apps@.take(i as int));
        let a = &apps[i];
        match &a.name {
            Some(n) => {
                if is_game(a.app_id, Some(n.as_str())) {
                    let ghost prev = found;
                    proof {
                        found = found.push((a.app_id, n@));
                        assert(found.drop_last() == prev);
                    }
                    insert_game(&mut sorted, SteamGame { app_id: a.app_id, name: n.clone() });
                }
            },
            None => {},
        }
        i = i + 1;
    }
    assert(apps@.take(apps.len() as int) == apps@);
    sorted
}


/// Is a list of games in order of name?
pub open spec fn sorted_by_name(s: Seq<(u32, Seq<char>)>) -> bool {
    forall|i: int, j: int| 0 <= i < j < s.len() ==> name_le(#[trigger] s[i].1, #[trigger] s[j].1)
}

pub(crate) proof fn lemma_name_le_total(a: Seq<char>, b: Seq<char>)
    ensures
        name_le(a, b) || name_le(b, a),
    decreases a.len(),
{
    if a.len() > 0 && b.len() > 0 && a[0] == b[0] {
        lemma_name_le_total(a.drop_first(), b.drop_first());
    }
}

pub(crate) proof fn lemma_name_le_trans(a: Seq<char>, b: Seq<char>, c: Seq<char>)
    requires
        name_le(a, b),
        name_le(b, c),
    ensures
        name_le(a, c),
    decreases a.len(),
{
    if a.len() > 0 && b.len() > 0 && c.len() > 0 && a[0] == b[0] && b[0] == c[0] {
        lemma_name_le_trans(a.drop_first(), b.drop_first(), c.drop_first());
    }
}

/// Name-order law: the order of names is the lexicographic order of
/// strings. A name comes before every longer name it begins (a proper
/// prefix sorts first), and otherwise the first differing character
/// decides.
pub proof fn lemma_name_order_is_lexicographic(a: Seq<char>, b: Seq<char>)
    ensures
        name_le(a, a + b),
        b.len() > 0 ==> !name_le(a + b, a),
        forall|k: int|
            0 <= k < a.len() && k < b.len() && a.take(k) == b.take(k) && a[k] != b[k]
                ==> (name_le(a, b) <==> a[k] < b[k]),
    decreases a.len(),
{
    if a.len() > 0 {
        lemma_name_order_is_lexicographic(a.drop_first(), b);
        assert((a + b).drop_first() =~= a.drop_first() + b);
        assert((a + b)[0] == a[0]);
        assert forall|k: int|
            0 <= k < a.len() && k < b.len() && a.take(k) == b.take(k) && a[k] != b[k]
                implies (name_le(a, b) <==> a[k] < b[k]) by {
            lemma_first_difference(a, b, k);
        }
    } else {
        assert(a + b =~= b);
    }
}

proof fn lemma_first_difference(a: Seq<char>, b: Seq<char>, k: int)
    requires
        0 <= k < a.len(),
        k < b.len(),
        a.take(k) == b.take(k),
        a[k] != b[k],
    ensures
        name_le(a, b) <==> a[k] < b[k],
    decreases k,
{
    if k > 0 {
        assert(a[0] == a.take(k)[0] && b[0] == b.take(k)[0]);
        assert(a.drop_first().take(k - 1) =~= a.take(k).drop_first());
        assert(b.drop_first().take(k - 1) =~= b.take(k).drop_first());
        lemma_first_difference(a.drop_first(), b.drop_first(), k - 1);
    }
}

proof fn lemma_insert_elems(s: Seq<(u32, Seq<char>)>, x: (u32, Seq<char>))
    ensures
        insert_by_name(s, x).len() == s.len() + 1,
        forall|j: int| 0 <= j < s.len() + 1 ==> insert_by_name(s, x)[j] == x || s.contains(#[trigger] insert_by_name(s, x)[j]),
    decreases s.len(),
{
    if s.len() > 0 && !name_le(s.last().1, x.1) {
        lemma_insert_elems(s.drop_last(), x);
        let r = insert_by_name(s, x);
        let t = insert_by_name(s.drop_last(), x);
        assert forall|j: int| 0 <= j < s.len() + 1 implies r[j] == x || s.contains(#[trigger] r[j]) by {
            if j < s.len() {
                assert(r[j] == t[j]);
                if t[j] != x {
                    let k = choose|k: int| 0 <= k < s.drop_last().len() && s.drop_last()[k] == t[j];
                    assert(s[k] == t[j]);
                }
            } else {
                assert(r[j] == s[s.len() - 1]);
            }
        }
    } else {
        let r = insert_by_name(s, x);
        assert forall|j: int| 0 <= j < s.len() + 1 implies r[j] == x || s.contains(#[trigger] r[j]) by {
            if j < s.len() {
                assert(r[j] == s[j]);
            }
        }
    }
}

proof fn lemma_insert_sorted(s: Seq<(u32, Seq<char>)>, x: (u32, Seq<char>))
    requires
        sorted_by_name(s),
    ensures
        sorted_by_name(insert_by_name(s, x)),
    decreases s.len(),
{
    let r = insert_by_name(s, x);
    if s.len() == 0 {
    } else if name_le(s.last().1, x.1) {
        assert forall|i: int, j: int| 0 <= i < j < r.len() implies name_le(#[trigger] r[i].1, #[trigger] r[j].1) by {
            if j == s.len() {
                if i < s.len() - 1 {
                    lemma_name_le_trans(s[i].1, s.last().1, x.1);
                }
            } else {
                assert(r[i] == s[i] && r[j] == s[j]);
            }
        }
    } else {
        let last = s.last();
        let pre = s.drop_last();
        lemma_insert_sorted(pre, x);
        lemma_insert_elems(pre, x);
        lemma_name_le_total(last.1, x.1);
        let t = insert_by_name(pre, x);
        assert forall|i: int, j: int| 0 <= i < j < r.len() implies name_le(#[trigger] r[i].1, #[trigger] r[j].1) by {
            if j == s.len() {
                assert(r[j] == last);
                assert(r[i] == t[i]);
                if t[i] != x {
                    let k = choose|k: int| 0 <= k < pre.len() && pre[k] == t[i];
                    assert(s[k] == pre[k]);
                }
            } else {
                assert(r[i] == t[i] && r[j] == t[j]);
            }
        }
    }
}

proof fn lemma_insert_by_name_multiset(s: Seq<(u32, Seq<char>)>, x: (u32, Seq<char>))
    ensures
        insert_by_name(s, x).to_multiset() =~= s.to_multiset().insert(x),
    decreases s.len(),
{
    broadcast use vstd::seq_lib::group_to_multiset_ensures;
    if s.len() > 0 && !name_le(s.last().1, x.1) {
        lemma_insert_by_name_multiset(s.drop_last(), x);
        assert(s.drop_last().push(s.last()) =~= s);
    }
}

proof fn lemma_sort_by_name_multiset(games: Seq<(u32, Seq<char>)>)
    ensures
        sort_by_name(games).to_multiset() =~= games.to_multiset(),
    decreases games.len(),
{
    broadcast use vstd::seq_lib::group_to_multiset_ensures;
    if games.len() > 0 {
        lemma_sort_by_name_multiset(games.drop_last());
        lemma_insert_by_name_multiset(sort_by_name(games.drop_last()), games.last());
        assert(games.drop_last().push(games.last()) =~= games);
    }
}

/// Library law: sorting loses and adds no game; the installed games listed
/// are exactly the games among the apps, each as often as it occurs there.
pub proof fn lemma_installed_games_complete(apps: Seq<InstalledApp>)
    ensures
        sort_by_name(games_of(apps)).to_multiset() == games_of(apps).to_multiset(),
{
    lemma_sort_by_name_multiset(games_of(apps));
}

/// Library law: the installed games come out in order of name.
pub proof fn lemma_installed_games_sorted(apps: Seq<InstalledApp>)
    ensures
        sorted_by_name(sort_by_name(games_of(apps))),
{
    lemma_sort_sorted(games_of(apps));
}

proof fn lemma_sort_sorted(games: Seq<(u32, Seq<char>)>)
    ensures
        sorted_by_name(sort_by_name(games)),
    decreases games.len(),
{
    if games.len() > 0 {
        lemma_sort_sorted(games.drop_last());
        lemma_insert_sorted(sort_by_name(games.drop_last()), games.last());
    }
}

} // verus!
