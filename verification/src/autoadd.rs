//! Adding newly detected games to the Steam shortcuts: deciding which games
//! are new, building their shortcuts, and reporting the outcome.

use vstd::prelude::*;
use crate::config::SteamGridDbConfig;
use crate::scanner::detector::DetectedGame;
use crate::steam::appid::{app_id_spec, calculate_app_id, crc32};
use vstd::utf8::encode_utf8;
use crate::steam::shortcuts::{add_quotes, models, new_shortcut, new_shortcut_spec, numbered, quoted, Shortcut, ShortcutModel};
use crate::text::{chars_of, concat_chars, decimal, decimal_chars, decimal_string, string_of};

verus! {

/// The outcome of an automatic add.
pub struct AutoAddResult {
    /// Games added as shortcuts.
    pub added: usize,
    /// Detected games already present.
    pub skipped: usize,
    /// New games whose grid artwork was applied.
    pub artwork_applied: usize,
    /// New games whose grid artwork could not be applied.
    pub artwork_failed: usize,
}

/// Does some existing shortcut have AppID `id`?
pub open spec fn is_known(existing: Seq<ShortcutModel>, id: u32) -> bool {
    exists|i: int| 0 <= i < existing.len() && (#[trigger] existing[i]).app_id == id
}

/// The AppID a detected game gets.
pub open spec fn game_app_id(g: DetectedGame) -> u32 {
    app_id_spec(quoted(g.exe_path@), g.name@)
}

/// The plan of an automatic add, as plain values.
pub struct PlanModel {
    pub shortcuts: Seq<ShortcutModel>,
    pub added: nat,
    pub skipped: nat,
    pub new_games: Seq<(Seq<char>, u32)>,
}

/// The plan after considering the detected games in order. A game whose
/// AppID one of the existing shortcuts already has is skipped; any other
/// game is appended as a new shortcut numbered by its position.
pub open spec fn plan_spec(existing: Seq<ShortcutModel>, games: Seq<DetectedGame>) -> PlanModel
    decreases games.len(),
{
    if games.len() == 0 {
        PlanModel { shortcuts: existing, added: 0, skipped: 0, new_games: seq![] }
    } else {
        let p = plan_spec(existing, games.drop_last());
        let g = games.last();
        let id = game_app_id(g);
        if is_known(existing, id) {
            PlanModel { shortcuts: p.shortcuts, added: p.added, skipped: p.skipped + 1, new_games: p.new_games }
        } else {
            PlanModel {
                shortcuts: p.shortcuts.push(
                    new_shortcut_spec(
                        decimal(p.shortcuts.len()),
                        id,
                        g.name@,
                        quoted(g.exe_path@),
                        quoted(g.install_dir@),
                        seq![],
                    ),
                ),
                added: p.added + 1,
                skipped: p.skipped,
                new_games: p.new_games.push((g.name@, id)),
            }
        }
    }
}

/// The shortcuts after an automatic add, and what it did.
pub struct AutoAddPlan {
    /// The existing shortcuts followed by those of the new games.
    pub shortcuts: Vec<Shortcut>,
    pub added: usize,
    pub skipped: usize,
    /// Name and AppID of each added game.
    pub new_games: Vec<(String, u32)>,
}

/// Does an exec plan hold what a plan model says?
pub open spec fn plan_matches(plan: AutoAddPlan, m: PlanModel) -> bool {
    &&& models(plan.shortcuts@) == m.shortcuts
    &&& plan.added == m.added
    &&& plan.skipped == m.skipped
    &&& plan.new_games@.len() == m.new_games.len()
    &&& forall|j: int| 0 <= j < m.new_games.len() ==> (#[trigger] plan.new_games@[j]).0@ == m.new_games[j].0
        && plan.new_games@[j].1 == m.new_games[j].1
}

fn is_known_exec(ids: &Vec<u32>, id: u32) -> (b: bool)
    ensures
        b == ids@.contains(id),
{
    let mut i: usize = 0;
    while i < ids.len()
        invariant
            i <= ids.len(),
            forall|k: int| 0 <= k < i ==> ids@[k] != id,
        decreases ids.len() - i,
    {
        if ids[i] == id {
            assert(ids@[i as int] == id);
            return true;
        }
        i = i + 1;
    }
    false
}

proof fn lemma_plan_len(existing: Seq<ShortcutModel>, games: Seq<DetectedGame>)
    ensures
        plan_spec(existing, games).added + plan_spec(existing, games).skipped == games.len(),
        plan_spec(existing, games).shortcuts.len() == existing.len() + plan_spec(existing, games).added,
        plan_spec(existing, games).new_games.len() == plan_spec(existing, games).added,
    decreases games.len(),
{
    if games.len() > 0 {
        lemma_plan_len(existing, games.drop_last());
    }
}

/// Plans an automatic add: appends a shortcut for every detected game whose
/// AppID none of the existing shortcuts has, and counts the games added and
/// those already present.
pub fn plan_auto_add(existing: Vec<Shortcut>, detected: &Vec<DetectedGame>) -> (plan: AutoAddPlan)
    ensures
        plan_matches(plan, plan_spec(models(existing@), detected@)),
{
    let ghost ex = models(existing@);
    let mut known: Vec<u32> = Vec::new();
    let mut k: usize = 0;
    while k < existing.len()
        invariant
            k <= existing.len(),
            known@.len() == k,
            forall|m: int| 0 <= m < k ==> known@[m] == existing@[m].app_id,
        decreases existing.len() - k,
    {
        known.push(existing[k].app_id);
        k = k + 1;
    }
    assert(forall|id: u32| known@.contains(id) <==> is_known(ex, id)) by {
        assert forall|id: u32| known@.contains(id) implies is_known(ex, id) by {
            let m = choose|m: int| 0 <= m < known@.len() && known@[m] == id;
            assert(ex[m].app_id == id);
        }
        assert forall|id: u32| is_known(ex, id) implies known@.contains(id) by {
            let m = choose|m: int| 0 <= m < ex.len() && (#[trigger] ex[m]).app_id == id;
            assert(known@[m] == id);
        }
    }
    let mut shortcuts = existing;
    let mut added: usize = 0;
    let mut skipped: usize = 0;
    let mut new_games: Vec<(String, u32)> = Vec::new();
    let mut i: usize = 0;
    while i < detected.len()
        invariant
            i <= detected.len(),
            forall|id: u32| known@.contains(id) <==> is_known(ex, id),
            plan_matches(
                AutoAddPlan { shortcuts, added, skipped, new_games },
                plan_spec(ex, detected@.take(i as int)),
            ),
        decreases detected.len() - i,
    {
        proof {
            lemma_plan_len(ex, detected@.take(i as int));
        }
        assert(detected@.take(i + 1).drop_last() == detected@.take(i as int));
        let g = &detected[i];
        let exe_q = add_quotes(g.exe_path.as_str());
        let id = calculate_app_id(exe_q.as_str(), g.name.as_str());
        if is_known_exec(&known, id) {
            skipped = skipped + 1;
        } else {
            let order = decimal_string(shortcuts.len() as u64);
            let dir_q = add_quotes(g.install_dir.as_str());
            let s = new_shortcut(order, id, g.name.clone(), exe_q, dir_q, String::new());
            let ghost before = shortcuts@;
            shortcuts.push(s);
            assert(models(shortcuts@) =~= models(before).push(s@));
            new_games.push((g.name.clone(), id));
            added = added + 1;
        }
        i = i + 1;
    }
    assert(detected@.take(detected.len() as int) == detected@);
    AutoAddPlan { shortcuts, added, skipped, new_games }
}

/// Auto-add law: an automatic add keeps every existing shortcut in place,
/// appends one shortcut per added game numbered by its position (so a list
/// numbered by position stays so), never appends a game whose AppID is
/// already present, and accounts for every detected game as either added
/// or already present.
pub proof fn lemma_auto_add_appends_only_new_games(existing: Seq<ShortcutModel>, games: Seq<DetectedGame>)
    ensures
        numbered(existing) ==> numbered(plan_spec(existing, games).shortcuts),
        plan_spec(existing, games).added + plan_spec(existing, games).skipped == games.len(),
        plan_spec(existing, games).shortcuts.len() == existing.len() + plan_spec(existing, games).added,
        plan_spec(existing, games).shortcuts.take(existing.len() as int) == existing,
        forall|j: int|
            existing.len() <= j < plan_spec(existing, games).shortcuts.len() ==> {
                &&& !is_known(existing, (#[trigger] plan_spec(existing, games).shortcuts[j]).app_id)
                &&& plan_spec(existing, games).shortcuts[j].order == decimal(j as nat)
            },
    decreases games.len(),
{
    lemma_plan_len(existing, games);
    if games.len() > 0 {
        let pre = games.drop_last();
        lemma_auto_add_appends_only_new_games(existing, pre);
        let p = plan_spec(existing, pre);
        let q = plan_spec(existing, games);
        assert forall|j: int| existing.len() <= j < q.shortcuts.len() implies {
            &&& !is_known(existing, (#[trigger] q.shortcuts[j]).app_id)
            &&& q.shortcuts[j].order == decimal(j as nat)
        } by {
            if j < p.shortcuts.len() {
                assert(q.shortcuts[j] == p.shortcuts[j]);
            }
        }
        assert(q.shortcuts.take(existing.len() as int) =~= p.shortcuts.take(existing.len() as int));
        if numbered(existing) {
            assert forall|i: int| 0 <= i < q.shortcuts.len() implies (#[trigger] q.shortcuts[i]).order == decimal(i as nat) by {
                if i < existing.len() {
                    assert(q.shortcuts.take(existing.len() as int)[i] == existing[i]);
                }
            }
        }
    } else {
        assert(existing.take(existing.len() as int) == existing);
    }
}

/// Does a shortcut stand for a detected game as Steam needs it: the game's
/// name as its name, the game's executable path in double quotes as its
/// target, its folder in double quotes as its start directory, no launch
/// options, and the AppID Steam computes from the quoted target and the
/// name (CRC-32 of their UTF-8 bytes with the high bit set)?
pub open spec fn stands_for(s: ShortcutModel, g: DetectedGame) -> bool {
    let exe = seq!['"'] + g.exe_path@ + seq!['"'];
    &&& s.app_name == g.name@
    &&& s.exe == exe
    &&& s.start_dir == seq!['"'] + g.install_dir@ + seq!['"']
    &&& s.launch_options == Seq::<char>::empty()
    &&& s.app_id == crc32(encode_utf8(exe) + encode_utf8(g.name@)) | 0x8000_0000u32
}

/// Is shortcut `m` of those an automatic add appends the one of a new
/// detected game, and reported with its name and AppID?
pub open spec fn appended_from_game(existing: Seq<ShortcutModel>, games: Seq<DetectedGame>, m: int) -> bool {
    exists|i: int|
        0 <= i < games.len() && !is_known(existing, game_app_id(#[trigger] games[i]))
            && stands_for(plan_spec(existing, games).shortcuts[existing.len() + m], games[i])
            && plan_spec(existing, games).new_games[m] == (games[i].name@, game_app_id(games[i]))
}

/// Did detected game `i` get an appended shortcut that stands for it?
pub open spec fn game_got_shortcut(existing: Seq<ShortcutModel>, games: Seq<DetectedGame>, i: int) -> bool {
    exists|m: int|
        0 <= m < plan_spec(existing, games).added
            && stands_for(#[trigger] plan_spec(existing, games).shortcuts[existing.len() + m], games[i])
}

proof fn lemma_appended_sound(existing: Seq<ShortcutModel>, games: Seq<DetectedGame>)
    ensures
        forall|m: int| 0 <= m < plan_spec(existing, games).added ==> #[trigger] appended_from_game(existing, games, m),
    decreases games.len(),
{
    if games.len() > 0 {
        let pre = games.drop_last();
        lemma_appended_sound(existing, pre);
        lemma_plan_len(existing, pre);
        let p = plan_spec(existing, pre);
        let q = plan_spec(existing, games);
        let g = games.last();
        assert forall|m: int| 0 <= m < q.added implies #[trigger] appended_from_game(existing, games, m) by {
            if m < p.added {
                assert(appended_from_game(existing, pre, m));
                let i = choose|i: int|
                    0 <= i < pre.len() && !is_known(existing, game_app_id(#[trigger] pre[i]))
                        && stands_for(p.shortcuts[existing.len() + m], pre[i])
                        && p.new_games[m] == (pre[i].name@, game_app_id(pre[i]));
                assert(q.shortcuts[existing.len() + m] == p.shortcuts[existing.len() + m]);
                assert(q.new_games[m] == p.new_games[m]);
                assert(games[i] == pre[i]);
            } else {
                let i = games.len() - 1;
                assert(games[i] == g);
                assert(existing.len() + m == p.shortcuts.len());
                assert(!is_known(existing, game_app_id(games[i])));
                assert(stands_for(q.shortcuts[existing.len() + m], games[i]));
            }
        }
    }
}

proof fn lemma_appended_complete(existing: Seq<ShortcutModel>, games: Seq<DetectedGame>)
    ensures
        forall|i: int|
            0 <= i < games.len() && !is_known(existing, game_app_id(games[i]))
                ==> #[trigger] game_got_shortcut(existing, games, i),
    decreases games.len(),
{
    if games.len() > 0 {
        let pre = games.drop_last();
        lemma_appended_complete(existing, pre);
        lemma_plan_len(existing, pre);
        lemma_plan_len(existing, games);
        let p = plan_spec(existing, pre);
        let q = plan_spec(existing, games);
        let g = games.last();
        assert forall|i: int| 0 <= i < games.len() && !is_known(existing, game_app_id(games[i]))
            implies #[trigger] game_got_shortcut(existing, games, i) by {
            if i < pre.len() {
                assert(pre[i] == games[i]);
                assert(game_got_shortcut(existing, pre, i));
                let m = choose|m: int| 0 <= m < p.added && stands_for(#[trigger] p.shortcuts[existing.len() + m], pre[i]);
                assert(q.shortcuts[existing.len() + m] == p.shortcuts[existing.len() + m]);
            } else {
                assert(games[i] == g);
                let m = p.added as int;
                assert(stands_for(q.shortcuts[existing.len() + m], g));
            }
        }
    }
}

/// Auto-add law: every shortcut an automatic add appends stands for a
/// detected game whose AppID no existing shortcut has (the game's name, its
/// quoted executable and folder, no launch options, its AppID), and is
/// reported with that game's name and AppID; every such detected game gets
/// a shortcut.
pub proof fn lemma_auto_add_appends_the_games(existing: Seq<ShortcutModel>, games: Seq<DetectedGame>)
    ensures
        forall|m: int| 0 <= m < plan_spec(existing, games).added ==> #[trigger] appended_from_game(existing, games, m),
        forall|i: int|
            0 <= i < games.len() && !is_known(existing, game_app_id(games[i]))
                ==> #[trigger] game_got_shortcut(existing, games, i),
{
    lemma_appended_sound(existing, games);
    lemma_appended_complete(existing, games);
}

proof fn lemma_plan_knows_every_game(existing: Seq<ShortcutModel>, games: Seq<DetectedGame>)
    ensures
        forall|j: int| 0 <= j < games.len() ==> is_known(plan_spec(existing, games).shortcuts, game_app_id(#[trigger] games[j])),
    decreases games.len(),
{
    if games.len() > 0 {
        let pre = games.drop_last();
        lemma_plan_knows_every_game(existing, pre);
        lemma_auto_add_appends_only_new_games(existing, pre);
        let p = plan_spec(existing, pre);
        let q = plan_spec(existing, games);
        assert forall|j: int| 0 <= j < games.len() implies is_known(q.shortcuts, game_app_id(#[trigger] games[j])) by {
            let id = game_app_id(games[j]);
            if j < pre.len() {
                assert(games[j] == pre[j]);
                let i = choose|i: int| 0 <= i < p.shortcuts.len() && (#[trigger] p.shortcuts[i]).app_id == id;
                assert(q.shortcuts[i] == p.shortcuts[i]);
            } else if is_known(existing, id) {
                let i = choose|i: int| 0 <= i < existing.len() && (#[trigger] existing[i]).app_id == id;
                assert(p.shortcuts.take(existing.len() as int)[i] == existing[i]);
                assert(q.shortcuts[i] == p.shortcuts[i]);
            } else {
                assert(q.shortcuts[p.shortcuts.len() as int].app_id == id);
            }
        }
    }
}

proof fn lemma_plan_over_known_games(known: Seq<ShortcutModel>, games: Seq<DetectedGame>)
    requires
        forall|j: int| 0 <= j < games.len() ==> is_known(known, game_app_id(#[trigger] games[j])),
    ensures
        plan_spec(known, games) == (PlanModel { shortcuts: known, added: 0, skipped: games.len(), new_games: seq![] }),
    decreases games.len(),
{
    if games.len() > 0 {
        let pre = games.drop_last();
        assert forall|j: int| 0 <= j < pre.len() implies is_known(known, game_app_id(#[trigger] pre[j])) by {
            assert(pre[j] == games[j]);
        }
        lemma_plan_over_known_games(known, pre);
        assert(is_known(known, game_app_id(games[games.len() - 1])));
    }
}

/// Auto-add law: an automatic add is idempotent. Run again over the same
/// detected games, it finds every one of them already present: it adds
/// nothing and leaves the shortcuts as the first run left them.
pub proof fn lemma_auto_add_idempotent(existing: Seq<ShortcutModel>, games: Seq<DetectedGame>)
    ensures
        plan_spec(plan_spec(existing, games).shortcuts, games) == (PlanModel {
            shortcuts: plan_spec(existing, games).shortcuts,
            added: 0,
            skipped: games.len(),
            new_games: seq![],
        }),
{
    lemma_plan_knows_every_game(existing, games);
    lemma_plan_over_known_games(plan_spec(existing, games).shortcuts, games);
}

/// Is artwork fetched for the games just added: when the settings ask for
/// it, an API key is set and some game was added.
pub fn wants_artwork(config: &SteamGridDbConfig, added: usize) -> (b: bool)
    ensures
        b == (config.auto_artwork && config.api_key@.len() > 0 && added > 0),
{
    config.auto_artwork && chars_of(config.api_key.as_str()).len() > 0 && added > 0
}

/// The one-line summary shown after an automatic add.
pub open spec fn format_result_spec(added: nat, skipped: nat) -> Seq<char> {
    decimal(added) + " game(s) added, "@ + decimal(skipped) + " already present. "@ + if added > 0 {
        "Restart Steam to apply changes."@
    } else {
        ""@
    }
}

/// The one-line summary shown after an automatic add.
pub fn format_result(result: &AutoAddResult) -> (s: String)
    ensures
        s@ == format_result_spec(result.added as nat, result.skipped as nat),
{
    let a = concat_chars(&decimal_chars(result.added as u64), &chars_of(" game(s) added, "));
    let b = concat_chars(&a, &decimal_chars(result.skipped as u64));
    let c = concat_chars(&b, &chars_of(" already present. "));
    let tail = if result.added > 0 {
        chars_of("Restart Steam to apply changes.")
    } else {
        chars_of("")
    };
    string_of(&concat_chars(&c, &tail))
}

} // verus!
