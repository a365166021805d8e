use vaporforge::config::{default_auto_artwork, default_page_size, AppConfig, ScannerConfig, SteamGridDbConfig};
use vaporforge::griddb::client::ImageKind;
use vaporforge::steam::library::SteamGame;
use vaporforge::steam::shortcuts::new_shortcut;
use vaporforge::ui::artwork_picker::{
    current_sgdb_id, gallery_page, game_list, kind_label, make_opts, needs_fetch, new_thumb_slot, page_after_nav,
    selected_game_name, start_thumb_loads, GalleryNav, thumb_finished, SteamSearchResult, ThumbQueue, ThumbStatus, MAX_ACTIVE_LOADS,
};
use vaporforge::ui::log::{counts_as_error, AppLog, LogLevel, LOG_CAPACITY};
use vaporforge::ui::nonsteam_manager::{
    add_quotes, add_selected, apply_edits, editor_fields, known_dirs, new_scan_results, new_scan_results_from, norm, remove_shortcut,
    scan_results_from, strip_quotes, ScanResult,
};
use vaporforge::ui::settings::{add_entry, SettingsView};
use vaporforge::scanner::detector::DetectedGame;

#[test]
fn default_config_blocklist() {
    let c = AppConfig::default();
    assert!(c.steam.user_id.is_empty());
    assert!(c.scanner.blocklist.contains(&"Redist".to_string()));
    assert!(c.scanner.blocklist.contains(&"DirectX".to_string()));
    assert_eq!(ScannerConfig::default().blocklist.len(), 4);
    let g = SteamGridDbConfig::default();
    assert!(g.auto_artwork && g.page_size == 25 && !g.show_epilepsy);
    assert!(default_auto_artwork());
    assert_eq!(default_page_size(), 25);
}

#[test]
fn log_keeps_last_500() {
    let mut log = AppLog::new();
    assert!(log.last().is_none());
    for i in 0..(LOG_CAPACITY + 20) {
        log.push(format!("m{i}"), i % 2 == 0);
    }
    assert_eq!(log.len(), LOG_CAPACITY);
    let last = log.last().unwrap();
    assert_eq!(last.message, format!("m{}", LOG_CAPACITY + 19));
    assert!(!last.is_error);
}

#[test]
fn settings_form_round_trip() {
    let mut c = AppConfig::default();
    c.steamgriddb.api_key = "k".to_string();
    c.scanner.scan_dirs = vec!["C:\\Games".to_string()];
    let mut v = SettingsView::new();
    assert!(!v.initialized && v.page_size == 25 && v.auto_artwork);
    v.sync_from(&c);
    assert_eq!(v.api_key, "k");
    let mut d = AppConfig::default();
    d.shortcuts_changed = true;
    v.apply_to(&mut d);
    assert_eq!(d.steamgriddb.api_key, "k");
    assert_eq!(d.scanner.scan_dirs, vec!["C:\\Games".to_string()]);
    assert!(d.shortcuts_changed);
}

#[test]
fn quotes_and_norm() {
    assert_eq!(strip_quotes("\"C:\\Games\\x.exe\""), "C:\\Games\\x.exe");
    assert_eq!(strip_quotes("\"\"\"a\"\""), "a");
    assert_eq!(strip_quotes("\"\"\""), "");
    assert_eq!(strip_quotes("a\"b"), "a\"b");
    assert_eq!(add_quotes("C:\\x"), "\"C:\\x\"");
    assert_eq!(norm("C:/Games/Hades"), "c:\\games\\hades");
}

fn sc(order: &str, id: u32, name: &str, dir: &str) -> vaporforge::steam::shortcuts::Shortcut {
    new_shortcut(order.to_string(), id, name.to_string(), format!("\"{dir}\\{name}.exe\""), format!("\"{dir}\""), String::new())
}

#[test]
fn removing_renumbers() {
    let mut list = vec![sc("0", 1, "A", "a"), sc("1", 2, "B", "b"), sc("2", 3, "C", "c")];
    remove_shortcut(&mut list, 0);
    assert_eq!(list.len(), 2);
    assert_eq!((list[0].app_name.as_str(), list[0].order.as_str()), ("B", "0"));
    assert_eq!((list[1].app_name.as_str(), list[1].order.as_str()), ("C", "1"));
}

#[test]
fn editing_a_shortcut() {
    let mut s = sc("0", 1, "A", "C:\\a");
    let (name, exe, opts) = editor_fields(&s);
    assert_eq!((name.as_str(), exe.as_str(), opts.as_str()), ("A", "C:\\a\\A.exe", ""));
    apply_edits(&mut s, "B", "D:\\b.exe", "-w");
    assert_eq!((s.app_name.as_str(), s.exe.as_str(), s.launch_options.as_str()), ("B", "\"D:\\b.exe\"", "-w"));
    assert_eq!(s.app_id, 1);
}

#[test]
fn scan_results_and_adding() {
    let detected = vec![
        DetectedGame { name: "A".to_string(), exe_path: "C:\\g\\A\\a.exe".to_string(), install_dir: "C:\\g\\A".to_string() },
        DetectedGame { name: "B".to_string(), exe_path: "C:\\g\\B\\b.exe".to_string(), install_dir: "C:\\g\\B".to_string() },
    ];
    let results = scan_results_from(&detected, &vec![true, false]);
    assert_eq!(results.len(), 1);
    assert_eq!(results[0].exe, "\"C:\\g\\B\\b.exe\"");
    assert_eq!(results[0].start_dir, "\"C:\\g\\B\"");
    assert!(results[0].ticked);

    // a known directory equal to a game's normalised folder hides that game
    let known = vec![norm("C:\\g\\A")];
    let fresh = new_scan_results(&detected, &known);
    assert_eq!(fresh.len(), 1);
    assert_eq!(fresh[0].name, "B");

    // a game is left out exactly when some known directory lies in its folder
    let known2 = vec!["c:\\x".to_string(), "c:\\g\\b\\bin".to_string()];
    let offered = new_scan_results_from(&detected, &known2, &vec![vec![false, false], vec![false, true]]);
    assert_eq!(offered.len(), 1);
    assert_eq!(offered[0].name, "A");
    assert_eq!(new_scan_results_from(&detected, &known2, &vec![vec![false, false], vec![false, false]]).len(), 2);

    let all = new_scan_results(&detected, &vec![]);
    assert_eq!(all.len(), 2);
    let mut results: Vec<ScanResult> = all;
    results[0].ticked = false;
    let mut list = vec![sc("0", 9, "Old", "x")];
    let added = add_selected(&mut list, &results);
    assert_eq!(list.len(), 2);
    assert_eq!(list[1].order, "1");
    assert_eq!(list[1].app_name, "B");
    assert_eq!(added.len(), 1);
    assert_eq!(added[0].1, "B");
    assert_eq!(known_dirs(&list)[1], "c:\\g\\b");
}

#[test]
fn picker_rules() {
    assert_eq!(kind_label(ImageKind::WideCover), "Wide Cover");
    assert_eq!(kind_label(ImageKind::Background), "Background");
    let mut cfg = SteamGridDbConfig::default();
    cfg.page_size = 40;
    cfg.show_nsfw = true;
    let o = make_opts(&cfg, 3);
    assert_eq!((o.page, o.limit, o.show_nsfw, o.show_humor), (3, 40, true, false));

    let fetch = vec![SteamSearchResult { app_id: 10, name: "Store".to_string() }];
    let shortcuts = vec![sc("0", 5, "Mine", "m")];
    let games = vec![SteamGame { app_id: 5, name: "Installed".to_string() }, SteamGame { app_id: 6, name: "Other".to_string() }];
    assert_eq!(selected_game_name(true, 0, &fetch, None, &shortcuts, &games), "Store");
    assert_eq!(selected_game_name(true, 1, &fetch, None, &shortcuts, &games), "");
    assert_eq!(selected_game_name(false, 0, &fetch, Some(5), &shortcuts, &games), "Mine");
    assert_eq!(selected_game_name(false, 0, &fetch, Some(6), &shortcuts, &games), "Other");
    assert_eq!(selected_game_name(false, 0, &fetch, Some(7), &shortcuts, &games), "");

    assert_eq!(current_sgdb_id(false, None, &vec![4, 8], 1), Some(8));
    assert_eq!(current_sgdb_id(true, Some(3), &vec![4], 0), Some(3));
    assert_eq!(current_sgdb_id(false, Some(3), &vec![], 0), None);
    assert!(needs_fetch(None, ImageKind::Logo, Some(1)));
    assert!(!needs_fetch(None, ImageKind::Logo, None));
    assert!(!needs_fetch(Some((0, ImageKind::Logo)), ImageKind::Logo, Some(1)));
    assert!(needs_fetch(Some((0, ImageKind::Icon)), ImageKind::Logo, None));
    assert_eq!(page_after_nav(2, true, false), Some(3));
    assert_eq!(page_after_nav(0, false, true), Some(0));
    assert_eq!(page_after_nav(2, false, false), None);
}

#[test]
fn gallery_filters_epilepsy() {
    let flags = vec![false, true, false];
    assert_eq!(gallery_page(&flags, false, 2), (vec![0, 2], true));
    assert_eq!(gallery_page(&flags, true, 5), (vec![0, 1, 2], false));
}

#[test]
fn thumbnail_queue() {
    let mut slots = vec![new_thumb_slot(); 8];
    let started = start_thumb_loads(&mut slots, 0);
    assert_eq!(started, vec![0, 1, 2, 3, 4]);
    assert!(start_thumb_loads(&mut slots, MAX_ACTIVE_LOADS).is_empty());
    thumb_finished(&mut slots[0], true);
    assert_eq!(slots[0].status, ThumbStatus::Loaded);
    thumb_finished(&mut slots[1], false);
    assert_eq!(slots[1].status, ThumbStatus::Pending);
    let again = start_thumb_loads(&mut slots, 3);
    assert_eq!(again, vec![1, 5]);
    thumb_finished(&mut slots[1], false);
    slots[1].status = ThumbStatus::Loading;
    thumb_finished(&mut slots[1], false);
    assert_eq!(slots[1].attempts, 3);
    assert_eq!(slots[1].status, ThumbStatus::Failed);
}

#[test]
fn game_list_filters_and_sorts_by_lower_case_name() {
    let shortcuts = vec![sc("0", 10, "zeta Quest", "\"C:\\Z\""), sc("1", 11, "Alpha", "\"C:\\A\"")];
    let games = vec![
        SteamGame { app_id: 5, name: "beta".to_string() },
        SteamGame { app_id: 6, name: "QUEST for Glory".to_string() },
    ];
    let all = game_list(&shortcuts, &games, "");
    let names: Vec<&str> = all.iter().map(|(_, n)| n.as_str()).collect();
    assert_eq!(names, vec!["Alpha", "beta", "QUEST for Glory", "zeta Quest"]);
    assert_eq!(all[0].0, 11);

    let quest = game_list(&shortcuts, &games, "QuEsT");
    let ids: Vec<u32> = quest.iter().map(|(id, _)| *id).collect();
    assert_eq!(ids, vec![6, 10]);

    assert!(game_list(&shortcuts, &games, "nothing").is_empty());
    assert!(game_list(&Vec::new(), &Vec::new(), "").is_empty());
}

#[test]
fn game_list_keeps_equal_names_in_listing_order() {
    let shortcuts = vec![sc("0", 1, "Same", "\"C:\\S\"")];
    let games = vec![SteamGame { app_id: 2, name: "same".to_string() }];
    let ids: Vec<u32> = game_list(&shortcuts, &games, "").iter().map(|(id, _)| *id).collect();
    assert_eq!(ids, vec![1, 2]);
}

#[test]
fn thumb_queue_keeps_five_loads_and_three_attempts() {
    let mut q = ThumbQueue::new(7);
    assert_eq!((q.len(), q.active()), (7, 0));
    let first = q.start();
    assert_eq!(first, vec![0, 1, 2, 3, 4]);
    assert_eq!(q.active(), MAX_ACTIVE_LOADS);
    assert!(q.start().is_empty());
    assert_eq!(q.status(5), Some(ThumbStatus::Pending));
    assert_eq!(q.status(7), None);

    q.finish(0, true);
    assert_eq!(q.status(0), Some(ThumbStatus::Loaded));
    q.finish(1, false);
    assert_eq!(q.status(1), Some(ThumbStatus::Pending));
    assert_eq!(q.active(), 3);
    // tile 1 waits again and comes before tiles 5 and 6
    assert_eq!(q.start(), vec![1, 5]);
    assert_eq!(q.active(), MAX_ACTIVE_LOADS);

    // two more failures of tile 1: it has failed for good
    q.finish(1, false);
    assert_eq!(q.start(), vec![1]);
    q.finish(1, false);
    assert_eq!(q.status(1), Some(ThumbStatus::Failed));
    // a loaded or failed tile is never started again
    q.finish(2, true);
    q.finish(3, true);
    q.finish(4, true);
    q.finish(5, true);
    assert_eq!(q.start(), vec![6]);
    assert!(q.active() <= MAX_ACTIVE_LOADS);
    // a result for a tile that is not loading changes no tile
    q.finish(0, false);
    assert_eq!(q.status(0), Some(ThumbStatus::Loaded));
}

#[test]
fn warnings_and_errors_count_as_errors() {
    assert!(counts_as_error(LogLevel::Error));
    assert!(counts_as_error(LogLevel::Warn));
    assert!(!counts_as_error(LogLevel::Info));
    assert!(!counts_as_error(LogLevel::Debug));
    assert!(!counts_as_error(LogLevel::Trace));
}

#[test]
fn gallery_navigation_steps() {
    let mut nav = GalleryNav::new();
    nav.selected_sgdb_idx = 2;
    assert!(nav.search_done(&vec![]).is_none());
    assert_eq!(nav.selected_sgdb_idx, 0);
    nav.active_kind = ImageKind::Logo;
    let r = nav.search_done(&vec![77, 88]).unwrap();
    assert_eq!((r.sgdb_id, r.kind, r.page), (77, ImageKind::Logo, 0));

    nav.fetch_started(3);
    assert_eq!((nav.fetching_page, nav.current_page, nav.loaded_for), (3, 0, None));
    nav.images_loaded();
    assert_eq!((nav.current_page, nav.loaded_for), (3, Some((0, ImageKind::Logo))));
    nav.clear();
    assert_eq!((nav.current_page, nav.loaded_for, nav.fetching_page), (0, None, 3));

    assert!(nav.id_resolved(Some(5), false).is_none());
    assert_eq!(nav.resolved_sgdb_id, Some(5));
    let r = nav.id_resolved(Some(6), true).unwrap();
    assert_eq!((r.sgdb_id, r.page), (6, 0));
    assert!(nav.id_resolved(None, true).is_none());
    assert_eq!(nav.resolved_sgdb_id, Some(6));
}

#[test]
fn adding_form_entries() {
    let mut list = vec!["Redist".to_string()];
    let mut field = String::new();
    add_entry(&mut list, &mut field);
    assert_eq!(list.len(), 1);
    field.push_str("DirectX");
    add_entry(&mut list, &mut field);
    assert_eq!(list, vec!["Redist".to_string(), "DirectX".to_string()]);
    assert!(field.is_empty());
}
