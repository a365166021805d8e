use std::collections::HashSet;

use vaporforge::autoadd::{format_result, plan_auto_add, wants_artwork, AutoAddResult};
use vaporforge::config::SteamGridDbConfig;
use vaporforge::scanner::detector::DetectedGame;
use vaporforge::steam::appid::calculate_app_id;
use vaporforge::steam::shortcuts::{new_shortcut, parse_shortcuts, shortcuts_to_bytes};

const SCAN_ROOT: &str = "/tmp/autoadd/games";

fn game(name: &str) -> DetectedGame {
    DetectedGame {
        name: name.to_string(),
        exe_path: format!("{}/{}/{}.exe", SCAN_ROOT, name, name),
        install_dir: format!("{}/{}", SCAN_ROOT, name),
    }
}

#[test]
fn adds_new_games_to_empty_shortcuts() {
    let exe1 = format!("\"{}/Celeste/Celeste.exe\"", SCAN_ROOT);
    let exe2 = format!("\"{}/Hades/Hades.exe\"", SCAN_ROOT);
    let id1 = calculate_app_id(&exe1, "Celeste");
    let id2 = calculate_app_id(&exe2, "Hades");

    let plan = plan_auto_add(vec![], &vec![game("Celeste"), game("Hades")]);
    let bytes = shortcuts_to_bytes(&plan.shortcuts);
    let reloaded = parse_shortcuts(&bytes).unwrap();
    assert_eq!(reloaded.len(), 2);
    let ids: HashSet<u32> = reloaded.iter().map(|s| s.app_id).collect();
    assert!(ids.contains(&id1));
    assert!(ids.contains(&id2));
}

#[test]
fn skips_already_present_games() {
    let exe = format!("\"{}/Celeste/Celeste.exe\"", SCAN_ROOT);
    let app_id = calculate_app_id(&exe, "Celeste");

    let known: HashSet<u32> = [app_id].into();
    assert!(known.contains(&calculate_app_id(&exe, "Celeste")));

    let existing = new_shortcut("0".to_string(), app_id, "Celeste".to_string(), exe.clone(), String::new(), String::new());
    let plan = plan_auto_add(vec![existing], &vec![game("Celeste")]);
    assert_eq!((plan.added, plan.skipped), (0, 1));
    assert_eq!(plan.shortcuts.len(), 1);
}

#[test]
fn plan_appends_numbered_shortcuts_with_quoted_paths() {
    let keep = new_shortcut("0".to_string(), 1, "Old".to_string(), "\"x\"".to_string(), String::new(), String::new());
    let plan = plan_auto_add(vec![keep], &vec![game("Hades"), game("Hades"), game("Celeste")]);
    assert_eq!((plan.added, plan.skipped), (3, 0));
    assert_eq!(plan.shortcuts.len(), 4);
    assert_eq!(plan.shortcuts[0].app_name, "Old");
    assert_eq!(plan.shortcuts[1].order, "1");
    assert_eq!(plan.shortcuts[3].order, "3");
    assert_eq!(plan.shortcuts[3].exe, format!("\"{}/Celeste/Celeste.exe\"", SCAN_ROOT));
    assert_eq!(plan.shortcuts[3].start_dir, format!("\"{}/Celeste\"", SCAN_ROOT));
    assert!(plan.shortcuts[3].allow_desktop_config && plan.shortcuts[3].allow_overlay);
    assert_eq!(plan.new_games.len(), 3);
    assert_eq!(plan.new_games[2].0, "Celeste");
    assert_eq!(plan.new_games[2].1, plan.shortcuts[3].app_id);
}

#[test]
fn result_summary() {
    let r = AutoAddResult { added: 2, skipped: 5, artwork_applied: 0, artwork_failed: 0 };
    assert_eq!(format_result(&r), "2 game(s) added, 5 already present. Restart Steam to apply changes.");
    let r = AutoAddResult { added: 0, skipped: 3, artwork_applied: 1, artwork_failed: 1 };
    assert_eq!(format_result(&r), "0 game(s) added, 3 already present. ");
}

#[test]
fn second_auto_add_adds_nothing() {
    let keep = new_shortcut("0".to_string(), 1, "Old".to_string(), "\"x\"".to_string(), String::new(), String::new());
    let games = vec![game("Hades"), game("Celeste")];
    let first = plan_auto_add(vec![keep], &games);
    assert_eq!(first.added, 2);
    let names: Vec<String> = first.shortcuts.iter().map(|s| s.app_name.clone()).collect();
    let second = plan_auto_add(first.shortcuts, &games);
    assert_eq!((second.added, second.skipped), (0, 2));
    assert!(second.new_games.is_empty());
    let again: Vec<String> = second.shortcuts.iter().map(|s| s.app_name.clone()).collect();
    assert_eq!(names, again);
}

#[test]
fn artwork_only_with_setting_key_and_new_games() {
    let mut c = SteamGridDbConfig::default();
    assert!(!wants_artwork(&c, 2));
    c.api_key = "key".to_string();
    assert!(wants_artwork(&c, 2));
    assert!(!wants_artwork(&c, 0));
    c.auto_artwork = false;
    assert!(!wants_artwork(&c, 2));
}
