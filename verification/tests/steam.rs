use vaporforge::steam::appid::calculate_app_id;
use vaporforge::steam::library::{installed_games, is_game, InstalledApp};
use vaporforge::steam::paths::{
    auto_add_user, chosen_user, grid_dir, shortcuts_path, user_ids_from, UserChoiceError, UserDirEntry,
};
use vaporforge::steam::shortcuts::{new_shortcut, parse_shortcuts, shortcuts_to_bytes, ShortcutsError};

#[test]
fn matches_known_value() {
    let exe = r#""C:\Games\Celeste\Celeste.exe""#;
    let name = "Celeste";
    let id = calculate_app_id(exe, name);
    // Must have the high bit set (Steam's non-Steam game marker)
    assert!(id & 0x80000000 != 0);
    // Stable: same inputs must always give the same id
    assert_eq!(id, calculate_app_id(exe, name));
}

#[test]
fn different_inputs_give_different_ids() {
    let a = calculate_app_id(r#""C:\Games\GameA\a.exe""#, "GameA");
    let b = calculate_app_id(r#""C:\Games\GameB\b.exe""#, "GameB");
    assert_ne!(a, b);
}

#[test]
fn app_id_is_crc_of_concatenation_with_high_bit() {
    // CRC-32 of "123456789" is 0xCBF43926.
    assert_eq!(calculate_app_id("1234", "56789"), 0xCBF43926 | 0x8000_0000);
    assert_eq!(calculate_app_id("", ""), 0x8000_0000);
}

fn dir(parts: &[&str]) -> Vec<String> {
    parts.iter().map(|s| s.to_string()).collect()
}

#[test]
fn user_paths() {
    let steam = dir(&["C:\\", "Program Files (x86)", "Steam"]);
    assert_eq!(
        shortcuts_path(&steam, 12345),
        dir(&["C:\\", "Program Files (x86)", "Steam", "userdata", "12345", "config", "shortcuts.vdf"])
    );
    assert_eq!(grid_dir(&steam, 0), dir(&["C:\\", "Program Files (x86)", "Steam", "userdata", "0", "config", "grid"]));
}

#[test]
fn user_ids_are_numeric_directories() {
    let entries = vec![
        UserDirEntry { name: "123".to_string(), is_dir: true },
        UserDirEntry { name: "anonymous".to_string(), is_dir: true },
        UserDirEntry { name: "456".to_string(), is_dir: false },
        UserDirEntry { name: "+789".to_string(), is_dir: true },
        UserDirEntry { name: "18446744073709551616".to_string(), is_dir: true },
        UserDirEntry { name: "18446744073709551615".to_string(), is_dir: true },
    ];
    assert_eq!(user_ids_from(&entries), vec![123, 789, 18446744073709551615]);
}

#[test]
fn user_choice() {
    assert_eq!(chosen_user("42", &vec![7]), Some(42));
    assert_eq!(chosen_user("", &vec![7, 8]), Some(7));
    assert_eq!(chosen_user("x", &vec![]), None);
    assert_eq!(auto_add_user("", &vec![7]), Ok(7));
    assert_eq!(auto_add_user("", &vec![]), Err(UserChoiceError::NoUsers));
    assert_eq!(auto_add_user("abc", &vec![7]), Err(UserChoiceError::InvalidUserId));
    assert_eq!(auto_add_user("99", &vec![]), Ok(99));
}

#[test]
fn games_filter_and_sort() {
    assert!(is_game(1245620, Some("ELDEN RING")));
    assert!(!is_game(1493710, Some("Proton Experimental")));
    assert!(!is_game(1628350, Some("Steam Linux Runtime 3.0 (sniper)")));
    assert!(!is_game(228980, Some("Steamworks Common Redistributables")));
    assert!(!is_game(1000, Some("Old")));
    assert!(is_game(2000, None));
    let apps = vec![
        InstalledApp { app_id: 5000, name: Some("b".to_string()) },
        InstalledApp { app_id: 5001, name: Some("Proton 8.0".to_string()) },
        InstalledApp { app_id: 5002, name: None },
        InstalledApp { app_id: 5003, name: Some("A".to_string()) },
        InstalledApp { app_id: 5004, name: Some("a".to_string()) },
        InstalledApp { app_id: 5005, name: Some("A".to_string()) },
    ];
    let games: Vec<(u32, String)> = installed_games(&apps).into_iter().map(|g| (g.app_id, g.name)).collect();
    assert_eq!(
        games,
        vec![(5003, "A".to_string()), (5005, "A".to_string()), (5004, "a".to_string()), (5000, "b".to_string())]
    );
}

#[test]
fn shortcuts_roundtrip_through_vdf_bytes() {
    let a = new_shortcut("0".to_string(), 3000000000, "Celeste".to_string(), "\"C:\\Celeste.exe\"".to_string(), "\"C:\\\"".to_string(), String::new());
    let b = new_shortcut("1".to_string(), 2200000002, "Hades".to_string(), "\"C:\\Hades.exe\"".to_string(), "\"C:\\\"".to_string(), "-x".to_string());
    let bytes = shortcuts_to_bytes(&vec![a, b]);
    assert_eq!(&bytes[..11], b"\x00shortcuts\x00");
    let back = parse_shortcuts(&bytes).unwrap();
    assert_eq!(back.len(), 2);
    assert_eq!(back[0].app_name, "Celeste");
    assert_eq!(back[0].app_id, 3000000000);
    assert_eq!(back[1].exe, "\"C:\\Hades.exe\"");
    assert_eq!(back[1].launch_options, "-x");
    assert_eq!(back[1].order, "1");
    assert!(back[1].allow_overlay && !back[1].is_hidden);
}

#[test]
fn empty_shortcut_list_roundtrips() {
    let bytes = shortcuts_to_bytes(&vec![]);
    assert!(parse_shortcuts(&bytes).unwrap().is_empty());
}

#[test]
fn garbage_is_a_parse_error() {
    let r = parse_shortcuts(&b"not a vdf".to_vec());
    assert!(matches!(r, Err(ShortcutsError::Parse(_))));
}
