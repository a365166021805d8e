use vaporforge::scanner::detector::{game_root_for, has_exe_extension, is_blocked, scan_dirs, ScanEntry, ScanRoot};

const ROOT: &str = "/tmp/scan";

fn root() -> ScanRoot {
    ScanRoot { components: vec!["/".to_string(), "tmp".to_string(), "scan".to_string()], name: "scan".to_string() }
}

/// An entry as the walk reports it for `rel` below the root.
fn entry(rel: &[&str], size: u64) -> ScanEntry {
    ScanEntry {
        root: 0,
        rel: rel.iter().map(|s| s.to_string()).collect(),
        path: format!("{}/{}", ROOT, rel.join("/")),
        game_dir: format!("{}/{}", ROOT, rel[0]),
        size,
    }
}

fn file_name(path: &str) -> &str {
    path.rsplit('/').next().unwrap()
}

#[test]
fn detects_largest_exe_per_game_folder() {
    let entries = vec![
        entry(&["Celeste"], 4096),
        entry(&["Celeste", "CelesteRunner.exe"], 1_000),
        entry(&["Celeste", "Celeste.exe"], 50_000),
        entry(&["Hades"], 4096),
        entry(&["Hades", "Hades.exe"], 30_000),
    ];
    let games = scan_dirs(&vec![root()], &entries, &vec![]);
    assert_eq!(games.len(), 2);

    let celeste = games.iter().find(|g| g.name == "Celeste").unwrap();
    assert_eq!(file_name(&celeste.exe_path), "Celeste.exe");
    assert_eq!(celeste.install_dir, format!("{}/Celeste", ROOT));

    let hades = games.iter().find(|g| g.name == "Hades").unwrap();
    assert_eq!(file_name(&hades.exe_path), "Hades.exe");
}

#[test]
fn nested_exe_maps_to_game_root() {
    let entries = vec![
        entry(&["DeepGame"], 4096),
        entry(&["DeepGame", "bin"], 4096),
        entry(&["DeepGame", "bin", "DeepGame.exe"], 40_000),
    ];
    let games = scan_dirs(&vec![root()], &entries, &vec![]);
    assert_eq!(games.len(), 1);
    assert_eq!(games[0].name, "DeepGame");
    assert_eq!(games[0].install_dir, format!("{}/DeepGame", ROOT));
    assert_eq!(file_name(&games[0].exe_path), "DeepGame.exe");
}

#[test]
fn exe_directly_in_scan_root_is_skipped() {
    let entries = vec![
        entry(&["stray.exe"], 10_000),
        entry(&["ProperGame"], 4096),
        entry(&["ProperGame", "ProperGame.exe"], 20_000),
    ];
    let games = scan_dirs(&vec![root()], &entries, &vec![]);
    assert_eq!(games.len(), 1);
    assert_eq!(games[0].name, "ProperGame");
}

#[test]
fn blocklist_skips_folder() {
    let entries = vec![
        entry(&["MyGame"], 4096),
        entry(&["MyGame", "MyGame.exe"], 10_000),
        entry(&["MyGame", "Redist"], 4096),
        entry(&["MyGame", "Redist", "vc_redist.exe"], 5_000),
    ];
    let games = scan_dirs(&vec![root()], &entries, &vec!["Redist".to_string()]);
    assert_eq!(games.len(), 1);
    assert_eq!(games[0].name, "MyGame");
}

#[test]
fn empty_roots_returns_empty() {
    assert!(scan_dirs(&vec![], &vec![], &vec![]).is_empty());
}

#[test]
fn blocked_exe_larger_than_game_exe_is_ignored() {
    let entries = vec![
        entry(&["MyGame", "MyGame.exe"], 10_000),
        entry(&["MyGame", "Redist", "vc_redist.exe"], 90_000),
    ];
    let games = scan_dirs(&vec![root()], &entries, &vec!["redist".to_string()]);
    assert_eq!(games.len(), 1);
    assert_eq!(file_name(&games[0].exe_path), "MyGame.exe");
}

#[test]
fn equal_sizes_keep_first_and_zero_sizes_keep_first() {
    let entries = vec![
        entry(&["G", "a.exe"], 0),
        entry(&["G", "b.exe"], 0),
        entry(&["H", "c.exe"], 7),
        entry(&["H", "d.EXE"], 7),
    ];
    let games = scan_dirs(&vec![root()], &entries, &vec![]);
    assert_eq!(games.len(), 2);
    assert_eq!(file_name(&games[0].exe_path), "a.exe");
    assert_eq!(file_name(&games[1].exe_path), "c.exe");
}

#[test]
fn same_folder_under_a_repeated_root_is_one_game() {
    let mut second = entry(&["G", "big.exe"], 99);
    second.root = 1;
    let entries = vec![entry(&["G", "small.exe"], 1), second];
    let games = scan_dirs(&vec![root(), root()], &entries, &vec![]);
    assert_eq!(games.len(), 1);
    assert_eq!(file_name(&games[0].exe_path), "big.exe");
}

#[test]
fn blocked_root_yields_nothing() {
    let r = ScanRoot { components: vec!["/".to_string(), "Redist".to_string()], name: "Redist".to_string() };
    let entries = vec![entry(&["G", "g.exe"], 5)];
    assert!(scan_dirs(&vec![r], &entries, &vec!["redist".to_string()]).is_empty());
}

#[test]
fn exe_extension_rules() {
    assert!(has_exe_extension("Game.exe"));
    assert!(has_exe_extension("GAME.ExE"));
    assert!(!has_exe_extension(".exe"));
    assert!(!has_exe_extension("game.exe.bak"));
    assert!(!has_exe_extension("exe"));
    assert!(!has_exe_extension("game.exee"));
}

#[test]
fn blocking_is_case_insensitive_substring() {
    let bl = vec!["Redist".to_string(), "DirectX".to_string()];
    assert!(is_blocked("_CommonREDIST", &bl));
    assert!(is_blocked("directx9", &bl));
    assert!(!is_blocked("Hades", &bl));
    assert!(!is_blocked("Hades", &vec![]));
}

fn parts(p: &[&str]) -> Vec<String> {
    p.iter().map(|s| s.to_string()).collect()
}

#[test]
fn game_root_is_first_folder_below_root() {
    let root = parts(&["/", "games"]);
    assert_eq!(
        game_root_for(&parts(&["/", "games", "Hades", "bin", "Hades.exe"]), &root),
        Some(parts(&["/", "games", "Hades"]))
    );
    assert_eq!(game_root_for(&parts(&["/", "games", "Hades", "Hades.exe"]), &root), Some(parts(&["/", "games", "Hades"])));
    // directly in the root: no game folder
    assert_eq!(game_root_for(&parts(&["/", "games", "setup.exe"]), &root), None);
    // not under the root
    assert_eq!(game_root_for(&parts(&["/", "other", "Hades", "Hades.exe"]), &root), None);
    assert_eq!(game_root_for(&parts(&["/"]), &root), None);
}
