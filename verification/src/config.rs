//! The application's settings and their defaults. Reading and writing the
//! TOML file is done by the caller.

use vstd::prelude::*;

verus! {

/// Steam-related settings.
pub struct SteamConfig {
    /// Overrides the detected Steam user; empty means detect.
    pub user_id: String,
}

/// Settings of the game scanner.
pub struct ScannerConfig {
    /// Directories holding one folder per game.
    pub scan_dirs: Vec<String>,
    /// Folder-name fragments to skip while scanning.
    pub blocklist: Vec<String>,
}

/// SteamGridDB settings.
pub struct SteamGridDbConfig {
    pub api_key: String,
    /// Fetch artwork automatically when games are added.
    pub auto_artwork: bool,
    /// Images per page (10 to 50).
    pub page_size: u8,
    pub show_nsfw: bool,
    pub show_humor: bool,
    pub show_epilepsy: bool,
}

/// All settings.
pub struct AppConfig {
    pub steam: SteamConfig,
    pub scanner: ScannerConfig,
    pub steamgriddb: SteamGridDbConfig,
    /// Set after the shortcuts were written, so that views reload them.
    pub shortcuts_changed: bool,
}

/// The folder names skipped by default.
pub open spec fn default_blocklist() -> Seq<Seq<char>> {
    seq!["Redist"@, "DirectX"@, "vcredist"@, "_CommonRedist"@]
}

impl Default for SteamConfig {
    fn default() -> (r: Self)
        ensures
            r.user_id@ == Seq::<char>::empty(),
    {
        SteamConfig { user_id: String::new() }
    }
}

impl Default for ScannerConfig {
    fn default() -> (r: Self)
        ensures
            r.scan_dirs@.len() == 0,
            r.blocklist.deep_view() == default_blocklist(),
    {
        let mut blocklist: Vec<String> = Vec::new();
        blocklist.push(String::from_str("Redist"));
        blocklist.push(String::from_str("DirectX"));
        blocklist.push(String::from_str("vcredist"));
        blocklist.push(String::from_str("_CommonRedist"));
        assert(blocklist.deep_view() =~= default_blocklist());
        ScannerConfig { scan_dirs: Vec::new(), blocklist }
    }
}

/// Whether artwork is applied automatically when no setting says otherwise.
pub fn default_auto_artwork() -> (b: bool)
    ensures
        b,
{
    true
}

/// Images per page when no setting says otherwise.
pub fn default_page_size() -> (n: u8)
    ensures
        n == 25,
{
    25
}

impl Default for SteamGridDbConfig {
    fn default() -> (r: Self)
        ensures
            r.api_key@ == Seq::<char>::empty(),
            r.auto_artwork,
            r.page_size == 25,
            !r.show_nsfw,
            !r.show_humor,
            !r.show_epilepsy,
    {
        SteamGridDbConfig {
            api_key: String::new(),
            auto_artwork: default_auto_artwork(),
            page_size: default_page_size(),
            show_nsfw: false,
            show_humor: false,
            show_epilepsy: false,
        }
    }
}

impl Default for AppConfig {
    fn default() -> (r: Self)
        ensures
            r.steam.user_id@ == Seq::<char>::empty(),
            r.scanner.scan_dirs@.len() == 0,
            r.scanner.blocklist.deep_view() == default_blocklist(),
            r.steamgriddb.api_key@ == Seq::<char>::empty(),
            r.steamgriddb.auto_artwork,
            r.steamgriddb.page_size == 25,
            !r.steamgriddb.show_nsfw,
            !r.steamgriddb.show_humor,
            !r.steamgriddb.show_epilepsy,
            !r.shortcuts_changed,
    {
        AppConfig {
            steam: SteamConfig::default(),
            scanner: ScannerConfig::default(),
            steamgriddb: SteamGridDbConfig::default(),
            shortcuts_changed: false,
        }
    }
}

} // verus!
