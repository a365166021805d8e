//! Steam's non-Steam shortcuts and the `shortcuts.vdf` format they are
//! stored in. Encoding and decoding the binary format is the work of the
//! `steam_shortcuts_util` crate.

use vstd::prelude::*;
use crate::text::{chars_of, concat_chars, decimal, string_of};
use steam_shortcuts_util::shortcut::Shortcut as VdfShortcut;

verus! {

/// `s` in double quotes, the form Steam stores paths in.
pub open spec fn quoted(s: Seq<char>) -> Seq<char> {
    seq!['"'] + s + seq!['"']
}

/// Puts a path in Steam's quoted form.
pub fn add_quotes(s: &str) -> (r: String)
    ensures
        r@ == quoted(s@),
{
    let q = vec!['"'];
    let body = concat_chars(&q, &chars_of(s));
    string_of(&concat_chars(&body, &q))
}

/// A non-Steam shortcut as `shortcuts.vdf` stores it.
#[derive(Debug, Clone)]
pub struct Shortcut {
    /// Order/index of the shortcut, in decimal.
    pub order: String,
    /// The shortcut's AppID.
    pub app_id: u32,
    /// The name shown in the library.
    pub app_name: String,
    /// The target, in Steam's quoted form.
    pub exe: String,
    /// The working directory, in Steam's quoted form.
    pub start_dir: String,
    /// Path to the icon.
    pub icon: String,
    /// Path to the shortcut.
    pub shortcut_path: String,
    /// Options passed to the target.
    pub launch_options: String,
    pub is_hidden: bool,
    pub allow_desktop_config: bool,
    pub allow_overlay: bool,
    pub open_vr: u32,
    pub dev_kit: u32,
    pub dev_kit_game_id: String,
    pub dev_kit_overrite_app_id: u32,
    pub last_play_time: u32,
    pub tags: Vec<String>,
}

/// A shortcut as plain values.
pub struct ShortcutModel {
    pub order: Seq<char>,
    pub app_id: u32,
    pub app_name: Seq<char>,
    pub exe: Seq<char>,
    pub start_dir: Seq<char>,
    pub icon: Seq<char>,
    pub shortcut_path: Seq<char>,
    pub launch_options: Seq<char>,
    pub is_hidden: bool,
    pub allow_desktop_config: bool,
    pub allow_overlay: bool,
    pub open_vr: u32,
    pub dev_kit: u32,
    pub dev_kit_game_id: Seq<char>,
    pub dev_kit_overrite_app_id: u32,
    pub last_play_time: u32,
    pub tags: Seq<Seq<char>>,
}

impl View for Shortcut {
    type V = ShortcutModel;

    open spec fn view(&self) -> ShortcutModel {
        ShortcutModel {
            order: self.order@,
            app_id: self.app_id,
            app_name: self.app_name@,
            exe: self.exe@,
            start_dir: self.start_dir@,
            icon: self.icon@,
            shortcut_path: self.shortcut_path@,
            launch_options: self.launch_options@,
            is_hidden: self.is_hidden,
            allow_desktop_config: self.allow_desktop_config,
            allow_overlay: self.allow_overlay,
            open_vr: self.open_vr,
            dev_kit: self.dev_kit,
            dev_kit_game_id: self.dev_kit_game_id@,
            dev_kit_overrite_app_id: self.dev_kit_overrite_app_id,
            last_play_time: self.last_play_time,
            tags: self.tags.deep_view(),
        }
    }
}

/// Is every shortcut numbered by its position (`order` is its index in
/// decimal), as Steam lists them?
pub open spec fn numbered(shortcuts: Seq<ShortcutModel>) -> bool {
    forall|i: int| 0 <= i < shortcuts.len() ==> (#[trigger] shortcuts[i]).order == decimal(i as nat)
}

/// The plain values of a list of shortcuts.
pub open spec fn models(v: Seq<Shortcut>) -> Seq<ShortcutModel> {
    v.map_values(|s: Shortcut| s@)
}

/// A shortcut as this library creates it: visible, with desktop
/// configuration and the overlay allowed, no icon, no tags and zero for the
/// remaining numbers.
pub open spec fn new_shortcut_spec(
    order: Seq<char>,
    app_id: u32,
    app_name: Seq<char>,
    exe: Seq<char>,
    start_dir: Seq<char>,
    launch_options: Seq<char>,
) -> ShortcutModel {
    ShortcutModel {
        order,
        app_id,
        app_name,
        exe,
        start_dir,
        icon: seq![],
        shortcut_path: seq![],
        launch_options,
        is_hidden: false,
        allow_desktop_config: true,
        allow_overlay: true,
        open_vr: 0,
        dev_kit: 0,
        dev_kit_game_id: seq![],
        dev_kit_overrite_app_id: 0,
        last_play_time: 0,
        tags: seq![],
    }
}

/// Creates a shortcut with this library's defaults.
pub fn new_shortcut(
    order: String,
    app_id: u32,
    app_name: String,
    exe: String,
    start_dir: String,
    launch_options: String,
) -> (s: Shortcut)
    ensures
        s@ == new_shortcut_spec(order@, app_id, app_name@, exe@, start_dir@, launch_options@),
{
    let s = Shortcut {
        order,
        app_id,
        app_name,
        exe,
        start_dir,
        icon: String::new(),
        shortcut_path: String::new(),
        launch_options,
        is_hidden: false,
        allow_desktop_config: true,
        allow_overlay: true,
        open_vr: 0,
        dev_kit: 0,
        dev_kit_game_id: String::new(),
        dev_kit_overrite_app_id: 0,
        last_play_time: 0,
        tags: Vec::new(),
    };
    assert(s.tags.deep_view() =~= Seq::<Seq<char>>::empty());
    s
}

/// The bytes of `shortcuts.vdf` holding the given shortcuts; what
/// `steam_shortcuts_util::shortcuts_to_bytes` writes.
pub uninterp spec fn vdf_encode(shortcuts: Seq<ShortcutModel>) -> Seq<u8>;

/// What `steam_shortcuts_util::parse_shortcuts` makes of the bytes of a
/// `shortcuts.vdf`: the shortcuts, or the crate's error message.
pub uninterp spec fn vdf_decode(bytes: Seq<u8>) -> Result<Seq<ShortcutModel>, Seq<char>>;

/// `steam_shortcuts_util::parse_shortcuts`, with each parsed shortcut made
/// owned and taken over field by field. The result is named `vdf_decode`;
/// nothing else about the format is claimed.
#[verifier::external_body]
fn decode_vdf(bytes: &[u8]) -> (r: Result<Vec<Shortcut>, String>)
    ensures
        r matches Ok(v) ==> (vdf_decode(bytes@) matches Ok(m) && m == models(v@)),
        r matches Err(e) ==> (vdf_decode(bytes@) matches Err(m) && m == e@),
{
    let parsed = steam_shortcuts_util::parse_shortcuts(bytes)?;
    Ok(parsed.iter().map(|s| s.to_owned()).map(|o| Shortcut { order: o.order, app_id: o.app_id,
        app_name: o.app_name, exe: o.exe, start_dir: o.start_dir, icon: o.icon,
        shortcut_path: o.shortcut_path, launch_options: o.launch_options, is_hidden: o.is_hidden,
        allow_desktop_config: o.allow_desktop_config, allow_overlay: o.allow_overlay,
        open_vr: o.open_vr, dev_kit: o.dev_kit, dev_kit_game_id: o.dev_kit_game_id,
        dev_kit_overrite_app_id: o.dev_kit_overrite_app_id, last_play_time: o.last_play_time,
        tags: o.tags }).collect())
}

/// `steam_shortcuts_util::shortcuts_to_bytes`, given the shortcuts field by
/// field (borrowed). The result is named `vdf_encode`; nothing else about the format is
/// claimed.
#[verifier::external_body]
fn encode_vdf(shortcuts: &Vec<Shortcut>) -> (bytes: Vec<u8>)
    ensures
        bytes@ == vdf_encode(models(shortcuts@)),
{
    let borrowed: Vec<VdfShortcut> = shortcuts.iter().map(|s| VdfShortcut { order: &s.order,
        app_id: s.app_id, app_name: &s.app_name, exe: &s.exe, start_dir: &s.start_dir, icon: &s.icon,
        shortcut_path: &s.shortcut_path, launch_options: &s.launch_options, is_hidden: s.is_hidden,
        allow_desktop_config: s.allow_desktop_config, allow_overlay: s.allow_overlay,
        open_vr: s.open_vr, dev_kit: s.dev_kit, dev_kit_game_id: &s.dev_kit_game_id,
        dev_kit_overrite_app_id: s.dev_kit_overrite_app_id, last_play_time: s.last_play_time,
        tags: s.tags.iter().map(|t| t.as_str()).collect() }).collect();
    steam_shortcuts_util::shortcuts_to_bytes(&borrowed)
}

/// Why a `shortcuts.vdf` could not be read.
#[derive(Debug, Clone)]
pub enum ShortcutsError {
    /// The bytes are not a valid `shortcuts.vdf`; the parser's message.
    Parse(String),
}

/// Reads the shortcuts held in the bytes of a `shortcuts.vdf`.
pub fn parse_shortcuts(bytes: &Vec<u8>) -> (r: Result<Vec<Shortcut>, ShortcutsError>)
    ensures
        r matches Ok(v) ==> (vdf_decode(bytes@) matches Ok(m) && m == models(v@)),
        r matches Err(ShortcutsError::Parse(e)) ==> (vdf_decode(bytes@) matches Err(m) && m == e@),
{
    match decode_vdf(bytes.as_slice()) {
        Ok(v) => Ok(v),
        Err(e) => Err(ShortcutsError::Parse(e)),
    }
}

/// The bytes of a `shortcuts.vdf` holding `shortcuts`.
pub fn shortcuts_to_bytes(shortcuts: &Vec<Shortcut>) -> (bytes: Vec<u8>)
    ensures
        bytes@ == vdf_encode(models(shortcuts@)),
{
    encode_vdf(shortcuts)
}

} // verus!
