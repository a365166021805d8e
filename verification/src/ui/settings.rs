//! The settings form: an editable copy of the settings that is filled from
//! them and written back on save.

use vstd::prelude::*;
use crate::config::AppConfig;
use crate::scanner::detector::clone_strings;
use crate::text::chars_of;

verus! {

/// The state of the settings form.
pub struct SettingsView {
    /// Has the form been filled from the settings yet?
    pub initialized: bool,
    pub steam_user_id: String,
    pub scan_dirs: Vec<String>,
    pub blocklist: Vec<String>,
    pub api_key: String,
    pub auto_artwork: bool,
    pub page_size: u8,
    pub show_nsfw: bool,
    pub show_humor: bool,
    pub show_epilepsy: bool,
    /// Text of the "add scan directory" field.
    pub new_scan_dir: String,
    /// Text of the "add blocklist entry" field.
    pub new_blocklist: String,
}

/// Does the form show exactly the given settings?
pub open spec fn shows(v: SettingsView, c: AppConfig) -> bool {
    &&& v.steam_user_id@ == c.steam.user_id@
    &&& v.scan_dirs.deep_view() == c.scanner.scan_dirs.deep_view()
    &&& v.blocklist.deep_view() == c.scanner.blocklist.deep_view()
    &&& v.api_key@ == c.steamgriddb.api_key@
    &&& v.auto_artwork == c.steamgriddb.auto_artwork
    &&& v.page_size == c.steamgriddb.page_size
    &&& v.show_nsfw == c.steamgriddb.show_nsfw
    &&& v.show_humor == c.steamgriddb.show_humor
    &&& v.show_epilepsy == c.steamgriddb.show_epilepsy
}

impl SettingsView {
    /// A form not yet filled: empty fields, artwork applied automatically
    /// and 25 images per page.
    pub fn new() -> (v: Self)
        ensures
            !v.initialized,
            v.steam_user_id@ == Seq::<char>::empty(),
            v.scan_dirs@.len() == 0,
            v.blocklist@.len() == 0,
            v.api_key@ == Seq::<char>::empty(),
            v.auto_artwork,
            v.page_size == 25,
            !v.show_nsfw,
            !v.show_humor,
            !v.show_epilepsy,
            v.new_scan_dir@ == Seq::<char>::empty(),
            v.new_blocklist@ == Seq::<char>::empty(),
    {
        SettingsView {
            initialized: false,
            steam_user_id: String::new(),
            scan_dirs: Vec::new(),
            blocklist: Vec::new(),
            api_key: String::new(),
            auto_artwork: true,
            page_size: 25,
            show_nsfw: false,
            show_humor: false,
            show_epilepsy: false,
            new_scan_dir: String::new(),
            new_blocklist: String::new(),
        }
    }

    /// Fills the form from the settings.
    pub fn sync_from(&mut self, config: &AppConfig)
        ensures
            shows(*final(self), *config),
            final(self).initialized == old(self).initialized,
            final(self).new_scan_dir@ == old(self).new_scan_dir@,
            final(self).new_blocklist@ == old(self).new_blocklist@,
    {
        self.steam_user_id = config.steam.user_id.clone();
        self.scan_dirs = clone_strings(&config.scanner.scan_dirs);
        self.blocklist = clone_strings(&config.scanner.blocklist);
        self.api_key = config.steamgriddb.api_key.clone();
        self.auto_artwork = config.steamgriddb.auto_artwork;
        self.page_size = config.steamgriddb.page_size;
        self.show_nsfw = config.steamgriddb.show_nsfw;
        self.show_humor = config.steamgriddb.show_humor;
        self.show_epilepsy = config.steamgriddb.show_epilepsy;
    }

    /// Writes the form back into the settings; what the form does not show
    /// is left as it was.
    pub fn apply_to(&self, config: &mut AppConfig)
        ensures
            shows(*self, *final(config)),
            final(config).shortcuts_changed == old(config).shortcuts_changed,
    {
        config.steam.user_id = self.steam_user_id.clone();
        config.scanner.scan_dirs = clone_strings(&self.scan_dirs);
        config.scanner.blocklist = clone_strings(&self.blocklist);
        config.steamgriddb.api_key = self.api_key.clone();
        config.steamgriddb.auto_artwork = self.auto_artwork;
        config.steamgriddb.page_size = self.page_size;
        config.steamgriddb.show_nsfw = self.show_nsfw;
        config.steamgriddb.show_humor = self.show_humor;
        config.steamgriddb.show_epilepsy = self.show_epilepsy;
    }
}


/// The "add" button of a list in the form: a non-empty text field is moved
/// to the end of the list and the field is emptied; an empty field adds
/// nothing.
pub fn add_entry(list: &mut Vec<String>, field: &mut String)
    ensures
        old(field)@.len() == 0 ==> final(list).deep_view() == old(list).deep_view() && final(field)@ == old(field)@,
        old(field)@.len() > 0 ==> final(list).deep_view() == old(list).deep_view().push(old(field)@)
            && final(field)@ == Seq::<char>::empty(),
{
    if chars_of(field.as_str()).len() > 0 {
        let entry = field.clone();
        *field = String::new();
        let ghost before = list.deep_view();
        list.push(entry);
        assert(list.deep_view() =~= before.push(old(field)@));
    }
}

/// Settings law: filling the form from the settings and saving it back
/// leaves every setting the form shows as it was.
pub proof fn lemma_form_round_trip(form: SettingsView, before: AppConfig, after: AppConfig)
    requires
        shows(form, before),
        shows(form, after),
    ensures
        after.steam.user_id@ == before.steam.user_id@,
        after.scanner.scan_dirs.deep_view() == before.scanner.scan_dirs.deep_view(),
        after.scanner.blocklist.deep_view() == before.scanner.blocklist.deep_view(),
        after.steamgriddb.api_key@ == before.steamgriddb.api_key@,
        after.steamgriddb.auto_artwork == before.steamgriddb.auto_artwork,
        after.steamgriddb.page_size == before.steamgriddb.page_size,
        after.steamgriddb.show_nsfw == before.steamgriddb.show_nsfw,
        after.steamgriddb.show_humor == before.steamgriddb.show_humor,
        after.steamgriddb.show_epilepsy == before.steamgriddb.show_epilepsy,
{
}

} // verus!
