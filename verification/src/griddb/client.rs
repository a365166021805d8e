//! The artwork kinds Steam shows for a game, and the SteamGridDB image
//! queries made for them.

use vstd::prelude::*;
use vstd::utf8::encode_utf8;
use crate::text::{chars_of, concat_chars, contains_chars, decimal, decimal_chars, is_infix, string_of};

verus! {

/// The artwork kinds Steam displays for non-Steam shortcuts, using Steam's
/// own names.
#[derive(Debug, Clone, Copy, PartialEq, Eq, Structural)]
pub enum ImageKind {
    /// Vertical portrait card in the library grid, stored as `{appid}p.png`.
    Cover,
    /// Horizontal capsule, stored as `{appid}.png`.
    WideCover,
    /// Full-width banner on the detail page, stored as `{appid}_hero.png`.
    Background,
    /// Transparent game-name logo, stored as `{appid}_logo.png`.
    Logo,
    /// Small icon, stored as `{appid}_icon.png`.
    Icon,
}

/// The filename suffix that follows the appid for each kind.
pub open spec fn suffix_of(kind: ImageKind) -> Seq<char> {
    match kind {
        ImageKind::Cover => seq!['p'],
        ImageKind::WideCover => seq![],
        ImageKind::Background => seq!['_', 'h', 'e', 'r', 'o'],
        ImageKind::Logo => seq!['_', 'l', 'o', 'g', 'o'],
        ImageKind::Icon => seq!['_', 'i', 'c', 'o', 'n'],
    }
}

impl ImageKind {
    /// Filename suffix appended after the appid (before the extension).
    pub fn filename_suffix(&self) -> (s: &'static str)
        ensures
            s@ == suffix_of(*self),
    {
        match self {
            ImageKind::Cover => {
                proof {
                    reveal_strlit("p");
                }
                "p"
            },
            ImageKind::WideCover => {
                proof {
                    reveal_strlit("");
                }
                ""
            },
            ImageKind::Background => {
                proof {
                    reveal_strlit("_hero");
                }
                "_hero"
            },
            ImageKind::Logo => {
                proof {
                    reveal_strlit("_logo");
                }
                "_logo"
            },
            ImageKind::Icon => {
                proof {
                    reveal_strlit("_icon");
                }
                "_icon"
            },
        }
    }
}

/// The suffix of a kind as characters.
pub fn suffix_chars(kind: ImageKind) -> (v: Vec<char>)
    ensures
        v@ == suffix_of(kind),
{
    let v = match kind {
        ImageKind::Cover => vec!['p'],
        ImageKind::WideCover => vec![],
        ImageKind::Background => vec!['_', 'h', 'e', 'r', 'o'],
        ImageKind::Logo => vec!['_', 'l', 'o', 'g', 'o'],
        ImageKind::Icon => vec!['_', 'i', 'c', 'o', 'n'],
    };
    assert(v@ == suffix_of(kind));
    v
}


/// Options forwarded to SteamGridDB for an image query.
#[derive(Debug, Clone, Copy)]
pub struct GetImagesOptions {
    /// Zero-based page index.
    pub page: usize,
    /// Images per page (10 to 50).
    pub limit: usize,
    pub show_nsfw: bool,
    pub show_humor: bool,
    /// Ask for animated images beside static ones.
    pub show_animated: bool,
}

impl Default for GetImagesOptions {
    fn default() -> (r: Self)
        ensures
            r.page == 0,
            r.limit == 25,
            !r.show_nsfw,
            !r.show_humor,
            !r.show_animated,
    {
        GetImagesOptions { page: 0, limit: 25, show_nsfw: false, show_humor: false, show_animated: false }
    }
}

/// The SteamGridDB image collections.
#[derive(Debug, Clone, Copy, PartialEq, Eq, Structural)]
pub enum ImageEndpoint {
    Grid,
    Hero,
    Logo,
    Icon,
}

/// Grid image sizes SteamGridDB can filter by.
#[derive(Debug, Clone, Copy, PartialEq, Eq, Structural)]
pub enum GridDimension {
    D600x900,
    D342x482,
    D660x930,
    D460x215,
    D920x430,
}

/// Animation filter values.
#[derive(Debug, Clone, Copy, PartialEq, Eq, Structural)]
pub enum AnimationType {
    Static,
    Animated,
}

/// A content filter (NSFW, humor): exclude such images, or accept any.
#[derive(Debug, Clone, Copy, PartialEq, Eq, Structural)]
pub enum ContentFilter {
    Exclude,
    Any,
}

/// An image query for one artwork kind.
pub struct ImageQuery {
    pub endpoint: ImageEndpoint,
    /// Size filter; only grid queries have one.
    pub dimensions: Option<Vec<GridDimension>>,
    pub types: Vec<AnimationType>,
    pub nsfw: ContentFilter,
    pub humor: ContentFilter,
}

/// The portrait grid sizes, for covers.
pub open spec fn cover_dimensions() -> Seq<GridDimension> {
    seq![GridDimension::D600x900, GridDimension::D342x482, GridDimension::D660x930]
}

/// The landscape grid sizes, for wide covers.
pub open spec fn wide_cover_dimensions() -> Seq<GridDimension> {
    seq![GridDimension::D460x215, GridDimension::D920x430]
}

/// The collection each kind is fetched from: covers and wide covers are
/// both grids, told apart by size.
pub open spec fn endpoint_of(kind: ImageKind) -> ImageEndpoint {
    match kind {
        ImageKind::Cover => ImageEndpoint::Grid,
        ImageKind::WideCover => ImageEndpoint::Grid,
        ImageKind::Background => ImageEndpoint::Hero,
        ImageKind::Logo => ImageEndpoint::Logo,
        ImageKind::Icon => ImageEndpoint::Icon,
    }
}

/// The size filter of each kind.
pub open spec fn dimensions_of(kind: ImageKind) -> Option<Seq<GridDimension>> {
    match kind {
        ImageKind::Cover => Some(cover_dimensions()),
        ImageKind::WideCover => Some(wide_cover_dimensions()),
        _ => None,
    }
}

/// The filter a "show" setting gives.
pub open spec fn filter_of(show: bool) -> ContentFilter {
    if show {
        ContentFilter::Any
    } else {
        ContentFilter::Exclude
    }
}

/// The animation types asked for: static images, and animated ones too
/// when the options ask for them.
pub open spec fn types_of(show_animated: bool) -> Seq<AnimationType> {
    if show_animated {
        seq![AnimationType::Static, AnimationType::Animated]
    } else {
        seq![AnimationType::Static]
    }
}

/// Does `q` query `kind` with `opts`: the kind's collection and size
/// filter, the animation types and the content filters the options ask for?
pub open spec fn query_matches(q: ImageQuery, kind: ImageKind, opts: GetImagesOptions) -> bool {
    &&& q.endpoint == endpoint_of(kind)
    &&& match (q.dimensions, dimensions_of(kind)) {
        (Some(d), Some(e)) => d@ == e,
        (None, None) => true,
        _ => false,
    }
    &&& q.types@ == types_of(opts.show_animated)
    &&& q.nsfw == filter_of(opts.show_nsfw)
    &&& q.humor == filter_of(opts.show_humor)
}

fn filter_for(show: bool) -> (f: ContentFilter)
    ensures
        f == filter_of(show),
{
    if show {
        ContentFilter::Any
    } else {
        ContentFilter::Exclude
    }
}

impl ImageKind {
    /// The SteamGridDB query for this kind under `opts`.
    pub fn to_query_type(&self, opts: &GetImagesOptions) -> (q: ImageQuery)
        ensures
            query_matches(q, *self, *opts),
    {
        let dimensions = match self {
            ImageKind::Cover => Some(vec![GridDimension::D600x900, GridDimension::D342x482, GridDimension::D660x930]),
            ImageKind::WideCover => Some(vec![GridDimension::D460x215, GridDimension::D920x430]),
            _ => None,
        };
        let endpoint = match self {
            ImageKind::Cover => ImageEndpoint::Grid,
            ImageKind::WideCover => ImageEndpoint::Grid,
            ImageKind::Background => ImageEndpoint::Hero,
            ImageKind::Logo => ImageEndpoint::Logo,
            ImageKind::Icon => ImageEndpoint::Icon,
        };
        let q = ImageQuery {
            endpoint,
            dimensions,
            types: if opts.show_animated {
                vec![AnimationType::Static, AnimationType::Animated]
            } else {
                vec![AnimationType::Static]
            },
            nsfw: filter_for(opts.show_nsfw),
            humor: filter_for(opts.show_humor),
        };
        assert(q.types@ == types_of(opts.show_animated));
        q
    }
}

/// The digit of a number below 16 in upper-case hexadecimal.
pub open spec fn hex_digit(d: nat) -> char {
    if d < 10 {
        (48 + d) as char
    } else {
        (55 + d) as char
    }
}

/// Is a byte left as it is by URL encoding: an ASCII letter or digit, or
/// one of `-`, `.`, `_`, `~`?
pub open spec fn url_safe(b: u8) -> bool {
    ||| 48 <= b <= 57
    ||| 65 <= b <= 90
    ||| 97 <= b <= 122
    ||| b == 45 || b == 46 || b == 95 || b == 126
}

/// The URL encoding of some bytes: safe bytes stay as their characters,
/// every other byte becomes `%` and its two upper-case hexadecimal digits.
pub open spec fn url_encoded(bytes: Seq<u8>) -> Seq<char>
    decreases bytes.len(),
{
    if bytes.len() == 0 {
        seq![]
    } else {
        let b = bytes.last();
        url_encoded(bytes.drop_last()) + if url_safe(b) {
            seq![b as char]
        } else {
            seq!['%', hex_digit((b / 16) as nat), hex_digit((b % 16) as nat)]
        }
    }
}

/// `steamgriddb_api::search::get_search_url`: the base URL, then
/// `/search/autocomplete/`, then the name's UTF-8 bytes URL-encoded by
/// `urlencoding::encode` (as its documentation says: every byte except ASCII
/// letters, digits and `-`, `_`, `.`, `~` percent-encoded).
#[verifier::external_body]
fn get_search_url(base: &str, name: &str) -> (url: String)
    ensures
        url@ == base@ + "/search/autocomplete/"@ + url_encoded(encode_utf8(name@)),
{
    steamgriddb_api::search::get_search_url(base, name)
}

/// The URL that searches SteamGridDB for games by name.
pub fn search_url(base: &str, name: &str) -> (url: String)
    ensures
        url@ == base@ + "/search/autocomplete/"@ + url_encoded(encode_utf8(name@)),
{
    get_search_url(base, name)
}

/// `steamgriddb_api::games::get_game_by_steam_app_id_url`: the base URL,
/// `/games/steam/` and the AppID in decimal.
#[verifier::external_body]
fn get_game_by_steam_app_id_url(base: &str, steam_app_id: usize) -> (url: String)
    ensures
        url@ == base@ + "/games/steam/"@ + decimal(steam_app_id as nat),
{
    steamgriddb_api::games::get_game_by_steam_app_id_url(base, steam_app_id)
}

/// The URL that looks up the SteamGridDB game of a Steam AppID.
pub fn game_by_steam_appid_url(base: &str, steam_app_id: u32) -> (url: String)
    ensures
        url@ == base@ + "/games/steam/"@ + decimal(steam_app_id as nat),
{
    get_game_by_steam_app_id_url(base, steam_app_id as usize)
}

/// The URL of one page of images: the query URL, a `?` if it has none yet,
/// then `&limit=` and `&page=` with the options' numbers.
pub open spec fn page_url_spec(base: Seq<char>, limit: nat, page: nat) -> Seq<char> {
    base + (if is_infix(seq!['?'], base) {
        seq![]
    } else {
        seq!['?']
    }) + "&limit="@ + decimal(limit) + "&page="@ + decimal(page)
}

/// Extends an image query URL with the page size and page index.
pub fn page_url(base: &str, limit: usize, page: usize) -> (url: String)
    ensures
        url@ == page_url_spec(base@, limit as nat, page as nat),
{
    let b = chars_of(base);
    let q = vec!['?'];
    assert(q@ =~= seq!['?']);
    let sep: Vec<char> = if contains_chars(&b, &q) {
        Vec::new()
    } else {
        vec!['?']
    };
    let u1 = concat_chars(&b, &sep);
    let u2 = concat_chars(&u1, &chars_of("&limit="));
    let u3 = concat_chars(&u2, &decimal_chars(limit as u64));
    let u4 = concat_chars(&u3, &chars_of("&page="));
    let u5 = concat_chars(&u4, &decimal_chars(page as u64));
    assert(sep@ == (if is_infix(seq!['?'], b@) {
        Seq::<char>::empty()
    } else {
        seq!['?']
    }));
    string_of(&u5)
}

/// The elements of `list` joined by `sep`.
pub open spec fn join_spec(list: Seq<Seq<char>>, sep: Seq<char>) -> Seq<char>
    decreases list.len(),
{
    if list.len() == 0 {
        seq![]
    } else if list.len() == 1 {
        list[0]
    } else {
        join_spec(list.drop_last(), sep) + sep + list.last()
    }
}

/// Joins strings with a separator (what `[String]::join` gives).
pub fn join(list: &Vec<String>, sep: &str) -> (s: String)
    ensures
        s@ == join_spec(list.deep_view(), sep@),
{
    let sv = chars_of(sep);
    let mut acc: Vec<char> = Vec::new();
    let mut i: usize = 0;
    while i < list.len()
        invariant
            i <= list.len(),
            sv@ == sep@,
            acc@ == join_spec(list.deep_view().take(i as int), sep@),
        decreases list.len() - i,
    {
        let item = chars_of(list[i].as_str());
        assert(list.deep_view().take(i + 1).drop_last() == list.deep_view().take(i as int));
        if i == 0 {
            acc = item;
            assert(list.deep_view().take(1) == seq![list.deep_view()[0]]);
        } else {
            let with_sep = concat_chars(&acc, &sv);
            acc = concat_chars(&with_sep, &item);
        }
        i = i + 1;
    }
    assert(list.deep_view().take(list.len() as int) == list.deep_view());
    string_of(&acc)
}

/// What an image request's reply amounts to: when the reply says it failed,
/// its error messages joined by ", " (or "API request failed" when it gives
/// none); otherwise its images (none when it carries no data).
pub open spec fn response_spec<T>(success: Option<bool>, data: Option<Seq<T>>, errors: Option<Seq<Seq<char>>>) -> Result<Seq<T>, Seq<char>> {
    if success == Some(false) {
        match errors {
            Some(e) => if e.len() > 0 {
                Err(join_spec(e, ", "@))
            } else {
                Err("API request failed"@)
            },
            None => Err("API request failed"@),
        }
    } else {
        match data {
            Some(d) => Ok(d),
            None => Ok(seq![]),
        }
    }
}

/// The contents of an optional vector.
pub open spec fn seq_of<T>(o: Option<Vec<T>>) -> Option<Seq<T>> {
    match o {
        Some(v) => Some(v@),
        None => None,
    }
}

/// The contents of an optional list of strings.
pub open spec fn strings_of(o: Option<Vec<String>>) -> Option<Seq<Seq<char>>> {
    match o {
        Some(v) => Some(v.deep_view()),
        None => None,
    }
}

/// Interprets the fields of an image request's reply.
pub fn images_from_response<T>(success: Option<bool>, data: Option<Vec<T>>, errors: Option<Vec<String>>) -> (r: Result<Vec<T>, String>)
    ensures
        r matches Ok(v) ==> (response_spec(success, seq_of(data), strings_of(errors)) matches Ok(w) && w == v@),
        r matches Err(m) ==> (response_spec(success, seq_of(data), strings_of(errors)) matches Err(w) && w == m@),
{
    let failed = match success {
        Some(b) => !b,
        None => false,
    };
    if failed {
        match errors {
            Some(e) => if e.len() > 0 {
                Err(join(&e, ", "))
            } else {
                Err(String::from_str("API request failed"))
            },
            None => Err(String::from_str("API request failed")),
        }
    } else {
        match data {
            Some(d) => Ok(d),
            None => Ok(Vec::new()),
        }
    }
}

} // verus!
