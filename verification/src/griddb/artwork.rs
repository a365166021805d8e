//! Naming of Steam grid artwork files, and recognising the files that hold
//! artwork of a given game and kind.

use vstd::prelude::*;
use crate::griddb::client::{ImageKind, suffix_chars, suffix_of};
use crate::steam::paths::lemma_decimal_digits;
use crate::text::{
    is_digit,
    after_last, all_ascii_lower_letters, lemma_after_last, lemma_take_until_idempotent, chars_after_last, chars_of, chars_until, concat_chars, decimal, decimal_chars,
    lowercase, lowercase_chars, same_chars, string_of, take_until,
};

verus! {

/// The image extensions Steam accepts for grid artwork.
pub open spec fn is_image_ext(ext: Seq<char>) -> bool {
    ||| ext == seq!['p', 'n', 'g']
    ||| ext == seq!['j', 'p', 'g']
    ||| ext == seq!['j', 'p', 'e', 'g']
    ||| ext == seq!['w', 'e', 'b', 'p']
}

/// The extension an artwork file gets for a URL: the text after the last
/// `.` of the URL's part before any `?`, lower-cased, if it is a known image
/// extension; `png` otherwise.
pub open spec fn url_extension(url: Seq<char>) -> Seq<char> {
    let ext = lowercase(after_last(take_until(url, '?'), '.'));
    if is_image_ext(ext) {
        ext
    } else {
        seq!['p', 'n', 'g']
    }
}

/// The stem of every artwork file of `appid` and `kind`: the appid in
/// decimal followed by the kind's suffix.
pub open spec fn artwork_stem(appid: u32, kind: ImageKind) -> Seq<char> {
    decimal(appid as nat) + suffix_of(kind)
}

/// The grid artwork filename for `appid`, `kind` and the image's URL.
pub open spec fn artwork_filename_spec(appid: u32, kind: ImageKind, url: Seq<char>) -> Seq<char> {
    artwork_stem(appid, kind) + seq!['.'] + url_extension(url)
}

fn is_image_ext_exec(ext: &Vec<char>) -> (b: bool)
    ensures
        b == is_image_ext(ext@),
{
    let png = vec!['p', 'n', 'g'];
    let jpg = vec!['j', 'p', 'g'];
    let jpeg = vec!['j', 'p', 'e', 'g'];
    let webp = vec!['w', 'e', 'b', 'p'];
    same_chars(ext, &png) || same_chars(ext, &jpg) || same_chars(ext, &jpeg) || same_chars(ext, &webp)
}

fn stem_chars(appid: u32, kind: ImageKind) -> (v: Vec<char>)
    ensures
        v@ == artwork_stem(appid, kind),
{
    concat_chars(&decimal_chars(appid as u64), &suffix_chars(kind))
}

/// Derives the grid artwork filename for `appid` and `kind`.
///
/// The name is itself recognised as artwork of `appid` and `kind`, so that
/// writing artwork with another extension later replaces it. The extension is taken from the URL path (query strings are stripped)
/// and lower-cased; it falls back to `png` when it is not one of `png`,
/// `jpg`, `jpeg` and `webp`.
pub fn artwork_filename(appid: u32, kind: ImageKind, url: &str) -> (name: String)
    ensures
        name@ == artwork_filename_spec(appid, kind, url@),
        is_artwork_file(name@, artwork_stem(appid, kind)),
{
    let u = chars_of(url);
    let path_part = chars_until(&u, '?');
    let piece = chars_after_last(&path_part, '.');
    let lower = lowercase_chars(&piece);
    let chosen = if is_image_ext_exec(&lower) {
        lower
    } else {
        vec!['p', 'n', 'g']
    };
    proof {
        lemma_image_ext_lower(chosen@);
    }
    // An image extension is already in lower case, so this changes nothing;
    // its contract is what shows that the name's extension, lower-cased,
    // is still a known one.
    let ext = lowercase_chars(&chosen);
    let dot = vec!['.'];
    let stem = stem_chars(appid, kind);
    let head = concat_chars(&stem, &dot);
    let full = concat_chars(&head, &ext);
    proof {
        let name = full@;
        assert(name == stem@ + seq!['.'] + ext@);
        lemma_after_last(name, '.', stem@.len() as int + 1);
        assert(name.subrange(stem@.len() as int + 1, name.len() as int) == ext@);
        assert(name.take(name.len() - ext@.len() - 1) == stem@);
    }
    string_of(&full)
}

/// Is `name` a file holding artwork with stem `stem`: the text before its
/// last `.` is the stem, and the text after it, lower-cased, is a known
/// image extension?
pub open spec fn is_artwork_file(name: Seq<char>, stem: Seq<char>) -> bool {
    let ext = after_last(name, '.');
    &&& ext.len() < name.len()
    &&& name.take(name.len() - ext.len() - 1) == stem
    &&& is_image_ext(lowercase(ext))
}

fn is_artwork_file_exec(name: &str, stem: &Vec<char>) -> (b: bool)
    ensures
        b == is_artwork_file(name@, stem@),
{
    let v = chars_of(name);
    let ext = chars_after_last(&v, '.');
    if ext.len() >= v.len() {
        return false;
    }
    let n = v.len() - ext.len() - 1;
    let mut head: Vec<char> = Vec::new();
    let mut i: usize = 0;
    while i < n
        invariant
            n < v.len(),
            i <= n,
            head@ == v@.take(i as int),
        decreases n - i,
    {
        head.push(v[i]);
        i = i + 1;
        assert(head@ =~= v@.take(i as int));
    }
    same_chars(&head, stem) && is_image_ext_exec(&lowercase_chars(&ext))
}

/// Are `idx` exactly the positions, in increasing order, of the names for
/// which `pred` holds?
pub open spec fn selects(names: Seq<Seq<char>>, idx: Seq<usize>, pred: spec_fn(Seq<char>) -> bool) -> bool {
    &&& forall|a: int, b: int| 0 <= a < b < idx.len() ==> idx[a] < idx[b]
    &&& forall|a: int| 0 <= a < idx.len() ==> idx[a] < names.len() && pred(names[idx[a] as int])
    &&& forall|i: int| 0 <= i < names.len() && pred(names[i]) ==> idx.contains(i as usize)
}

/// Is `name` an artwork file of `appid` for any kind?
pub open spec fn is_any_artwork_file(name: Seq<char>, appid: u32) -> bool {
    ||| is_artwork_file(name, artwork_stem(appid, ImageKind::Cover))
    ||| is_artwork_file(name, artwork_stem(appid, ImageKind::WideCover))
    ||| is_artwork_file(name, artwork_stem(appid, ImageKind::Background))
    ||| is_artwork_file(name, artwork_stem(appid, ImageKind::Logo))
    ||| is_artwork_file(name, artwork_stem(appid, ImageKind::Icon))
}

/// Of the file names in a grid directory, the positions of those holding
/// artwork of `appid` and `kind`, whatever their extension: the files that
/// replacing or deleting that artwork removes.
pub fn artwork_files_of(appid: u32, kind: ImageKind, names: &Vec<String>) -> (idx: Vec<usize>)
    ensures
        selects(names.deep_view(), idx@, |n: Seq<char>| is_artwork_file(n, artwork_stem(appid, kind))),
{
    let stem = stem_chars(appid, kind);
    let ghost pred = |n: Seq<char>| is_artwork_file(n, artwork_stem(appid, kind));
    let mut idx: Vec<usize> = Vec::new();
    let mut i: usize = 0;
    while i < names.len()
        invariant
            i <= names.len(),
            stem@ == artwork_stem(appid, kind),
            pred == (|n: Seq<char>| is_artwork_file(n, artwork_stem(appid, kind))),
            forall|a: int, b: int| 0 <= a < b < idx@.len() ==> idx@[a] < idx@[b],
            forall|a: int| 0 <= a < idx@.len() ==> idx@[a] < i && pred(names.deep_view()[idx@[a] as int]),
            forall|k: int| 0 <= k < i && pred(names.deep_view()[k]) ==> idx@.contains(k as usize),
        decreases names.len() - i,
    {
        let ghost old_idx = idx@;
        if is_artwork_file_exec(names[i].as_str(), &stem) {
            idx.push(i);
            assert(idx@[idx@.len() - 1] == i);
        }
        assert forall|k: int| 0 <= k < i + 1 && pred(names.deep_view()[k]) implies idx@.contains(k as usize) by {
            if k < i {
                let j = choose|j: int| 0 <= j < old_idx.len() && old_idx[j] == k as usize;
                assert(idx@[j] == old_idx[j]);
            } else {
                assert(idx@[idx@.len() - 1] == i);
            }
        }
        i = i + 1;
    }
    idx
}

/// Of the file names in a grid directory, the positions of those holding
/// artwork of `appid` of any kind: the files that deleting all of the game's
/// artwork removes.
pub fn all_artwork_files_of(appid: u32, names: &Vec<String>) -> (idx: Vec<usize>)
    ensures
        selects(names.deep_view(), idx@, |n: Seq<char>| is_any_artwork_file(n, appid)),
{
    let s1 = stem_chars(appid, ImageKind::Cover);
    let s2 = stem_chars(appid, ImageKind::WideCover);
    let s3 = stem_chars(appid, ImageKind::Background);
    let s4 = stem_chars(appid, ImageKind::Logo);
    let s5 = stem_chars(appid, ImageKind::Icon);
    let ghost pred = |n: Seq<char>| is_any_artwork_file(n, appid);
    let mut idx: Vec<usize> = Vec::new();
    let mut i: usize = 0;
    while i < names.len()
        invariant
            i <= names.len(),
            s1@ == artwork_stem(appid, ImageKind::Cover),
            s2@ == artwork_stem(appid, ImageKind::WideCover),
            s3@ == artwork_stem(appid, ImageKind::Background),
            s4@ == artwork_stem(appid, ImageKind::Logo),
            s5@ == artwork_stem(appid, ImageKind::Icon),
            pred == (|n: Seq<char>| is_any_artwork_file(n, appid)),
            forall|a: int, b: int| 0 <= a < b < idx@.len() ==> idx@[a] < idx@[b],
            forall|a: int| 0 <= a < idx@.len() ==> idx@[a] < i && pred(names.deep_view()[idx@[a] as int]),
            forall|k: int| 0 <= k < i && pred(names.deep_view()[k]) ==> idx@.contains(k as usize),
        decreases names.len() - i,
    {
        let n = names[i].as_str();
        let ghost old_idx = idx@;
        if is_artwork_file_exec(n, &s1) || is_artwork_file_exec(n, &s2) || is_artwork_file_exec(n, &s3)
            || is_artwork_file_exec(n, &s4) || is_artwork_file_exec(n, &s5) {
            idx.push(i);
            assert(idx@[idx@.len() - 1] == i);
        }
        assert forall|k: int| 0 <= k < i + 1 && pred(names.deep_view()[k]) implies idx@.contains(k as usize) by {
            if k < i {
                let j = choose|j: int| 0 <= j < old_idx.len() && old_idx[j] == k as usize;
                assert(idx@[j] == old_idx[j]);
            } else {
                assert(idx@[idx@.len() - 1] == i);
            }
        }
        i = i + 1;
    }
    idx
}


proof fn lemma_image_ext_lower(ext: Seq<char>)
    requires
        is_image_ext(ext),
    ensures
        all_ascii_lower_letters(ext),
        forall|i: int| 0 <= i < ext.len() ==> ext[i] != '.',
{
}

/// Artwork law: the query string of a URL has no bearing on the filename.
pub proof fn lemma_filename_ignores_query(appid: u32, kind: ImageKind, url: Seq<char>)
    ensures
        artwork_filename_spec(appid, kind, url) == artwork_filename_spec(appid, kind, take_until(url, '?')),
{
    lemma_take_until_idempotent(url, '?');
}

/// Artwork law: a file holding artwork of one kind is never taken for
/// artwork of another kind of the same game, so replacing or deleting one
/// kind leaves the others alone.
pub proof fn lemma_kinds_do_not_collide(name: Seq<char>, appid: u32, k1: ImageKind, k2: ImageKind)
    requires
        k1 != k2,
        is_artwork_file(name, artwork_stem(appid, k1)),
    ensures
        !is_artwork_file(name, artwork_stem(appid, k2)),
{
    let s1 = artwork_stem(appid, k1);
    let s2 = artwork_stem(appid, k2);
    let d = decimal(appid as nat);
    if s1 == s2 {
        assert(s1.subrange(d.len() as int, s1.len() as int) == suffix_of(k1));
        assert(s2.subrange(d.len() as int, s2.len() as int) == suffix_of(k2));
        match k2 {
            ImageKind::Background => {
                assert(suffix_of(k2)[1] == 'h');
            },
            ImageKind::Logo => {
                assert(suffix_of(k2)[1] == 'l');
            },
            ImageKind::Icon => {
                assert(suffix_of(k2)[1] == 'i');
            },
            _ => {},
        }
    }
}

/// The kind whose suffix a file-name suffix is.
proof fn lemma_suffix_determines_kind(k1: ImageKind, k2: ImageKind)
    requires
        suffix_of(k1) == suffix_of(k2),
    ensures
        k1 == k2,
{
    match (k1, k2) {
        (ImageKind::Cover, ImageKind::Cover) | (ImageKind::WideCover, ImageKind::WideCover)
        | (ImageKind::Background, ImageKind::Background) | (ImageKind::Logo, ImageKind::Logo)
        | (ImageKind::Icon, ImageKind::Icon) => {},
        _ => {
            if suffix_of(k1).len() == suffix_of(k2).len() && suffix_of(k1).len() == 5 {
                assert(suffix_of(k1)[1] != suffix_of(k2)[1]);
            } else {
                assert(suffix_of(k1).len() != suffix_of(k2).len());
            }
        },
    }
}

/// A suffix starts with no digit.
proof fn lemma_suffix_starts_without_digit(k: ImageKind)
    ensures
        suffix_of(k).len() > 0 ==> !is_digit(suffix_of(k)[0]),
{
}

/// One side of the stem comparison: a stem cannot be both a shorter AppID
/// with its suffix and a longer AppID with its suffix.
proof fn lemma_stem_digits_not_shorter(a1: u32, k1: ImageKind, a2: u32, k2: ImageKind)
    requires
        artwork_stem(a1, k1) == artwork_stem(a2, k2),
    ensures
        decimal(a1 as nat).len() >= decimal(a2 as nat).len(),
{
    let d1 = decimal(a1 as nat);
    let d2 = decimal(a2 as nat);
    let s = artwork_stem(a1, k1);
    lemma_decimal_digits(a2 as nat);
    lemma_suffix_starts_without_digit(k1);
    if d1.len() < d2.len() {
        let i = d1.len() as int;
        assert(s == d2 + suffix_of(k2));
        assert(s[i] == d2[i]);
        assert(is_digit(d2[i]));
        if suffix_of(k1).len() == 0 {
            assert(s.len() == d1.len());
        } else {
            assert(s == d1 + suffix_of(k1));
            assert(s[i] == suffix_of(k1)[0]);
        }
    }
}

/// Artwork law: no two (AppID, kind) pairs share an artwork file stem.
pub proof fn lemma_stems_are_distinct(a1: u32, k1: ImageKind, a2: u32, k2: ImageKind)
    requires
        artwork_stem(a1, k1) == artwork_stem(a2, k2),
    ensures
        a1 == a2,
        k1 == k2,
{
    lemma_stem_digits_not_shorter(a1, k1, a2, k2);
    lemma_stem_digits_not_shorter(a2, k2, a1, k1);
    let d1 = decimal(a1 as nat);
    let d2 = decimal(a2 as nat);
    let s = artwork_stem(a1, k1);
    assert(d1 =~= s.take(d1.len() as int));
    assert(d2 =~= s.take(d2.len() as int));
    lemma_decimal_digits(a1 as nat);
    lemma_decimal_digits(a2 as nat);
    assert(suffix_of(k1) =~= s.skip(d1.len() as int));
    assert(suffix_of(k2) =~= s.skip(d2.len() as int));
    lemma_suffix_determines_kind(k1, k2);
}

/// Artwork law: a file holds artwork of at most one game and one kind, so
/// replacing or deleting the artwork of one (AppID, kind) pair never touches
/// another's files.
pub proof fn lemma_artwork_file_has_one_owner(name: Seq<char>, a1: u32, k1: ImageKind, a2: u32, k2: ImageKind)
    requires
        is_artwork_file(name, artwork_stem(a1, k1)),
        is_artwork_file(name, artwork_stem(a2, k2)),
    ensures
        a1 == a2,
        k1 == k2,
{
    lemma_stems_are_distinct(a1, k1, a2, k2);
}

} // verus!
