//! Paths below the Steam install directory, and choosing the Steam user.
//!
//! A path is held as its list of components; the caller joins them into a
//! platform path.

use vstd::prelude::*;
use crate::text::{all_digits, digit_char, decimal, digits_value, parse_u64, parse_u64_spec, string_of, unsigned_part};

verus! {

/// The components of `base` followed by those in `tail`.
pub open spec fn path_join(base: Seq<Seq<char>>, tail: Seq<Seq<char>>) -> Seq<Seq<char>> {
    base + tail
}

/// `{steam}/userdata/{user_id}/config/shortcuts.vdf`.
pub open spec fn shortcuts_path_spec(steam_dir: Seq<Seq<char>>, user_id: u64) -> Seq<Seq<char>> {
    path_join(
        steam_dir,
        seq![
            seq!['u', 's', 'e', 'r', 'd', 'a', 't', 'a'],
            decimal(user_id as nat),
            seq!['c', 'o', 'n', 'f', 'i', 'g'],
            seq!['s', 'h', 'o', 'r', 't', 'c', 'u', 't', 's', '.', 'v', 'd', 'f'],
        ],
    )
}

/// `{steam}/userdata/{user_id}/config/grid`.
pub open spec fn grid_dir_spec(steam_dir: Seq<Seq<char>>, user_id: u64) -> Seq<Seq<char>> {
    path_join(
        steam_dir,
        seq![
            seq!['u', 's', 'e', 'r', 'd', 'a', 't', 'a'],
            decimal(user_id as nat),
            seq!['c', 'o', 'n', 'f', 'i', 'g'],
            seq!['g', 'r', 'i', 'd'],
        ],
    )
}

fn push_component(path: &mut Vec<String>, name: Vec<char>)
    ensures
        final(path).deep_view() == old(path).deep_view().push(name@),
{
    let s = string_of(&name);
    path.push(s);
    assert(path.deep_view() =~= old(path).deep_view().push(name@));
}

fn copy_path(path: &Vec<String>) -> (r: Vec<String>)
    ensures
        r.deep_view() == path.deep_view(),
{
    crate::scanner::detector::clone_strings(path)
}

/// The path of a user's `shortcuts.vdf` below the Steam directory.
pub fn shortcuts_path(steam_dir: &Vec<String>, user_id: u64) -> (p: Vec<String>)
    ensures
        p.deep_view() == shortcuts_path_spec(steam_dir.deep_view(), user_id),
{
    let mut p = copy_path(steam_dir);
    push_component(&mut p, vec!['u', 's', 'e', 'r', 'd', 'a', 't', 'a']);
    push_component(&mut p, crate::text::decimal_chars(user_id));
    push_component(&mut p, vec!['c', 'o', 'n', 'f', 'i', 'g']);
    push_component(&mut p, vec!['s', 'h', 'o', 'r', 't', 'c', 'u', 't', 's', '.', 'v', 'd', 'f']);
    assert(p.deep_view() =~= shortcuts_path_spec(steam_dir.deep_view(), user_id));
    p
}

/// The path of a user's grid artwork directory below the Steam directory.
pub fn grid_dir(steam_dir: &Vec<String>, user_id: u64) -> (p: Vec<String>)
    ensures
        p.deep_view() == grid_dir_spec(steam_dir.deep_view(), user_id),
{
    let mut p = copy_path(steam_dir);
    push_component(&mut p, vec!['u', 's', 'e', 'r', 'd', 'a', 't', 'a']);
    push_component(&mut p, crate::text::decimal_chars(user_id));
    push_component(&mut p, vec!['c', 'o', 'n', 'f', 'i', 'g']);
    push_component(&mut p, vec!['g', 'r', 'i', 'd']);
    assert(p.deep_view() =~= grid_dir_spec(steam_dir.deep_view(), user_id));
    p
}

/// An entry of Steam's `userdata` directory.
pub struct UserDirEntry {
    /// The entry's file name.
    pub name: String,
    /// Is the entry a directory?
    pub is_dir: bool,
}

/// The user ids that the entries of `userdata` name, in listing order: the
/// directories whose names parse as a `u64`.
pub open spec fn user_ids_spec(entries: Seq<UserDirEntry>) -> Seq<u64>
    decreases entries.len(),
{
    if entries.len() == 0 {
        seq![]
    } else {
        let e = entries.last();
        let rest = user_ids_spec(entries.drop_last());
        if e.is_dir && parse_u64_spec(e.name@) is Some {
            rest.push(parse_u64_spec(e.name@)->0)
        } else {
            rest
        }
    }
}

/// The Steam user ids found in a listing of the `userdata` directory.
pub fn user_ids_from(entries: &Vec<UserDirEntry>) -> (ids: Vec<u64>)
    ensures
        ids@ == user_ids_spec(entries@),
{
    let mut ids: Vec<u64> = Vec::new();
    let mut i: usize = 0;
    while i < entries.len()
        invariant
            i <= entries.len(),
            ids@ == user_ids_spec(entries@.take(i as int)),
        decreases entries.len() - i,
    {
        assert(entries@.take(i + 1).drop_last() == entries@.take(i as int));
        let e = &entries[i];
        if e.is_dir {
            match parse_u64(e.name.as_str()) {
                Some(v) => ids.push(v),
                None => {},
            }
        }
        i = i + 1;
    }
    assert(entries@.take(entries.len() as int) == entries@);
    ids
}

/// The user a view works with: the configured id if it parses, else the
/// first user found.
pub open spec fn chosen_user_spec(configured: Seq<char>, found: Seq<u64>) -> Option<u64> {
    match parse_u64_spec(configured) {
        Some(id) => Some(id),
        None => if found.len() > 0 {
            Some(found[0])
        } else {
            None
        },
    }
}

/// Picks the Steam user: the configured id if it parses as a number,
/// otherwise the first user found under `userdata`.
pub fn chosen_user(configured: &str, found: &Vec<u64>) -> (r: Option<u64>)
    ensures
        r == chosen_user_spec(configured@, found@),
{
    match parse_u64(configured) {
        Some(id) => Some(id),
        None => if found.len() > 0 {
            Some(found[0])
        } else {
            None
        },
    }
}

/// Why no user could be chosen for the automatic add.
#[derive(Debug, Clone, Copy, PartialEq, Eq, Structural)]
pub enum UserChoiceError {
    /// A user id is configured but is not a number.
    InvalidUserId,
    /// No id is configured and no user directory was found.
    NoUsers,
}

/// The user the automatic add writes for: an empty configured id means the
/// first user found; any other configured id must parse as a number.
pub open spec fn auto_add_user_spec(configured: Seq<char>, found: Seq<u64>) -> Result<u64, UserChoiceError> {
    if configured.len() == 0 {
        if found.len() > 0 {
            Ok(found[0])
        } else {
            Err(UserChoiceError::NoUsers)
        }
    } else {
        match parse_u64_spec(configured) {
            Some(id) => Ok(id),
            None => Err(UserChoiceError::InvalidUserId),
        }
    }
}

/// Picks the user for the automatic add.
pub fn auto_add_user(configured: &str, found: &Vec<u64>) -> (r: Result<u64, UserChoiceError>)
    ensures
        r == auto_add_user_spec(configured@, found@),
{
    if configured.is_empty() {
        if found.len() > 0 {
            Ok(found[0])
        } else {
            Err(UserChoiceError::NoUsers)
        }
    } else {
        match parse_u64(configured) {
            Some(id) => Ok(id),
            None => Err(UserChoiceError::InvalidUserId),
        }
    }
}

pub(crate) proof fn lemma_decimal_digits(n: nat)
    ensures
        decimal(n).len() > 0,
        all_digits(decimal(n)),
        digits_value(decimal(n)) == n,
        decimal(n)[0] != '+',
    decreases n,
{
    if n >= 10 {
        lemma_decimal_digits(n / 10);
        let d = decimal(n);
        assert(d.drop_last() == decimal(n / 10));
        assert(d[0] == decimal(n / 10)[0]);
        assert(d.last() == digit_char(n % 10));
        assert(digit_char(n % 10) as nat == 48 + n % 10);
        assert(n == (n / 10) * 10 + n % 10);
        assert(digits_value(d) == digits_value(d.drop_last()) * 10 + (d.last() as nat - 48) as nat);
    } else {
        assert(digit_char(n) as nat == 48 + n);
        let d = decimal(n);
        assert(d.drop_last() =~= seq![]);
        assert(digits_value(d) == digits_value(d.drop_last()) * 10 + (d.last() as nat - 48) as nat);
    }
}

/// Path law: the user directory named in a user's paths parses back to the
/// user's id, so the paths are found again from a listing of `userdata`.
pub proof fn lemma_user_dir_parses_back(user_id: u64)
    ensures
        parse_u64_spec(decimal(user_id as nat)) == Some(user_id),
{
    lemma_decimal_digits(user_id as nat);
    assert(unsigned_part(decimal(user_id as nat)) == decimal(user_id as nat));
}

} // verus!
