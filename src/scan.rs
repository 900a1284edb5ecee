//! Which paths are candidate images: the choice made over what the
//! directory walk found.

use vstd::prelude::*;
use crate::text::{chars_equal, chars_of, extension_of, lower_of, lowercase, path_extension};

verus! {

/// What a path names on disk.
#[derive(Clone, Copy, Debug, PartialEq, Eq, Structural)]
pub enum PathKind {
    File,
    Directory,
    Other,
}

/// The lower-cased extension of `path`, if it has one.
pub open spec fn lower_extension(path: Seq<char>) -> Option<Seq<char>> {
    match extension_of(path) {
        Some(e) => Some(lower_of(e)),
        None => None,
    }
}

/// `dll` always counts; `exe` and `cpl` count when all PE kinds are wanted.
pub open spec fn is_target_extension_spec(e: Seq<char>, all_pe: bool) -> bool {
    e == seq!['d', 'l', 'l'] || (all_pe && (e == seq!['e', 'x', 'e'] || e == seq!['c', 'p', 'l']))
}

/// The extensions `exe` and `dll`.
pub open spec fn is_pe_extension_spec(e: Seq<char>) -> bool {
    e == seq!['e', 'x', 'e'] || e == seq!['d', 'l', 'l']
}

/// Whether `path` has a target extension, in any letter case.
pub open spec fn has_target_extension_spec(path: Seq<char>, all_pe: bool) -> bool {
    match lower_extension(path) {
        Some(e) => is_target_extension_spec(e, all_pe),
        None => false,
    }
}

/// Whether `path` ends in `.exe` or `.dll`, in any letter case.
pub open spec fn is_pe_file_spec(path: Seq<char>) -> bool {
    match lower_extension(path) {
        Some(e) => is_pe_extension_spec(e),
        None => false,
    }
}

/// Whether a lower-cased extension is `dll`, or `exe` or `cpl` when `all_pe` is set.
pub fn is_target_extension(ext: &str, all_pe: bool) -> (r: bool)
    ensures
        r == is_target_extension_spec(ext@, all_pe),
{
    let e = chars_of(ext);
    let dll: [char; 3] = ['d', 'l', 'l'];
    let exe: [char; 3] = ['e', 'x', 'e'];
    let cpl: [char; 3] = ['c', 'p', 'l'];
    assert(dll@ =~= seq!['d', 'l', 'l']);
    assert(exe@ =~= seq!['e', 'x', 'e']);
    assert(cpl@ =~= seq!['c', 'p', 'l']);
    chars_equal(&e, &dll) || (all_pe && (chars_equal(&e, &exe) || chars_equal(&e, &cpl)))
}

/// Whether a lower-cased extension is `exe` or `dll`.
pub fn is_pe_extension(ext: &str) -> (r: bool)
    ensures
        r == is_pe_extension_spec(ext@),
{
    let e = chars_of(ext);
    let dll: [char; 3] = ['d', 'l', 'l'];
    let exe: [char; 3] = ['e', 'x', 'e'];
    assert(dll@ =~= seq!['d', 'l', 'l']);
    assert(exe@ =~= seq!['e', 'x', 'e']);
    chars_equal(&e, &exe) || chars_equal(&e, &dll)
}

fn lower_extension_of(path: &str) -> (r: Option<String>)
    ensures
        match r {
            Some(v) => lower_extension(path@) == Some(v@),
            None => lower_extension(path@) is None,
        },
{
    match path_extension(path) {
        Some(e) => Some(lowercase(e.as_str())),
        None => None,
    }
}

/// Whether `path` ends in `.dll`, or also `.exe` or `.cpl` when `all_pe` is set,
/// in any letter case.
pub fn has_target_extension(path: &str, all_pe: bool) -> (r: bool)
    ensures
        r == has_target_extension_spec(path@, all_pe),
{
    match lower_extension_of(path) {
        Some(e) => is_target_extension(e.as_str(), all_pe),
        None => false,
    }
}

/// Whether `path` ends in `.exe` or `.dll`, in any letter case.
pub fn is_pe_file(path: &str) -> (r: bool)
    ensures
        r == is_pe_file_spec(path@),
{
    match lower_extension_of(path) {
        Some(e) => is_pe_extension(e.as_str()),
        None => false,
    }
}

/// The listed paths that have a target extension, in order.
pub open spec fn filter_targets(listing: Seq<Seq<char>>, all_pe: bool) -> Seq<Seq<char>>
    decreases listing.len(),
{
    if listing.len() == 0 {
        Seq::empty()
    } else {
        let p = filter_targets(listing.drop_last(), all_pe);
        if has_target_extension_spec(listing.last(), all_pe) {
            p.push(listing.last())
        } else {
            p
        }
    }
}

pub open spec fn path_views(v: Seq<String>) -> Seq<Seq<char>> {
    v.map_values(|s: String| s@)
}

/// The candidate files under `path`: the path itself when it names a file;
/// the files of `listing` (the directory's files, found by the caller's walk,
/// recursive or not) that have a target extension when it names a directory;
/// nothing otherwise.
pub fn scan_path(path: &str, kind: PathKind, listing: &Vec<String>, all_pe: bool) -> (r: Vec<String>)
    ensures
        path_views(r@) == match kind {
            PathKind::File => seq![path@],
            PathKind::Directory => filter_targets(path_views(listing@), all_pe),
            PathKind::Other => Seq::empty(),
        },
{
    let mut results: Vec<String> = Vec::new();
    match kind {
        PathKind::File => {
            results.push(path.to_owned());
            assert(path_views(results@) =~= seq![path@]);
        },
        PathKind::Directory => {
            let mut i: usize = 0;
            while i < listing.len()
                invariant
                    i <= listing@.len(),
                    path_views(results@) == filter_targets(path_views(listing@.take(i as int)), all_pe),
                decreases listing@.len() - i,
            {
                let p = &listing[i];
                let ghost prev = results@;
                proof {
                    assert(path_views(listing@.take(i + 1)).drop_last() =~= path_views(
                        listing@.take(i as int),
                    ));
                    assert(path_views(listing@.take(i + 1)).last() == p@);
                }
                if has_target_extension(p.as_str(), all_pe) {
                    results.push(p.clone());
                    assert(path_views(results@) =~= path_views(prev).push(p@));
                }
                i = i + 1;
            }
            assert(listing@.take(listing@.len() as int) =~= listing@);
        },
        PathKind::Other => {
            assert(path_views(results@) =~= Seq::empty());
        },
    }
    results
}

} // verus!
