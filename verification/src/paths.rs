//! File paths as strings.
//!
//! Splitting a path into directory and file name follows the platform's
//! path syntax, so those three operations are left to `std::path` and their
//! results are named. What `std::path` derives from the file name alone (the
//! stem and the extension) is computed here.

use crate::text::{chars_of, string_of};
use vstd::prelude::*;

verus! {

/// The final component of a path, if it has one, as `Path::file_name` gives
/// it on this platform.
pub uninterp spec fn file_name_of(path: Seq<char>) -> Option<Seq<char>>;

/// The path without its final component, if there is one, as `Path::parent`
/// gives it on this platform.
pub uninterp spec fn parent_of(path: Seq<char>) -> Option<Seq<char>>;

/// `base` extended by `tail`, as `Path::join` builds it on this platform.
pub uninterp spec fn join_of(base: Seq<char>, tail: Seq<char>) -> Seq<char>;

/// Calls `Path::file_name`. Trusted: the result is the path's final
/// component by the platform's rules; nothing is claimed about what those
/// rules are.
#[verifier::external_body]
pub(crate) fn file_name(path: &str) -> (r: Option<String>)
    ensures
        r is Some == file_name_of(path@) is Some,
        r matches Some(name) ==> file_name_of(path@) == Some(name@),
{
    match std::path::Path::new(path).file_name() {
        Some(name) => Some(name.to_string_lossy().into_owned()),
        None => None,
    }
}

/// Calls `Path::parent`. Trusted: the result is the path without its final
/// component by the platform's rules.
#[verifier::external_body]
pub(crate) fn parent(path: &str) -> (r: Option<String>)
    ensures
        r is Some == parent_of(path@) is Some,
        r matches Some(dir) ==> parent_of(path@) == Some(dir@),
{
    match std::path::Path::new(path).parent() {
        Some(dir) => Some(dir.to_string_lossy().into_owned()),
        None => None,
    }
}

/// Calls `Path::join`. Trusted: the result is `base` extended by `tail` by
/// the platform's rules.
#[verifier::external_body]
pub(crate) fn join(base: &str, tail: &str) -> (r: String)
    ensures
        r@ == join_of(base@, tail@),
{
    std::path::Path::new(base).join(tail).to_string_lossy().into_owned()
}

/// The index of the last `.` in `name`, or -1 if it has none.
pub open spec fn last_dot(name: Seq<char>) -> int
    decreases name.len(),
{
    if name.len() == 0 {
        -1
    } else if name.last() == '.' {
        name.len() - 1
    } else {
        last_dot(name.drop_last())
    }
}

/// Whether a file name splits into stem and extension: it has a `.` that is
/// not its first character, and it is not the name `..`.
pub open spec fn splits(name: Seq<char>) -> bool {
    last_dot(name) > 0 && name != seq!['.', '.']
}

/// The part of a file name before its extension: everything before the last
/// `.`, or the whole name where it does not split.
pub open spec fn stem_of_name(name: Seq<char>) -> Seq<char> {
    if splits(name) {
        name.subrange(0, last_dot(name))
    } else {
        name
    }
}

/// The extension of a file name: everything after the last `.`, if the name
/// splits.
pub open spec fn extension_of_name(name: Seq<char>) -> Option<Seq<char>> {
    if splits(name) {
        Some(name.subrange(last_dot(name) + 1, name.len() as int))
    } else {
        None
    }
}

/// The extension of a path's file name, or the empty string.
pub open spec fn extension_or_empty(path: Seq<char>) -> Seq<char> {
    match file_name_of(path) {
        Some(name) => match extension_of_name(name) {
            Some(ext) => ext,
            None => Seq::empty(),
        },
        None => Seq::empty(),
    }
}

/// The stem of a path's file name, or the empty string.
pub open spec fn stem_or_empty(path: Seq<char>) -> Seq<char> {
    match file_name_of(path) {
        Some(name) => stem_of_name(name),
        None => Seq::empty(),
    }
}

/// The file name of a path, or the empty string.
pub open spec fn file_name_or_empty(path: Seq<char>) -> Seq<char> {
    match file_name_of(path) {
        Some(name) => name,
        None => Seq::empty(),
    }
}

/// The last `.` lies inside the name.
proof fn lemma_last_dot_bounds(name: Seq<char>)
    ensures
        -1 <= last_dot(name) < name.len(),
        last_dot(name) >= 0 ==> name[last_dot(name)] == '.',
    decreases name.len(),
{
    if name.len() > 0 && name.last() != '.' {
        lemma_last_dot_bounds(name.drop_last());
    }
}

/// Finds the last `.` among the characters.
fn find_last_dot(chars: &Vec<char>) -> (r: Option<usize>)
    ensures
        r is None <==> last_dot(chars@) == -1,
        r matches Some(i) ==> i == last_dot(chars@),
{
    let mut i: usize = chars.len();
    proof {
        assert(chars@.take(i as int) =~= chars@);
    }
    while i > 0
        invariant
            i <= chars.len(),
            last_dot(chars@) == last_dot(chars@.take(i as int)),
        decreases i,
    {
        if chars[i - 1] == '.' {
            assert(chars@.take(i as int).last() == '.');
            return Some(i - 1);
        }
        proof {
            assert(chars@.take(i as int).drop_last() =~= chars@.take(i - 1));
        }
        i = i - 1;
    }
    None
}

/// Splits a file name at its last `.` the way `Path::file_stem` and
/// `Path::extension` do.
pub fn split_name(name: &str) -> (r: (String, Option<String>))
    ensures
        r.0@ == stem_of_name(name@),
        r.1 is Some == extension_of_name(name@) is Some,
        r.1 matches Some(ext) ==> extension_of_name(name@) == Some(ext@),
{
    let chars = chars_of(name);
    let n = chars.len();
    let dotdot = n == 2 && chars[0] == '.' && chars[1] == '.';
    proof {
        lemma_last_dot_bounds(chars@);
        if dotdot {
            assert(chars@ =~= seq!['.', '.']);
        }
        assert(chars@.subrange(0, n as int) =~= chars@);
    }
    match find_last_dot(&chars) {
        Some(i) => {
            if i > 0 && !dotdot {
                (string_of(&chars, 0, i), Some(string_of(&chars, i + 1, n)))
            } else {
                (string_of(&chars, 0, n), None)
            }
        },
        None => (string_of(&chars, 0, n), None),
    }
}

/// The extension of the file a path names, or the empty string if the path
/// has no file name or the name has no extension.
pub fn extension(path: &str) -> (r: String)
    ensures
        r@ == extension_or_empty(path@),
{
    match file_name(path) {
        Some(name) => match split_name(name.as_str()).1 {
            Some(ext) => ext,
            None => String::new(),
        },
        None => String::new(),
    }
}

/// The stem of the file a path names, or the empty string if the path has no
/// file name.
pub fn file_stem(path: &str) -> (r: String)
    ensures
        r@ == stem_or_empty(path@),
{
    match file_name(path) {
        Some(name) => split_name(name.as_str()).0,
        None => String::new(),
    }
}

/// The file name of a path, or the empty string if it has none.
pub fn base_name(path: &str) -> (r: String)
    ensures
        r@ == file_name_or_empty(path@),
{
    match file_name(path) {
        Some(name) => name,
        None => String::new(),
    }
}

} // verus!
