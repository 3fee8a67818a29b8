//! Names in paths. On Windows both separators count, and a path may start with
//! a drive or a network share.
use crate::table::{last_where, lemma_last_where_is, lemma_last_where_none};
use crate::text::{
    chars_of, lower_text, pieces, same_text, split, string_of_range, to_ascii_lowercase,
};
use vstd::prelude::*;
use vstd::string::*;

verus! {

/// The path with every separator a forward slash.
pub open spec fn slashed(path: Seq<char>) -> Seq<char> {
    Seq::new(
        path.len(),
        |i: int|
            if path[i] == '\\' {
                '/'
            } else {
                path[i]
            },
    )
}

/// The path with every separator a backslash.
pub open spec fn backslashed(path: Seq<char>) -> Seq<char> {
    Seq::new(
        path.len(),
        |i: int|
            if path[i] == '/' {
                '\\'
            } else {
                path[i]
            },
    )
}

fn with_separator(path: &str, from: char, to: char) -> (r: String)
    ensures
        r@ == Seq::new(
            path@.len(),
            |i: int|
                if path@[i] == from {
                    to
                } else {
                    path@[i]
                },
        ),
{
    let chars = chars_of(path);
    let ghost whole = Seq::new(
        path@.len(),
        |i: int|
            if path@[i] == from {
                to
            } else {
                path@[i]
            },
    );
    let mut out = String::new();
    let mut i: usize = 0;
    while i < chars.len()
        invariant
            i <= chars@.len(),
            chars@ == path@,
            out@ == whole.take(i as int),
            whole == Seq::new(
                path@.len(),
                |i: int|
                    if path@[i] == from {
                        to
                    } else {
                        path@[i]
                    },
            ),
        decreases chars@.len() - i,
    {
        let c = chars[i];
        out.push(
            if c == from {
                to
            } else {
                c
            },
        );
        i += 1;
        assert(out@ =~= whole.take(i as int));
    }
    assert(whole.take(i as int) =~= whole);
    out
}

pub fn to_slashes(path: &str) -> (r: String)
    ensures
        r@ == slashed(path@),
{
    let r = with_separator(path, '\\', '/');
    assert(r@ =~= slashed(path@));
    r
}

pub fn to_backslashes(path: &str) -> (r: String)
    ensures
        r@ == backslashed(path@),
{
    let r = with_separator(path, '/', '\\');
    assert(r@ =~= backslashed(path@));
    r
}

/// The parts of a path between separators.
pub open spec fn path_pieces(path: Seq<char>) -> Seq<Seq<char>> {
    pieces(slashed(path), '/')
}

/// A part that names something: not empty and not the current directory.
pub open spec fn naming_piece() -> spec_fn(Seq<char>) -> bool {
    |p: Seq<char>| p.len() > 0 && p != "."@
}

/// Whether a path starts with a drive letter and its colon.
pub open spec fn has_drive(p: Seq<char>) -> bool {
    p.len() >= 2 && p[1] == ':' && ('a' <= p[0] <= 'z' || 'A' <= p[0] <= 'Z')
}

/// A drive letter with its colon.
pub open spec fn is_drive(p: Seq<char>) -> bool {
    p.len() == 2 && has_drive(p)
}

pub(crate) fn starts_with_drive(chars: &[char]) -> (r: bool)
    ensures
        r == has_drive(chars@),
{
    chars.len() >= 2 && chars[1] == ':' && (('a' <= chars[0] && chars[0] <= 'z') || ('A'
        <= chars[0] && chars[0] <= 'Z'))
}

/// Whether a character separates the names in a path.
pub open spec fn separates(c: char, windows: bool) -> bool {
    c == '/' || (windows && c == '\\')
}

pub(crate) fn is_separator(c: char, windows: bool) -> (r: bool)
    ensures
        r == separates(c, windows),
{
    c == '/' || (windows && c == '\\')
}

/// Where the next separator from `i` on stands, or the length.
pub open spec fn next_separator(path: Seq<char>, i: int, windows: bool) -> int
    decreases path.len() - i,
{
    if i < 0 || i >= path.len() {
        path.len() as int
    } else if separates(path[i], windows) {
        i
    } else {
        next_separator(path, i + 1, windows)
    }
}

pub(crate) fn find_separator(chars: &[char], from: usize, windows: bool) -> (r: usize)
    requires
        from <= chars@.len(),
    ensures
        r == next_separator(chars@, from as int, windows),
        from <= r <= chars@.len(),
{
    let mut i: usize = from;
    while i < chars.len()
        invariant
            from <= i <= chars@.len(),
            next_separator(chars@, from as int, windows) == next_separator(
                chars@,
                i as int,
                windows,
            ),
        decreases chars@.len() - i,
    {
        if is_separator(chars[i], windows) {
            return i;
        }
        i += 1;
    }
    i
}

/// Whether a server and, behind another separator, a share are named behind
/// the first two characters.
#[verifier::opaque]
pub open spec fn names_share(p: Seq<char>) -> bool {
    let server = next_separator(p, 2, true);
    2 < server < p.len() && next_separator(p, server + 1, true) > server + 1
}

/// Whether a path starts with a network share: two separators, the name of a
/// server, and that of a share.
pub open spec fn has_share(p: Seq<char>) -> bool {
    p.len() >= 2 && separates(p[0], true) && separates(p[1], true) && names_share(p)
}

pub(crate) fn starts_with_share(chars: &[char]) -> (r: bool)
    ensures
        r == has_share(chars@),
{
    let n: usize = chars.len();
    if n < 2 || !is_separator(chars[0], true) || !is_separator(chars[1], true) {
        return false;
    }
    proof {
        reveal(names_share);
    }
    let server: usize = find_separator(chars, 2, true);
    server > 2 && server < n && find_separator(chars, server + 1, true) > server + 1
}

/// The path behind its drive.
pub open spec fn behind_drive(path: Seq<char>, windows: bool) -> Seq<char> {
    if windows && has_drive(path) {
        path.skip(2)
    } else {
        path
    }
}

/// The parts of a path between the separators of its system.
pub open spec fn path_parts(path: Seq<char>, windows: bool) -> Seq<Seq<char>> {
    if windows {
        path_pieces(path)
    } else {
        pieces(path, '/')
    }
}

pub(crate) fn split_path(path: &str, windows: bool) -> (r: Vec<String>)
    ensures
        r.deep_view() == path_parts(path@, windows),
{
    if windows {
        let clean = to_slashes(path);
        split(clean.as_str(), '/')
    } else {
        split(path, '/')
    }
}

/// The last name in a path; none for the parent directory, a bare drive or
/// share, or a path without names.
pub open spec fn name_in_path(path: Seq<char>, windows: bool) -> Option<Seq<char>> {
    let parts = path_parts(behind_drive(path, windows), windows);
    match last_where(parts, naming_piece()) {
        Some(i) => if parts[i] == ".."@ || (windows && has_share(path) && i < 4) {
            None
        } else {
            Some(parts[i])
        },
        None => None,
    }
}

pub fn file_name(path: &str, windows: bool) -> (r: Option<String>)
    ensures
        r.deep_view() == name_in_path(path@, windows),
{
    let chars = chars_of(path);
    let share = windows && starts_with_share(&chars);
    let rest: String = if windows && starts_with_drive(&chars) {
        let rest = string_of_range(&chars, 2, chars.len());
        assert(rest@ =~= path@.skip(2));
        rest
    } else {
        path.to_owned()
    };
    let parts = split_path(rest.as_str(), windows);
    let ghost all = path_parts(behind_drive(path@, windows), windows);
    let mut i: usize = parts.len();
    while i > 0
        invariant
            i <= parts@.len(),
            all == path_parts(behind_drive(path@, windows), windows),
            parts.deep_view() == all,
            share == (windows && has_share(path@)),
            forall|j: int| i <= j < all.len() ==> !naming_piece()(#[trigger] all[j]),
        decreases i,
    {
        i -= 1;
        let part = &parts[i];
        assert(all[i as int] == part@);
        if !part.as_str().is_empty() && !same_text(part.as_str(), ".") {
            proof {
                lemma_last_where_is(all, naming_piece(), i as int);
            }
            if same_text(part.as_str(), "..") || (share && i < 4) {
                return None;
            }
            return Some(part.clone());
        }
    }
    proof {
        lemma_last_where_none(all, naming_piece());
    }
    None
}

/// The part of a name after its last dot; none without a dot, or when the only
/// dot starts the name.
pub open spec fn extension_of_name(name: Seq<char>) -> Option<Seq<char>> {
    match last_where(name, |c: char| c == '.') {
        Some(i) => if i > 0 {
            Some(name.skip(i + 1))
        } else {
            None
        },
        None => None,
    }
}

/// The extension of the last name in a path.
pub open spec fn extension_in_path(path: Seq<char>, windows: bool) -> Option<Seq<char>> {
    match name_in_path(path, windows) {
        Some(name) => extension_of_name(name),
        None => None,
    }
}

pub fn extension(path: &str, windows: bool) -> (r: Option<String>)
    ensures
        r.deep_view() == extension_in_path(path@, windows),
{
    let name = match file_name(path, windows) {
        Some(name) => name,
        None => return None,
    };
    let chars = chars_of(name.as_str());
    let ghost dot = |c: char| c == '.';
    let mut i: usize = chars.len();
    while i > 0
        invariant
            i <= chars@.len(),
            chars@ == name@,
            name_in_path(path@, windows) == Some(name@),
            dot == (|c: char| c == '.'),
            forall|j: int| i <= j < name@.len() ==> !dot(#[trigger] name@[j]),
        decreases i,
    {
        i -= 1;
        if chars[i] == '.' {
            proof {
                lemma_last_where_is(name@, dot, i as int);
            }
            if i == 0 {
                return None;
            }
            let r = string_of_range(&chars, i + 1, chars.len());
            assert(r@ =~= name@.skip(i as int + 1));
            return Some(r);
        }
    }
    proof {
        lemma_last_where_none(name@, dot);
    }
    None
}

/// Whether two texts differ at most in the case of ASCII letters.
pub open spec fn same_ignoring_case(a: Seq<char>, b: Seq<char>) -> bool {
    lower_text(a) == lower_text(b)
}

pub fn eq_ignore_ascii_case(a: &str, b: &str) -> (r: bool)
    ensures
        r == same_ignoring_case(a@, b@),
{
    let x = to_ascii_lowercase(a);
    let y = to_ascii_lowercase(b);
    same_text(x.as_str(), y.as_str())
}

} // verus!
