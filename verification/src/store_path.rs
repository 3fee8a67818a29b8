//! Where files stand: joining paths, and the paths beside a path.
use crate::path::{
    find_separator, has_drive, has_share, is_drive, is_separator, names_share, next_separator,
    separates, starts_with_drive, starts_with_share,
};
use crate::text::{cat, cat3, chars_of, same_text, string_of_range};
use vstd::prelude::*;
use vstd::string::*;

verus! {

/// A path that does not depend on the current directory.
pub open spec fn absolute(path: Seq<char>, windows: bool) -> bool {
    if windows {
        (has_drive(path) && path.len() >= 3 && separates(path[2], windows)) || has_share(path)
    } else {
        path.len() > 0 && path[0] == '/'
    }
}

pub fn is_absolute(path: &str, windows: bool) -> (r: bool)
    ensures
        r == absolute(path@, windows),
{
    let chars = chars_of(path);
    let n: usize = chars.len();
    if windows {
        (starts_with_drive(&chars) && n >= 3 && is_separator(chars[2], windows))
            || starts_with_share(&chars)
    } else {
        n > 0 && chars[0] == '/'
    }
}

/// Whether a name can follow a path without a separator between them.
pub open spec fn takes_name(base: Seq<char>, windows: bool) -> bool {
    base.len() == 0 || separates(base.last(), windows) || (windows && is_drive(base))
}

/// Whether a path stands for itself behind any other: it is absolute, or names
/// a drive.
pub open spec fn stands_alone(path: Seq<char>, windows: bool) -> bool {
    absolute(path, windows) || (windows && has_drive(path))
}

/// The length of the drive or the share that a path starts with.
pub open spec fn volume_length(path: Seq<char>, windows: bool) -> int {
    if windows && has_drive(path) {
        2
    } else if windows && has_share(path) {
        next_separator(path, next_separator(path, 2, windows) + 1, windows)
    } else {
        0
    }
}

pub(crate) fn find_volume_length(chars: &[char], windows: bool) -> (r: usize)
    ensures
        r == volume_length(chars@, windows),
        r <= chars@.len(),
{
    if windows && starts_with_drive(chars) {
        2
    } else if windows && starts_with_share(chars) {
        let n: usize = chars.len();
        proof {
            reveal(names_share);
            assert(next_separator(chars@, 2, true) < n);
        }
        let server: usize = find_separator(chars, 2, windows);
        find_separator(chars, server + 1, windows)
    } else {
        0
    }
}

/// A path followed by another: one that stands alone is the whole path, one
/// that starts at a root keeps only the drive or share of the first.
pub open spec fn joined_path(base: Seq<char>, name: Seq<char>, windows: bool) -> Seq<char> {
    if stands_alone(name, windows) {
        name
    } else if windows && name.len() > 0 && separates(name[0], windows) {
        base.take(volume_length(base, windows)) + name
    } else if takes_name(base, windows) {
        base + name
    } else if windows {
        base + "\\"@ + name
    } else {
        base + "/"@ + name
    }
}

pub fn join_path(base: &str, name: &str, windows: bool) -> (r: String)
    ensures
        r@ == joined_path(base@, name@, windows),
{
    let name_chars = chars_of(name);
    if is_absolute(name, windows) || (windows && starts_with_drive(&name_chars)) {
        return name.to_owned();
    }
    let chars = chars_of(base);
    let n: usize = chars.len();
    if windows && name_chars.len() > 0 && is_separator(name_chars[0], windows) {
        let volume: usize = find_volume_length(&chars, windows);
        let front = string_of_range(&chars, 0, volume);
        assert(front@ =~= base@.take(volume as int));
        return cat(front.as_str(), name);
    }
    if n == 0 || is_separator(chars[n - 1], windows) || (windows && n == 2 && starts_with_drive(
        &chars,
    )) {
        cat(base, name)
    } else if windows {
        cat3(base, "\\", name)
    } else {
        cat3(base, "/", name)
    }
}

/// The length of a path without the separators and current directories at its
/// end.
pub open spec fn bare_length(path: Seq<char>, windows: bool) -> int
    decreases path.len(),
{
    if path.len() > 0 && (separates(path.last(), windows) || (path.len() >= 2 && path.last() == '.'
        && separates(path[path.len() - 2], windows))) {
        bare_length(path.drop_last(), windows)
    } else {
        path.len() as int
    }
}

/// Where the last name in a path starts: behind the last separator, or behind
/// the drive.
pub open spec fn name_start(path: Seq<char>, windows: bool) -> int
    decreases path.len(),
{
    if path.len() == 0 || separates(path.last(), windows) || (windows && is_drive(path)) {
        path.len() as int
    } else {
        name_start(path.drop_last(), windows)
    }
}

fn find_bare_length(chars: &[char], end: usize, windows: bool) -> (r: usize)
    requires
        end <= chars@.len(),
    ensures
        r == bare_length(chars@.take(end as int), windows),
        r <= end,
{
    let mut i: usize = end;
    while i > 0
        invariant
            i <= end <= chars@.len(),
            bare_length(chars@.take(end as int), windows) == bare_length(
                chars@.take(i as int),
                windows,
            ),
        decreases i,
    {
        proof {
            assert(chars@.take(i as int).drop_last() =~= chars@.take(i as int - 1));
            assert(chars@.take(i as int).last() == chars@[i as int - 1]);
        }
        if !is_separator(chars[i - 1], windows) && !(i >= 2 && chars[i - 1] == '.' && is_separator(
            chars[i - 2],
            windows,
        )) {
            return i;
        }
        i -= 1;
    }
    0
}

fn find_name_start(chars: &[char], end: usize, windows: bool) -> (r: usize)
    requires
        end <= chars@.len(),
    ensures
        r == name_start(chars@.take(end as int), windows),
        r <= end,
{
    let mut i: usize = end;
    while i > 0
        invariant
            i <= end <= chars@.len(),
            name_start(chars@.take(end as int), windows) == name_start(
                chars@.take(i as int),
                windows,
            ),
        decreases i,
    {
        proof {
            assert(chars@.take(i as int).drop_last() =~= chars@.take(i as int - 1));
            assert(chars@.take(i as int).last() == chars@[i as int - 1]);
            if i >= 2 {
                assert(chars@.take(i as int)[0] == chars@[0] && chars@.take(i as int)[1]
                    == chars@[1]);
            }
        }
        if is_separator(chars[i - 1], windows) || (windows && i == 2 && starts_with_drive(chars)) {
            return i;
        }
        i -= 1;
    }
    0
}

/// The folder that a path stands in; none for a path without a name.
pub open spec fn parent_of(path: Seq<char>, windows: bool) -> Option<Seq<char>> {
    let bare = path.take(bare_length(path, windows));
    let start = name_start(bare, windows);
    let folder = bare.take(bare_length(bare.take(start), windows));
    if bare.len() == volume_length(bare, windows) {
        None
    } else if start > folder.len() && folder.len() == volume_length(bare, windows) {
        Some(bare.take(folder.len() as int + 1))
    } else {
        Some(folder)
    }
}

proof fn lemma_bounds(path: Seq<char>, windows: bool)
    ensures
        0 <= bare_length(path, windows) <= path.len(),
        0 <= name_start(path, windows) <= path.len(),
    decreases path.len(),
{
    if path.len() > 0 {
        lemma_bounds(path.drop_last(), windows);
    }
}

/// A name that a path can be followed by: not empty, without a separator, not
/// the current directory, and not one that starts with a drive.
pub open spec fn plain_name(name: Seq<char>, windows: bool) -> bool {
    &&& name.len() > 0 && name != "."@
    &&& forall|i: int| 0 <= i < name.len() ==> !separates(#[trigger] name[i], windows)
    &&& !(windows && has_drive(name))
}

proof fn lemma_name_start(front: Seq<char>, name: Seq<char>, k: int, windows: bool)
    requires
        front.len() >= 3,
        separates(front.last(), windows),
        0 <= k <= name.len(),
        forall|i: int| 0 <= i < name.len() ==> !separates(#[trigger] name[i], windows),
    ensures
        name_start(front + name.take(k), windows) == front.len(),
    decreases k,
{
    let path = front + name.take(k);
    if k == 0 {
        assert(path =~= front);
    } else {
        assert(path.last() == name[k - 1]);
        assert(path.drop_last() =~= front + name.take(k - 1));
        lemma_name_start(front, name, k - 1, windows);
    }
}

/// The folder of a name in a folder is that folder.
pub proof fn lemma_parent_of_joined(base: Seq<char>, name: Seq<char>, windows: bool)
    requires
        base.len() >= 2,
        bare_length(base, windows) == base.len(),
        !(windows && is_drive(base)),
        volume_length(joined_path(base, name, windows), windows) < base.len(),
        plain_name(name, windows),
    ensures
        parent_of(joined_path(base, name, windows), windows) == Some(base),
{
    reveal_strlit("/");
    reveal_strlit("\\");
    reveal_strlit(".");
    let path = joined_path(base, name, windows);
    let separator = if windows {
        "\\"@
    } else {
        "/"@
    };
    let front = base + separator;
    assert(!separates(name[0], windows));
    lemma_bounds(base.drop_last(), windows);
    assert(!takes_name(base, windows));
    assert(!stands_alone(name, windows));
    assert(path =~= front + name);
    assert(path.last() == name.last());
    assert(!separates(name[name.len() - 1], windows));
    if name.len() == 1 {
        assert(name[0] != '.') by {
            if name[0] == '.' {
                assert(name =~= "."@);
            }
        }
    } else {
        assert(path[path.len() - 2] == name[name.len() - 2]);
    }
    assert(bare_length(path, windows) == path.len());
    assert(path.take(path.len() as int) =~= path);
    assert(name.take(name.len() as int) =~= name);
    lemma_name_start(front, name, name.len() as int, windows);
    assert(path.take(front.len() as int) =~= front);
    assert(front.drop_last() =~= base);
    assert(separates(front.last(), windows));
    assert(bare_length(front, windows) == base.len());
    assert(path.take(base.len() as int) =~= base);
}

pub fn parent_path(path: &str, windows: bool) -> (r: Option<String>)
    ensures
        r.deep_view() == parent_of(path@, windows),
{
    let chars = chars_of(path);
    let n: usize = chars.len();
    let end: usize = find_bare_length(&chars, n, windows);
    let ghost bare = path@.take(end as int);
    let bare_chars = chars_of(string_of_range(&chars, 0, end).as_str());
    proof {
        assert(chars@.take(n as int) =~= path@);
        assert(bare_chars@ =~= bare);
    }
    let volume: usize = find_volume_length(&bare_chars, windows);
    if end == volume {
        return None;
    }
    let start: usize = find_name_start(&chars, end, windows);
    let length: usize = find_bare_length(&chars, start, windows);
    proof {
        assert(chars@.take(end as int) =~= bare);
        assert(chars@.take(start as int) =~= bare.take(start as int));
        assert(bare.take(length as int) =~= path@.take(length as int));
    }
    if start > length && length == volume {
        let r = string_of_range(&chars, 0, length + 1);
        assert(r@ =~= bare.take(length as int + 1));
        return Some(r);
    }
    let r = string_of_range(&chars, 0, length);
    assert(r@ =~= bare.take(length as int));
    Some(r)
}

/// Where the extension of a name starts: at its last dot, unless that dot is
/// the first character.
pub open spec fn stem_length(name: Seq<char>, upto: int) -> int
    decreases upto,
{
    if upto <= 1 || upto > name.len() {
        name.len() as int
    } else if name[upto - 1] == '.' {
        upto - 1
    } else {
        stem_length(name, upto - 1)
    }
}

fn find_stem_length(name: &[char]) -> (r: usize)
    ensures
        r == stem_length(name@, name@.len() as int),
        r <= name@.len(),
{
    let mut i: usize = name.len();
    while i > 1
        invariant
            i <= name@.len(),
            stem_length(name@, name@.len() as int) == stem_length(name@, i as int),
        decreases i,
    {
        if name[i - 1] == '.' {
            return i - 1;
        }
        i -= 1;
    }
    name.len()
}

/// The name without its extension.
pub(crate) fn file_stem(name: &str) -> (r: String)
    ensures
        r@ == name@.take(stem_length(name@, name@.len() as int)),
{
    let chars = chars_of(name);
    let stem: usize = find_stem_length(&chars);
    let r = string_of_range(&chars, 0, stem);
    assert(r@ =~= name@.take(stem as int));
    r
}

/// The path with another extension on its last name. A path that ends in no
/// name is unchanged.
pub open spec fn with_other_extension(path: Seq<char>, extension: Seq<char>, windows: bool) -> Seq<
    char,
> {
    let bare = path.take(bare_length(path, windows));
    let start = name_start(bare, windows);
    let name = bare.skip(start);
    if name.len() == 0 || name == ".."@ || name == "."@ || (windows && is_drive(bare)) {
        path
    } else {
        bare.take(start + stem_length(name, name.len() as int)) + "."@ + extension
    }
}

pub fn with_extension(path: &str, extension: &str, windows: bool) -> (r: String)
    ensures
        r@ == with_other_extension(path@, extension@, windows),
{
    let chars = chars_of(path);
    let n: usize = chars.len();
    let end: usize = find_bare_length(&chars, n, windows);
    let ghost bare = path@.take(end as int);
    proof {
        assert(chars@.take(n as int) =~= path@);
    }
    let start: usize = find_name_start(&chars, end, windows);
    let name = string_of_range(&chars, start, end);
    proof {
        assert(chars@.take(end as int) =~= bare);
        assert(name@ =~= bare.skip(start as int));
    }
    if name.as_str().is_empty() || same_text(name.as_str(), "..")
        || same_text(name.as_str(), ".") || (windows && end == 2 && starts_with_drive(
        &chars,
    )) {
        return path.to_owned();
    }
    let name_chars = chars_of(name.as_str());
    let stem: usize = find_stem_length(&name_chars);
    let front = string_of_range(&chars, 0, start + stem);
    proof {
        assert(front@ =~= bare.take(start + stem));
    }
    cat3(front.as_str(), ".", extension)
}

} // verus!
