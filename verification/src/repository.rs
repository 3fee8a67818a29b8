//! A project's repository: its remote, its files, and what an inspection
//! comes to.
use crate::git::{changes_of, git_status_of, lossy_text, parse_status, read_git_status, text_of_bytes};
use crate::json::{array, object, Json, JsonView};
use crate::json_text::{canonical, compact_json, write_json_line};
use crate::markdown_lines::{strip_ends, without_end, without_start};
use crate::order::{lemma_insert_by, sorted_by, text_before};
use crate::path::{
    has_share, is_separator, path_parts, separates, split_path, starts_with_share,
};
use crate::store_path::{find_volume_length, volume_length};
use crate::text::{
    after_prefix, begins, cat3, chars_of, first_char, lemma_first_char, lemma_first_char_is,
    pieces, replace, replaced, same_text, split, starts_with, string_of, string_of_range,
    strip_prefix, text_less,
    trim, trimmed, is_space, trimmed_end, trimmed_start,
};
use crate::workspace::{
    GitChange, GitChangeView, GitStatus, WorkspaceSnapshot, WorkspaceSnapshotView,
};
use vstd::prelude::*;
use vstd::string::*;
use vstd::utf8::encode_utf8;

verus! {

/// The part of a remote behind the host, for the forms that GitHub knows.
pub open spec fn github_path(remote: Seq<char>) -> Option<Seq<char>> {
    match after_prefix(remote, "git@github.com:"@) {
        Some(p) => Some(p),
        None => match after_prefix(remote, "ssh://git@github.com/"@) {
            Some(p) => Some(p),
            None => match after_prefix(remote, "ssh://github.com/"@) {
                Some(p) => Some(p),
                None => match after_prefix(remote, "https://github.com/"@) {
                    Some(p) => Some(p),
                    None => after_prefix(remote, "http://github.com/"@),
                },
            },
        },
    }
}

/// The address of a GitHub repository over HTTPS; none for a remote that does
/// not name an owner and a repository there.
pub open spec fn https_remote(remote: Seq<char>) -> Option<Seq<char>> {
    match github_path(trimmed(remote)) {
        Some(path) => {
            let segments = pieces(without_end(without_start(path, '/'), '/'), '/');
            if segments.len() == 2 && segments[0].len() > 0 && segments[1].len() > 0 {
                Some("https://github.com/"@ + segments[0] + "/"@ + segments[1])
            } else {
                None
            }
        },
        None => None,
    }
}

fn strip_host(remote: &str) -> (r: Option<String>)
    ensures
        r.deep_view() == github_path(remote@),
{
    match strip_prefix(remote, "git@github.com:") {
        Some(p) => return Some(p),
        None => {},
    }
    match strip_prefix(remote, "ssh://git@github.com/") {
        Some(p) => return Some(p),
        None => {},
    }
    match strip_prefix(remote, "ssh://github.com/") {
        Some(p) => return Some(p),
        None => {},
    }
    match strip_prefix(remote, "https://github.com/") {
        Some(p) => return Some(p),
        None => {},
    }
    strip_prefix(remote, "http://github.com/")
}

pub fn github_https_remote(remote: &str) -> (r: Option<String>)
    ensures
        r.deep_view() == https_remote(remote@),
{
    let path = match strip_host(trim(remote).as_str()) {
        Some(path) => path,
        None => return None,
    };
    let inner = string_of(&strip_ends(&chars_of(path.as_str()), true, '/'));
    let segments = split(inner.as_str(), '/');
    let ghost views = segments.deep_view();
    if segments.len() == 2 {
        assert(views[0] == segments@[0]@ && views[1] == segments@[1]@);
        if !segments[0].as_str().is_empty() && !segments[1].as_str().is_empty() {
            let mut r = cat3("https://github.com/", segments[0].as_str(), "/");
            r.append(segments[1].as_str());
            return Some(r);
        }
    }
    None
}

proof fn lemma_pieces_hold_no_separator(s: Seq<char>, c: char, i: int)
    requires
        0 <= i < pieces(s, c).len(),
    ensures
        forall|j: int| 0 <= j < pieces(s, c)[i].len() ==> pieces(s, c)[i][j] != c,
    decreases s.len(),
{
    lemma_first_char(s, c);
    let n = first_char(s, c);
    if n < s.len() {
        let rest = pieces(s.skip(n + 1), c);
        assert(pieces(s, c) == seq![s.take(n)] + rest);
        if i > 0 {
            lemma_pieces_hold_no_separator(s.skip(n + 1), c, i - 1);
            assert(pieces(s, c)[i] == rest[i - 1]);
        }
    }
}

proof fn lemma_two_pieces(a: Seq<char>, b: Seq<char>, c: char)
    requires
        forall|j: int| 0 <= j < a.len() ==> a[j] != c,
        forall|j: int| 0 <= j < b.len() ==> b[j] != c,
    ensures
        pieces(a + seq![c] + b, c) == seq![a, b],
{
    let s = a + seq![c] + b;
    lemma_first_char_is(s, c, a.len() as int);
    assert(s.take(a.len() as int) =~= a);
    assert(s.skip(a.len() as int + 1) =~= b);
    lemma_first_char_is(b, c, b.len() as int);
    assert(pieces(b, c) =~= seq![b]);
    assert(pieces(s, c) =~= seq![a, b]);
}

/// An address over HTTPS stays as it is, unless the name of its repository
/// ends in white space.
pub proof fn lemma_https_remote_is_stable(remote: Seq<char>)
    requires
        https_remote(remote) is Some,
        !is_space(https_remote(remote)->0.last()),
    ensures
        https_remote(https_remote(remote)->0) == https_remote(remote),
{
    let path = github_path(trimmed(remote))->0;
    let inner = without_end(without_start(path, '/'), '/');
    let segments = pieces(inner, '/');
    let owner = segments[0];
    let name = segments[1];
    lemma_pieces_hold_no_separator(inner, '/', 0);
    lemma_pieces_hold_no_separator(inner, '/', 1);
    reveal_strlit("https://github.com/");
    reveal_strlit("/");
    reveal_strlit("git@github.com:");
    reveal_strlit("ssh://git@github.com/");
    reveal_strlit("ssh://github.com/");
    let host = "https://github.com/"@;
    let out = host + owner + "/"@ + name;
    assert(out.last() == name.last());
    assert(out[0] == 'h');
    assert(trimmed_start(out) == out);
    assert(trimmed_end(out) == out);
    let tail = owner + seq!['/'] + name;
    assert(out =~= host + tail);
    assert(out.take(host.len() as int) =~= host);
    assert(out.skip(host.len() as int) =~= tail);
    assert(!begins(out, "git@github.com:"@)) by {
        assert(out.take("git@github.com:"@.len() as int)[0] == 'h');
        assert("git@github.com:"@[0] == 'g');
    }
    assert(!begins(out, "ssh://git@github.com/"@)) by {
        assert(out.take("ssh://git@github.com/"@.len() as int)[0] == 'h' || out.len()
            < "ssh://git@github.com/"@.len());
        assert("ssh://git@github.com/"@[0] == 's');
    }
    assert(!begins(out, "ssh://github.com/"@)) by {
        assert(out.take("ssh://github.com/"@.len() as int)[0] == 'h');
        assert("ssh://github.com/"@[0] == 's');
    }
    assert(github_path(out) == Some(tail));
    assert(tail[0] == owner[0]);
    assert(without_start(tail, '/') == tail);
    assert(tail.last() == name.last());
    assert(name.last() != '/');
    assert(without_end(tail, '/') == tail);
    lemma_two_pieces(owner, name, '/');
}

/// Names that are not listed: hidden ones and build outputs.
pub open spec fn is_listed(name: Seq<char>) -> bool {
    !begins(name, "."@) && name != "target"@ && name != "node_modules"@
}

pub fn is_listed_name(name: &str) -> (r: bool)
    ensures
        r == is_listed(name@),
{
    !starts_with(name, ".") && !same_text(name, "target") && !same_text(name, "node_modules")
}

/// The names in a relative path. A current directory counts only at its start.
pub open spec fn names_in(parts: Seq<Seq<char>>) -> Seq<Seq<char>>
    decreases parts.len(),
{
    if parts.len() == 0 {
        parts
    } else {
        let before = names_in(parts.drop_last());
        if parts.last().len() == 0 || (parts.len() > 1 && parts.last() == "."@) {
            before
        } else {
            before.push(parts.last())
        }
    }
}

/// The parts that a path has before its names: a drive or a share, and the root
/// behind it, which a share has in any case.
pub open spec fn parts_before_names(path: Seq<char>, windows: bool) -> nat {
    let volume = volume_length(path, windows);
    let drive = if volume > 0 {
        1nat
    } else {
        0
    };
    let root = if (windows && has_share(path)) || (volume < path.len() && separates(
        path[volume],
        windows,
    )) {
        1nat
    } else {
        0
    };
    drive + root
}

/// Whether a file is listed: at most seven parts deep, every name a listed one.
pub open spec fn path_is_visible(path: Seq<char>, windows: bool) -> bool {
    let names = names_in(path_parts(path.skip(volume_length(path, windows)), windows));
    &&& names.len() + parts_before_names(path, windows) <= 7
    &&& forall|i: int| 0 <= i < names.len() ==> is_listed(#[trigger] names[i])
}

pub fn visible_relative_path(path: &str, windows: bool) -> (r: bool)
    ensures
        r == path_is_visible(path@, windows),
{
    let chars = chars_of(path);
    let n: usize = chars.len();
    let volume: usize = find_volume_length(&chars, windows);
    let rest = string_of_range(&chars, volume, n);
    assert(rest@ =~= path@.skip(volume as int));
    let parts = split_path(rest.as_str(), windows);
    let ghost views = parts.deep_view();
    let rooted = (windows && starts_with_share(&chars)) || (volume < n && is_separator(
        chars[volume],
        windows,
    ));
    let mut root: usize = 0;
    if volume > 0 {
        root += 1;
    }
    if rooted {
        root += 1;
    }
    let mut count: usize = 0;
    let mut hidden = false;
    let mut i: usize = 0;
    while i < parts.len()
        invariant
            i <= parts@.len(),
            views == parts.deep_view(),
            count == names_in(views.take(i as int)).len(),
            count <= i,
            hidden == exists|j: int|
                0 <= j < names_in(views.take(i as int)).len() && !is_listed(
                    #[trigger] names_in(views.take(i as int))[j],
                ),
        decreases parts@.len() - i,
    {
        let ghost before = names_in(views.take(i as int));
        proof {
            assert(views.take(i as int + 1).drop_last() =~= views.take(i as int));
            assert(views.take(i as int + 1).last() == parts@[i as int]@);
        }
        let part = parts[i].as_str();
        if !(part.is_empty() || (i > 0 && same_text(part, "."))) {
            let listed = is_listed_name(part);
            proof {
                let after = names_in(views.take(i as int + 1));
                assert(after == before.push(part@));
                assert(after[before.len() as int] == part@);
                assert forall|j: int| 0 <= j < before.len() implies after[j] == before[j] by {
                }
                if hidden {
                    let j = choose|j: int| 0 <= j < before.len() && !is_listed(#[trigger] before[j]);
                    assert(after[j] == before[j]);
                }
            }
            count += 1;
            hidden = hidden || !listed;
        }
        i += 1;
    }
    assert(views.take(i as int) =~= views);
    !hidden && count <= 7 && count + root <= 7
}

/// Whether a walk through the file system goes into a directory: not deeper
/// than six levels, and not once five hundred files are found.
pub fn walk_enters(depth: usize, found: usize) -> (r: bool)
    ensures
        r == (depth <= 6 && found < 500),
{
    depth <= 6 && found < 500
}

/// The separator that the system writes.
pub open spec fn own_separator(windows: bool) -> Seq<char> {
    if windows {
        "\\"@
    } else {
        "/"@
    }
}

/// The listed files among paths, with the separator of the system.
pub open spec fn listed_files(paths: Seq<Seq<char>>, windows: bool) -> Seq<Seq<char>>
    decreases paths.len(),
{
    if paths.len() == 0 {
        paths
    } else {
        let before = listed_files(paths.drop_last(), windows);
        if paths.last().len() > 0 && path_is_visible(paths.last(), windows) {
            before.push(replaced(paths.last(), "/"@, own_separator(windows)))
        } else {
            before
        }
    }
}

/// Reads the list of files that Git prints with zero bytes between them.
pub fn read_file_list(output: &[u8], windows: bool) -> (r: Vec<String>)
    ensures
        r.deep_view() == listed_files(pieces(lossy_text(output@), '\0'), windows),
{
    let text = text_of_bytes(output);
    let all = split(text.as_str(), '\0');
    let ghost views = all.deep_view();
    let mut out: Vec<String> = Vec::new();
    let mut i: usize = 0;
    proof {
        reveal_strlit("/");
    }
    assert(out.deep_view() =~= listed_files(views.take(0), windows));
    while i < all.len()
        invariant
            i <= all@.len(),
            "/"@.len() > 0,
            views == all.deep_view(),
            out.deep_view() == listed_files(views.take(i as int), windows),
        decreases all@.len() - i,
    {
        assert(views.take(i as int + 1).drop_last() =~= views.take(i as int));
        assert(views.take(i as int + 1).last() == all@[i as int]@);
        let path = all[i].as_str();
        if !path.is_empty() && visible_relative_path(path, windows) {
            let ghost before = out.deep_view();
            let file = if windows {
                replace(path, "/", "\\")
            } else {
                replace(path, "/", "/")
            };
            let ghost view = file@;
            out.push(file);
            assert(out.deep_view() =~= before.push(view));
        }
        i += 1;
    }
    assert(views.take(i as int) =~= views);
    out
}

/// The order of texts.
pub open spec fn text_order() -> spec_fn(Seq<char>, Seq<char>) -> bool {
    |a: Seq<char>, b: Seq<char>| text_less(a, b)
}

/// The first five hundred of the files in order.
pub open spec fn first_files(files: Seq<Seq<char>>) -> Seq<Seq<char>> {
    let all = sorted_by(files, text_order());
    if all.len() > 500 {
        all.take(500)
    } else {
        all
    }
}

fn sort_texts(all: Vec<String>) -> (r: Vec<String>)
    ensures
        r.deep_view() == sorted_by(all.deep_view(), text_order()),
{
    let ghost views = all.deep_view();
    let ghost less = text_order();
    let mut out: Vec<String> = Vec::new();
    let mut i: usize = 0;
    assert(out.deep_view() =~= sorted_by(views.take(0), less));
    while i < all.len()
        invariant
            i <= all@.len(),
            views == all.deep_view(),
            less == text_order(),
            out.deep_view() == sorted_by(views.take(i as int), less),
        decreases all@.len() - i,
    {
        let ghost sorted = out.deep_view();
        let mut at: usize = out.len();
        while at > 0 && text_before(all[i].as_str(), out[at - 1].as_str())
            invariant
                i < all@.len(),
                at <= out@.len(),
                views == all.deep_view(),
                less == text_order(),
                sorted == out.deep_view(),
                forall|j: int| at <= j < sorted.len() ==> less(views[i as int], #[trigger] sorted[j]),
            decreases at,
        {
            assert(sorted[at - 1] == out@[at - 1]@);
            at -= 1;
        }
        proof {
            if at > 0 {
                assert(sorted[at - 1] == out@[at - 1]@);
            }
            lemma_insert_by(sorted, views[i as int], less, at as int);
            assert(views.take(i as int + 1).drop_last() =~= views.take(i as int));
        }
        out.insert(at, all[i].clone());
        assert(out.deep_view() =~= sorted.insert(at as int, views[i as int]));
        i += 1;
    }
    assert(views.take(i as int) =~= views);
    out
}

fn take_first_files(files: Vec<String>) -> (r: Vec<String>)
    ensures
        r.deep_view() == first_files(files.deep_view()),
{
    let mut all = sort_texts(files);
    let ghost sorted = all.deep_view();
    if all.len() > 500 {
        all.truncate(500);
        assert(all.deep_view() =~= sorted.take(500));
    }
    all
}

/// A change as JSON.
pub open spec fn change_json(change: GitChangeView) -> JsonView {
    JsonView::Object(seq![
        ("index"@, JsonView::Text(seq![change.index])),
        ("worktree"@, JsonView::Text(seq![change.worktree])),
        ("path"@, JsonView::Text(change.path)),
        ("original_path"@, crate::json::optional_text_view(change.original_path)),
    ])
}

pub open spec fn changes_json(changes: Seq<GitChangeView>) -> JsonView {
    JsonView::Array(Seq::new(changes.len(), |i: int| change_json(changes[i])))
}

fn letter(c: char) -> (r: Json)
    ensures
        r.deep_view() == JsonView::Text(seq![c]),
{
    let mut t = String::new();
    t.push(c);
    assert(t@ =~= seq![c]);
    Json::Text(t)
}

fn make_changes_json(changes: &Vec<GitChange>) -> (r: Json)
    ensures
        r.deep_view() == changes_json(changes.deep_view()),
{
    let mut out: Vec<Json> = Vec::new();
    let mut i: usize = 0;
    while i < changes.len()
        invariant
            i <= changes@.len(),
            out@.len() == i,
            forall|j: int|
                0 <= j < i ==> (#[trigger] out@[j]).deep_view() == change_json(
                    changes@[j].deep_view(),
                ),
        decreases changes@.len() - i,
    {
        let change = &changes[i];
        let entry = object(
            vec![
                ("index".to_owned(), letter(change.index)),
                ("worktree".to_owned(), letter(change.worktree)),
                ("path".to_owned(), Json::text(change.path.as_str())),
                ("original_path".to_owned(), Json::optional_text(&change.original_path)),
            ],
        );
        assert(entry.deep_view()->Object_0 =~= change_json(change.deep_view())->Object_0);
        out.push(entry);
        i += 1;
    }
    assert(out.deep_view() =~= changes_json(changes.deep_view())->Array_0);
    array(out)
}

/// What was found out about a workspace.
pub struct Inspection {
    /// Whether Git could be started.
    pub installed: bool,
    /// The short status with the branch, if there is a repository.
    pub status: Option<String>,
    /// The status with zero bytes, if it could be had.
    pub porcelain: Option<Vec<u8>>,
    /// The files that Git lists, if it could list them.
    pub listed: Option<Vec<u8>>,
    /// The files that a walk through the directory found.
    pub walked: Vec<String>,
    /// The address of the remote `origin`, if there is one.
    pub origin: Option<String>,
    /// Whether the GitHub tool is signed in.
    pub github_configured: bool,
}

/// The changes that were found.
pub open spec fn changes_found(i: Inspection) -> Seq<GitChangeView> {
    match (i.status, i.porcelain) {
        (Some(_), Some(bytes)) => changes_of(bytes@),
        _ => Seq::empty(),
    }
}

/// The files that were found: those that Git lists when ignored files are left
/// out, else those of the walk.
pub open spec fn files_found(i: Inspection, respect_gitignore: bool, windows: bool) -> Seq<
    Seq<char>,
> {
    match (i.status, i.listed) {
        (Some(_), Some(bytes)) => if respect_gitignore {
            listed_files(pieces(lossy_text(bytes@), '\0'), windows)
        } else {
            i.walked.deep_view()
        },
        _ => i.walked.deep_view(),
    }
}

/// Puts together what was found out about a workspace. The changes go into the
/// snapshot as one line of JSON.
pub fn summarize_inspection(found: Inspection, respect_gitignore: bool, windows: bool) -> (r:
    WorkspaceSnapshot)
    ensures
        encode_utf8(r.diff@) == compact_json(canonical(changes_json(changes_found(found)))),
        r.deep_view().files == first_files(files_found(found, respect_gitignore, windows)),
        r.git == git_status_of(
            found.installed,
            found.status.deep_view(),
            changes_found(found).len() > 0,
            found.origin.deep_view(),
            found.github_configured,
        ),
{
    let ghost all = found;
    let changes = match (&found.status, &found.porcelain) {
        (Some(_), Some(bytes)) => parse_status(bytes),
        _ => Vec::new(),
    };
    assert(changes.deep_view() =~= changes_found(all));
    let git = read_git_status(
        found.installed,
        &found.status,
        changes.len() > 0,
        &found.origin,
        found.github_configured,
    );
    let files = match (&found.status, &found.listed) {
        (Some(_), Some(bytes)) => if respect_gitignore {
            read_file_list(bytes, windows)
        } else {
            found.walked
        },
        _ => found.walked,
    };
    WorkspaceSnapshot {
        diff: write_json_line(&make_changes_json(&changes)),
        files: take_first_files(files),
        git,
    }
}

/// What is known without a project: whether the tools are there.
pub fn empty_snapshot(git_installed: bool, github_configured: bool) -> (r: WorkspaceSnapshot)
    ensures
        r.deep_view() == (WorkspaceSnapshotView {
            diff: Seq::empty(),
            files: Seq::empty(),
            git: GitStatus {
                installed: git_installed,
                github_configured,
                ..crate::state::no_git_status()
            },
        }),
{
    let mut git = GitStatus::default();
    git.installed = git_installed;
    git.github_configured = github_configured;
    let r = WorkspaceSnapshot { diff: String::new(), files: Vec::new(), git };
    assert(r.files.deep_view() =~= Seq::empty());
    r
}

} // verus!
