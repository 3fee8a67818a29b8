//! What the inspector of a workspace shows: changed files as they stand in the
//! index and in the worktree, and the files of a project.
use crate::git::{changes_of, lossy_text, status_bytes};
use crate::json::lemma_entry_value;
use crate::order::{is_strict_order, lemma_sorted_by, lemma_text_less_strict, sorted_by};
use crate::repository::{
    change_json, changes_found, files_found, first_files, is_listed, listed_files, names_in,
    path_is_visible, text_order, Inspection,
};
use crate::text::{begins, first_char, has_text, lemma_first_char, pieces, text_less, trimmed};
use crate::workspace::GitChangeView;
use crate::workspace_view::{behind_last, change_of_line, change_of_record, change_row, destination};
use vstd::prelude::*;
use vstd::string::*;
use vstd::utf8::{
    encode_utf8, encode_utf8_decode_utf8, encode_utf8_valid_utf8, is_ascii_chars,
    is_ascii_chars_encode_utf8, is_char_boundary, is_char_boundary_iff_not_is_continuation_byte,
};

verus! {

proof fn lemma_no_arrow(s: Seq<char>, p: Seq<char>, i: int)
    requires
        !has_text(s, p),
        0 <= i <= s.len() + 1,
    ensures
        behind_last(s, p, i) is None,
    decreases i,
{
    if i > 0 {
        assert(!begins(s.skip(i - 1), p));
        lemma_no_arrow(s, p, i - 1);
    }
}

/// A changed file is listed under its own path.
proof fn lemma_path_without_arrow(raw: Seq<char>)
    requires
        !has_text(raw, " -> "@),
    ensures
        destination(raw) == raw,
{
    lemma_no_arrow(raw, " -> "@, raw.len() as int + 1);
}

proof fn lemma_arrow_at(from: Seq<char>, to: Seq<char>, i: int)
    requires
        forall|k: int| 0 <= k < to.len() ==> (#[trigger] to[k]) != '>',
        from.len() < i <= (from + " -> "@ + to).len() + 1,
    ensures
        behind_last(from + " -> "@ + to, " -> "@, i) == Some(to),
    decreases i,
{
    reveal_strlit(" -> ");
    let arrow = " -> "@;
    let s = from + arrow + to;
    let n = from.len() as int;
    assert(arrow.len() == 4 && arrow[2] == '>' && arrow[0] == ' ' && arrow[1] == '-' && arrow[3]
        == ' ');
    if i == n + 1 {
        assert(s.skip(n).take(4) =~= arrow);
        assert(s.skip(n + 4) =~= to);
    } else {
        assert(!begins(s.skip(i - 1), arrow)) by {
            if begins(s.skip(i - 1), arrow) {
                assert(s.skip(i - 1).take(4)[2] == '>');
                assert(s[i + 1] == '>');
                if i + 1 >= n + 4 {
                    assert(s[i + 1] == to[i + 1 - n - 4]);
                } else {
                    assert(s[i + 1] == arrow[i + 1 - n]);
                    assert(i + 1 - n == 3);
                }
            }
        }
        lemma_arrow_at(from, to, i - 1);
    }
}

/// What is listed of a changed file: staged is what the index holds, unstaged
/// what the worktree holds and what Git does not track, and the path is the one
/// that the file has now.
pub proof fn lemma_change_is_listed(index: char, worktree: char, path: Seq<char>)
    requires
        path.len() > 0,
        !has_text(path, " -> "@),
        index != '!' || worktree != '!',
        index == '?' <==> worktree == '?',
    ensures
        change_row(index, worktree, path) matches Some(change) && {
            &&& change.path == path
            &&& change.staged == (index != ' ' && index != '?')
            &&& change.unstaged == (worktree != ' ')
            &&& change.row.state_label == (if change.staged && change.unstaged {
                "BOTH"@
            } else if change.staged {
                "STAGED"@
            } else {
                "UNSTAGED"@
            })
            &&& index == ' ' && worktree == 'M' ==> change.row.status_label == "Modified"@
            &&& index == ' ' && worktree == 'D' ==> change.row.status_label == "Deleted"@
            &&& index == 'M' && worktree == ' ' ==> change.row.status_label == "Modified"@
            &&& index == 'A' && worktree == ' ' ==> change.row.status_label == "Added"@
            &&& index == 'D' && worktree == ' ' ==> change.row.status_label == "Deleted"@
            &&& index == '?' ==> change.row.status_label == "Untracked"@
            &&& index == 'U' && worktree == 'U' ==> change.row.status_label == "Conflict"@
            &&& index == 'C' && worktree == ' ' ==> change.row.status_label == "Copied"@
            &&& index == 'R' && worktree == ' ' ==> change.row.status_label == "Renamed"@
            &&& index == ' ' && worktree == 'T' ==> change.row.status_label == "Type changed"@
            &&& index == 'T' && worktree == ' ' ==> change.row.status_label == "Type changed"@
            &&& index == 'A' && worktree == 'A' ==> change.row.status_label == "Conflict"@
            &&& index == 'D' && worktree == 'D' ==> change.row.status_label == "Conflict"@
            &&& (index == 'U' && (worktree == 'A' || worktree == 'D')) || (worktree == 'U' && (index
                == 'A' || index == 'D')) ==> change.row.status_label == "Conflict"@
        },
{
    lemma_path_without_arrow(path);
}

/// A renamed file is listed under its new path, with the old one beside it.
pub proof fn lemma_renamed_file_is_listed(from: Seq<char>, to: Seq<char>, worktree: char)
    requires
        to.len() > 0,
        forall|k: int| 0 <= k < to.len() ==> (#[trigger] to[k]) != '>',
        worktree == ' ',
    ensures
        change_row('R', worktree, from + " -> "@ + to) matches Some(change) && {
            &&& change.path == to
            &&& change.staged && !change.unstaged
            &&& change.row.status_label == "Renamed"@
            &&& crate::text::ends(change.row.detail, from + " -> "@ + to)
        },
{
    let raw = from + " -> "@ + to;
    lemma_arrow_at(from, to, raw.len() as int + 1);
    reveal_strlit(" -> ");
    assert(has_text(raw, " -> "@)) by {
        assert(raw.skip(from.len() as int).take(4) =~= " -> "@);
        assert(begins(raw.skip(from.len() as int), " -> "@));
    }
    let change = change_row('R', worktree, raw)->0;
    let detail = change.row.detail;
    assert(detail.skip(detail.len() - raw.len()) =~= raw);
}

proof fn lemma_record_members(change: GitChangeView)
    ensures
        change_json(change).text_at("index"@) == Some(seq![change.index]),
        change_json(change).text_at("worktree"@) == Some(seq![change.worktree]),
        change_json(change).text_at("path"@) == Some(change.path),
        change_json(change).text_at("original_path"@) == change.original_path,
{
    reveal_strlit("index");
    reveal_strlit("worktree");
    reveal_strlit("path");
    reveal_strlit("original_path");
    assert("index"@.len() == 5 && "worktree"@.len() == 8 && "path"@.len() == 4
        && "original_path"@.len() == 13);
    let members = change_json(change)->Object_0;
    lemma_entry_value(members, "index"@, 0);
    lemma_entry_value(members, "worktree"@, 1);
    lemma_entry_value(members, "path"@, 2);
    lemma_entry_value(members, "original_path"@, 3);
}

/// What is recorded of a change is what is listed of it: its two letters and its
/// paths.
pub proof fn lemma_recorded_change_is_listed(change: GitChangeView)
    ensures
        change_of_record(change_json(change)) == change_row(
            change.index,
            change.worktree,
            match change.original_path {
                Some(from) => from + " -> "@ + change.path,
                None => change.path,
            },
        ),
{
    lemma_record_members(change);
}

/// From what Git prints to what is listed: a file that is modified in the
/// worktree alone is listed as not staged, one that is modified in the index
/// alone as staged, each under its path.
pub proof fn lemma_printed_status_is_listed(path: Seq<u8>, staged: bool)
    requires
        path.len() > 0,
        forall|j: int| 0 <= j < path.len() ==> (#[trigger] path[j]) != 0,
        lossy_text(path).len() > 0,
        !has_text(lossy_text(path), " -> "@),
    ensures
        ({
            let printed = if staged {
                status_bytes(77, 32, path)
            } else {
                status_bytes(32, 77, path)
            };
            let changes = changes_of(printed.push(0));
            &&& changes.len() == 1
            &&& change_of_record(change_json(changes[0])) matches Some(change) && change.path
                == lossy_text(path) && change.staged == staged && change.unstaged == !staged
        }),
{
    let printed = if staged {
        status_bytes(77, 32, path)
    } else {
        status_bytes(32, 77, path)
    };
    if staged {
        crate::git::lemma_status_letters_and_path(77, 32, path, Seq::empty());
    } else {
        crate::git::lemma_status_letters_and_path(32, 77, path, Seq::empty());
    }
    assert(printed.push(0) + Seq::<u8>::empty() =~= printed.push(0));
    assert(77u8 as char == 'M' && 32u8 as char == ' ');
    let change = changes_of(printed.push(0))[0];
    lemma_recorded_change_is_listed(change);
    lemma_change_is_listed(change.index, change.worktree, change.path);
}

/// A line of a short status is listed by its first two letters and the path
/// behind the blank.
pub proof fn lemma_status_line_is_listed(x: char, y: char, path: Seq<char>)
    requires
        path.len() > 0,
        is_ascii_chars(seq![x, y, ' '] + path),
    ensures
        change_of_line(seq![x, y, ' '] + path) == change_row(x, y, trimmed(path)),
{
    let line = seq![x, y, ' '] + path;
    let bytes = encode_utf8(line);
    is_ascii_chars_encode_utf8(line);
    assert(is_ascii_chars(path)) by {
        assert forall|i: int| 0 <= i < path.len() implies '\0' <= #[trigger] path[i] <= '\u{7f}' by {
            assert(path[i] == line[i + 3]);
        }
    }
    is_ascii_chars_encode_utf8(path);
    encode_utf8_valid_utf8(line);
    assert(line[0] == x && line[1] == y && line[3] == path[0]);
    assert(bytes[0] == x as u8 && bytes[1] == y as u8);
    assert(bytes[3] == line[3] as u8);
    assert(bytes[3] < 128);
    is_char_boundary_iff_not_is_continuation_byte(bytes, 3);
    assert(is_char_boundary(bytes, 3));
    assert(bytes.subrange(3, bytes.len() as int) =~= encode_utf8(path)) by {
        assert forall|i: int| 0 <= i < path.len() implies bytes.subrange(
            3,
            bytes.len() as int,
        )[i] == encode_utf8(path)[i] by {
            assert(line[i + 3] == path[i]);
        }
    }
    encode_utf8_decode_utf8(path);
    assert((x as u8) as char == x);
    assert((y as u8) as char == y);
}

proof fn lemma_text_order()
    ensures
        is_strict_order(text_order()),
{
    let less = text_order();
    assert forall|a: Seq<char>, b: Seq<char>| #[trigger] less(a, b) implies !less(b, a) by {
        lemma_text_less_strict(a, b, a);
    }
    assert forall|a: Seq<char>, b: Seq<char>, c: Seq<char>|
        !(#[trigger] less(b, a)) && !(#[trigger] less(c, b)) implies !less(c, a) by {
        lemma_text_less_strict(a, b, c);
    }
}

/// The files that are shown are files that were found, in the order of their
/// names, and all of them as long as there are no more than five hundred.
pub proof fn lemma_found_files_are_shown(files: Seq<Seq<char>>, path: Seq<char>)
    ensures
        ({
            let shown = first_files(files);
            &&& shown.len() <= 500
            &&& shown.contains(path) ==> files.contains(path)
            &&& files.len() <= 500 ==> shown.len() == files.len() && (files.contains(path)
                ==> shown.contains(path))
            &&& forall|i: int, j: int|
                0 <= i < j < shown.len() ==> !text_less(#[trigger] shown[j], #[trigger] shown[i])
        }),
{
    broadcast use vstd::seq_lib::group_to_multiset_ensures;

    lemma_text_order();
    lemma_sorted_by(files, text_order());
    let all = sorted_by(files, text_order());
    let shown = first_files(files);
    if shown.contains(path) {
        let i = choose|i: int| 0 <= i < shown.len() && shown[i] == path;
        assert(all[i] == path);
        assert(all.contains(path));
        assert(all.to_multiset().count(path) > 0);
        assert(files.to_multiset().count(path) > 0);
    }
    if files.len() <= 500 && files.contains(path) {
        assert(files.to_multiset().count(path) > 0);
        assert(all.to_multiset().count(path) > 0);
    }
    assert forall|i: int, j: int| 0 <= i < j < shown.len() implies !text_less(
        #[trigger] shown[j],
        #[trigger] shown[i],
    ) by {
        assert(!text_order()(all[j], all[i]));
    }
}

proof fn lemma_all_names(names: Seq<Seq<char>>)
    requires
        forall|i: int| 0 <= i < names.len() ==> (#[trigger] names[i]).len() > 0 && names[i] != "."@,
    ensures
        names_in(names) == names,
    decreases names.len(),
{
    if names.len() > 0 {
        let front = names.drop_last();
        assert forall|i: int| 0 <= i < front.len() implies (#[trigger] front[i]).len() > 0
            && front[i] != "."@ by {
            assert(front[i] == names[i]);
        }
        lemma_all_names(front);
        assert(names[names.len() - 1] != "."@);
        assert(front.push(names.last()) =~= names);
    }
}

/// A file is listed unless it lies too deep, or it or a directory on the way to
/// it is hidden or a place for what was built.
pub proof fn lemma_listed_files_are_visible(names: Seq<Seq<char>>)
    requires
        names.len() > 0,
        forall|i: int| 0 <= i < names.len() ==> (#[trigger] names[i]).len() > 0 && names[i] != "."@,
        forall|i: int, j: int|
            0 <= i < names.len() && 0 <= j < names[i].len() ==> (#[trigger] names[i][j]) != '/',
    ensures
        path_is_visible(crate::text::joined(names, seq!['/']), false) <==> (names.len() <= 7
            && forall|i: int|
            0 <= i < names.len() ==> (#[trigger] names[i])[0] != '.' && names[i] != "target"@
                && names[i] != "node_modules"@),
{
    let path = crate::text::joined(names, seq!['/']);
    crate::text::lemma_joined_pieces(names, '/');
    lemma_all_names(names);
    assert(path.skip(0) =~= path);
    assert(path[0] == names[0][0]) by {
        lemma_joined_starts(names, '/');
    }
    assert(path.len() > 0) by {
        lemma_joined_starts(names, '/');
    }
    assert(names[0][0] != '/');
    reveal_strlit(".");
    assert forall|i: int| 0 <= i < names.len() implies is_listed(#[trigger] names[i]) == (
    names[i][0] != '.' && names[i] != "target"@ && names[i] != "node_modules"@) by {
        let name = names[i];
        assert("."@.len() == 1 && "."@[0] == '.');
        assert(name.take(1) =~= seq![name[0]]);
        assert("."@ =~= seq!['.']);
        if name[0] != '.' {
            assert(name.take(1)[0] != "."@[0]);
        }
    }
}

proof fn lemma_joined_starts(names: Seq<Seq<char>>, c: char)
    requires
        names.len() > 0,
        names[0].len() > 0,
    ensures
        crate::text::joined(names, seq![c]).len() > 0,
        crate::text::joined(names, seq![c])[0] == names[0][0],
    decreases names.len(),
{
    if names.len() > 1 {
        lemma_joined_starts(names.drop_last(), c);
    }
}

/// Which files are shown: of those that Git lists the visible ones when ignored
/// files are left out, else those that a walk found.
pub proof fn lemma_ignored_files_are_left_out(found: Inspection, windows: bool)
    ensures
        files_found(found, false, windows) == found.walked.deep_view(),
        found.status is None ==> files_found(found, true, windows) == found.walked.deep_view(),
        found.status is None ==> changes_found(found).len() == 0,
{
}

proof fn lemma_files_listed(paths: Seq<Seq<char>>, path: Seq<char>)
    ensures
        listed_files(paths, false).contains(path) <==> paths.contains(path) && path.len() > 0
            && path_is_visible(path, false),
    decreases paths.len(),
{
    let all = listed_files(paths, false);
    if paths.len() > 0 {
        let front = paths.drop_last();
        let before = listed_files(front, false);
        let last = paths.last();
        lemma_files_listed(front, path);
        reveal_strlit("/");
        assert("/"@ =~= seq!['/']);
        lemma_same_separator(last);
        if paths.contains(path) {
            let i = choose|i: int| 0 <= i < paths.len() && paths[i] == path;
            if i < front.len() {
                assert(front[i] == path);
            }
        }
        if front.contains(path) {
            let i = choose|i: int| 0 <= i < front.len() && front[i] == path;
            assert(paths[i] == path);
        }
        if before.contains(path) {
            let i = choose|i: int| 0 <= i < before.len() && before[i] == path;
            assert(all[i] == path);
        }
        if last.len() > 0 && path_is_visible(last, false) {
            assert(all[before.len() as int] == last);
        }
        if all.contains(path) {
            let i = choose|i: int| 0 <= i < all.len() && all[i] == path;
            if i < before.len() {
                assert(before[i] == path);
            }
        }
    }
}

proof fn lemma_same_separator(path: Seq<char>)
    ensures
        crate::text::replaced(path, "/"@, "/"@) == path,
    decreases path.len(),
{
    reveal_strlit("/");
    assert("/"@ =~= seq!['/']);
    if path.len() > 0 {
        if begins(path, "/"@) {
            lemma_same_separator(path.skip(1));
            assert(path.take(1)[0] == "/"@[0]);
            assert("/"@ + path.skip(1) =~= path);
        } else {
            lemma_same_separator(path.drop_first());
            assert(seq![path[0]] + path.drop_first() =~= path);
        }
    }
}

/// A file that Git lists is among the files exactly when it is visible.
pub proof fn lemma_git_lists_files(found: Inspection, listed: Vec<u8>, path: Seq<char>)
    requires
        found.status is Some,
        found.listed == Some(listed),
    ensures
        files_found(found, true, false).contains(path) <==> pieces(
            lossy_text(listed@),
            '\0',
        ).contains(path) && path.len() > 0 && path_is_visible(path, false),
{
    lemma_files_listed(pieces(lossy_text(listed@), '\0'), path);
}

/// What is known of a repository follows what Git says of it: without a status
/// there is none and nothing else; with one there are changes exactly when some
/// were found, and a remote on GitHub exactly when its address names GitHub.
pub proof fn lemma_repository_is_as_git_says(
    installed: bool,
    status: Option<Seq<char>>,
    changed: bool,
    origin: Option<Seq<char>>,
    github: bool,
)
    ensures
        ({
            let git = crate::git::git_status_of(installed, status, changed, origin, github);
            &&& git.installed == installed
            &&& git.github_configured == github
            &&& git.is_repository == (status is Some)
            &&& git.has_changes == (status is Some && changed)
            &&& status is None ==> !git.has_commits && !git.has_github_remote
                && !git.has_unpushed_commits
            &&& status is Some ==> git.has_github_remote == (origin matches Some(o) && has_text(
                crate::text::lower_text(o),
                "github.com"@,
            ))
            &&& git.has_unpushed_commits && status is Some && !has_text(status->0, "..."@)
                ==> git.has_commits && git.has_github_remote
        }),
{
    reveal_strlit("github.com");
    reveal_strlit("...");
    let none = crate::text::lower_text(Seq::empty());
    assert(none.len() == 0);
    assert("github.com"@.len() == 10 && "..."@.len() == 3);
    assert(!has_text(none, "github.com"@)) by {
        if has_text(none, "github.com"@) {
            let i = choose|i: int| 0 <= i <= none.len() && #[trigger] begins(
                none.skip(i),
                "github.com"@,
            );
            assert(none.skip(i).len() == 0);
        }
    }
    let empty = Seq::<char>::empty();
    assert(!has_text(empty, "..."@)) by {
        if has_text(empty, "..."@) {
            let i = choose|i: int| 0 <= i <= empty.len() && #[trigger] begins(empty.skip(i), "..."@);
            assert(empty.skip(i).len() == 0);
        }
    }
    if status is Some {
        lemma_first_line_within(status->0, "..."@);
    }
}

proof fn lemma_first_line_within(s: Seq<char>, p: Seq<char>)
    requires
        p.len() > 0,
    ensures
        crate::text::text_lines(s).len() > 0 && has_text(crate::text::text_lines(s)[0], p)
            ==> has_text(s, p),
{
    let all = crate::text::text_lines(s);
    if all.len() > 0 && has_text(all[0], p) {
        lemma_first_char(s, '\n');
        let n = first_char(s, '\n');
        let i = choose|i: int| 0 <= i <= all[0].len() && #[trigger] begins(all[0].skip(i), p);
        assert(all[0].len() <= s.len());
        assert forall|k: int| 0 <= k < all[0].len() implies all[0][k] == s[k] by {}
        assert(s.skip(i).take(p.len() as int) =~= all[0].skip(i).take(p.len() as int));
        assert(begins(s.skip(i), p));
    }
}

} // verus!
