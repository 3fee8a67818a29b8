//! What the file tree shows: every file, under the directories that lead to it,
//! marked where it has changed.
use crate::file_tree::{
    deeper, directory_names, directory_rows, entries_in, entries_of, entry_of, file_rows_of,
    files_here, guides_with, lemma_inside_is_smaller, no_guides, path_names, plain_file_rows,
    put_file, put_name, tree_rows,
};
use crate::path::{path_pieces, slashed};
use crate::text::{joined, lemma_joined_pieces};
use crate::workspace_view::{FileEntryView, FileRowView, Guides};
use vstd::prelude::*;

verus! {

proof fn lemma_put_name_keeps(names: Seq<Seq<char>>, name: Seq<char>, other: Seq<char>)
    ensures
        put_name(names, name).contains(name),
        names.contains(other) ==> put_name(names, name).contains(other),
    decreases names.len(),
{
    let out = put_name(names, name);
    if names.len() == 0 {
        assert(out[0] == name);
    } else if names[0] == name {
        assert(out[0] == name);
    } else if crate::text::text_less(name, names[0]) {
        assert(out[0] == name);
        if names.contains(other) {
            let i = choose|i: int| 0 <= i < names.len() && names[i] == other;
            assert(out[i + 1] == other);
        }
    } else {
        let rest = names.drop_first();
        lemma_put_name_keeps(rest, name, other);
        let after = put_name(rest, name);
        let k = choose|k: int| 0 <= k < after.len() && after[k] == name;
        assert(out[k + 1] == name);
        if names.contains(other) {
            let i = choose|i: int| 0 <= i < names.len() && names[i] == other;
            if i == 0 {
                assert(out[0] == other);
            } else {
                assert(rest[i - 1] == other);
                let j = choose|j: int| 0 <= j < after.len() && after[j] == other;
                assert(out[j + 1] == other);
            }
        }
    }
}

proof fn lemma_directory_named(entries: Seq<FileEntryView>, i: int)
    requires
        0 <= i < entries.len(),
        entries[i].components.len() > 1,
    ensures
        directory_names(entries).contains(entries[i].components[0]),
    decreases entries.len(),
{
    let name = entries[i].components[0];
    let before = directory_names(entries.drop_last());
    if i < entries.len() - 1 {
        lemma_directory_named(entries.drop_last(), i);
    }
    if entries.last().components.len() > 1 {
        lemma_put_name_keeps(before, entries.last().components[0], name);
    }
}

/// A file under a name, at one of these places.
spec fn file_under(files: Seq<(Seq<char>, Seq<char>)>, name: Seq<char>) -> bool {
    exists|k: int| 0 <= k < files.len() && (#[trigger] files[k]).0 == name
}

proof fn lemma_put_file_keeps(
    files: Seq<(Seq<char>, Seq<char>)>,
    name: Seq<char>,
    path: Seq<char>,
    other: Seq<char>,
    k: int,
)
    ensures
        file_under(put_file(files, name, path), name),
        file_under(files, other) ==> file_under(put_file(files, name, path), other),
        0 <= k < put_file(files, name, path).len() ==> put_file(files, name, path)[k] == (name, path)
            || files.contains(put_file(files, name, path)[k]),
    decreases files.len(),
{
    let out = put_file(files, name, path);
    if files.len() == 0 {
        assert(out[0].0 == name);
    } else if files[0].0 == name {
        assert(out[0].0 == name);
        if file_under(files, other) {
            let i = choose|i: int| 0 <= i < files.len() && (#[trigger] files[i]).0 == other;
            assert(out[i].0 == other);
        }
        if 0 < k < out.len() {
            assert(out[k] == files[k]);
        }
    } else if crate::text::text_less(name, files[0].0) {
        assert(out[0].0 == name);
        if file_under(files, other) {
            let i = choose|i: int| 0 <= i < files.len() && (#[trigger] files[i]).0 == other;
            assert(out[i + 1].0 == other);
        }
        if 0 < k < out.len() {
            assert(out[k] == files[k - 1]);
        }
    } else {
        let rest = files.drop_first();
        lemma_put_file_keeps(rest, name, path, other, k - 1);
        let after = put_file(rest, name, path);
        let j = choose|j: int| 0 <= j < after.len() && (#[trigger] after[j]).0 == name;
        assert(out[j + 1].0 == name);
        if file_under(files, other) {
            let i = choose|i: int| 0 <= i < files.len() && (#[trigger] files[i]).0 == other;
            if i == 0 {
                assert(out[0].0 == other);
            } else {
                assert(rest[i - 1].0 == other);
                let m = choose|m: int| 0 <= m < after.len() && (#[trigger] after[m]).0 == other;
                assert(out[m + 1].0 == other);
            }
        }
        if 0 <= k < out.len() {
            if k == 0 {
                assert(out[0] == files[0]);
            } else {
                assert(out[k] == after[k - 1]);
                if rest.contains(after[k - 1]) {
                    let i = choose|i: int| 0 <= i < rest.len() && rest[i] == after[k - 1];
                    assert(files[i + 1] == rest[i]);
                }
            }
        }
    }
}

proof fn lemma_file_here(entries: Seq<FileEntryView>, i: int)
    requires
        0 <= i < entries.len(),
        entries[i].components.len() == 1,
    ensures
        file_under(files_here(entries), entries[i].components[0]),
    decreases entries.len(),
{
    let before = files_here(entries.drop_last());
    let name = entries[i].components[0];
    if i < entries.len() - 1 {
        lemma_file_here(entries.drop_last(), i);
    }
    let e = entries.last();
    if e.components.len() == 1 {
        lemma_put_file_keeps(before, e.components[0], e.path, name, 0);
    }
}

proof fn lemma_here_is_a_file(entries: Seq<FileEntryView>, k: int)
    requires
        0 <= k < files_here(entries).len(),
    ensures
        exists|i: int|
            0 <= i < entries.len() && (#[trigger] entries[i]).components == seq![
                files_here(entries)[k].0,
            ] && entries[i].path == files_here(entries)[k].1,
    decreases entries.len(),
{
    let e = entries.last();
    let before = files_here(entries.drop_last());
    let found = files_here(entries)[k];
    if e.components.len() == 1 {
        lemma_put_file_keeps(before, e.components[0], e.path, e.path, k);
        if found == (e.components[0], e.path) {
            assert(e.components =~= seq![found.0]);
            assert(entries[entries.len() - 1].path == found.1);
        } else {
            let j = choose|j: int| 0 <= j < before.len() && before[j] == found;
            lemma_here_is_a_file(entries.drop_last(), j);
            let i = choose|i: int|
                0 <= i < entries.drop_last().len() && (#[trigger] entries.drop_last()[i]).components
                    == seq![found.0] && entries.drop_last()[i].path == found.1;
            assert(entries[i].path == found.1);
        }
    } else {
        lemma_here_is_a_file(entries.drop_last(), k);
        let i = choose|i: int|
            0 <= i < entries.drop_last().len() && (#[trigger] entries.drop_last()[i]).components
                == seq![found.0] && entries.drop_last()[i].path == found.1;
        assert(entries[i].path == found.1);
    }
}

proof fn lemma_entry_inside(entries: Seq<FileEntryView>, i: int)
    requires
        0 <= i < entries.len(),
        entries[i].components.len() > 1,
    ensures
        exists|k: int|
            0 <= k < entries_in(entries, entries[i].components[0]).len() && (
            #[trigger] entries_in(entries, entries[i].components[0])[k]).components
                == entries[i].components.drop_first() && entries_in(
                entries,
                entries[i].components[0],
            )[k].path == entries[i].path,
    decreases entries.len(),
{
    let name = entries[i].components[0];
    let all = entries_in(entries, name);
    let before = entries_in(entries.drop_last(), name);
    if i < entries.len() - 1 {
        lemma_entry_inside(entries.drop_last(), i);
        let k = choose|k: int|
            0 <= k < before.len() && (#[trigger] before[k]).components
                == entries[i].components.drop_first() && before[k].path == entries[i].path;
        assert(all[k] == before[k]);
    } else {
        assert(all[before.len() as int].path == entries[i].path);
    }
}

proof fn lemma_inside_is_entry(entries: Seq<FileEntryView>, name: Seq<char>, k: int)
    requires
        0 <= k < entries_in(entries, name).len(),
    ensures
        exists|i: int|
            0 <= i < entries.len() && (#[trigger] entries[i]).components == seq![name]
                + entries_in(entries, name)[k].components && entries[i].path == entries_in(
                entries,
                name,
            )[k].path,
    decreases entries.len(),
{
    let all = entries_in(entries, name);
    let before = entries_in(entries.drop_last(), name);
    if k < before.len() {
        lemma_inside_is_entry(entries.drop_last(), name, k);
        assert(all[k] == before[k]);
        let i = choose|i: int|
            0 <= i < entries.drop_last().len() && (#[trigger] entries.drop_last()[i]).components
                == seq![name] + before[k].components && entries.drop_last()[i].path
                == before[k].path;
        assert(entries[i].path == all[k].path);
    } else {
        let e = entries.last();
        assert(e.components =~= seq![name] + e.components.drop_first());
        assert(entries[entries.len() - 1].path == all[k].path);
    }
}

/// The row of a file: by its name, as deep as the directories that lead to it,
/// and marked when one of the files with this way to it has changed.
pub open spec fn row_of_file(
    row: FileRowView,
    e: FileEntryView,
    depth: u64,
    entries: Seq<FileEntryView>,
    changed: Seq<Seq<char>>,
) -> bool {
    &&& !row.directory
    &&& row.name == e.components.last()
    &&& row.depth == depth + e.components.len() - 1
    &&& exists|i: int|
        0 <= i < entries.len() && (#[trigger] entries[i]).components == e.components && row.changed
            == changed.contains(entries[i].path)
}

spec fn file_row_among(
    rows: Seq<FileRowView>,
    e: FileEntryView,
    depth: u64,
    entries: Seq<FileEntryView>,
    changed: Seq<Seq<char>>,
) -> bool {
    exists|k: int| 0 <= k < rows.len() && row_of_file(#[trigger] rows[k], e, depth, entries, changed)
}

/// What stands in the rows of a directory stands in the rows of all.
proof fn lemma_rows_of_directory(
    entries: Seq<FileEntryView>,
    n: nat,
    at: int,
    depth: u64,
    changed: Seq<Seq<char>>,
    guides: Guides,
    k: int,
)
    requires
        0 <= at < n <= directory_names(entries).len(),
        ({
            let inside = entries_in(entries, directory_names(entries)[at]);
            let last = at + 1 == crate::file_tree::child_count(entries);
            0 <= k < tree_rows(
                inside,
                deeper(depth),
                changed,
                guides_with(guides, depth as nat, !last),
            ).len()
        }),
    ensures
        ({
            let inside = entries_in(entries, directory_names(entries)[at]);
            let last = at + 1 == crate::file_tree::child_count(entries);
            directory_rows(entries, n, depth, changed, guides).contains(
                tree_rows(
                    inside,
                    deeper(depth),
                    changed,
                    guides_with(guides, depth as nat, !last),
                )[k],
            )
        }),
    decreases n,
{
    let name = directory_names(entries)[at];
    let inside = entries_in(entries, name);
    let last = at + 1 == crate::file_tree::child_count(entries);
    let inner = tree_rows(inside, deeper(depth), changed, guides_with(guides, depth as nat, !last));
    let before = directory_rows(entries, (n - 1) as nat, depth, changed, guides);
    let rows = directory_rows(entries, n, depth, changed, guides);
    if at == n - 1 {
        assert(directory_names(entries).contains(name));
        lemma_inside_is_smaller(entries, name);
        assert(rows[before.len() + 1 + k] == inner[k]);
    } else {
        lemma_rows_of_directory(entries, (n - 1) as nat, at, depth, changed, guides, k);
        let j = choose|j: int| 0 <= j < before.len() && before[j] == inner[k];
        assert(rows[j] == before[j]);
    }
}

proof fn lemma_file_has_row(
    entries: Seq<FileEntryView>,
    i: int,
    depth: u64,
    changed: Seq<Seq<char>>,
    guides: Guides,
)
    requires
        0 <= i < entries.len(),
        entries[i].components.len() > 0,
        depth + entries[i].components.len() < u64::MAX,
    ensures
        file_row_among(
            tree_rows(entries, depth, changed, guides),
            entries[i],
            depth,
            entries,
            changed,
        ),
    decreases entries[i].components.len(),
{
    let e = entries[i];
    let rows = tree_rows(entries, depth, changed, guides);
    let n = directory_names(entries).len();
    let dirs = directory_rows(entries, n, depth, changed, guides);
    let files = files_here(entries);
    let plain = plain_file_rows(files, depth, changed, guides);
    if e.components.len() == 1 {
        lemma_file_here(entries, i);
        let k = choose|k: int| 0 <= k < files.len() && (#[trigger] files[k]).0 == e.components[0];
        lemma_here_is_a_file(entries, k);
        assert(e.components =~= seq![files[k].0]);
        assert(rows[dirs.len() + k] == plain[k]);
        assert(row_of_file(rows[dirs.len() + k], e, depth, entries, changed));
    } else {
        let name = e.components[0];
        lemma_directory_named(entries, i);
        let at = choose|at: int| 0 <= at < n && directory_names(entries)[at] == name;
        let inside = entries_in(entries, name);
        lemma_entry_inside(entries, i);
        let m = choose|m: int|
            0 <= m < inside.len() && (#[trigger] inside[m]).components == e.components.drop_first()
                && inside[m].path == e.path;
        let last = at + 1 == crate::file_tree::child_count(entries);
        let below = guides_with(guides, depth as nat, !last);
        lemma_file_has_row(inside, m, deeper(depth), changed, below);
        let inner = tree_rows(inside, deeper(depth), changed, below);
        let k = choose|k: int|
            0 <= k < inner.len() && row_of_file(
                #[trigger] inner[k],
                inside[m],
                deeper(depth),
                inside,
                changed,
            );
        lemma_rows_of_directory(entries, n, at, depth, changed, guides, k);
        let j = choose|j: int| 0 <= j < dirs.len() && dirs[j] == inner[k];
        assert(rows[j] == dirs[j]);
        let x = choose|x: int|
            0 <= x < inside.len() && (#[trigger] inside[x]).components == inside[m].components
                && inner[k].changed == changed.contains(inside[x].path);
        lemma_inside_is_entry(entries, name, x);
        let y = choose|y: int|
            0 <= y < entries.len() && (#[trigger] entries[y]).components == seq![name]
                + inside[x].components && entries[y].path == inside[x].path;
        assert(entries[y].components =~= e.components);
        assert(row_of_file(rows[j], e, depth, entries, changed));
    }
}

proof fn lemma_full_names(names: Seq<Seq<char>>)
    requires
        forall|i: int| 0 <= i < names.len() ==> (#[trigger] names[i]).len() > 0,
    ensures
        path_names(names) == names,
    decreases names.len(),
{
    if names.len() > 0 {
        let front = names.drop_last();
        assert forall|i: int| 0 <= i < front.len() implies (#[trigger] front[i]).len() > 0 by {
            assert(front[i] == names[i]);
        }
        lemma_full_names(front);
        assert(names[names.len() - 1].len() > 0);
        assert(front.push(names.last()) =~= names);
    }
}

proof fn lemma_slashes_stay(path: Seq<char>)
    requires
        forall|i: int| 0 <= i < path.len() ==> (#[trigger] path[i]) != '\\',
    ensures
        slashed(path) == path,
{
    assert(slashed(path) =~= path);
}

proof fn lemma_joined_has_no(names: Seq<Seq<char>>, c: char, sep: char, i: int)
    requires
        sep != c,
        forall|j: int, k: int|
            0 <= j < names.len() && 0 <= k < names[j].len() ==> (#[trigger] names[j][k]) != c,
        0 <= i < joined(names, seq![sep]).len(),
    ensures
        joined(names, seq![sep])[i] != c,
    decreases names.len(),
{
    if names.len() == 1 {
        assert(names[0][i] != c);
    } else if names.len() > 1 {
        let front = names.drop_last();
        assert forall|j: int, k: int| 0 <= j < front.len() && 0 <= k < front[j].len() implies (
        #[trigger] front[j][k]) != c by {
            assert(names[j][k] != c);
        }
        let before = joined(front, seq![sep]);
        if i < before.len() {
            lemma_joined_has_no(front, c, sep, i);
        } else if i > before.len() {
            assert(names[names.len() - 1][i - before.len() - 1] != c);
        }
    }
}

/// Every file is shown in the tree: by its name, as deep as the directories that
/// lead to it, and marked when it has changed.
pub proof fn lemma_every_file_is_in_the_tree(
    paths: Seq<Seq<char>>,
    changed: Seq<Seq<char>>,
    i: int,
    names: Seq<Seq<char>>,
)
    requires
        0 <= i < paths.len(),
        0 < names.len() < u64::MAX,
        forall|j: int| 0 <= j < names.len() ==> (#[trigger] names[j]).len() > 0,
        forall|j: int, k: int|
            0 <= j < names.len() && 0 <= k < names[j].len() ==> (#[trigger] names[j][k]) != '/',
        forall|j: int, k: int|
            0 <= j < names.len() && 0 <= k < names[j].len() ==> (#[trigger] names[j][k]) != '\\',
        paths[i] == joined(names, seq!['/']),
        forall|j: int|
            0 <= j < paths.len() && j != i ==> path_names(path_pieces(#[trigger] paths[j])) != names,
    ensures
        exists|k: int|
            0 <= k < file_rows_of(paths, changed).len() && !(#[trigger] file_rows_of(
                paths,
                changed,
            )[k]).directory && file_rows_of(paths, changed)[k].name == names.last()
                && file_rows_of(paths, changed)[k].depth == names.len() - 1 && file_rows_of(
                paths,
                changed,
            )[k].changed == changed.contains(paths[i]),
{
    let entries = entries_of(paths);
    let path = paths[i];
    assert forall|j: int| 0 <= j < path.len() implies (#[trigger] path[j]) != '\\' by {
        lemma_joined_has_no(names, '\\', '/', j);
    }
    lemma_slashes_stay(path);
    lemma_joined_pieces(names, '/');
    lemma_full_names(names);
    assert(entries[i].components == names);
    lemma_file_has_row(entries, i, 0, changed, no_guides());
    let rows = file_rows_of(paths, changed);
    let k = choose|k: int|
        0 <= k < rows.len() && row_of_file(#[trigger] rows[k], entries[i], 0, entries, changed);
    let j = choose|j: int|
        0 <= j < entries.len() && (#[trigger] entries[j]).components == entries[i].components
            && rows[k].changed == changed.contains(entries[j].path);
    if j != i {
        assert(path_names(path_pieces(paths[j])) != names);
        assert(entries[j] == entry_of(paths[j]));
    }
}

} // verus!
