//! The files of a workspace as a tree, directories first.
use crate::order::text_before;
use crate::path::{path_pieces, to_slashes};
use crate::state::contains_text;
use crate::text::{same_text, split, text_less};
use crate::workspace_view::{FileEntry, FileEntryView, FileRow, FileRowView, Guides};
use vstd::prelude::*;
use vstd::string::*;

verus! {

/// The names with one more, in order, each once.
pub open spec fn put_name(names: Seq<Seq<char>>, name: Seq<char>) -> Seq<Seq<char>>
    decreases names.len(),
{
    if names.len() == 0 {
        seq![name]
    } else if names[0] == name {
        names
    } else if text_less(name, names[0]) {
        seq![name] + names
    } else {
        seq![names[0]] + put_name(names.drop_first(), name)
    }
}

/// The names of the directories that the entries lead into.
pub open spec fn directory_names(entries: Seq<FileEntryView>) -> Seq<Seq<char>>
    decreases entries.len(),
{
    if entries.len() == 0 {
        Seq::empty()
    } else {
        let before = directory_names(entries.drop_last());
        if entries.last().components.len() > 1 {
            put_name(before, entries.last().components[0])
        } else {
            before
        }
    }
}

/// The files with one more, in the order of their names; of two with one name
/// the later one.
pub open spec fn put_file(files: Seq<(Seq<char>, Seq<char>)>, name: Seq<char>, path: Seq<char>) -> Seq<
    (Seq<char>, Seq<char>),
>
    decreases files.len(),
{
    if files.len() == 0 {
        seq![(name, path)]
    } else if files[0].0 == name {
        seq![(name, path)] + files.drop_first()
    } else if text_less(name, files[0].0) {
        seq![(name, path)] + files
    } else {
        seq![files[0]] + put_file(files.drop_first(), name, path)
    }
}

/// The files right here, by name.
pub open spec fn files_here(entries: Seq<FileEntryView>) -> Seq<(Seq<char>, Seq<char>)>
    decreases entries.len(),
{
    if entries.len() == 0 {
        Seq::empty()
    } else {
        let before = files_here(entries.drop_last());
        if entries.last().components.len() == 1 {
            put_file(before, entries.last().components[0], entries.last().path)
        } else {
            before
        }
    }
}

/// The entries inside a directory, seen from there.
pub open spec fn entries_in(entries: Seq<FileEntryView>, name: Seq<char>) -> Seq<FileEntryView>
    decreases entries.len(),
{
    if entries.len() == 0 {
        entries
    } else {
        let before = entries_in(entries.drop_last(), name);
        let e = entries.last();
        if e.components.len() > 1 && e.components[0] == name {
            before.push(FileEntryView { components: e.components.drop_first(), path: e.path })
        } else {
            before
        }
    }
}

/// The number of all names that lead to the entries.
pub open spec fn names_total(entries: Seq<FileEntryView>) -> nat
    decreases entries.len(),
{
    if entries.len() == 0 {
        0
    } else {
        names_total(entries.drop_last()) + entries.last().components.len()
    }
}

pub open spec fn guides_with(guides: Guides, depth: nat, on: bool) -> Guides {
    if depth == 0 {
        Guides { guide0: on, ..guides }
    } else if depth == 1 {
        Guides { guide1: on, ..guides }
    } else if depth == 2 {
        Guides { guide2: on, ..guides }
    } else if depth == 3 {
        Guides { guide3: on, ..guides }
    } else if depth == 4 {
        Guides { guide4: on, ..guides }
    } else if depth == 5 {
        Guides { guide5: on, ..guides }
    } else {
        guides
    }
}

fn set_guide(guides: Guides, depth: u64, on: bool) -> (r: Guides)
    ensures
        r == guides_with(guides, depth as nat, on),
{
    let mut r = guides;
    if depth == 0 {
        r.guide0 = on;
    } else if depth == 1 {
        r.guide1 = on;
    } else if depth == 2 {
        r.guide2 = on;
    } else if depth == 3 {
        r.guide3 = on;
    } else if depth == 4 {
        r.guide4 = on;
    } else if depth == 5 {
        r.guide5 = on;
    }
    r
}

pub open spec fn no_guides() -> Guides {
    Guides {
        guide0: false,
        guide1: false,
        guide2: false,
        guide3: false,
        guide4: false,
        guide5: false,
    }
}

/// A row of the tree; the connector of the last row of a directory is short.
pub open spec fn tree_row(
    name: Seq<char>,
    depth: u64,
    directory: bool,
    changed: bool,
    last: bool,
    guides: Guides,
) -> FileRowView {
    FileRowView {
        name,
        depth,
        directory,
        changed,
        connector_height: if last {
            12
        } else {
            26
        },
        guide0: guides.guide0,
        guide1: guides.guide1,
        guide2: guides.guide2,
        guide3: guides.guide3,
        guide4: guides.guide4,
        guide5: guides.guide5,
    }
}

fn make_row(name: &str, depth: u64, directory: bool, changed: bool, last: bool, guides: Guides) -> (r:
    FileRow)
    ensures
        r.deep_view() == tree_row(name@, depth, directory, changed, last, guides),
{
    FileRow {
        name: name.to_owned(),
        depth,
        directory,
        changed,
        connector_height: if last {
            12
        } else {
            26
        },
        guide0: guides.guide0,
        guide1: guides.guide1,
        guide2: guides.guide2,
        guide3: guides.guide3,
        guide4: guides.guide4,
        guide5: guides.guide5,
    }
}

pub open spec fn deeper(depth: u64) -> u64 {
    if depth == u64::MAX {
        depth
    } else {
        (depth + 1) as u64
    }
}

/// How many rows stand directly in a directory.
pub open spec fn child_count(entries: Seq<FileEntryView>) -> nat {
    directory_names(entries).len() + files_here(entries).len()
}

/// The rows of the first `n` directories with everything in them.
pub open spec fn directory_rows(
    entries: Seq<FileEntryView>,
    n: nat,
    depth: u64,
    changed: Seq<Seq<char>>,
    guides: Guides,
) -> Seq<FileRowView>
    decreases names_total(entries), n,
{
    if n == 0 || n > directory_names(entries).len() {
        Seq::empty()
    } else {
        let name = directory_names(entries)[n - 1];
        let last = n == child_count(entries);
        let inside = entries_in(entries, name);
        directory_rows(entries, (n - 1) as nat, depth, changed, guides).push(
            tree_row(name, depth, true, false, last, guides),
        ) + (if names_total(inside) < names_total(entries) {
            tree_rows(
                inside,
                deeper(depth),
                changed,
                guides_with(guides, depth as nat, !last),
            )
        } else {
            Seq::empty()
        })
    }
}

/// The rows of the files right here.
pub open spec fn plain_file_rows(
    files: Seq<(Seq<char>, Seq<char>)>,
    depth: u64,
    changed: Seq<Seq<char>>,
    guides: Guides,
) -> Seq<FileRowView> {
    Seq::new(
        files.len(),
        |i: int|
            tree_row(
                files[i].0,
                depth,
                false,
                changed.contains(files[i].1),
                i + 1 == files.len(),
                guides,
            ),
    )
}

/// The rows of a directory: its directories with what is in them, then its
/// files.
pub open spec fn tree_rows(
    entries: Seq<FileEntryView>,
    depth: u64,
    changed: Seq<Seq<char>>,
    guides: Guides,
) -> Seq<FileRowView>
    decreases names_total(entries), directory_names(entries).len() + 1,
{
    directory_rows(entries, directory_names(entries).len(), depth, changed, guides)
        + plain_file_rows(
        files_here(entries),
        depth,
        changed,
        guides,
    )
}

/// The parts of a path that are not empty.
pub open spec fn path_names(parts: Seq<Seq<char>>) -> Seq<Seq<char>>
    decreases parts.len(),
{
    if parts.len() == 0 {
        parts
    } else if parts.last().len() > 0 {
        path_names(parts.drop_last()).push(parts.last())
    } else {
        path_names(parts.drop_last())
    }
}

/// The entry of a path.
pub open spec fn entry_of(path: Seq<char>) -> FileEntryView {
    FileEntryView { components: path_names(path_pieces(path)), path }
}

pub open spec fn entries_of(paths: Seq<Seq<char>>) -> Seq<FileEntryView> {
    Seq::new(paths.len(), |i: int| entry_of(paths[i]))
}

/// The rows of the file tree.
pub open spec fn file_rows_of(paths: Seq<Seq<char>>, changed: Seq<Seq<char>>) -> Seq<FileRowView> {
    tree_rows(entries_of(paths), 0, changed, no_guides())
}

proof fn lemma_put_name_holds(names: Seq<Seq<char>>, name: Seq<char>, other: Seq<char>)
    ensures
        put_name(names, name).contains(other) ==> other == name || names.contains(other),
    decreases names.len(),
{
    let out = put_name(names, name);
    if names.len() == 0 {
        if out.contains(other) {
            assert(out[0] == name);
        }
    } else if names[0] == name {
    } else if text_less(name, names[0]) {
        if out.contains(other) {
            let i = choose|i: int| 0 <= i < out.len() && out[i] == other;
            if i > 0 {
                assert(names[i - 1] == other);
            }
        }
    } else {
        lemma_put_name_holds(names.drop_first(), name, other);
        if out.contains(other) {
            let i = choose|i: int| 0 <= i < out.len() && out[i] == other;
            let rest = put_name(names.drop_first(), name);
            if i == 0 {
                assert(names[0] == other);
            } else {
                assert(rest[i - 1] == other);
                assert(rest.contains(other));
                if other != name {
                    let j = choose|j: int|
                        0 <= j < names.drop_first().len() && names.drop_first()[j] == other;
                    assert(names[j + 1] == other);
                }
            }
        }
    }
}

/// What is in a directory has fewer names to go.
pub(crate) proof fn lemma_inside_is_smaller(entries: Seq<FileEntryView>, name: Seq<char>)
    ensures
        names_total(entries_in(entries, name)) <= names_total(entries),
        directory_names(entries).contains(name) ==> names_total(entries_in(entries, name))
            < names_total(entries),
    decreases entries.len(),
{
    if entries.len() > 0 {
        let before = entries.drop_last();
        lemma_inside_is_smaller(before, name);
        let e = entries.last();
        let inner = entries_in(before, name);
        if e.components.len() > 1 && e.components[0] == name {
            let x = FileEntryView { components: e.components.drop_first(), path: e.path };
            assert(inner.push(x).drop_last() =~= inner);
        } else if e.components.len() > 1 {
            lemma_put_name_holds(directory_names(before), e.components[0], name);
        }
    }
}

fn insert_name(names: &mut Vec<String>, name: &str)
    ensures
        final(names).deep_view() == put_name(old(names).deep_view(), name@),
{
    let ghost all = names.deep_view();
    let mut i: usize = 0;
    assert(all.skip(0) =~= all);
    assert(all.take(0) + put_name(all, name@) =~= put_name(all, name@));
    while i < names.len()
        invariant
            i <= names@.len(),
            all == names.deep_view(),
            all == old(names).deep_view(),
            put_name(all, name@) == all.take(i as int) + put_name(all.skip(i as int), name@),
        decreases names@.len() - i,
    {
        let ghost rest = all.skip(i as int);
        assert(rest[0] == names@[i as int]@);
        if same_text(names[i].as_str(), name) {
            assert(all.take(i as int) + rest =~= all);
            return;
        }
        if text_before(name, names[i].as_str()) {
            names.insert(i, name.to_owned());
            assert(names.deep_view() =~= all.take(i as int) + (seq![name@] + rest));
            return;
        }
        assert(rest.drop_first() =~= all.skip(i as int + 1));
        assert(all.take(i as int) + (seq![rest[0]] + put_name(rest.drop_first(), name@))
            =~= all.take(i as int + 1) + put_name(all.skip(i as int + 1), name@));
        i += 1;
    }
    assert(all.skip(i as int).len() == 0);
    names.push(name.to_owned());
    assert(names.deep_view() =~= all.take(i as int) + seq![name@]);
}

fn insert_file(files: &mut Vec<(String, String)>, name: &str, path: &str)
    ensures
        final(files).deep_view() == put_file(old(files).deep_view(), name@, path@),
{
    let ghost all = files.deep_view();
    let mut i: usize = 0;
    assert(all.skip(0) =~= all);
    assert(all.take(0) + put_file(all, name@, path@) =~= put_file(all, name@, path@));
    while i < files.len()
        invariant
            i <= files@.len(),
            all == files.deep_view(),
            all == old(files).deep_view(),
            put_file(all, name@, path@) == all.take(i as int) + put_file(
                all.skip(i as int),
                name@,
                path@,
            ),
        decreases files@.len() - i,
    {
        let ghost rest = all.skip(i as int);
        assert(rest[0] == (files@[i as int].0@, files@[i as int].1@));
        if same_text(files[i].0.as_str(), name) {
            files.set(i, (name.to_owned(), path.to_owned()));
            assert(files.deep_view() =~= all.take(i as int) + (seq![(name@, path@)]
                + rest.drop_first()));
            return;
        }
        if text_before(name, files[i].0.as_str()) {
            files.insert(i, (name.to_owned(), path.to_owned()));
            assert(files.deep_view() =~= all.take(i as int) + (seq![(name@, path@)] + rest));
            return;
        }
        assert(rest.drop_first() =~= all.skip(i as int + 1));
        assert(all.take(i as int) + (seq![rest[0]] + put_file(rest.drop_first(), name@, path@))
            =~= all.take(i as int + 1) + put_file(all.skip(i as int + 1), name@, path@));
        i += 1;
    }
    assert(all.skip(i as int).len() == 0);
    files.push((name.to_owned(), path.to_owned()));
    assert(files.deep_view() =~= all.take(i as int) + seq![(name@, path@)]);
}

fn collect_directories(entries: &Vec<FileEntry>) -> (r: Vec<String>)
    ensures
        r.deep_view() == directory_names(entries.deep_view()),
{
    let ghost all = entries.deep_view();
    let mut names: Vec<String> = Vec::new();
    let mut i: usize = 0;
    assert(names.deep_view() =~= directory_names(all.take(0)));
    while i < entries.len()
        invariant
            i <= entries@.len(),
            all == entries.deep_view(),
            names.deep_view() == directory_names(all.take(i as int)),
        decreases entries@.len() - i,
    {
        let entry = &entries[i];
        assert(all.take(i as int + 1).drop_last() =~= all.take(i as int));
        assert(all.take(i as int + 1).last() == entry.deep_view());
        if entry.components.len() > 1 {
            assert(entry.deep_view().components[0] == entry.components@[0]@);
            insert_name(&mut names, entry.components[0].as_str());
        }
        i += 1;
    }
    assert(all.take(i as int) =~= all);
    names
}

fn collect_files(entries: &Vec<FileEntry>) -> (r: Vec<(String, String)>)
    ensures
        r.deep_view() == files_here(entries.deep_view()),
{
    let ghost all = entries.deep_view();
    let mut files: Vec<(String, String)> = Vec::new();
    let mut i: usize = 0;
    assert(files.deep_view() =~= files_here(all.take(0)));
    while i < entries.len()
        invariant
            i <= entries@.len(),
            all == entries.deep_view(),
            files.deep_view() == files_here(all.take(i as int)),
        decreases entries@.len() - i,
    {
        let entry = &entries[i];
        assert(all.take(i as int + 1).drop_last() =~= all.take(i as int));
        assert(all.take(i as int + 1).last() == entry.deep_view());
        if entry.components.len() == 1 {
            assert(entry.deep_view().components[0] == entry.components@[0]@);
            insert_file(&mut files, entry.components[0].as_str(), entry.path.as_str());
        }
        i += 1;
    }
    assert(all.take(i as int) =~= all);
    files
}

fn collect_inside(entries: &Vec<FileEntry>, name: &str) -> (r: Vec<FileEntry>)
    ensures
        r.deep_view() == entries_in(entries.deep_view(), name@),
{
    let ghost all = entries.deep_view();
    let mut out: Vec<FileEntry> = Vec::new();
    let mut i: usize = 0;
    assert(out.deep_view() =~= entries_in(all.take(0), name@));
    while i < entries.len()
        invariant
            i <= entries@.len(),
            all == entries.deep_view(),
            out.deep_view() == entries_in(all.take(i as int), name@),
        decreases entries@.len() - i,
    {
        let entry = &entries[i];
        assert(all.take(i as int + 1).drop_last() =~= all.take(i as int));
        assert(all.take(i as int + 1).last() == entry.deep_view());
        if entry.components.len() > 1 {
            assert(entry.deep_view().components[0] == entry.components@[0]@);
            if same_text(entry.components[0].as_str(), name) {
                let ghost before = out.deep_view();
                let mut components = entry.components.clone();
                assert(components.deep_view() =~= entry.components.deep_view());
                let ghost full = components.deep_view();
                let _first = components.remove(0);
                assert(components.deep_view() =~= full.drop_first());
                out.push(FileEntry { components, path: entry.path.clone() });
                assert(out.deep_view() =~= before.push(
                    FileEntryView { components: full.drop_first(), path: entry.path@ },
                ));
            }
        }
        i += 1;
    }
    assert(all.take(i as int) =~= all);
    out
}

fn make_tree_rows(entries: &Vec<FileEntry>, depth: u64, changed: &Vec<String>, guides: Guides) -> (r:
    Vec<FileRow>)
    ensures
        r.deep_view() == tree_rows(entries.deep_view(), depth, changed.deep_view(), guides),
    decreases names_total(entries.deep_view()),
{
    let ghost all = entries.deep_view();
    let directories = collect_directories(entries);
    let files = collect_files(entries);
    let ghost names = directories.deep_view();
    let mut rows: Vec<FileRow> = Vec::new();
    let mut i: usize = 0;
    assert(rows.deep_view() =~= directory_rows(all, 0, depth, changed.deep_view(), guides));
    while i < directories.len()
        invariant
            i <= directories@.len(),
            all == entries.deep_view(),
            names == directories.deep_view(),
            names == directory_names(all),
            files.deep_view() == files_here(all),
            rows.deep_view() == directory_rows(all, i as nat, depth, changed.deep_view(), guides),
        decreases directories@.len() - i,
    {
        let name = directories[i].as_str();
        assert(names[i as int] == name@);
        proof {
            assert(names.contains(name@));
            lemma_inside_is_smaller(all, name@);
        }
        let last = files.len() == 0 && i + 1 == directories.len();
        let ghost before = rows.deep_view();
        rows.push(make_row(name, depth, true, false, last, guides));
        assert(rows.deep_view() =~= before.push(
            tree_row(name@, depth, true, false, last, guides),
        ));
        let inside = collect_inside(entries, name);
        let mut inner = make_tree_rows(
            &inside,
            depth.saturating_add(1),
            changed,
            set_guide(guides, depth, !last),
        );
        let ghost first = rows.deep_view();
        let ghost added = inner.deep_view();
        rows.append(&mut inner);
        assert(rows.deep_view() =~= first + added);
        i += 1;
    }
    let ghost above = rows.deep_view();
    let ghost below = plain_file_rows(
        files_here(all),
        depth,
        changed.deep_view(),
        guides,
    );
    let mut k: usize = 0;
    assert(above + below.take(0) =~= above);
    while k < files.len()
        invariant
            k <= files@.len(),
            files.deep_view() == files_here(all),
            below == plain_file_rows(
                files_here(all),
                depth,
                changed.deep_view(),
                guides,
            ),
            rows.deep_view() == above + below.take(k as int),
        decreases files@.len() - k,
    {
        let ghost before = rows.deep_view();
        assert(files.deep_view()[k as int] == (files@[k as int].0@, files@[k as int].1@));
        let last = k + 1 == files.len();
        let is_changed = contains_text(changed, files[k].1.as_str());
        rows.push(make_row(files[k].0.as_str(), depth, false, is_changed, last, guides));
        assert(rows.deep_view() =~= before.push(below[k as int]));
        k += 1;
        assert(rows.deep_view() =~= above + below.take(k as int));
    }
    assert(below.take(k as int) =~= below);
    rows
}

fn names_of_path(path: &str) -> (r: Vec<String>)
    ensures
        r.deep_view() == path_names(path_pieces(path@)),
{
    let parts = split(to_slashes(path).as_str(), '/');
    let ghost views = parts.deep_view();
    let mut out: Vec<String> = Vec::new();
    let mut i: usize = 0;
    assert(out.deep_view() =~= path_names(views.take(0)));
    while i < parts.len()
        invariant
            i <= parts@.len(),
            views == parts.deep_view(),
            out.deep_view() == path_names(views.take(i as int)),
        decreases parts@.len() - i,
    {
        assert(views.take(i as int + 1).drop_last() =~= views.take(i as int));
        assert(views.take(i as int + 1).last() == parts@[i as int]@);
        if !parts[i].as_str().is_empty() {
            let ghost before = out.deep_view();
            out.push(parts[i].clone());
            assert(out.deep_view() =~= before.push(views[i as int]));
        }
        i += 1;
    }
    assert(views.take(i as int) =~= views);
    out
}

pub fn file_rows(paths: &Vec<String>, changed: &Vec<String>) -> (r: Vec<FileRow>)
    ensures
        r.deep_view() == file_rows_of(paths.deep_view(), changed.deep_view()),
{
    let mut entries: Vec<FileEntry> = Vec::new();
    let mut i: usize = 0;
    while i < paths.len()
        invariant
            i <= paths@.len(),
            entries@.len() == i,
            forall|j: int| 0 <= j < i ==> (#[trigger] entries@[j]).deep_view() == entry_of(paths@[j]@),
        decreases paths@.len() - i,
    {
        entries.push(
            FileEntry { components: names_of_path(paths[i].as_str()), path: paths[i].clone() },
        );
        i += 1;
    }
    assert(entries.deep_view() =~= entries_of(paths.deep_view()));
    let guides = Guides {
        guide0: false,
        guide1: false,
        guide2: false,
        guide3: false,
        guide4: false,
        guide5: false,
    };
    make_tree_rows(&entries, 0, changed, guides)
}

} // verus!
