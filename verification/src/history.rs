//! What holds of saved and exported history as a whole.
use crate::json::JsonView;
use crate::json_text::canonical;
use crate::model::{
    AppHistoryView, ConversationItemView, DraftEntryView, DraftView, LocalThreadView,
    PersistedStateView,
};
use crate::path::{is_drive, separates};
use crate::persistence::{
    attachments_folder, chosen_generation, export_files, folder_of, imported_from, load_source,
    save_steps, seen_from, stem_of, Choice, FileReading, FileWriteView, LoadSource, LocalStore,
    Reading, StoredFiles,
};
use crate::remap::{
    files_of_state, lemma_moving_files, moved, moved_state, moved_thread, moved_threads,
};
use crate::snapshot::{decoded_snapshot, StoreErrorView};
use crate::store_path::{
    bare_length, joined_path, lemma_parent_of_joined, plain_name, stands_alone, takes_name,
    volume_length,
};
use crate::table::lookup;
use vstd::prelude::*;
use vstd::string::*;

verus! {

/// A store that was never written to loads defaults; one that was saved loads
/// what was saved, whatever else is on disk. How a state is written as JSON is
/// given, with the one fact that what was written is read back.
pub proof fn lemma_load_gives_back_saved_state(
    files: StoredFiles,
    write: spec_fn(PersistedStateView) -> JsonView,
    read: spec_fn(JsonView) -> Option<PersistedStateView>,
    state: PersistedStateView,
    readable: Result<(), Seq<char>>,
    bytes: Seq<u8>,
    steps: Seq<FileWriteView>,
    has_legacy: bool,
    legacy: FileReading,
    backup: Option<Reading>,
    temporary: Option<Reading>,
)
    requires
        read(canonical(write(state))) == Some(state),
        decoded_snapshot(bytes) == Ok::<_, StoreErrorView>(canonical(write(state))),
        save_steps(files.state, readable, bytes) == Ok::<_, StoreErrorView>(steps),
    ensures
        load_source(FileReading::Missing, false, legacy) == LoadSource::Defaults,
        ({
            let after = files.after_steps(steps, steps.len() as int);
            &&& after.state is Some
            &&& load_source(FileReading::Found, has_legacy, legacy) == LoadSource::State
            &&& decoded_snapshot(after.state->0) is Ok
            &&& read(decoded_snapshot(after.state->0)->Ok_0) == Some(state)
            &&& chosen_generation(Reading::Valid, true, backup, temporary) == Choice::Primary
        }),
{
    reveal_with_fuel(StoredFiles::after_steps, 3);
}

/// A path that is followed from a folder: it does not start at a root, a drive
/// or a share.
pub open spec fn below(path: Seq<char>, windows: bool) -> bool {
    &&& path.len() > 0
    &&& !separates(path[0], windows)
    &&& !stands_alone(path, windows)
}

/// A file below the folder of an export is referred to by its path from that
/// folder, and the reference finds it below whatever folder the export has been
/// moved to.
pub proof fn lemma_reference_finds_file(
    path: Seq<char>,
    target: Seq<char>,
    moved_target: Seq<char>,
    windows: bool,
)
    requires
        below(path, windows),
        !(windows && is_drive(folder_of(target, windows))),
    ensures
        seen_from(
            joined_path(folder_of(target, windows), path, windows),
            folder_of(target, windows),
            windows,
        ) == path,
        imported_from(path, moved_target, windows) == joined_path(
            folder_of(moved_target, windows),
            path,
            windows,
        ),
{
    reveal_strlit("/");
    reveal_strlit("\\");
    let folder = folder_of(target, windows);
    let full = joined_path(folder, path, windows);
    if folder.len() > 0 {
        assert(full.take(folder.len() as int) =~= folder);
        let rest = full.skip(folder.len() as int);
        if takes_name(folder, windows) {
            assert(rest =~= path);
        } else {
            assert(rest.skip(1) =~= path);
        }
    } else {
        assert(full =~= path);
    }
}

/// The separator that the system writes.
spec fn separator(windows: bool) -> Seq<char> {
    if windows {
        "\\"@
    } else {
        "/"@
    }
}

/// A plain name behind a folder that does not end in a separator.
proof fn lemma_joining_plain(base: Seq<char>, name: Seq<char>, windows: bool)
    requires
        !takes_name(base, windows),
        plain_name(name, windows),
    ensures
        joined_path(base, name, windows) == base + separator(windows) + name,
        joined_path(base, name, windows).len() > 2,
        !takes_name(joined_path(base, name, windows), windows),
{
    reveal_strlit("/");
    reveal_strlit("\\");
    assert(!separates(name[0], windows));
    assert(!separates(name[name.len() - 1], windows));
    assert(!stands_alone(name, windows));
    let r = base + separator(windows) + name;
    assert(r.last() == name.last());
}

/// Where an exported history keeps its files.
proof fn lemma_export_folder(target: Seq<char>, windows: bool)
    requires
        plain_name(stem_of(target, windows) + ".files"@, windows),
        volume_length(export_files(target, windows), windows) < export_files(
            target,
            windows,
        ).len() - 11,
    ensures
        ({
            let base = joined_path(
                folder_of(target, windows),
                stem_of(target, windows) + ".files"@,
                windows,
            );
            &&& folder_of(export_files(target, windows), windows) == base
            &&& !takes_name(base, windows)
        }),
{
    reveal_strlit("/");
    reveal_strlit("\\");
    reveal_strlit(".files");
    reveal_strlit("state.json");
    reveal_strlit(".");
    let own = stem_of(target, windows) + ".files"@;
    let base = joined_path(folder_of(target, windows), own, windows);
    assert(own.last() == 's' && own[own.len() - 2] == 'e' && own.len() >= 6);
    assert(!separates(own[0], windows));
    assert(!stands_alone(own, windows));
    assert(base.len() >= 6 && base.last() == 's' && base[base.len() - 2] == 'e');
    assert(bare_length(base, windows) == base.len());
    assert(plain_name("state.json"@, windows));
    lemma_joining_plain(base, "state.json"@, windows);
    lemma_parent_of_joined(base, "state.json"@, windows);
}

/// A path below a folder whose first name is plain.
proof fn lemma_joining_below(folder: Seq<char>, own: Seq<char>, rest: Seq<char>, windows: bool)
    requires
        plain_name(own, windows),
        own.len() >= 3,
    ensures
        below(own + rest, windows),
        joined_path(folder, own, windows) + rest == joined_path(folder, own + rest, windows),
{
    let path = own + rest;
    assert(path[0] == own[0] && path[1] == own[1] && path[2] == own[2]);
    assert(!separates(own[0], windows) && !separates(own[1], windows) && !separates(
        own[2],
        windows,
    ));
    assert(!stands_alone(path, windows));
    assert(!stands_alone(own, windows));
    assert(joined_path(folder, own, windows) + rest =~= joined_path(folder, path, windows));
}

/// The copy that an export makes of a file stands below the folder of the
/// export.
pub proof fn lemma_exported_copy_is_below(
    store: LocalStore,
    target: Seq<char>,
    id: Seq<char>,
    name: Seq<char>,
) -> (path: Seq<char>)
    requires
        store.path@ == export_files(target, store.windows),
        plain_name(stem_of(target, store.windows) + ".files"@, store.windows),
        plain_name(id, store.windows),
        plain_name(name, store.windows),
        volume_length(store.path@, store.windows) < store.path@.len() - 11,
    ensures
        below(path, store.windows),
        joined_path(joined_path(attachments_folder(store), id, store.windows), name, store.windows)
            == joined_path(folder_of(target, store.windows), path, store.windows),
{
    reveal_strlit("attachments");
    reveal_strlit(".files");
    reveal_strlit(".");
    let w = store.windows;
    let own = stem_of(target, w) + ".files"@;
    let base = joined_path(folder_of(target, w), own, w);
    lemma_export_folder(target, w);
    assert(plain_name("attachments"@, w));
    lemma_joining_plain(base, "attachments"@, w);
    let a = joined_path(base, "attachments"@, w);
    lemma_joining_plain(a, id, w);
    let b = joined_path(a, id, w);
    lemma_joining_plain(b, name, w);
    let sep = separator(w);
    let rest = sep + "attachments"@ + sep + id + sep + name;
    lemma_joining_below(folder_of(target, w), own, rest, w);
    assert(joined_path(b, name, w) =~= base + rest);
    own + rest
}

/// The same entries without their files.
pub open spec fn bare_item(item: ConversationItemView) -> ConversationItemView {
    ConversationItemView { attachments: Seq::empty(), ..item }
}

pub open spec fn bare_thread(thread: LocalThreadView) -> LocalThreadView {
    LocalThreadView {
        messages: Seq::new(thread.messages.len(), |i: int| bare_item(thread.messages[i])),
        ..thread
    }
}

pub open spec fn bare_threads(threads: Seq<LocalThreadView>) -> Seq<LocalThreadView> {
    Seq::new(threads.len(), |i: int| bare_thread(threads[i]))
}

pub open spec fn bare_draft(entry: DraftEntryView) -> DraftEntryView {
    DraftEntryView {
        draft: DraftView { attachments: Seq::empty(), ..entry.draft },
        ..entry
    }
}

/// A state without its references to files.
pub open spec fn bare_state(state: PersistedStateView) -> PersistedStateView {
    PersistedStateView {
        history: AppHistoryView {
            threads: bare_threads(state.history.threads),
            archived_threads: bare_threads(state.history.archived_threads),
            drafts: Seq::new(state.history.drafts.len(), |i: int| bare_draft(state.history.drafts[i])),
            ..state.history
        },
        ..state
    }
}

proof fn lemma_moving_threads_keeps_the_rest(
    threads: Seq<LocalThreadView>,
    places: Seq<(Seq<char>, Seq<char>)>,
)
    ensures
        bare_threads(moved_threads(threads, places)) == bare_threads(threads),
{
    assert forall|i: int| 0 <= i < threads.len() implies bare_thread(
        moved_threads(threads, places)[i],
    ) == bare_thread(threads[i]) by {
        assert(bare_thread(moved_thread(threads[i], places)).messages =~= bare_thread(
            threads[i],
        ).messages);
    }
    assert(bare_threads(moved_threads(threads, places)) =~= bare_threads(threads));
}

/// Moving files changes nothing but the references to them.
pub proof fn lemma_moving_keeps_the_rest(
    state: PersistedStateView,
    places: Seq<(Seq<char>, Seq<char>)>,
)
    ensures
        bare_state(moved_state(state, places)) == bare_state(state),
{
    lemma_moving_threads_keeps_the_rest(state.history.threads, places);
    lemma_moving_threads_keeps_the_rest(state.history.archived_threads, places);
    assert(bare_state(moved_state(state, places)).history.drafts =~= bare_state(
        state,
    ).history.drafts);
}

/// Importing an export that was moved gives the history back: all of it as it
/// was but for the references to files, each of which names a file with the
/// bytes of the one that it stood for. The disk is given before the export,
/// after it, after the move and after the import; `path_of` says where below
/// the export the copy of each file stands.
pub proof fn lemma_import_undoes_export(
    state: PersistedStateView,
    target: Seq<char>,
    moved_target: Seq<char>,
    windows: bool,
    path_of: spec_fn(Seq<char>) -> Seq<char>,
    references: Seq<(Seq<char>, Seq<char>)>,
    copies: Seq<(Seq<char>, Seq<char>)>,
    before: Map<Seq<char>, Seq<u8>>,
    exported: Map<Seq<char>, Seq<u8>>,
    moved_disk: Map<Seq<char>, Seq<u8>>,
    after: Map<Seq<char>, Seq<u8>>,
)
    requires
        !(windows && is_drive(folder_of(target, windows))),
        forall|file: Seq<char>| #[trigger]
            files_of_state(state).contains(file) ==> {
                let copy = joined_path(folder_of(target, windows), path_of(file), windows);
                &&& below(path_of(file), windows)
                &&& exported.dom().contains(copy) && exported[copy] == before[file]
                &&& lookup(references, file) == Some(
                    seen_from(copy, folder_of(target, windows), windows),
                )
            },
        forall|path: Seq<char>|
            #![trigger below(path, windows)]
            below(path, windows) && exported.dom().contains(
                joined_path(folder_of(target, windows), path, windows),
            ) ==> {
                let there = joined_path(folder_of(moved_target, windows), path, windows);
                &&& moved_disk.dom().contains(there)
                &&& moved_disk[there] == exported[joined_path(
                    folder_of(target, windows),
                    path,
                    windows,
                )]
            },
        forall|reference: Seq<char>| #[trigger]
            files_of_state(moved_state(state, references)).contains(reference) ==> {
                &&& lookup(copies, reference) is Some
                &&& after.dom().contains(lookup(copies, reference)->0)
                &&& after[lookup(copies, reference)->0] == moved_disk[imported_from(
                    reference,
                    moved_target,
                    windows,
                )]
            },
    ensures
        ({
            let restored = moved_state(moved_state(state, references), copies);
            &&& bare_state(restored) == bare_state(state)
            &&& files_of_state(restored).len() == files_of_state(state).len()
            &&& forall|i: int|
                0 <= i < files_of_state(state).len() ==> {
                    &&& after.dom().contains(#[trigger] files_of_state(restored)[i])
                    &&& after[files_of_state(restored)[i]] == before[files_of_state(state)[i]]
                }
        }),
{
    let out = moved_state(state, references);
    let restored = moved_state(out, copies);
    lemma_moving_keeps_the_rest(state, references);
    lemma_moving_keeps_the_rest(out, copies);
    lemma_moving_files(state, references);
    lemma_moving_files(out, copies);
    let files = files_of_state(state);
    assert forall|i: int| 0 <= i < files.len() implies {
        &&& after.dom().contains(#[trigger] files_of_state(restored)[i])
        &&& after[files_of_state(restored)[i]] == before[files[i]]
    } by {
        let file = files[i];
        assert(files_of_state(state).contains(file));
        let path = path_of(file);
        lemma_reference_finds_file(path, target, moved_target, windows);
        let reference = files_of_state(out)[i];
        assert(reference == moved(file, references));
        assert(reference == path);
        assert(files_of_state(out).contains(reference));
        assert(files_of_state(restored)[i] == moved(reference, copies));
        assert(below(path, windows));
    }
}

} // verus!
