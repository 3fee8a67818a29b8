//! The attached files of a saved state, when they move.
use crate::attachments::{holds_text, with_text};
use crate::model::{
    AppHistoryView, ConversationItem, ConversationItemView, DraftEntry, DraftEntryView, DraftView,
    LocalThread, LocalThreadView, PersistedState, PersistedStateView,
};
use crate::table::{lookup, Table};
use vstd::prelude::*;
use vstd::string::*;

verus! {

/// Where a file stands now: its new path where it has one.
pub open spec fn moved(path: Seq<char>, places: Seq<(Seq<char>, Seq<char>)>) -> Seq<char> {
    match lookup(places, path) {
        Some(place) => place,
        None => path,
    }
}

/// Where the files of a list stand now.
pub open spec fn moved_all(paths: Seq<Seq<char>>, places: Seq<(Seq<char>, Seq<char>)>) -> Seq<
    Seq<char>,
> {
    Seq::new(paths.len(), |i: int| moved(paths[i], places))
}

pub open spec fn moved_item(
    item: ConversationItemView,
    places: Seq<(Seq<char>, Seq<char>)>,
) -> ConversationItemView {
    ConversationItemView { attachments: moved_all(item.attachments, places), ..item }
}

pub open spec fn moved_items(
    items: Seq<ConversationItemView>,
    places: Seq<(Seq<char>, Seq<char>)>,
) -> Seq<ConversationItemView> {
    Seq::new(items.len(), |i: int| moved_item(items[i], places))
}

pub open spec fn moved_thread(
    thread: LocalThreadView,
    places: Seq<(Seq<char>, Seq<char>)>,
) -> LocalThreadView {
    LocalThreadView { messages: moved_items(thread.messages, places), ..thread }
}

pub open spec fn moved_threads(
    threads: Seq<LocalThreadView>,
    places: Seq<(Seq<char>, Seq<char>)>,
) -> Seq<LocalThreadView> {
    Seq::new(threads.len(), |i: int| moved_thread(threads[i], places))
}

pub open spec fn moved_draft(
    entry: DraftEntryView,
    places: Seq<(Seq<char>, Seq<char>)>,
) -> DraftEntryView {
    DraftEntryView {
        draft: DraftView {
            attachments: moved_all(entry.draft.attachments, places),
            ..entry.draft
        },
        ..entry
    }
}

pub open spec fn moved_drafts(
    drafts: Seq<DraftEntryView>,
    places: Seq<(Seq<char>, Seq<char>)>,
) -> Seq<DraftEntryView> {
    Seq::new(drafts.len(), |i: int| moved_draft(drafts[i], places))
}

/// The state with its files at their new places.
pub open spec fn moved_state(
    state: PersistedStateView,
    places: Seq<(Seq<char>, Seq<char>)>,
) -> PersistedStateView {
    PersistedStateView {
        history: AppHistoryView {
            threads: moved_threads(state.history.threads, places),
            archived_threads: moved_threads(state.history.archived_threads, places),
            drafts: moved_drafts(state.history.drafts, places),
            ..state.history
        },
        ..state
    }
}

/// The files of messages, in order.
pub open spec fn files_of_items(items: Seq<ConversationItemView>) -> Seq<Seq<char>>
    decreases items.len(),
{
    if items.len() == 0 {
        Seq::empty()
    } else {
        files_of_items(items.drop_last()) + items.last().attachments
    }
}

/// The files of threads, in order.
pub open spec fn files_of_threads(threads: Seq<LocalThreadView>) -> Seq<Seq<char>>
    decreases threads.len(),
{
    if threads.len() == 0 {
        Seq::empty()
    } else {
        files_of_threads(threads.drop_last()) + files_of_items(threads.last().messages)
    }
}

/// The files of drafts, in order.
pub open spec fn files_of_drafts(drafts: Seq<DraftEntryView>) -> Seq<Seq<char>>
    decreases drafts.len(),
{
    if drafts.len() == 0 {
        Seq::empty()
    } else {
        files_of_drafts(drafts.drop_last()) + drafts.last().draft.attachments
    }
}

/// Every file that a state refers to, as often as it does.
pub open spec fn files_of_state(state: PersistedStateView) -> Seq<Seq<char>> {
    files_of_threads(state.history.threads) + files_of_threads(state.history.archived_threads)
        + files_of_drafts(state.history.drafts)
}

/// A list with each text once, where it comes first.
pub open spec fn once_each(list: Seq<Seq<char>>) -> Seq<Seq<char>>
    decreases list.len(),
{
    if list.len() == 0 {
        Seq::empty()
    } else {
        with_text(once_each(list.drop_last()), list.last())
    }
}

proof fn lemma_once_each(list: Seq<Seq<char>>)
    ensures
        once_each(list).no_duplicates(),
        forall|t: Seq<char>|
            #![trigger once_each(list).contains(t)]
            #![trigger list.contains(t)]
            once_each(list).contains(t) <==> list.contains(t),
    decreases list.len(),
{
    if list.len() > 0 {
        let rest = list.drop_last();
        lemma_once_each(rest);
        let before = once_each(rest);
        let all = once_each(list);
        assert forall|t: Seq<char>| all.contains(t) implies list.contains(t) by {
            let k = choose|k: int| 0 <= k < all.len() && all[k] == t;
            if k < before.len() {
                assert(before[k] == t);
                assert(before.contains(t));
                assert(rest.contains(t));
                let j = choose|j: int| 0 <= j < rest.len() && rest[j] == t;
                assert(list[j] == t);
            } else {
                assert(list[list.len() - 1] == t);
            }
        }
        assert forall|t: Seq<char>| list.contains(t) implies all.contains(t) by {
            let j = choose|j: int| 0 <= j < list.len() && list[j] == t;
            if j < rest.len() {
                assert(rest[j] == t);
                assert(rest.contains(t));
                assert(before.contains(t));
                let k = choose|k: int| 0 <= k < before.len() && before[k] == t;
                assert(all[k] == t);
            } else if !before.contains(t) {
                assert(all[before.len() as int] == t);
            }
        }
        if !before.contains(list.last()) {
            assert forall|i: int, j: int| 0 <= i < j < all.len() implies all[i] != all[j] by {
                if j == before.len() {
                    assert(before.contains(before[i]));
                }
            }
        }
    }
}

/// Each file that a state refers to is listed once.
pub proof fn lemma_each_file_is_listed_once(state: PersistedStateView, path: Seq<char>)
    ensures
        once_each(files_of_state(state)).no_duplicates(),
        once_each(files_of_state(state)).contains(path) <==> files_of_state(state).contains(path),
{
    lemma_once_each(files_of_state(state));
}

proof fn lemma_moved_all_sum(
    a: Seq<Seq<char>>,
    b: Seq<Seq<char>>,
    places: Seq<(Seq<char>, Seq<char>)>,
)
    ensures
        moved_all(a + b, places) == moved_all(a, places) + moved_all(b, places),
{
    assert(moved_all(a + b, places) =~= moved_all(a, places) + moved_all(b, places));
}

proof fn lemma_files_of_moved_items(
    items: Seq<ConversationItemView>,
    places: Seq<(Seq<char>, Seq<char>)>,
)
    ensures
        files_of_items(moved_items(items, places)) == moved_all(files_of_items(items), places),
    decreases items.len(),
{
    if items.len() > 0 {
        lemma_files_of_moved_items(items.drop_last(), places);
        assert(moved_items(items, places).drop_last() =~= moved_items(items.drop_last(), places));
        lemma_moved_all_sum(files_of_items(items.drop_last()), items.last().attachments, places);
    } else {
        assert(files_of_items(moved_items(items, places)) =~= moved_all(
            files_of_items(items),
            places,
        ));
    }
}

proof fn lemma_files_of_moved_threads(
    threads: Seq<LocalThreadView>,
    places: Seq<(Seq<char>, Seq<char>)>,
)
    ensures
        files_of_threads(moved_threads(threads, places)) == moved_all(
            files_of_threads(threads),
            places,
        ),
    decreases threads.len(),
{
    if threads.len() > 0 {
        lemma_files_of_moved_threads(threads.drop_last(), places);
        assert(moved_threads(threads, places).drop_last() =~= moved_threads(
            threads.drop_last(),
            places,
        ));
        lemma_files_of_moved_items(threads.last().messages, places);
        lemma_moved_all_sum(
            files_of_threads(threads.drop_last()),
            files_of_items(threads.last().messages),
            places,
        );
    } else {
        assert(files_of_threads(moved_threads(threads, places)) =~= moved_all(
            files_of_threads(threads),
            places,
        ));
    }
}

proof fn lemma_files_of_moved_drafts(
    drafts: Seq<DraftEntryView>,
    places: Seq<(Seq<char>, Seq<char>)>,
)
    ensures
        files_of_drafts(moved_drafts(drafts, places)) == moved_all(files_of_drafts(drafts), places),
    decreases drafts.len(),
{
    if drafts.len() > 0 {
        lemma_files_of_moved_drafts(drafts.drop_last(), places);
        assert(moved_drafts(drafts, places).drop_last() =~= moved_drafts(
            drafts.drop_last(),
            places,
        ));
        lemma_moved_all_sum(
            files_of_drafts(drafts.drop_last()),
            drafts.last().draft.attachments,
            places,
        );
    } else {
        assert(files_of_drafts(moved_drafts(drafts, places)) =~= moved_all(
            files_of_drafts(drafts),
            places,
        ));
    }
}

/// Moving the files of a state moves each reference to a file to the one new
/// place of that file, and changes nothing else of the preferences and the
/// projects.
pub proof fn lemma_moving_files(state: PersistedStateView, places: Seq<(Seq<char>, Seq<char>)>)
    ensures
        files_of_state(moved_state(state, places)) == moved_all(files_of_state(state), places),
        moved_state(state, places).preferences == state.preferences,
        moved_state(state, places).history.projects == state.history.projects,
{
    let h = state.history;
    lemma_files_of_moved_threads(h.threads, places);
    lemma_files_of_moved_threads(h.archived_threads, places);
    lemma_files_of_moved_drafts(h.drafts, places);
    lemma_moved_all_sum(
        files_of_threads(h.threads),
        files_of_threads(h.archived_threads),
        places,
    );
    lemma_moved_all_sum(
        files_of_threads(h.threads) + files_of_threads(h.archived_threads),
        files_of_drafts(h.drafts),
        places,
    );
}

fn move_all(paths: &Vec<String>, places: &Table<String>) -> (r: Vec<String>)
    ensures
        r.deep_view() == moved_all(paths.deep_view(), places.deep_view()),
{
    let mut r: Vec<String> = Vec::new();
    let mut i: usize = 0;
    while i < paths.len()
        invariant
            i <= paths@.len(),
            r@.len() == i,
            forall|k: int|
                0 <= k < i ==> (#[trigger] r@[k])@ == moved(
                    paths.deep_view()[k],
                    places.deep_view(),
                ),
        decreases paths@.len() - i,
    {
        assert(paths.deep_view()[i as int] == paths@[i as int]@);
        let path: String = match places.get(paths[i].as_str()) {
            Some(place) => place.clone(),
            None => paths[i].clone(),
        };
        r.push(path);
        i += 1;
    }
    assert(r.deep_view() =~= moved_all(paths.deep_view(), places.deep_view()));
    r
}

fn move_items(items: &mut Vec<ConversationItem>, places: &Table<String>)
    ensures
        final(items).deep_view() == moved_items(old(items).deep_view(), places.deep_view()),
{
    let ghost before = items.deep_view();
    let mut i: usize = 0;
    while i < items.len()
        invariant
            i <= items@.len(),
            items@.len() == before.len(),
            forall|k: int|
                0 <= k < i ==> (#[trigger] items@[k]).deep_view() == moved_item(
                    before[k],
                    places.deep_view(),
                ),
            forall|k: int| i <= k < before.len() ==> (#[trigger] items@[k]).deep_view() == before[k],
        decreases items@.len() - i,
    {
        let attachments = move_all(&items[i].attachments, places);
        items[i].attachments = attachments;
        i += 1;
    }
    assert(items.deep_view() =~= moved_items(before, places.deep_view()));
}

fn move_threads(threads: &mut Vec<LocalThread>, places: &Table<String>)
    ensures
        final(threads).deep_view() == moved_threads(old(threads).deep_view(), places.deep_view()),
{
    let ghost before = threads.deep_view();
    let mut i: usize = 0;
    while i < threads.len()
        invariant
            i <= threads@.len(),
            threads@.len() == before.len(),
            forall|k: int|
                0 <= k < i ==> (#[trigger] threads@[k]).deep_view() == moved_thread(
                    before[k],
                    places.deep_view(),
                ),
            forall|k: int|
                i <= k < before.len() ==> (#[trigger] threads@[k]).deep_view() == before[k],
        decreases threads@.len() - i,
    {
        move_items(&mut threads[i].messages, places);
        i += 1;
    }
    assert(threads.deep_view() =~= moved_threads(before, places.deep_view()));
}

fn move_drafts(drafts: &mut Vec<DraftEntry>, places: &Table<String>)
    ensures
        final(drafts).deep_view() == moved_drafts(old(drafts).deep_view(), places.deep_view()),
{
    let ghost before = drafts.deep_view();
    let mut i: usize = 0;
    while i < drafts.len()
        invariant
            i <= drafts@.len(),
            drafts@.len() == before.len(),
            forall|k: int|
                0 <= k < i ==> (#[trigger] drafts@[k]).deep_view() == moved_draft(
                    before[k],
                    places.deep_view(),
                ),
            forall|k: int|
                i <= k < before.len() ==> (#[trigger] drafts@[k]).deep_view() == before[k],
        decreases drafts@.len() - i,
    {
        let attachments = move_all(&drafts[i].draft.attachments, places);
        drafts[i].draft.attachments = attachments;
        i += 1;
    }
    assert(drafts.deep_view() =~= moved_drafts(before, places.deep_view()));
}

/// Puts the files of a state at their new places.
pub fn remap_attachments(state: &mut PersistedState, places: &Table<String>)
    ensures
        final(state).deep_view() == moved_state(old(state).deep_view(), places.deep_view()),
{
    move_threads(&mut state.history.threads, places);
    move_threads(&mut state.history.archived_threads, places);
    move_drafts(&mut state.history.drafts, places);
}

fn add_once(list: &mut Vec<String>, more: &Vec<String>, Ghost(seen): Ghost<Seq<Seq<char>>>)
    requires
        old(list).deep_view() == once_each(seen),
    ensures
        final(list).deep_view() == once_each(seen + more.deep_view()),
{
    let ghost all = more.deep_view();
    let mut i: usize = 0;
    proof {
        assert(seen + all.take(0) =~= seen);
    }
    while i < more.len()
        invariant
            i <= more@.len(),
            all == more.deep_view(),
            list.deep_view() == once_each(seen + all.take(i as int)),
        decreases more@.len() - i,
    {
        let ghost before = list.deep_view();
        proof {
            let upto = seen + all.take(i as int + 1);
            assert(upto.drop_last() =~= seen + all.take(i as int));
            assert(upto.last() == more@[i as int]@);
        }
        if !holds_text(list, more[i].as_str()) {
            list.push(more[i].clone());
            assert(list.deep_view() =~= before.push(more@[i as int]@));
        }
        i += 1;
    }
    assert(all.take(i as int) =~= all);
}

fn add_items(list: &mut Vec<String>, items: &Vec<ConversationItem>, Ghost(seen): Ghost<Seq<Seq<char>>>)
    requires
        old(list).deep_view() == once_each(seen),
    ensures
        final(list).deep_view() == once_each(seen + files_of_items(items.deep_view())),
{
    let ghost all = items.deep_view();
    let mut i: usize = 0;
    proof {
        assert(seen + files_of_items(all.take(0)) =~= seen);
    }
    while i < items.len()
        invariant
            i <= items@.len(),
            all == items.deep_view(),
            list.deep_view() == once_each(seen + files_of_items(all.take(i as int))),
        decreases items@.len() - i,
    {
        let ghost upto = seen + files_of_items(all.take(i as int));
        add_once(list, &items[i].attachments, Ghost(upto));
        proof {
            assert(all.take(i as int + 1).drop_last() =~= all.take(i as int));
            assert(all.take(i as int + 1).last() == items@[i as int].deep_view());
            assert(upto + items@[i as int].attachments.deep_view() =~= seen + files_of_items(
                all.take(i as int + 1),
            ));
        }
        i += 1;
    }
    assert(all.take(i as int) =~= all);
}

fn add_threads(
    list: &mut Vec<String>,
    threads: &Vec<LocalThread>,
    Ghost(seen): Ghost<Seq<Seq<char>>>,
)
    requires
        old(list).deep_view() == once_each(seen),
    ensures
        final(list).deep_view() == once_each(seen + files_of_threads(threads.deep_view())),
{
    let ghost all = threads.deep_view();
    let mut i: usize = 0;
    proof {
        assert(seen + files_of_threads(all.take(0)) =~= seen);
    }
    while i < threads.len()
        invariant
            i <= threads@.len(),
            all == threads.deep_view(),
            list.deep_view() == once_each(seen + files_of_threads(all.take(i as int))),
        decreases threads@.len() - i,
    {
        let ghost upto = seen + files_of_threads(all.take(i as int));
        add_items(list, &threads[i].messages, Ghost(upto));
        proof {
            assert(all.take(i as int + 1).drop_last() =~= all.take(i as int));
            assert(all.take(i as int + 1).last() == threads@[i as int].deep_view());
            assert(upto + files_of_items(threads@[i as int].messages.deep_view()) =~= seen
                + files_of_threads(all.take(i as int + 1)));
        }
        i += 1;
    }
    assert(all.take(i as int) =~= all);
}

fn add_drafts(
    list: &mut Vec<String>,
    drafts: &Vec<DraftEntry>,
    Ghost(seen): Ghost<Seq<Seq<char>>>,
)
    requires
        old(list).deep_view() == once_each(seen),
    ensures
        final(list).deep_view() == once_each(seen + files_of_drafts(drafts.deep_view())),
{
    let ghost all = drafts.deep_view();
    let mut i: usize = 0;
    proof {
        assert(seen + files_of_drafts(all.take(0)) =~= seen);
    }
    while i < drafts.len()
        invariant
            i <= drafts@.len(),
            all == drafts.deep_view(),
            list.deep_view() == once_each(seen + files_of_drafts(all.take(i as int))),
        decreases drafts@.len() - i,
    {
        let ghost upto = seen + files_of_drafts(all.take(i as int));
        add_once(list, &drafts[i].draft.attachments, Ghost(upto));
        proof {
            assert(all.take(i as int + 1).drop_last() =~= all.take(i as int));
            assert(all.take(i as int + 1).last() == drafts@[i as int].deep_view());
            assert(upto + drafts@[i as int].draft.attachments.deep_view() =~= seen
                + files_of_drafts(all.take(i as int + 1)));
        }
        i += 1;
    }
    assert(all.take(i as int) =~= all);
}

/// The files that a state refers to, each once, in the order in which they
/// come.
pub fn attachment_paths(state: &PersistedState) -> (r: Vec<String>)
    ensures
        r.deep_view() == once_each(files_of_state(state.deep_view())),
{
    let mut list: Vec<String> = Vec::new();
    let ghost none = Seq::<Seq<char>>::empty();
    let ghost h = state.deep_view().history;
    assert(list.deep_view() =~= once_each(none));
    add_threads(&mut list, &state.history.threads, Ghost(none));
    assert(none + files_of_threads(h.threads) =~= files_of_threads(h.threads));
    add_threads(&mut list, &state.history.archived_threads, Ghost(files_of_threads(h.threads)));
    add_drafts(
        &mut list,
        &state.history.drafts,
        Ghost(files_of_threads(h.threads) + files_of_threads(h.archived_threads)),
    );
    list
}

} // verus!
