//! The sidebar: projects with their threads, newest first.
use crate::case::{lower_form, to_lowercase};
use crate::labels::{age_label, relative_time_label};
use crate::model::{LocalThread, LocalThreadView, ProjectView};
use crate::order::{lemma_insert_by, sorted_by};
use crate::state::{is_id, AppState, AppStateView};
use crate::table::has_key;
use crate::text::{cat, contains, decimal, decimal_text, has_text, same_text, trim, trimmed};
use crate::view_models::{ProjectRow, ProjectRowView, ThreadRow, ThreadRowView};
use vstd::prelude::*;
use vstd::string::*;

verus! {

/// Whether a title holds what is searched for, whatever the case.
pub open spec fn title_matches(thread: LocalThreadView, search: Seq<char>) -> bool {
    search.len() == 0 || has_text(lower_form(thread.title), search)
}

/// The threads whose titles match.
pub open spec fn matching_threads(threads: Seq<LocalThreadView>, search: Seq<char>) -> Seq<LocalThreadView>
    decreases threads.len(),
{
    if threads.len() == 0 {
        threads
    } else {
        let before = matching_threads(threads.drop_last(), search);
        if title_matches(threads.last(), search) {
            before.push(threads.last())
        } else {
            before
        }
    }
}

/// A thread that was used later comes first.
pub open spec fn used_later() -> spec_fn(LocalThreadView, LocalThreadView) -> bool {
    |a: LocalThreadView, b: LocalThreadView| a.updated_at > b.updated_at
}

/// The threads that are listed, in order.
pub open spec fn listed_threads(threads: Seq<LocalThreadView>, search: Seq<char>) -> Seq<LocalThreadView> {
    sorted_by(matching_threads(threads, lower_form(trimmed(search))), used_later())
}

/// The list is in order: no thread comes before one that was used later.
pub proof fn lemma_listed_newest_first(threads: Seq<LocalThreadView>, search: Seq<char>)
    ensures
        forall|i: int, j: int|
            0 <= i < j < listed_threads(threads, search).len() ==> (#[trigger] listed_threads(
                threads,
                search,
            )[i]).updated_at >= (#[trigger] listed_threads(threads, search)[j]).updated_at,
        listed_threads(threads, search).to_multiset() == matching_threads(
            threads,
            lower_form(trimmed(search)),
        ).to_multiset(),
{
    crate::order::lemma_sorted_by(
        matching_threads(threads, lower_form(trimmed(search))),
        used_later(),
    );
    let all = listed_threads(threads, search);
    assert forall|i: int, j: int| 0 <= i < j < all.len() implies (#[trigger] all[i]).updated_at >= (
    #[trigger] all[j]).updated_at by {
        assert(!used_later()(all[j], all[i]));
    }
}

proof fn lemma_matching(threads: Seq<LocalThreadView>, search: Seq<char>, t: LocalThreadView)
    ensures
        matching_threads(threads, search).contains(t) <==> threads.contains(t) && (search.len() == 0
            || has_text(lower_form(t.title), search)),
    decreases threads.len(),
{
    let found = matching_threads(threads, search);
    if threads.len() > 0 {
        let front = threads.drop_last();
        let before = matching_threads(front, search);
        lemma_matching(front, search, t);
        if threads.contains(t) {
            let i = choose|i: int| 0 <= i < threads.len() && threads[i] == t;
            if i < front.len() {
                assert(front[i] == t);
            }
        }
        if front.contains(t) {
            let i = choose|i: int| 0 <= i < front.len() && front[i] == t;
            assert(threads[i] == t);
        }
        if before.contains(t) {
            let i = choose|i: int| 0 <= i < before.len() && before[i] == t;
            assert(found[i] == t);
        }
        if title_matches(threads.last(), search) {
            assert(found[before.len() as int] == threads.last());
        }
        if found.contains(t) {
            let i = choose|i: int| 0 <= i < found.len() && found[i] == t;
            if i < before.len() {
                assert(before[i] == t);
            }
        }
    }
}

/// A row that stands for a thread.
pub open spec fn stands_for(row: ThreadRowView, t: LocalThreadView, state: AppStateView) -> bool {
    &&& row.id == t.id
    &&& row.title == t.title
    &&& row.project_id == t.project_id
    &&& row.active == (state.active_local_thread == Some(t.id))
    &&& row.busy == has_key(state.running_turns, t.id)
    &&& row.completed_unread == t.unread_completion
}

/// The search finds every thread whose title holds what was typed, whatever the
/// case, and no other thread; each is shown by its own title.
pub proof fn lemma_search_finds_titles(
    state: AppStateView,
    search: Seq<char>,
    now: i64,
    t: LocalThreadView,
    i: int,
)
    ensures
        ({
            let rows = thread_rows_of(state, search, now);
            let typed = lower_form(trimmed(search));
            &&& state.threads.contains(t) && (typed.len() == 0 || has_text(
                lower_form(t.title),
                typed,
            )) ==> exists|k: int| 0 <= k < rows.len() && stands_for(#[trigger] rows[k], t, state)
            &&& 0 <= i < rows.len() ==> exists|u: LocalThreadView|
                state.threads.contains(u) && (typed.len() == 0 || has_text(
                    lower_form(u.title),
                    typed,
                )) && #[trigger] stands_for(rows[i], u, state)
        }),
{
    broadcast use vstd::seq_lib::group_to_multiset_ensures;

    let typed = lower_form(trimmed(search));
    let rows = thread_rows_of(state, search, now);
    let all = listed_threads(state.threads, search);
    let found = matching_threads(state.threads, typed);
    lemma_listed_newest_first(state.threads, search);
    lemma_matching(state.threads, typed, t);
    if found.contains(t) {
        assert(found.to_multiset().count(t) > 0);
        assert(all.to_multiset().count(t) > 0);
        assert(all.contains(t));
        let k = choose|k: int| 0 <= k < all.len() && all[k] == t;
        assert(stands_for(rows[k], t, state));
    }
    if 0 <= i < rows.len() {
        let u = all[i];
        assert(all.contains(u));
        assert(all.to_multiset().count(u) > 0);
        assert(found.to_multiset().count(u) > 0);
        assert(found.contains(u));
        lemma_matching(state.threads, typed, u);
        assert(stands_for(rows[i], u, state));
    }
}

/// Every project is listed, in order, by its own name and with the number of
/// its threads among the rows.
pub proof fn lemma_every_project_is_listed(state: AppStateView, rows: Seq<ThreadRowView>, i: int)
    requires
        0 <= i < state.projects.len(),
    ensures
        ({
            let listed = project_rows_of(state, rows);
            let p = state.projects[i];
            &&& listed.len() == state.projects.len()
            &&& listed[i].id == p.id
            &&& listed[i].name == p.name
            &&& listed[i].path == p.path
            &&& listed[i].collapsed == p.collapsed
            &&& listed[i].active == (state.active_project == Some(p.id))
        }),
{
}

/// How many threads of a project there are.
pub open spec fn count_of_project(threads: Seq<LocalThreadView>, project: Seq<char>) -> nat
    decreases threads.len(),
{
    if threads.len() == 0 {
        0
    } else {
        count_of_project(threads.drop_last(), project) + (if threads.last().project_id == project {
            1nat
        } else {
            0
        })
    }
}

/// The row of a thread; its index counts the rows of its project before it.
pub open spec fn thread_row_of(
    state: AppStateView,
    thread: LocalThreadView,
    index: nat,
    now: i64,
) -> ThreadRowView {
    ThreadRowView {
        id: thread.id,
        project_id: thread.project_id,
        title: thread.title,
        subtitle: decimal(thread.messages.len()) + (if thread.messages.len() == 1 {
            " message"@
        } else {
            " messages"@
        }),
        age_label: if thread.messages.len() == 0 {
            Seq::empty()
        } else {
            age_label(thread.updated_at, now)
        },
        active: state.active_local_thread == Some(thread.id),
        busy: has_key(state.running_turns, thread.id),
        completed_unread: thread.unread_completion,
        project_index: index as u64,
    }
}

/// The rows of the sidebar.
pub open spec fn thread_rows_of(state: AppStateView, search: Seq<char>, now: i64) -> Seq<ThreadRowView> {
    let all = listed_threads(state.threads, search);
    Seq::new(
        all.len(),
        |i: int|
            thread_row_of(state, all[i], count_of_project(all.take(i), all[i].project_id), now),
    )
}

/// The threads at these places.
pub open spec fn threads_at(threads: Seq<LocalThreadView>, places: Seq<usize>) -> Seq<LocalThreadView> {
    Seq::new(places.len(), |i: int| threads[places[i] as int])
}

/// The places of the listed threads, in order.
fn order_threads(threads: &Vec<LocalThread>, search: &str) -> (r: Vec<usize>)
    ensures
        forall|i: int| 0 <= i < r@.len() ==> #[trigger] r@[i] < threads@.len(),
        threads_at(threads.deep_view(), r@) == sorted_by(
            matching_threads(threads.deep_view(), search@),
            used_later(),
        ),
{
    let ghost views = threads.deep_view();
    let ghost less = used_later();
    let mut order: Vec<usize> = Vec::new();
    let mut i: usize = 0;
    assert(threads_at(views, order@) =~= sorted_by(matching_threads(views.take(0), search@), less));
    while i < threads.len()
        invariant
            i <= threads@.len(),
            views == threads.deep_view(),
            less == used_later(),
            forall|j: int| 0 <= j < order@.len() ==> #[trigger] order@[j] < threads@.len(),
            threads_at(views, order@) == sorted_by(
                matching_threads(views.take(i as int), search@),
                less,
            ),
        decreases threads@.len() - i,
    {
        proof {
            assert(views.take(i as int + 1).drop_last() =~= views.take(i as int));
            assert(views.take(i as int + 1).last() == threads@[i as int].deep_view());
        }
        let ghost before = matching_threads(views.take(i as int), search@);
        if search.is_empty() || contains(to_lowercase(threads[i].title.as_str()).as_str(), search) {
            let ghost listed = threads_at(views, order@);
            let mut at: usize = order.len();
            while at > 0 && threads[i].updated_at > threads[order[at - 1]].updated_at
                invariant
                    i < threads@.len(),
                    at <= order@.len(),
                    views == threads.deep_view(),
                    less == used_later(),
                    listed == threads_at(views, order@),
                    forall|j: int| 0 <= j < order@.len() ==> #[trigger] order@[j] < threads@.len(),
                    forall|j: int| at <= j < listed.len() ==> less(views[i as int], #[trigger] listed[j]),
                decreases at,
            {
                assert(listed[at - 1] == threads@[order@[at - 1] as int].deep_view());
                at -= 1;
            }
            proof {
                if at > 0 {
                    assert(listed[at - 1] == threads@[order@[at - 1] as int].deep_view());
                }
                lemma_insert_by(listed, views[i as int], less, at as int);
                assert(before.push(views[i as int]).drop_last() =~= before);
            }
            let ghost places = order@;
            order.insert(at, i);
            proof {
                assert(threads_at(views, order@) =~= listed.insert(at as int, views[i as int]));
                assert forall|j: int| 0 <= j < order@.len() implies #[trigger] order@[j]
                    < threads@.len() by {
                    if j < at {
                        assert(order@[j] == places[j]);
                    } else if j > at {
                        assert(order@[j] == places[j - 1]);
                    }
                }
            }
        }
        i += 1;
    }
    assert(views.take(i as int) =~= views);
    order
}

fn make_thread_row(state: &AppState, thread: &LocalThread, index: u64, now: i64) -> (r: ThreadRow)
    ensures
        r.deep_view() == thread_row_of(state.deep_view(), thread.deep_view(), index as nat, now),
{
    let count: usize = thread.messages.len();
    ThreadRow {
        id: thread.id.clone(),
        project_id: thread.project_id.clone(),
        title: thread.title.clone(),
        subtitle: cat(
            decimal_text(count as u128).as_str(),
            if count == 1 {
                " message"
            } else {
                " messages"
            },
        ),
        age_label: if count == 0 {
            String::new()
        } else {
            relative_time_label(thread.updated_at, now)
        },
        active: is_id(&state.active_local_thread, thread.id.as_str()),
        busy: state.running_turns.contains_key(thread.id.as_str()),
        completed_unread: thread.unread_completion,
        project_index: index,
    }
}

/// Counts the rows of a project among the first `to` places.
fn count_before(threads: &Vec<LocalThread>, places: &Vec<usize>, to: usize, project: &str) -> (r: u64)
    requires
        to <= places@.len(),
        forall|i: int| 0 <= i < places@.len() ==> #[trigger] places@[i] < threads@.len(),
    ensures
        r == count_of_project(threads_at(threads.deep_view(), places@).take(to as int), project@),
{
    let ghost views = threads.deep_view();
    let ghost all = threads_at(views, places@);
    let mut count: u64 = 0;
    let mut i: usize = 0;
    while i < to
        invariant
            i <= to <= places@.len(),
            views == threads.deep_view(),
            all == threads_at(views, places@),
            forall|j: int| 0 <= j < places@.len() ==> #[trigger] places@[j] < threads@.len(),
            count == count_of_project(all.take(i as int), project@),
            count <= i,
        decreases to - i,
    {
        assert(all.take(i as int + 1).drop_last() =~= all.take(i as int));
        assert(all[i as int] == threads@[places@[i as int] as int].deep_view());
        if same_text(threads[places[i]].project_id.as_str(), project) {
            count += 1;
        }
        i += 1;
    }
    count
}

pub fn thread_rows_at(state: &AppState, search: &str, now: i64) -> (r: Vec<ThreadRow>)
    ensures
        r.deep_view() == thread_rows_of(state.deep_view(), search@, now),
{
    let wanted = to_lowercase(trim(search).as_str());
    let places = order_threads(&state.threads, wanted.as_str());
    let ghost views = state.threads.deep_view();
    let ghost all = threads_at(views, places@);
    let mut rows: Vec<ThreadRow> = Vec::new();
    let mut i: usize = 0;
    while i < places.len()
        invariant
            i <= places@.len(),
            views == state.threads.deep_view(),
            all == threads_at(views, places@),
            forall|j: int| 0 <= j < places@.len() ==> #[trigger] places@[j] < state.threads@.len(),
            rows@.len() == i,
            forall|j: int|
                0 <= j < i ==> (#[trigger] rows@[j]).deep_view() == thread_row_of(
                    state.deep_view(),
                    all[j],
                    count_of_project(all.take(j), all[j].project_id),
                    now,
                ),
        decreases places@.len() - i,
    {
        let thread = &state.threads[places[i]];
        assert(all[i as int] == thread.deep_view());
        let index: u64 = count_before(&state.threads, &places, i, thread.project_id.as_str());
        rows.push(make_thread_row(state, thread, index, now));
        i += 1;
    }
    assert(rows.deep_view() =~= thread_rows_of(state.deep_view(), search@, now));
    rows
}

/// How many of the rows belong to a project.
pub open spec fn rows_of_project(rows: Seq<ThreadRowView>, project: Seq<char>) -> nat
    decreases rows.len(),
{
    if rows.len() == 0 {
        0
    } else {
        rows_of_project(rows.drop_last(), project) + (if rows.last().project_id == project {
            1nat
        } else {
            0
        })
    }
}

fn count_rows(rows: &Vec<ThreadRow>, project: &str) -> (r: u64)
    ensures
        r == rows_of_project(rows.deep_view(), project@),
{
    let ghost all = rows.deep_view();
    let mut count: u64 = 0;
    let mut i: usize = 0;
    while i < rows.len()
        invariant
            i <= rows@.len(),
            all == rows.deep_view(),
            count == rows_of_project(all.take(i as int), project@),
            count <= i,
        decreases rows@.len() - i,
    {
        assert(all.take(i as int + 1).drop_last() =~= all.take(i as int));
        assert(all[i as int] == rows@[i as int].deep_view());
        if same_text(rows[i].project_id.as_str(), project) {
            count += 1;
        }
        i += 1;
    }
    assert(all.take(i as int) =~= all);
    count
}

pub open spec fn project_row_of(
    state: AppStateView,
    project: ProjectView,
    rows: Seq<ThreadRowView>,
) -> ProjectRowView {
    ProjectRowView {
        id: project.id,
        name: project.name,
        path: project.path,
        active: state.active_project == Some(project.id),
        collapsed: project.collapsed,
        thread_count: rows_of_project(rows, project.id) as u64,
    }
}

/// The projects with the number of their threads that are listed.
pub open spec fn project_rows_of(state: AppStateView, rows: Seq<ThreadRowView>) -> Seq<ProjectRowView> {
    Seq::new(state.projects.len(), |i: int| project_row_of(state, state.projects[i], rows))
}

pub fn project_rows(state: &AppState, threads: &Vec<ThreadRow>) -> (r: Vec<ProjectRow>)
    ensures
        r.deep_view() == project_rows_of(state.deep_view(), threads.deep_view()),
{
    let mut rows: Vec<ProjectRow> = Vec::new();
    let mut i: usize = 0;
    while i < state.projects.len()
        invariant
            i <= state.projects@.len(),
            rows@.len() == i,
            forall|j: int|
                0 <= j < i ==> (#[trigger] rows@[j]).deep_view() == project_row_of(
                    state.deep_view(),
                    state.projects@[j].deep_view(),
                    threads.deep_view(),
                ),
        decreases state.projects@.len() - i,
    {
        let project = &state.projects[i];
        rows.push(
            ProjectRow {
                id: project.id.clone(),
                name: project.name.clone(),
                path: project.path.clone(),
                active: is_id(&state.active_project, project.id.as_str()),
                collapsed: project.collapsed,
                thread_count: count_rows(threads, project.id.as_str()),
            },
        );
        i += 1;
    }
    assert(rows.deep_view() =~= project_rows_of(state.deep_view(), threads.deep_view()));
    rows
}

} // verus!
