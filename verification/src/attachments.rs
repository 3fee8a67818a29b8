//! Attached files as they are shown, and which previews are kept.
use crate::path::{file_name, name_in_path};
use crate::prompt::{extension_among, image_extensions, is_image_path};
use crate::text::same_text;
use vstd::prelude::*;
use vstd::string::*;

verus! {

/// One attached file.
#[derive(Debug)]
pub struct AttachmentRow {
    pub index: i32,
    pub name: String,
    pub image: bool,
}

pub struct AttachmentRowView {
    pub index: i32,
    pub name: Seq<char>,
    pub image: bool,
}

impl DeepView for AttachmentRow {
    type V = AttachmentRowView;

    open spec fn deep_view(&self) -> AttachmentRowView {
        AttachmentRowView { index: self.index, name: self.name@, image: self.image }
    }
}

/// The row of the file at a place in the list.
pub open spec fn attachment_row(path: Seq<char>, windows: bool, index: int) -> AttachmentRowView {
    AttachmentRowView {
        index: if index <= i32::MAX {
            index as i32
        } else {
            i32::MAX
        },
        name: match name_in_path(path, windows) {
            Some(name) => name,
            None => "Attachment"@,
        },
        image: extension_among(path, windows, image_extensions()),
    }
}

pub fn attachment_rows(paths: &Vec<String>, windows: bool) -> (r: Vec<AttachmentRow>)
    ensures
        r.deep_view() == Seq::new(
            paths@.len(),
            |i: int| attachment_row(paths.deep_view()[i], windows, i),
        ),
{
    let mut r: Vec<AttachmentRow> = Vec::new();
    let mut i: usize = 0;
    while i < paths.len()
        invariant
            i <= paths@.len(),
            r@.len() == i,
            forall|k: int|
                0 <= k < i ==> (#[trigger] r@[k]).deep_view() == attachment_row(
                    paths.deep_view()[k],
                    windows,
                    k,
                ),
        decreases paths@.len() - i,
    {
        let path = paths[i].as_str();
        let index: i32 = if i <= 2147483647 {
            i as i32
        } else {
            2147483647
        };
        let name = match file_name(path, windows) {
            Some(name) => name,
            None => "Attachment".to_owned(),
        };
        assert(paths.deep_view()[i as int] == path@);
        r.push(AttachmentRow { index, name, image: is_image_path(path, windows) });
        i += 1;
    }
    assert(r.deep_view() =~= Seq::new(
        paths@.len(),
        |i: int| attachment_row(paths.deep_view()[i], windows, i),
    ));
    r
}

/// The number of previews that are kept.
pub const PREVIEW_LIMIT: usize = 128;

/// Which previews there are, in which order they came, and which are being
/// made.
#[derive(Debug)]
pub struct PreviewIndex {
    pub shown: Vec<String>,
    pub order: Vec<String>,
    pub pending: Vec<String>,
}

pub struct PreviewIndexView {
    pub shown: Seq<Seq<char>>,
    pub order: Seq<Seq<char>>,
    pub pending: Seq<Seq<char>>,
}

impl DeepView for PreviewIndex {
    type V = PreviewIndexView;

    open spec fn deep_view(&self) -> PreviewIndexView {
        PreviewIndexView {
            shown: self.shown.deep_view(),
            order: self.order.deep_view(),
            pending: self.pending.deep_view(),
        }
    }
}

/// A list without a text.
pub open spec fn without_text(list: Seq<Seq<char>>, t: Seq<char>) -> Seq<Seq<char>> {
    list.filter(other_than(t))
}

pub open spec fn other_than(t: Seq<char>) -> spec_fn(Seq<char>) -> bool {
    |s: Seq<char>| s != t
}

/// The list with a text that occurs once, at the end if it is new.
pub open spec fn with_text(list: Seq<Seq<char>>, t: Seq<char>) -> Seq<Seq<char>> {
    if list.contains(t) {
        list
    } else {
        list.push(t)
    }
}

pub(crate) fn holds_text(list: &Vec<String>, t: &str) -> (r: bool)
    ensures
        r == list.deep_view().contains(t@),
{
    let mut i: usize = 0;
    while i < list.len()
        invariant
            i <= list@.len(),
            forall|j: int| 0 <= j < i ==> list.deep_view()[j] != t@,
        decreases list@.len() - i,
    {
        assert(list.deep_view()[i as int] == list@[i as int]@);
        if same_text(list[i].as_str(), t) {
            return true;
        }
        i += 1;
    }
    false
}

fn remove_text(list: &Vec<String>, t: &str) -> (r: Vec<String>)
    ensures
        r.deep_view() == without_text(list.deep_view(), t@),
{
    let ghost all = list.deep_view();
    let mut r: Vec<String> = Vec::new();
    let mut i: usize = 0;
    proof {
        reveal(Seq::filter);
        assert(r.deep_view() =~= without_text(all.take(0), t@));
    }
    while i < list.len()
        invariant
            i <= list@.len(),
            all == list.deep_view(),
            r.deep_view() == without_text(all.take(i as int), t@),
        decreases list@.len() - i,
    {
        let ghost before = r.deep_view();
        proof {
            reveal(Seq::filter);
            assert(all.take(i as int + 1).drop_last() =~= all.take(i as int));
            assert(all.take(i as int + 1).last() == list@[i as int]@);
        }
        if !same_text(list[i].as_str(), t) {
            r.push(list[i].clone());
            assert(r.deep_view() =~= before.push(list@[i as int]@));
        }
        i += 1;
    }
    assert(all.take(i as int) =~= all);
    r
}

impl PreviewIndexView {
    /// Each preview came at some time, and no more are kept than may be.
    pub open spec fn well_formed(self) -> bool {
        &&& self.shown.no_duplicates()
        &&& self.shown.len() <= PREVIEW_LIMIT
        &&& forall|i: int| 0 <= i < self.shown.len() ==> self.order.contains(#[trigger] self.shown[i])
    }

    /// Room is made for one more: the previews that came first leave.
    pub open spec fn with_room(self) -> PreviewIndexView
        decreases self.order.len(),
    {
        if self.shown.len() < PREVIEW_LIMIT || self.order.len() == 0 {
            self
        } else {
            PreviewIndexView {
                shown: without_text(self.shown, self.order[0]),
                order: self.order.skip(1),
                pending: self.pending,
            }.with_room()
        }
    }

    /// A preview was made.
    pub open spec fn finished(self, path: Seq<char>) -> PreviewIndexView {
        let roomy = PreviewIndexView {
            pending: without_text(self.pending, path),
            ..self
        }.with_room();
        PreviewIndexView {
            shown: with_text(roomy.shown, path),
            order: roomy.order.push(path),
            pending: roomy.pending,
        }
    }
}

proof fn lemma_without_text(list: Seq<Seq<char>>, t: Seq<char>)
    ensures
        forall|s: Seq<char>|
            #![trigger without_text(list, t).contains(s)]
            #![trigger list.contains(s)]
            without_text(list, t).contains(s) <==> list.contains(s) && s != t,
        list.no_duplicates() ==> without_text(list, t).no_duplicates(),
        without_text(list, t).len() <= list.len(),
    decreases list.len(),
{
    reveal(Seq::filter);
    if list.len() > 0 {
        let rest = list.drop_last();
        lemma_without_text(rest, t);
        let kept = without_text(rest, t);
        assert(list =~= rest.push(list.last()));
        assert forall|s: Seq<char>| without_text(list, t).contains(s) implies list.contains(s) && s
            != t by {
            let k = choose|k: int|
                0 <= k < without_text(list, t).len() && without_text(list, t)[k] == s;
            if k < kept.len() {
                assert(kept[k] == s);
                assert(rest.contains(s));
                let j = choose|j: int| 0 <= j < rest.len() && rest[j] == s;
                assert(list[j] == s);
            } else {
                assert(list[list.len() - 1] == s);
            }
        }
        assert forall|s: Seq<char>| list.contains(s) && s != t implies without_text(
            list,
            t,
        ).contains(s) by {
            let j = choose|j: int| 0 <= j < list.len() && list[j] == s;
            if j < rest.len() {
                assert(rest[j] == s);
                assert(kept.contains(s));
                let k = choose|k: int| 0 <= k < kept.len() && kept[k] == s;
                assert(without_text(list, t)[k] == s);
            } else {
                assert(without_text(list, t)[kept.len() as int] == s);
            }
        }
        if list.no_duplicates() {
            assert(rest.no_duplicates());
            if list.last() != t {
                assert forall|k: int| 0 <= k < kept.len() implies kept[k] != list.last() by {
                    if kept[k] == list.last() {
                        assert(kept.contains(list.last()));
                        let j = choose|j: int| 0 <= j < rest.len() && rest[j] == list.last();
                        assert(list[j] == list[list.len() - 1]);
                    }
                }
                assert(without_text(list, t) =~= kept.push(list.last()));
            }
        }
    }
}

proof fn lemma_room_made(index: PreviewIndexView)
    requires
        index.well_formed(),
    ensures
        index.with_room().well_formed(),
        index.with_room().shown.len() < PREVIEW_LIMIT,
        index.with_room().pending == index.pending,
    decreases index.order.len(),
{
    if index.shown.len() >= PREVIEW_LIMIT {
        assert(index.order.contains(index.shown[0]));
        let next = PreviewIndexView {
            shown: without_text(index.shown, index.order[0]),
            order: index.order.skip(1),
            pending: index.pending,
        };
        lemma_without_text(index.shown, index.order[0]);
        assert forall|i: int| 0 <= i < next.shown.len() implies next.order.contains(
            #[trigger] next.shown[i],
        ) by {
            let s = next.shown[i];
            assert(next.shown.contains(s));
            let j = choose|j: int| 0 <= j < index.shown.len() && index.shown[j] == s;
            assert(index.order.contains(index.shown[j]));
            let k = choose|k: int| 0 <= k < index.order.len() && index.order[k] == s;
            assert(next.order[k - 1] == s);
        }
        lemma_room_made(next);
    }
}

/// However many previews are made, no more than the limit are kept, and the
/// one that was just made is among them.
pub proof fn lemma_previews_stay_bounded(index: PreviewIndexView, path: Seq<char>)
    requires
        index.well_formed(),
    ensures
        index.finished(path).well_formed(),
        index.finished(path).shown.contains(path),
        !index.finished(path).pending.contains(path),
{
    let start = PreviewIndexView { pending: without_text(index.pending, path), ..index };
    lemma_without_text(index.pending, path);
    lemma_room_made(start);
    let roomy = start.with_room();
    let r = index.finished(path);
    assert(r.order[roomy.order.len() as int] == path);
    assert forall|i: int| 0 <= i < r.shown.len() implies r.order.contains(#[trigger] r.shown[i]) by {
        if i < roomy.shown.len() {
            assert(roomy.order.contains(roomy.shown[i]));
            let k = choose|k: int| 0 <= k < roomy.order.len() && roomy.order[k] == roomy.shown[i];
            assert(r.order[k] == roomy.shown[i]);
        }
    }
    if !roomy.shown.contains(path) {
        assert(r.shown[roomy.shown.len() as int] == path);
        assert forall|i: int| 0 <= i < roomy.shown.len() implies roomy.shown[i] != path by {
            assert(roomy.shown.contains(roomy.shown[i]));
        }
    }
}

impl PreviewIndex {
    pub fn new() -> (r: PreviewIndex)
        ensures
            r.deep_view().well_formed(),
            r.deep_view() == (PreviewIndexView {
                shown: Seq::empty(),
                order: Seq::empty(),
                pending: Seq::empty(),
            }),
    {
        let r = PreviewIndex { shown: Vec::new(), order: Vec::new(), pending: Vec::new() };
        assert(r.shown.deep_view() =~= Seq::empty());
        assert(r.order.deep_view() =~= Seq::empty());
        assert(r.pending.deep_view() =~= Seq::empty());
        r
    }

    /// Whether a preview is there.
    pub fn is_shown(&self, path: &str) -> (r: bool)
        ensures
            r == self.deep_view().shown.contains(path@),
    {
        holds_text(&self.shown, path)
    }

    /// Whether a preview has to be asked for.
    pub fn wants(&self, path: &str) -> (r: bool)
        ensures
            r == (!self.deep_view().shown.contains(path@) && !self.deep_view().pending.contains(
                path@,
            )),
    {
        !holds_text(&self.shown, path) && !holds_text(&self.pending, path)
    }

    /// A preview was asked for.
    pub fn asked(&mut self, path: &str)
        ensures
            final(self).deep_view() == (PreviewIndexView {
                pending: with_text(old(self).deep_view().pending, path@),
                ..old(self).deep_view()
            }),
    {
        if !holds_text(&self.pending, path) {
            let ghost before = self.pending.deep_view();
            self.pending.push(path.to_owned());
            assert(self.pending.deep_view() =~= before.push(path@));
        }
    }

    /// A preview was made. The result lists those that left for it.
    pub fn finish(&mut self, path: &str) -> (r: Vec<String>)
        requires
            old(self).deep_view().well_formed(),
        ensures
            final(self).deep_view() == old(self).deep_view().finished(path@),
            final(self).deep_view().well_formed(),
            final(self).deep_view().order == (old(self).deep_view().order.skip(r@.len() as int)).push(
                path@,
            ),
            r.deep_view() == old(self).deep_view().order.take(r@.len() as int),
            r@.len() <= old(self).deep_view().order.len(),
    {
        let ghost before = self.deep_view();
        self.pending = remove_text(&self.pending, path);
        let ghost start = self.deep_view();
        let mut left: Vec<String> = Vec::new();
        proof {
            assert(start == PreviewIndexView {
                pending: without_text(before.pending, path@),
                ..before
            });
            assert(left.deep_view() =~= before.order.take(0));
            assert(before.order.skip(0) =~= before.order);
            lemma_previews_stay_bounded(before, path@);
        }
        while self.shown.len() >= PREVIEW_LIMIT
            invariant
                self.deep_view().well_formed(),
                left@.len() <= before.order.len(),
                self.deep_view().order == before.order.skip(left@.len() as int),
                left.deep_view() == before.order.take(left@.len() as int),
                self.deep_view().with_room() == start.with_room(),
            decreases self.order@.len(),
        {
            let ghost now = self.deep_view();
            proof {
                lemma_room_made(now);
                assert(now.order.contains(now.shown[0]));
                lemma_without_text(now.shown, now.order[0]);
                assert(now.order[0] == self.order@[0]@);
            }
            let first = self.order.remove(0);
            self.shown = remove_text(&self.shown, first.as_str());
            let ghost leaving = left.deep_view();
            left.push(first);
            proof {
                let next = self.deep_view();
                assert(next.order =~= now.order.skip(1));
                assert(next.order =~= before.order.skip(left@.len() as int));
                assert(left.deep_view() =~= leaving.push(first@));
                assert(left.deep_view() =~= before.order.take(left@.len() as int));
                assert forall|i: int| 0 <= i < next.shown.len() implies next.order.contains(
                    #[trigger] next.shown[i],
                ) by {
                    let s = next.shown[i];
                    assert(next.shown.contains(s));
                    let j = choose|j: int| 0 <= j < now.shown.len() && now.shown[j] == s;
                    assert(now.order.contains(now.shown[j]));
                    let k = choose|k: int| 0 <= k < now.order.len() && now.order[k] == s;
                    assert(next.order[k - 1] == s);
                }
            }
        }
        let ghost roomy = self.deep_view();
        assert(roomy == start.with_room());
        self.order.push(path.to_owned());
        assert(self.order.deep_view() =~= roomy.order.push(path@));
        if !holds_text(&self.shown, path) {
            self.shown.push(path.to_owned());
            assert(self.shown.deep_view() =~= roomy.shown.push(path@));
        }
        left
    }
}

} // verus!
