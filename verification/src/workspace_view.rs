//! The changed files and the file tree of a workspace.
use crate::json::{Json, JsonView};
use crate::json_text::{parse_json, parsed_json};
use crate::path::{path_pieces, to_slashes};
use crate::text::{
    begins, cat3, chars_of, contains, has_text, lines, split, stands_at, string_of_range,
    text_lines, trim, trimmed,
};
use vstd::prelude::*;
use vstd::string::*;
use vstd::utf8::{decode_utf8, encode_utf8, encode_utf8_decode_utf8, is_char_boundary};

verus! {

/// Which of the lines left of a row are drawn, by depth.
#[derive(Debug, Clone, Copy, PartialEq, Eq, Structural)]
pub struct Guides {
    pub guide0: bool,
    pub guide1: bool,
    pub guide2: bool,
    pub guide3: bool,
    pub guide4: bool,
    pub guide5: bool,
}

impl DeepView for Guides {
    type V = Guides;

    open spec fn deep_view(&self) -> Guides {
        *self
    }
}

/// A changed file as it is listed.
#[derive(Debug, PartialEq, Eq)]
pub struct ChangeRow {
    pub name: String,
    pub detail: String,
    pub status: String,
    pub status_label: String,
    pub state_label: String,
}

/// What a [`ChangeRow`] holds.
pub struct ChangeRowView {
    pub name: Seq<char>,
    pub detail: Seq<char>,
    pub status: Seq<char>,
    pub status_label: Seq<char>,
    pub state_label: Seq<char>,
}

impl DeepView for ChangeRow {
    type V = ChangeRowView;

    open spec fn deep_view(&self) -> ChangeRowView {
        ChangeRowView {
            name: self.name.deep_view(),
            detail: self.detail.deep_view(),
            status: self.status.deep_view(),
            status_label: self.status_label.deep_view(),
            state_label: self.state_label.deep_view(),
        }
    }
}

impl Clone for ChangeRow {
    fn clone(&self) -> (r: Self)
        ensures
            r.deep_view() == self.deep_view(),
    {
        let r = ChangeRow {
            name: self.name.clone(),
            detail: self.detail.clone(),
            status: self.status.clone(),
            status_label: self.status_label.clone(),
            state_label: self.state_label.clone(),
        };
        r
    }
}

/// A changed file with what is known of it.
#[derive(Debug, PartialEq, Eq)]
pub struct ParsedChangeRow {
    pub row: ChangeRow,
    pub path: String,
    pub staged: bool,
    pub unstaged: bool,
}

/// What a [`ParsedChangeRow`] holds.
pub struct ParsedChangeRowView {
    pub row: ChangeRowView,
    pub path: Seq<char>,
    pub staged: bool,
    pub unstaged: bool,
}

impl DeepView for ParsedChangeRow {
    type V = ParsedChangeRowView;

    open spec fn deep_view(&self) -> ParsedChangeRowView {
        ParsedChangeRowView {
            row: self.row.deep_view(),
            path: self.path.deep_view(),
            staged: self.staged.deep_view(),
            unstaged: self.unstaged.deep_view(),
        }
    }
}

impl Clone for ParsedChangeRow {
    fn clone(&self) -> (r: Self)
        ensures
            r.deep_view() == self.deep_view(),
    {
        let r = ParsedChangeRow {
            row: self.row.clone(),
            path: self.path.clone(),
            staged: self.staged,
            unstaged: self.unstaged,
        };
        r
    }
}

/// A file by the names that lead to it.
#[derive(Debug, PartialEq, Eq)]
pub struct FileEntry {
    pub components: Vec<String>,
    pub path: String,
}

/// What a [`FileEntry`] holds.
pub struct FileEntryView {
    pub components: Seq<Seq<char>>,
    pub path: Seq<char>,
}

impl DeepView for FileEntry {
    type V = FileEntryView;

    open spec fn deep_view(&self) -> FileEntryView {
        FileEntryView {
            components: self.components.deep_view(),
            path: self.path.deep_view(),
        }
    }
}

impl Clone for FileEntry {
    fn clone(&self) -> (r: Self)
        ensures
            r.deep_view() == self.deep_view(),
    {
        let r = FileEntry {
            components: self.components.clone(),
            path: self.path.clone(),
        };
        assert(r.components.deep_view() =~= self.components.deep_view());
        r
    }
}

/// A file or directory in the tree.
#[derive(Debug, PartialEq, Eq)]
pub struct FileRow {
    pub name: String,
    pub depth: u64,
    pub directory: bool,
    pub changed: bool,
    pub connector_height: u32,
    pub guide0: bool,
    pub guide1: bool,
    pub guide2: bool,
    pub guide3: bool,
    pub guide4: bool,
    pub guide5: bool,
}

/// What a [`FileRow`] holds.
pub struct FileRowView {
    pub name: Seq<char>,
    pub depth: u64,
    pub directory: bool,
    pub changed: bool,
    pub connector_height: u32,
    pub guide0: bool,
    pub guide1: bool,
    pub guide2: bool,
    pub guide3: bool,
    pub guide4: bool,
    pub guide5: bool,
}

impl DeepView for FileRow {
    type V = FileRowView;

    open spec fn deep_view(&self) -> FileRowView {
        FileRowView {
            name: self.name.deep_view(),
            depth: self.depth.deep_view(),
            directory: self.directory.deep_view(),
            changed: self.changed.deep_view(),
            connector_height: self.connector_height.deep_view(),
            guide0: self.guide0.deep_view(),
            guide1: self.guide1.deep_view(),
            guide2: self.guide2.deep_view(),
            guide3: self.guide3.deep_view(),
            guide4: self.guide4.deep_view(),
            guide5: self.guide5.deep_view(),
        }
    }
}

impl Clone for FileRow {
    fn clone(&self) -> (r: Self)
        ensures
            r.deep_view() == self.deep_view(),
    {
        let r = FileRow {
            name: self.name.clone(),
            depth: self.depth,
            directory: self.directory,
            changed: self.changed,
            connector_height: self.connector_height,
            guide0: self.guide0,
            guide1: self.guide1,
            guide2: self.guide2,
            guide3: self.guide3,
            guide4: self.guide4,
            guide5: self.guide5,
        };
        r
    }
}


/// The statuses of a file that two sides changed.
pub open spec fn is_conflict(index: char, worktree: char) -> bool {
    (index == 'D' && worktree == 'D') || (index == 'A' && worktree == 'U') || (index == 'U'
        && worktree == 'D') || (index == 'U' && worktree == 'A') || (index == 'D' && worktree
        == 'U') || (index == 'A' && worktree == 'A') || (index == 'U' && worktree == 'U')
}

fn conflicts(index: char, worktree: char) -> (r: bool)
    ensures
        r == is_conflict(index, worktree),
{
    (index == 'D' && worktree == 'D') || (index == 'A' && worktree == 'U') || (index == 'U'
        && worktree == 'D') || (index == 'U' && worktree == 'A') || (index == 'D' && worktree
        == 'U') || (index == 'A' && worktree == 'A') || (index == 'U' && worktree == 'U')
}

/// The letter that stands for a status.
pub open spec fn status_code(index: char, worktree: char) -> char {
    if is_conflict(index, worktree) {
        '!'
    } else if index == '?' && worktree == '?' {
        'U'
    } else if worktree != ' ' {
        worktree
    } else {
        index
    }
}

pub open spec fn status_label(code: char) -> Seq<char> {
    if code == 'A' {
        "Added"@
    } else if code == 'D' {
        "Deleted"@
    } else if code == 'R' {
        "Renamed"@
    } else if code == 'C' {
        "Copied"@
    } else if code == 'U' {
        "Untracked"@
    } else if code == '!' {
        "Conflict"@
    } else if code == 'T' {
        "Type changed"@
    } else {
        "Modified"@
    }
}

fn label_of(code: char) -> (r: &'static str)
    ensures
        r@ == status_label(code),
{
    if code == 'A' {
        "Added"
    } else if code == 'D' {
        "Deleted"
    } else if code == 'R' {
        "Renamed"
    } else if code == 'C' {
        "Copied"
    } else if code == 'U' {
        "Untracked"
    } else if code == '!' {
        "Conflict"
    } else if code == 'T' {
        "Type changed"
    } else {
        "Modified"
    }
}

/// The text behind the last `p` among those that start before `i`.
pub open spec fn behind_last(s: Seq<char>, p: Seq<char>, i: int) -> Option<Seq<char>>
    decreases i,
{
    if i <= 0 || i > s.len() + 1 {
        None
    } else if begins(s.skip(i - 1), p) {
        Some(s.skip(i - 1 + p.len()))
    } else {
        behind_last(s, p, i - 1)
    }
}

/// The path that a change has now: what stands behind its last arrow.
pub open spec fn destination(raw: Seq<char>) -> Seq<char> {
    match behind_last(raw, " -> "@, raw.len() as int + 1) {
        Some(to) => to,
        None => raw,
    }
}

fn find_destination(raw: &str) -> (r: String)
    ensures
        r@ == destination(raw@),
{
    let chars = chars_of(raw);
    let arrow = chars_of(" -> ");
    let n: usize = chars.len();
    let mut i: usize = n;
    let ghost goal = behind_last(raw@, " -> "@, raw@.len() as int + 1);
    while i > 0
        invariant
            i <= n,
            n == chars@.len(),
            chars@ == raw@,
            arrow@ == " -> "@,
            goal == behind_last(raw@, " -> "@, raw@.len() as int + 1),
            goal == behind_last(raw@, " -> "@, i + 1),
        decreases i,
    {
        if stands_at(&chars, i, &arrow) {
            let from: usize = i + arrow.len();
            let r = string_of_range(&chars, from, n);
            assert(r@ =~= raw@.skip(i + " -> "@.len()));
            return r;
        }
        i -= 1;
    }
    if stands_at(&chars, 0, &arrow) {
        let r = string_of_range(&chars, arrow.len(), n);
        assert(r@ =~= raw@.skip(" -> "@.len() as int));
        return r;
    }
    assert(behind_last(raw@, " -> "@, 0) is None);
    assert(goal is None);
    raw.to_owned()
}

/// The length of a path before its last separator.
pub open spec fn parent_length(path: Seq<char>, i: int) -> int
    decreases i,
{
    if i <= 0 || i > path.len() {
        0
    } else if path[i - 1] == '/' || path[i - 1] == '\\' {
        i - 1
    } else {
        parent_length(path, i - 1)
    }
}

/// The directory that a path names, empty without one.
pub open spec fn parent_of(path: Seq<char>) -> Seq<char> {
    path.take(parent_length(path, path.len() as int))
}

fn find_parent(path: &str) -> (r: String)
    ensures
        r@ == parent_of(path@),
{
    let chars = chars_of(path);
    let mut i: usize = chars.len();
    while i > 0
        invariant
            i <= chars@.len(),
            chars@ == path@,
            parent_length(path@, path@.len() as int) == parent_length(path@, i as int),
        decreases i,
    {
        if chars[i - 1] == '/' || chars[i - 1] == '\\' {
            let r = string_of_range(&chars, 0, i - 1);
            assert(r@ =~= path@.take(i - 1));
            return r;
        }
        i -= 1;
    }
    assert(path@.take(0) =~= Seq::empty());
    String::new()
}

/// The supporting text of a change: for a rename both paths, else the directory.
pub open spec fn change_detail(label: Seq<char>, raw: Seq<char>) -> Seq<char> {
    if has_text(raw, " -> "@) {
        label + " · "@ + raw
    } else if parent_of(destination(raw)).len() == 0 {
        label
    } else {
        label + " · "@ + parent_of(destination(raw))
    }
}

/// A changed file with its two status letters and its path, for a rename as
/// source, arrow and destination. Ignored files and empty paths are none.
pub open spec fn change_row(index: char, worktree: char, raw: Seq<char>) -> Option<ParsedChangeRowView> {
    let untracked = index == '?' && worktree == '?';
    let code = status_code(index, worktree);
    let staged = !untracked && index != ' ' && index != '?';
    let unstaged = untracked || worktree != ' ';
    if raw.len() == 0 || (index == '!' && worktree == '!') {
        None
    } else {
        Some(
            ParsedChangeRowView {
                row: ChangeRowView {
                    name: path_pieces(destination(raw)).last(),
                    detail: change_detail(status_label(code), raw),
                    status: seq![code],
                    status_label: status_label(code),
                    state_label: if staged && unstaged {
                        "BOTH"@
                    } else if staged {
                        "STAGED"@
                    } else {
                        "UNSTAGED"@
                    },
                },
                path: destination(raw),
                staged,
                unstaged,
            },
        )
    }
}

fn make_change_row(index: char, worktree: char, raw: &str) -> (r: Option<ParsedChangeRow>)
    ensures
        r.deep_view() == change_row(index, worktree, raw@),
{
    if raw.is_empty() || (index == '!' && worktree == '!') {
        return None;
    }
    let untracked = index == '?' && worktree == '?';
    let code = if conflicts(index, worktree) {
        '!'
    } else if untracked {
        'U'
    } else if worktree != ' ' {
        worktree
    } else {
        index
    };
    let label = label_of(code);
    let staged = !untracked && index != ' ' && index != '?';
    let unstaged = untracked || worktree != ' ';
    let state_label = if staged && unstaged {
        "BOTH"
    } else if staged {
        "STAGED"
    } else {
        "UNSTAGED"
    };
    let path = find_destination(raw);
    let parent = find_parent(path.as_str());
    let detail = if contains(raw, " -> ") {
        cat3(label, " · ", raw)
    } else if parent.as_str().is_empty() {
        label.to_owned()
    } else {
        cat3(label, " · ", parent.as_str())
    };
    let parts = split(to_slashes(path.as_str()).as_str(), '/');
    assert(parts.deep_view().last() == parts@[parts@.len() - 1]@);
    let mut status = String::new();
    status.push(code);
    assert(status@ =~= seq![code]);
    Some(
        ParsedChangeRow {
            row: ChangeRow {
                name: parts[parts.len() - 1].clone(),
                detail,
                status,
                status_label: label.to_owned(),
                state_label: state_label.to_owned(),
            },
            path,
            staged,
            unstaged,
        },
    )
}

/// The change that a line of a short status describes.
pub open spec fn change_of_line(line: Seq<char>) -> Option<ParsedChangeRowView> {
    let bytes = encode_utf8(line);
    if bytes.len() < 4 || !is_char_boundary(bytes, 3) {
        None
    } else {
        change_row(
            bytes[0] as char,
            bytes[1] as char,
            trimmed(decode_utf8(bytes.subrange(3, bytes.len() as int))),
        )
    }
}

fn parse_change_line(line: &str) -> (r: Option<ParsedChangeRow>)
    ensures
        r.deep_view() == change_of_line(line@),
{
    let bytes = line.as_bytes();
    if bytes.len() < 4 || !line.is_char_boundary(3) {
        return None;
    }
    let (_, rest) = line.split_at(3);
    proof {
        encode_utf8_decode_utf8(rest@);
    }
    make_change_row(bytes[0] as char, bytes[1] as char, trim(rest).as_str())
}

pub open spec fn changes_in_lines(all: Seq<Seq<char>>) -> Seq<ParsedChangeRowView>
    decreases all.len(),
{
    if all.len() == 0 {
        Seq::empty()
    } else {
        let before = changes_in_lines(all.drop_last());
        match change_of_line(all.last()) {
            Some(change) => before.push(change),
            None => before,
        }
    }
}

/// The changes of a short status.
pub fn change_rows(status: &str) -> (r: Vec<ParsedChangeRow>)
    ensures
        r.deep_view() == changes_in_lines(text_lines(status@)),
{
    let all = lines(status);
    let ghost views = all.deep_view();
    let mut out: Vec<ParsedChangeRow> = Vec::new();
    let mut i: usize = 0;
    assert(out.deep_view() =~= changes_in_lines(views.take(0)));
    while i < all.len()
        invariant
            i <= all@.len(),
            views == all.deep_view(),
            out.deep_view() == changes_in_lines(views.take(i as int)),
        decreases all@.len() - i,
    {
        assert(views.take(i as int + 1).drop_last() =~= views.take(i as int));
        assert(views.take(i as int + 1).last() == all@[i as int]@);
        match parse_change_line(all[i].as_str()) {
            Some(change) => {
                let ghost before = out.deep_view();
                let ghost view = change.deep_view();
                out.push(change);
                assert(out.deep_view() =~= before.push(view));
            },
            None => {},
        }
        i += 1;
    }
    assert(views.take(i as int) =~= views);
    out
}

/// The letter that a text of one character is, else a blank.
pub open spec fn letter_of(t: Option<Seq<char>>) -> char {
    match t {
        Some(t) => if t.len() == 1 {
            t[0]
        } else {
            ' '
        },
        None => ' ',
    }
}

fn read_letter(t: Option<&str>) -> (r: char)
    ensures
        r == letter_of(t.deep_view()),
{
    match t {
        Some(t) => {
            let chars = chars_of(t);
            if chars.len() == 1 {
                chars[0]
            } else {
                ' '
            }
        },
        None => ' ',
    }
}

/// The change that a record of a snapshot describes.
pub open spec fn change_of_record(record: JsonView) -> Option<ParsedChangeRowView> {
    let path = match record.text_at("path"@) {
        Some(p) => p,
        None => Seq::empty(),
    };
    change_row(
        letter_of(record.text_at("index"@)),
        letter_of(record.text_at("worktree"@)),
        match record.text_at("original_path"@) {
            Some(from) => from + " -> "@ + path,
            None => path,
        },
    )
}

fn read_change_record(record: &Json) -> (r: Option<ParsedChangeRow>)
    ensures
        r.deep_view() == change_of_record(record.deep_view()),
{
    let path = match record.text_at("path") {
        Some(p) => p.to_owned(),
        None => String::new(),
    };
    let raw = match record.text_at("original_path") {
        Some(from) => cat3(from, " -> ", path.as_str()),
        None => path,
    };
    make_change_row(
        read_letter(record.text_at("index")),
        read_letter(record.text_at("worktree")),
        raw.as_str(),
    )
}

pub open spec fn changes_in_records(records: Seq<JsonView>) -> Seq<ParsedChangeRowView>
    decreases records.len(),
{
    if records.len() == 0 {
        Seq::empty()
    } else {
        let before = changes_in_records(records.drop_last());
        match change_of_record(records.last()) {
            Some(change) => before.push(change),
            None => before,
        }
    }
}

/// The rows of changes that are given as JSON records.
pub fn record_rows(records: &Vec<Json>) -> (r: Vec<ParsedChangeRow>)
    ensures
        r.deep_view() == changes_in_records(records.deep_view()),
{
    let ghost views = records.deep_view();
    let mut out: Vec<ParsedChangeRow> = Vec::new();
    let mut i: usize = 0;
    assert(out.deep_view() =~= changes_in_records(views.take(0)));
    while i < records.len()
        invariant
            i <= records@.len(),
            views == records.deep_view(),
            out.deep_view() == changes_in_records(views.take(i as int)),
        decreases records@.len() - i,
    {
        assert(views.take(i as int + 1).drop_last() =~= views.take(i as int));
        assert(views.take(i as int + 1).last() == records@[i as int].deep_view());
        match read_change_record(&records[i]) {
            Some(change) => {
                let ghost before = out.deep_view();
                let ghost view = change.deep_view();
                out.push(change);
                assert(out.deep_view() =~= before.push(view));
            },
            None => {},
        }
        i += 1;
    }
    assert(views.take(i as int) =~= views);
    out
}

/// The changes that a text of JSON records holds; none where it is no array.
pub open spec fn changes_recorded(diff: Seq<char>) -> Option<Seq<ParsedChangeRowView>> {
    match parsed_json(encode_utf8(diff)) {
        Ok(JsonView::Array(records)) => Some(changes_in_records(records)),
        _ => None,
    }
}

/// Reads the records that an inspection writes of the changes it found.
pub fn recorded_change_rows(diff: &str) -> (r: Option<Vec<ParsedChangeRow>>)
    ensures
        match r {
            Some(rows) => changes_recorded(diff@) == Some(rows.deep_view()),
            None => changes_recorded(diff@) is None,
        },
{
    match parse_json(diff.as_bytes()) {
        Ok(parsed) => match parsed.as_array() {
            Some(records) => Some(record_rows(records)),
            None => None,
        },
        Err(_) => None,
    }
}

} // verus!
