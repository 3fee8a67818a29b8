//! What Git prints: status records, branches, remotes and file lists.
use crate::text::{
    begins, chars_of, contains, has_text, lines, lower_text, stands_at, text_lines,
    to_ascii_lowercase,
};
use crate::workspace::{GitChange, GitChangeView, GitStatus};
use vstd::prelude::*;
use vstd::string::*;
use vstd::utf8::{decode_utf8, valid_utf8};

verus! {

/// The text that `String::from_utf8_lossy` makes of bytes.
pub uninterp spec fn lossy_text(bytes: Seq<u8>) -> Seq<char>;

/// `String::from_utf8_lossy`, owned. Bytes that are UTF-8 become the text that
/// they encode; what stands for others is left to the name.
#[verifier::external_body]
pub(crate) fn text_of_bytes(bytes: &[u8]) -> (r: String)
    ensures
        r@ == lossy_text(bytes@),
        valid_utf8(bytes@) ==> r@ == decode_utf8(bytes@),
{
    String::from_utf8_lossy(bytes).into_owned()
}

/// The parts of the bytes between zero bytes, empty ones left out.
pub open spec fn zero_records(bytes: Seq<u8>, start: int, i: int) -> Seq<Seq<u8>>
    decreases bytes.len() - i,
{
    if i < 0 || i >= bytes.len() {
        if start < bytes.len() && start >= 0 {
            seq![bytes.skip(start)]
        } else {
            Seq::empty()
        }
    } else if bytes[i] == 0 {
        if start < i {
            seq![bytes.subrange(start, i)] + zero_records(bytes, i + 1, i + 1)
        } else {
            zero_records(bytes, i + 1, i + 1)
        }
    } else {
        zero_records(bytes, start, i + 1)
    }
}

/// The records of a status that ends each with a zero byte.
pub open spec fn records_of(bytes: Seq<u8>) -> Seq<Seq<u8>> {
    zero_records(bytes, 0, 0)
}

fn byte_range(bytes: &[u8], from: usize, to: usize) -> (r: Vec<u8>)
    requires
        from <= to <= bytes@.len(),
    ensures
        r@ == bytes@.subrange(from as int, to as int),
{
    let mut out: Vec<u8> = Vec::new();
    let mut i: usize = from;
    while i < to
        invariant
            from <= i <= to <= bytes@.len(),
            out@ == bytes@.subrange(from as int, i as int),
        decreases to - i,
    {
        out.push(bytes[i]);
        i += 1;
        assert(out@ =~= bytes@.subrange(from as int, i as int));
    }
    out
}

/// The byte vectors by their views.
pub open spec fn byte_views(all: Seq<Vec<u8>>) -> Seq<Seq<u8>> {
    Seq::new(all.len(), |i: int| all[i]@)
}

fn split_records(bytes: &[u8]) -> (r: Vec<Vec<u8>>)
    ensures
        byte_views(r@) == records_of(bytes@),
{
    let n: usize = bytes.len();
    let mut out: Vec<Vec<u8>> = Vec::new();
    let mut start: usize = 0;
    let mut i: usize = 0;
    let ghost whole = records_of(bytes@);
    assert(byte_views(out@) + whole =~= whole);
    while i < n
        invariant
            start <= i <= n,
            n == bytes@.len(),
            whole == byte_views(out@) + zero_records(bytes@, start as int, i as int),
        decreases n - i,
    {
        if bytes[i] == 0 {
            if start < i {
                let ghost before = byte_views(out@);
                let record = byte_range(bytes, start, i);
                let ghost view = record@;
                out.push(record);
                assert(byte_views(out@) =~= before.push(view));
                assert(before + (seq![view] + zero_records(bytes@, i + 1, i + 1)) =~= byte_views(
                    out@,
                ) + zero_records(bytes@, i + 1, i + 1));
            }
            start = i + 1;
        }
        i += 1;
    }
    if start < n {
        let ghost before = byte_views(out@);
        let record = byte_range(bytes, start, n);
        let ghost view = record@;
        out.push(record);
        assert(view =~= bytes@.skip(start as int));
        assert(byte_views(out@) =~= before + seq![view]);
    } else {
        assert(byte_views(out@) =~= whole);
    }
    out
}

/// A status record: two letters, a blank and a path.
pub open spec fn is_status(record: Seq<u8>) -> bool {
    record.len() >= 4 && record[2] == 32
}

/// Whether a status letter means that another path follows.
pub open spec fn has_source(letter: u8) -> bool {
    letter == 82 || letter == 67
}

/// The changes that the records from `i` on describe. A record that is none is
/// passed over; that of a rename or copy is followed by its source.
pub open spec fn changes_from(records: Seq<Seq<u8>>, i: int) -> Seq<GitChangeView>
    decreases records.len() - i,
{
    if i < 0 || i >= records.len() {
        Seq::empty()
    } else if !is_status(records[i]) {
        changes_from(records, i + 1)
    } else {
        let record = records[i];
        let renamed = has_source(record[0]) || has_source(record[1]);
        let change = GitChangeView {
            index: record[0] as char,
            worktree: record[1] as char,
            path: lossy_text(record.skip(3)),
            original_path: if renamed && i + 1 < records.len() {
                Some(lossy_text(records[i + 1]))
            } else {
                None
            },
        };
        if renamed && i + 1 < records.len() {
            seq![change] + changes_from(records, i + 2)
        } else {
            seq![change] + changes_from(records, i + 1)
        }
    }
}

/// The changes of a status with zero bytes between records.
pub open spec fn changes_of(bytes: Seq<u8>) -> Seq<GitChangeView> {
    changes_from(records_of(bytes), 0)
}

pub fn parse_status(bytes: &[u8]) -> (r: Vec<GitChange>)
    ensures
        r.deep_view() == changes_of(bytes@),
{
    let records = split_records(bytes);
    let ghost views = byte_views(records@);
    let n: usize = records.len();
    let mut changes: Vec<GitChange> = Vec::new();
    let mut i: usize = 0;
    let ghost whole = changes_from(views, 0);
    assert(changes.deep_view() + whole =~= whole);
    while i < n
        invariant
            i <= n,
            n == records@.len(),
            views == byte_views(records@),
            whole == changes.deep_view() + changes_from(views, i as int),
        decreases n - i,
    {
        let record = &records[i];
        assert(views[i as int] == record@);
        if record.len() < 4 || record[2] != 32 {
            i += 1;
        } else {
            let ghost before = changes.deep_view();
            let index = record[0] as char;
            let worktree = record[1] as char;
            let renamed = record[0] == 82 || record[0] == 67 || record[1] == 82 || record[1] == 67;
            let path = byte_range(record, 3, record.len());
            assert(path@ =~= record@.skip(3));
            let paired = renamed && i + 1 < n;
            let original_path = if paired {
                assert(views[i + 1] == records@[i + 1]@);
                Some(text_of_bytes(&records[i + 1]))
            } else {
                None
            };
            let change = GitChange { index, worktree, path: text_of_bytes(&path), original_path };
            let ghost view = change.deep_view();
            changes.push(change);
            assert(changes.deep_view() =~= before.push(view));
            let next: usize = if paired {
                i + 2
            } else {
                i + 1
            };
            assert(before + (seq![view] + changes_from(views, next as int)) =~= changes.deep_view()
                + changes_from(views, next as int));
            i = next;
        }
    }
    assert(changes.deep_view() =~= whole);
    changes
}

/// Where the records lie does not matter to what they are.
proof fn lemma_records_behind(front: Seq<u8>, rest: Seq<u8>, start: int, i: int)
    requires
        0 <= start <= i,
    ensures
        zero_records(front + rest, front.len() + start, front.len() + i) == zero_records(
            rest,
            start,
            i,
        ),
    decreases rest.len() - i,
{
    let all = front + rest;
    let n = front.len() as int;
    if i < rest.len() {
        assert(all[n + i] == rest[i]);
        if rest[i] == 0 {
            lemma_records_behind(front, rest, i + 1, i + 1);
            assert(all.subrange(n + start, n + i) =~= rest.subrange(start, i));
        } else {
            lemma_records_behind(front, rest, start, i + 1);
        }
    } else if start < rest.len() {
        assert(all.skip(n + start) =~= rest.skip(start));
    }
}

proof fn lemma_record_scanned(bytes: Seq<u8>, n: int, i: int)
    requires
        0 <= i <= n < bytes.len(),
        forall|j: int| 0 <= j < n ==> (#[trigger] bytes[j]) != 0,
    ensures
        zero_records(bytes, 0, i) == zero_records(bytes, 0, n),
    decreases n - i,
{
    if i < n {
        lemma_record_scanned(bytes, n, i + 1);
    }
}

/// A record ends at its zero byte; what is behind it is read by itself.
proof fn lemma_first_record(record: Seq<u8>, rest: Seq<u8>)
    requires
        record.len() > 0,
        forall|j: int| 0 <= j < record.len() ==> (#[trigger] record[j]) != 0,
    ensures
        records_of(record.push(0) + rest) == seq![record] + records_of(rest),
{
    let front = record.push(0);
    let all = front + rest;
    let n = record.len() as int;
    assert forall|j: int| 0 <= j < n implies (#[trigger] all[j]) != 0 by {
        assert(all[j] == record[j]);
    }
    lemma_record_scanned(all, n, 0);
    assert(all[n] == 0);
    assert(all.subrange(0, n) =~= record);
    lemma_records_behind(front, rest, 0, 0);
}

proof fn lemma_changes_behind(first: Seq<u8>, rest: Seq<Seq<u8>>, i: int)
    requires
        0 <= i,
    ensures
        changes_from(seq![first] + rest, 1 + i) == changes_from(rest, i),
    decreases rest.len() - i,
{
    let all = seq![first] + rest;
    if i < rest.len() {
        assert(all[1 + i] == rest[i]);
        if i + 1 < rest.len() {
            assert(all[2 + i] == rest[i + 1]);
        }
        lemma_changes_behind(first, rest, i + 1);
        if i + 2 <= rest.len() {
            lemma_changes_behind(first, rest, i + 2);
        }
    }
}

/// The bytes of a status record: two letters, a blank and a path.
pub open spec fn status_bytes(x: u8, y: u8, path: Seq<u8>) -> Seq<u8> {
    seq![x, y, 32u8] + path
}

/// A status is read record by record. The first letter of a record is what the
/// index holds, the second what the worktree holds, and the path is what stands
/// behind them; the rest of the status is read as if it stood alone.
pub proof fn lemma_status_letters_and_path(x: u8, y: u8, path: Seq<u8>, rest: Seq<u8>)
    requires
        x != 0 && y != 0,
        x != 82 && x != 67 && y != 82 && y != 67,
        path.len() > 0,
        forall|j: int| 0 <= j < path.len() ==> (#[trigger] path[j]) != 0,
    ensures
        ({
            let changes = changes_of(status_bytes(x, y, path).push(0) + rest);
            &&& changes.len() == 1 + changes_of(rest).len()
            &&& changes[0].index == x as char
            &&& changes[0].worktree == y as char
            &&& changes[0].path == lossy_text(path)
            &&& changes[0].original_path is None
            &&& changes.skip(1) == changes_of(rest)
        }),
        changes_of(Seq::empty()).len() == 0,
{
    let record = status_bytes(x, y, path);
    assert forall|j: int| 0 <= j < record.len() implies (#[trigger] record[j]) != 0 by {
        if j >= 3 {
            assert(record[j] == path[j - 3]);
        }
    }
    lemma_first_record(record, rest);
    lemma_changes_behind(record, records_of(rest), 0);
    assert(record.skip(3) =~= path);
    let records = seq![record] + records_of(rest);
    assert(records[0] == record);
    let changes = changes_of(record.push(0) + rest);
    assert(changes.skip(1) =~= changes_of(rest));
    assert(records_of(Seq::<u8>::empty()).len() == 0);
}

/// The record of a rename or of a copy is followed by the path that the file had
/// before.
pub proof fn lemma_renamed_file_has_source(
    x: u8,
    y: u8,
    path: Seq<u8>,
    source: Seq<u8>,
    rest: Seq<u8>,
)
    requires
        x != 0 && y != 0,
        x == 82 || x == 67 || y == 82 || y == 67,
        path.len() > 0 && source.len() > 0,
        forall|j: int| 0 <= j < path.len() ==> (#[trigger] path[j]) != 0,
        forall|j: int| 0 <= j < source.len() ==> (#[trigger] source[j]) != 0,
    ensures
        ({
            let changes = changes_of(
                status_bytes(x, y, path).push(0) + (source.push(0) + rest),
            );
            &&& changes.len() == 1 + changes_of(rest).len()
            &&& changes[0].index == x as char
            &&& changes[0].worktree == y as char
            &&& changes[0].path == lossy_text(path)
            &&& changes[0].original_path == Some(lossy_text(source))
            &&& changes.skip(1) == changes_of(rest)
        }),
{
    let record = status_bytes(x, y, path);
    assert forall|j: int| 0 <= j < record.len() implies (#[trigger] record[j]) != 0 by {
        if j >= 3 {
            assert(record[j] == path[j - 3]);
        }
    }
    let tail = source.push(0) + rest;
    lemma_first_record(source, rest);
    lemma_first_record(record, tail);
    lemma_changes_behind(record, records_of(tail), 1);
    lemma_changes_behind(source, records_of(rest), 0);
    assert(record.skip(3) =~= path);
    let records = seq![record] + records_of(tail);
    assert(records[0] == record);
    assert(records[1] == source);
    let changes = changes_of(record.push(0) + tail);
    assert(changes.skip(1) =~= changes_of(rest));
}

/// The decimal digits at the start of a text.
pub open spec fn leading_digits(s: Seq<char>) -> Seq<char>
    decreases s.len(),
{
    if s.len() == 0 || !('0' <= s[0] && s[0] <= '9') {
        Seq::empty()
    } else {
        seq![s[0]] + leading_digits(s.drop_first())
    }
}

/// The number that digits denote.
pub open spec fn digits_value(s: Seq<char>) -> nat
    decreases s.len(),
{
    if s.len() == 0 {
        0
    } else {
        digits_value(s.drop_last()) * 10 + (s.last() as u32 - 48) as nat
    }
}

/// The text behind the first `p` in a text.
pub open spec fn text_behind(s: Seq<char>, p: Seq<char>) -> Option<Seq<char>>
    decreases s.len(),
{
    if begins(s, p) {
        Some(s.skip(p.len() as int))
    } else if s.len() == 0 {
        None
    } else {
        text_behind(s.drop_first(), p)
    }
}

/// Whether a branch line says that the branch is ahead of its upstream: by a
/// number from one to the largest that is read.
pub open spec fn branch_ahead(line: Seq<char>) -> bool {
    match text_behind(line, "[ahead "@) {
        Some(rest) => leading_digits(rest).len() > 0 && 0 < digits_value(leading_digits(rest))
            <= u64::MAX,
        None => false,
    }
}

fn find_behind(chars: &[char], p: &[char]) -> (r: Option<usize>)
    ensures
        match r {
            Some(i) => i <= chars@.len() && text_behind(chars@, p@) == Some(chars@.skip(i as int)),
            None => text_behind(chars@, p@) is None,
        },
{
    let n: usize = chars.len();
    let mut i: usize = 0;
    assert(chars@.skip(0) =~= chars@);
    while i <= n
        invariant
            i <= n,
            n == chars@.len(),
            text_behind(chars@, p@) == text_behind(chars@.skip(i as int), p@),
        decreases n + 1 - i,
    {
        if stands_at(chars, i, p) {
            assert(chars@.skip(i as int).skip(p@.len() as int) =~= chars@.skip(i + p@.len()));
            return Some(i + p.len());
        }
        if i == n {
            assert(chars@.skip(i as int).len() == 0);
            return None;
        }
        assert(chars@.skip(i as int).drop_first() =~= chars@.skip(i as int + 1));
        i += 1;
    }
    None
}

proof fn lemma_digits_value_grows(s: Seq<char>, n: int)
    requires
        0 <= n <= s.len(),
        digits_value(s.take(n)) > u64::MAX,
        forall|i: int| 0 <= i < s.len() ==> '0' <= #[trigger] s[i] && s[i] <= '9',
    ensures
        digits_value(s) > u64::MAX,
    decreases s.len(),
{
    if n < s.len() {
        assert(s.drop_last().take(n) =~= s.take(n));
        lemma_digits_value_grows(s.drop_last(), n);
    } else {
        assert(s.take(n) =~= s);
    }
}

proof fn lemma_leading_digits(s: Seq<char>, n: int)
    requires
        0 <= n <= s.len(),
        forall|i: int| 0 <= i < n ==> '0' <= #[trigger] s[i] && s[i] <= '9',
        n < s.len() ==> !('0' <= s[n] && s[n] <= '9'),
    ensures
        leading_digits(s) == s.take(n),
    decreases s.len(),
{
    if n == 0 {
        assert(s.take(0) =~= Seq::empty());
    } else {
        assert('0' <= s[0] && s[0] <= '9');
        assert forall|i: int| 0 <= i < n - 1 implies '0' <= #[trigger] s.drop_first()[i]
            && s.drop_first()[i] <= '9' by {
            assert(s.drop_first()[i] == s[i + 1]);
        }
        lemma_leading_digits(s.drop_first(), n - 1);
        assert(seq![s[0]] + s.drop_first().take(n - 1) =~= s.take(n));
    }
}

fn is_ahead(line: &str) -> (r: bool)
    ensures
        r == branch_ahead(line@),
{
    let chars = chars_of(line);
    let pattern = chars_of("[ahead ");
    let start: usize = match find_behind(&chars, &pattern) {
        Some(i) => i,
        None => return false,
    };
    let n: usize = chars.len();
    let mut end: usize = start;
    while end < n && '0' <= chars[end] && chars[end] <= '9'
        invariant
            start <= end <= n,
            n == chars@.len(),
            forall|i: int| start <= i < end ==> '0' <= #[trigger] chars@[i] && chars@[i] <= '9',
        decreases n - end,
    {
        end += 1;
    }
    let ghost rest = chars@.skip(start as int);
    let ghost digits = chars@.subrange(start as int, end as int);
    proof {
        assert forall|i: int| 0 <= i < end - start implies '0' <= #[trigger] rest[i] && rest[i]
            <= '9' by {
            assert(rest[i] == chars@[start + i]);
        }
        lemma_leading_digits(rest, end - start);
        assert(rest.take(end - start) =~= digits);
        assert forall|i: int| 0 <= i < digits.len() implies '0' <= #[trigger] digits[i] && digits[i]
            <= '9' by {
            assert(digits[i] == chars@[start + i]);
        }
    }
    if start == end {
        return false;
    }
    let mut value: u128 = 0;
    let mut i: usize = start;
    while i < end
        invariant
            start <= i <= end <= n,
            n == chars@.len(),
            digits == chars@.subrange(start as int, end as int),
            forall|j: int| 0 <= j < digits.len() ==> '0' <= #[trigger] digits[j] && digits[j] <= '9',
            text_behind(line@, "[ahead "@) == Some(rest),
            leading_digits(rest) == digits,
            digits.len() > 0,
            value == digits_value(digits.take(i - start)),
            value <= u64::MAX,
        decreases end - i,
    {
        proof {
            assert(digits.take(i - start + 1).drop_last() =~= digits.take(i - start));
            assert(digits.take(i - start + 1).last() == chars@[i as int]);
            assert('0' <= digits[i - start] && digits[i - start] <= '9');
        }
        let digit: u32 = chars[i] as u32 - 48;
        value = value * 10 + digit as u128;
        i += 1;
        if value > 18446744073709551615 {
            proof {
                lemma_digits_value_grows(digits, i - start);
            }
            return false;
        }
    }
    assert(digits.take(i - start) =~= digits);
    value > 0
}

/// What is known of a repository from the first line of its status and its
/// remote.
pub open spec fn git_status_of(
    installed: bool,
    status: Option<Seq<char>>,
    changed: bool,
    origin: Option<Seq<char>>,
    github_configured: bool,
) -> GitStatus {
    let branch = match status {
        Some(s) => if text_lines(s).len() > 0 {
            text_lines(s)[0]
        } else {
            Seq::empty()
        },
        None => Seq::empty(),
    };
    let has_commits = status is Some && !has_text(branch, "No commits yet"@) && !has_text(
        branch,
        "Initial commit"@,
    );
    let has_github_remote = status is Some && has_text(
        lower_text(
            match origin {
                Some(o) => o,
                None => Seq::empty(),
            },
        ),
        "github.com"@,
    );
    GitStatus {
        installed,
        is_repository: status is Some,
        has_changes: status is Some && changed,
        has_commits,
        has_github_remote,
        has_unpushed_commits: if has_text(branch, "..."@) {
            branch_ahead(branch)
        } else {
            has_github_remote && has_commits
        },
        github_configured,
    }
}

pub fn read_git_status(
    installed: bool,
    status: &Option<String>,
    changed: bool,
    origin: &Option<String>,
    github_configured: bool,
) -> (r: GitStatus)
    ensures
        r == git_status_of(
            installed,
            status.deep_view(),
            changed,
            origin.deep_view(),
            github_configured,
        ),
{
    let is_repository = status.is_some();
    let branch = match status {
        Some(s) => {
            let all = lines(s.as_str());
            if all.len() > 0 {
                assert(all.deep_view()[0] == all@[0]@);
                all[0].clone()
            } else {
                String::new()
            }
        },
        None => String::new(),
    };
    let has_commits = is_repository && !contains(branch.as_str(), "No commits yet") && !contains(
        branch.as_str(),
        "Initial commit",
    );
    let remote = match origin {
        Some(o) => to_ascii_lowercase(o.as_str()),
        None => to_ascii_lowercase(""),
    };
    proof {
        reveal_strlit("");
        assert(""@ =~= Seq::<char>::empty());
    }
    let has_github_remote = is_repository && contains(remote.as_str(), "github.com");
    let has_unpushed_commits = if contains(branch.as_str(), "...") {
        is_ahead(branch.as_str())
    } else {
        has_github_remote && has_commits
    };
    GitStatus {
        installed,
        is_repository,
        has_changes: is_repository && changed,
        has_commits,
        has_github_remote,
        has_unpushed_commits,
        github_configured,
    }
}

} // verus!
