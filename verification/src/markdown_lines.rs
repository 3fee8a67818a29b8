//! What a single line of Markdown is: a fence, a heading, a quote, a rule, a
//! row of a table.
use crate::text::{
    begins, blank, chars_of, is_blank, is_space, is_whitespace, leading_space, starts_with,
    string_of, string_of_range, trim, trim_end, trimmed, trimmed_end, trimmed_start,
};
use vstd::prelude::*;
use vstd::string::*;

verus! {

/// The bytes of a character in UTF-8.
pub open spec fn utf8_width(c: char) -> nat {
    let n = c as u32;
    if n < 0x80 {
        1
    } else if n < 0x800 {
        2
    } else if n < 0x10000 {
        3
    } else {
        4
    }
}

/// The bytes of the white space at the start of a line.
pub open spec fn indent_bytes(line: Seq<char>) -> nat
    decreases line.len(),
{
    if line.len() > 0 && is_space(line[0]) {
        utf8_width(line[0]) + indent_bytes(line.drop_first())
    } else {
        0
    }
}

/// A line with more white space before it opens no block.
pub open spec fn is_outdented(line: Seq<char>) -> bool {
    indent_bytes(line) <= 3
}

/// How often a character stands in a row from `i` on.
pub open spec fn run_length(s: Seq<char>, i: int, c: char) -> nat
    decreases s.len() - i,
{
    if 0 <= i < s.len() && s[i] == c {
        1 + run_length(s, i + 1, c)
    } else {
        0
    }
}

pub proof fn lemma_run_length(s: Seq<char>, i: int, c: char)
    requires
        0 <= i <= s.len(),
    ensures
        i + run_length(s, i, c) <= s.len(),
        forall|j: int| i <= j < i + run_length(s, i, c) ==> s[j] == c,
        i + run_length(s, i, c) < s.len() ==> s[i + run_length(s, i, c)] != c,
    decreases s.len() - i,
{
    if i < s.len() && s[i] == c {
        lemma_run_length(s, i + 1, c);
    }
}

pub fn count_run(chars: &[char], from: usize, c: char) -> (r: usize)
    requires
        from <= chars@.len(),
    ensures
        r == run_length(chars@, from as int, c),
        from + r <= chars@.len(),
{
    let mut i: usize = from;
    let n: usize = chars.len();
    while i < n && chars[i] == c
        invariant
            from <= i <= n,
            n == chars@.len(),
            run_length(chars@, from as int, c) == (i - from) + run_length(chars@, i as int, c),
        decreases n - i,
    {
        i += 1;
    }
    proof {
        lemma_run_length(chars@, from as int, c);
    }
    i - from
}

fn count_indent(chars: &[char]) -> (r: u128)
    ensures
        r == indent_bytes(chars@),
{
    let mut i: usize = 0;
    let mut total: u128 = 0;
    let n: usize = chars.len();
    assert(chars@.skip(0) =~= chars@);
    while i < n && is_whitespace(chars[i])
        invariant
            i <= n,
            n == chars@.len(),
            total <= 4 * i,
            indent_bytes(chars@) == total + indent_bytes(chars@.skip(i as int)),
        decreases n - i,
    {
        let code: u32 = chars[i] as u32;
        let width: u128 = if code < 0x80 {
            1
        } else if code < 0x800 {
            2
        } else if code < 0x10000 {
            3
        } else {
            4
        };
        proof {
            assert(chars@.skip(i as int)[0] == chars@[i as int]);
            assert(chars@.skip(i as int).drop_first() =~= chars@.skip(i as int + 1));
        }
        total += width;
        i += 1;
    }
    proof {
        if i < n {
            assert(chars@.skip(i as int)[0] == chars@[i as int]);
        }
    }
    total
}

/// The characters up to the first white space.
pub open spec fn first_word(s: Seq<char>) -> Seq<char>
    decreases s.len(),
{
    if s.len() == 0 || is_space(s[0]) {
        Seq::empty()
    } else {
        seq![s[0]] + first_word(s.drop_first())
    }
}

fn take_word(chars: &[char]) -> (r: String)
    ensures
        r@ == first_word(chars@),
{
    let mut out = String::new();
    let mut i: usize = 0;
    assert(chars@.skip(0) =~= chars@);
    assert(out@ + first_word(chars@) =~= first_word(chars@));
    while i < chars.len() && !is_whitespace(chars[i])
        invariant
            i <= chars@.len(),
            first_word(chars@) == out@ + first_word(chars@.skip(i as int)),
        decreases chars@.len() - i,
    {
        let ghost before = out@;
        let ghost rest = chars@.skip(i as int);
        out.push(chars[i]);
        proof {
            assert(rest[0] == chars@[i as int]);
            assert(rest.drop_first() =~= chars@.skip(i as int + 1));
            assert(before + (seq![rest[0]] + first_word(rest.drop_first())) =~= out@ + first_word(
                chars@.skip(i as int + 1),
            ));
        }
        i += 1;
    }
    proof {
        if i < chars@.len() {
            assert(chars@.skip(i as int)[0] == chars@[i as int]);
        }
        assert(out@ + first_word(chars@.skip(i as int)) =~= out@);
    }
    out
}

/// The fence that a line opens: its character, its length and the language
/// named behind it.
pub open spec fn fence_of(line: Seq<char>) -> Option<(char, nat, Seq<char>)> {
    let t = trimmed_start(line);
    if !is_outdented(line) || t.len() == 0 || (t[0] != '`' && t[0] != '~') {
        None
    } else {
        let count = run_length(t, 0, t[0]);
        let info = trimmed(t.skip(count as int));
        if count < 3 || (t[0] == '`' && info.contains('`')) {
            None
        } else {
            Some((t[0], count, first_word(info)))
        }
    }
}

fn holds_char(chars: &[char], c: char) -> (r: bool)
    ensures
        r == chars@.contains(c),
{
    let mut i: usize = 0;
    while i < chars.len()
        invariant
            i <= chars@.len(),
            forall|j: int| 0 <= j < i ==> chars@[j] != c,
        decreases chars@.len() - i,
    {
        if chars[i] == c {
            return true;
        }
        i += 1;
    }
    false
}

/// The characters of a line after its white space.
fn outdented_chars(line: &str) -> (r: Option<Vec<char>>)
    ensures
        match r {
            Some(t) => is_outdented(line@) && t@ == trimmed_start(line@),
            None => !is_outdented(line@),
        },
{
    let chars = chars_of(line);
    if count_indent(&chars) > 3 {
        return None;
    }
    let k = leading_space(&chars);
    let rest = string_of_range(&chars, k, chars.len());
    assert(rest@ =~= line@.skip(k as int));
    Some(chars_of(rest.as_str()))
}

pub fn opening_fence(line: &str) -> (r: Option<(char, usize, String)>)
    ensures
        match r {
            Some((c, n, l)) => fence_of(line@) == Some((c, n as nat, l@)),
            None => fence_of(line@) is None,
        },
{
    let t = match outdented_chars(line) {
        Some(t) => t,
        None => return None,
    };
    if t.len() == 0 {
        return None;
    }
    let marker = t[0];
    if marker != '`' && marker != '~' {
        return None;
    }
    let count: usize = count_run(&t, 0, marker);
    if count < 3 {
        return None;
    }
    let rest = string_of_range(&t, count, t.len());
    assert(rest@ =~= t@.skip(count as int));
    let info = chars_of(trim(rest.as_str()).as_str());
    if marker == '`' && holds_char(&info, '`') {
        return None;
    }
    Some((marker, count, take_word(&info)))
}

/// Whether a line closes a fence.
pub open spec fn closes_fence(line: Seq<char>, marker: char, count: nat) -> bool {
    let t = trimmed(line);
    let n = run_length(t, 0, marker);
    n >= count && blank(t.skip(n as int))
}

pub fn closing_fence(line: &str, marker: char, count: usize) -> (r: bool)
    ensures
        r == closes_fence(line@, marker, count as nat),
{
    let t = chars_of(trim(line).as_str());
    let n: usize = count_run(&t, 0, marker);
    if n < count {
        return false;
    }
    let rest = string_of_range(&t, n, t.len());
    assert(rest@ =~= t@.skip(n as int));
    is_blank(rest.as_str())
}

pub open spec fn indented_code(line: Seq<char>) -> bool {
    begins(line, "    "@) || begins(line, "\t"@)
}

pub fn is_indented_code(line: &str) -> (r: bool)
    ensures
        r == indented_code(line@),
{
    starts_with(line, "    ") || starts_with(line, "\t")
}

/// The text without a character at its end.
pub open spec fn without_end(s: Seq<char>, c: char) -> Seq<char>
    decreases s.len(),
{
    if s.len() > 0 && s.last() == c {
        without_end(s.drop_last(), c)
    } else {
        s
    }
}

/// The text without a character at its start.
pub open spec fn without_start(s: Seq<char>, c: char) -> Seq<char>
    decreases s.len(),
{
    if s.len() > 0 && s[0] == c {
        without_start(s.drop_first(), c)
    } else {
        s
    }
}

pub fn strip_ends(chars: &[char], front: bool, c: char) -> (r: Vec<char>)
    ensures
        r@ == without_end(
            if front {
                without_start(chars@, c)
            } else {
                chars@
            },
            c,
        ),
{
    let ghost whole = chars@;
    let n: usize = chars.len();
    let mut from: usize = 0;
    assert(whole.skip(0) =~= whole);
    if front {
        while from < n && chars[from] == c
            invariant
                from <= n,
                n == chars@.len(),
                chars@ == whole,
                without_start(whole, c) == without_start(whole.skip(from as int), c),
            decreases n - from,
        {
            assert(whole.skip(from as int).drop_first() =~= whole.skip(from as int + 1));
            from += 1;
        }
        proof {
            if from < n {
                assert(whole.skip(from as int)[0] == whole[from as int]);
            }
        }
    }
    let ghost inner = whole.skip(from as int);
    assert(inner == if front {
        without_start(whole, c)
    } else {
        whole
    });
    let mut to: usize = n;
    assert(inner =~= whole.subrange(from as int, to as int));
    while to > from && chars[to - 1] == c
        invariant
            from <= to <= n,
            n == chars@.len(),
            chars@ == whole,
            without_end(inner, c) == without_end(whole.subrange(from as int, to as int), c),
        decreases to,
    {
        assert(whole.subrange(from as int, to as int).drop_last() =~= whole.subrange(
            from as int,
            to as int - 1,
        ));
        to -= 1;
    }
    proof {
        if to > from {
            assert(whole.subrange(from as int, to as int).last() == whole[to - 1]);
        }
    }
    chars_of(string_of_range(chars, from, to).as_str())
}

/// The heading that a line with number signs is: its level and its text.
pub open spec fn atx_of(line: Seq<char>) -> Option<(int, Seq<char>)> {
    let t = trimmed_start(line);
    let count = run_length(t, 0, '#');
    if !is_outdented(line) || count < 1 || count > 6 || count >= t.len() || (t[count as int] != ' '
        && t[count as int] != '\t') {
        None
    } else {
        Some((count as int, trimmed_end(without_end(t.skip(count as int + 1), '#'))))
    }
}

pub fn atx_heading(line: &str) -> (r: Option<(i32, String)>)
    ensures
        match r {
            Some((n, h)) => atx_of(line@) == Some((n as int, h@)) && 1 <= n <= 6,
            None => atx_of(line@) is None,
        },
{
    let t = match outdented_chars(line) {
        Some(t) => t,
        None => return None,
    };
    let count: usize = count_run(&t, 0, '#');
    if count < 1 || count > 6 || count >= t.len() || (t[count] != ' ' && t[count] != '\t') {
        return None;
    }
    let rest = string_of_range(&t, count + 1, t.len());
    assert(rest@ =~= t@.skip(count + 1));
    let stripped = strip_ends(&chars_of(rest.as_str()), false, '#');
    Some((count as i32, trim_end(string_of(&stripped).as_str())))
}

/// Whether every character is this one.
pub open spec fn all_are(s: Seq<char>, c: char) -> bool {
    forall|i: int| 0 <= i < s.len() ==> s[i] == c
}

fn only_char(chars: &[char], c: char) -> (r: bool)
    ensures
        r == all_are(chars@, c),
{
    let mut i: usize = 0;
    while i < chars.len()
        invariant
            i <= chars@.len(),
            forall|j: int| 0 <= j < i ==> chars@[j] == c,
        decreases chars@.len() - i,
    {
        if chars[i] != c {
            return false;
        }
        i += 1;
    }
    true
}

/// The level of the heading that a line underlines.
pub open spec fn setext_of(line: Seq<char>) -> Option<int> {
    let t = trimmed(line);
    if t.len() == 0 {
        None
    } else if all_are(t, '=') {
        Some(1)
    } else if all_are(t, '-') {
        Some(2)
    } else {
        None
    }
}

pub fn setext_heading_level(line: &str) -> (r: Option<i32>)
    ensures
        match r {
            Some(n) => setext_of(line@) == Some(n as int),
            None => setext_of(line@) is None,
        },
{
    let t = chars_of(trim(line).as_str());
    if t.len() == 0 {
        None
    } else if only_char(&t, '=') {
        Some(1)
    } else if only_char(&t, '-') {
        Some(2)
    } else {
        None
    }
}

/// What a quoted line says.
pub open spec fn quote_of(line: Seq<char>) -> Option<Seq<char>> {
    let t = trimmed_start(line);
    if !is_outdented(line) || t.len() == 0 || t[0] != '>' {
        None
    } else if t.len() > 1 && t[1] == ' ' {
        Some(t.skip(2))
    } else {
        Some(t.skip(1))
    }
}

pub fn markdown_quote(line: &str) -> (r: Option<String>)
    ensures
        r.deep_view() == quote_of(line@),
{
    let t = match outdented_chars(line) {
        Some(t) => t,
        None => return None,
    };
    if t.len() == 0 || t[0] != '>' {
        return None;
    }
    if t.len() > 1 && t[1] == ' ' {
        let r = string_of_range(&t, 2, t.len());
        assert(r@ =~= t@.skip(2));
        Some(r)
    } else {
        let r = string_of_range(&t, 1, t.len());
        assert(r@ =~= t@.skip(1));
        Some(r)
    }
}

/// The characters that are no white space.
pub open spec fn dense(s: Seq<char>) -> Seq<char>
    decreases s.len(),
{
    if s.len() == 0 {
        s
    } else if is_space(s.last()) {
        dense(s.drop_last())
    } else {
        dense(s.drop_last()).push(s.last())
    }
}

/// A horizontal rule: three or more of one mark and nothing else.
pub open spec fn is_rule(line: Seq<char>) -> bool {
    let d = dense(line);
    d.len() >= 3 && (d[0] == '-' || d[0] == '*' || d[0] == '_') && all_are(d, d[0])
}

pub fn is_markdown_rule(line: &str) -> (r: bool)
    ensures
        r == is_rule(line@),
{
    let chars = chars_of(line);
    let mut d: Vec<char> = Vec::new();
    let mut i: usize = 0;
    assert(d@ =~= dense(line@.take(0)));
    while i < chars.len()
        invariant
            i <= chars@.len(),
            chars@ == line@,
            d@ == dense(line@.take(i as int)),
        decreases chars@.len() - i,
    {
        assert(line@.take(i as int + 1).drop_last() =~= line@.take(i as int));
        if !is_whitespace(chars[i]) {
            d.push(chars[i]);
        }
        i += 1;
    }
    assert(line@.take(i as int) =~= line@);
    d.len() >= 3 && (d[0] == '-' || d[0] == '*' || d[0] == '_') && only_char(&d, d[0])
}

/// The cells of the rest of a table row. A backslash keeps the next character
/// in its cell, and so does code; `code` is the length of the backtick run
/// that opened it.
pub open spec fn cells_from(
    s: Seq<char>,
    i: int,
    done: Seq<Seq<char>>,
    cell: Seq<char>,
    escaped: bool,
    code: nat,
) -> Seq<Seq<char>>
    decreases
            if i < s.len() {
                s.len() - i
            } else {
                0
            },
{
    if i < 0 || i >= s.len() {
        done.push(
            if escaped {
                cell.push('\\')
            } else {
                cell
            },
        )
    } else if escaped {
        cells_from(s, i + 1, done, cell.push('\\').push(s[i]), false, code)
    } else if s[i] == '\\' {
        cells_from(s, i + 1, done, cell, true, code)
    } else if s[i] == '`' {
        let run = 1 + run_length(s, i + 1, '`');
        cells_from(
            s,
            i + run,
            done,
            cell + s.subrange(i, i + run),
            false,
            if code == 0 {
                run
            } else if code == run {
                0
            } else {
                code
            },
        )
    } else if s[i] == '|' && code == 0 {
        cells_from(s, i + 1, done.push(cell), Seq::empty(), false, code)
    } else {
        cells_from(s, i + 1, done, cell.push(s[i]), false, code)
    }
}

/// The cells of a table row, without the bars at its ends.
pub open spec fn row_cells(line: Seq<char>) -> Seq<Seq<char>> {
    cells_from(
        without_end(without_start(trimmed(line), '|'), '|'),
        0,
        Seq::empty(),
        Seq::empty(),
        false,
        0,
    )
}

pub fn split_table_row(line: &str) -> (r: Vec<String>)
    ensures
        r.deep_view() == row_cells(line@),
{
    let s = strip_ends(&chars_of(trim(line).as_str()), true, '|');
    let mut done: Vec<String> = Vec::new();
    let mut cell = String::new();
    let mut escaped = false;
    let mut code: usize = 0;
    let mut i: usize = 0;
    assert(done.deep_view() =~= Seq::empty());
    assert(cell@ =~= Seq::empty());
    while i < s.len()
        invariant
            i <= s@.len(),
            s@ == without_end(without_start(trimmed(line@), '|'), '|'),
            row_cells(line@) == cells_from(
                s@,
                i as int,
                done.deep_view(),
                cell@,
                escaped,
                code as nat,
            ),
        decreases s@.len() - i,
    {
        let c = s[i];
        if escaped {
            cell.push('\\');
            cell.push(c);
            escaped = false;
            i += 1;
        } else if c == '\\' {
            escaped = true;
            i += 1;
        } else if c == '`' {
            let more: usize = count_run(&s, i + 1, '`');
            let run: usize = 1 + more;
            let text = string_of_range(&s, i, i + run);
            cell.append(text.as_str());
            code = if code == 0 {
                run
            } else if code == run {
                0
            } else {
                code
            };
            i += run;
        } else if c == '|' && code == 0 {
            let ghost before = done.deep_view();
            let ghost view = cell@;
            done.push(cell);
            assert(done.deep_view() =~= before.push(view));
            cell = String::new();
            assert(cell@ =~= Seq::empty());
            i += 1;
        } else {
            cell.push(c);
            i += 1;
        }
    }
    if escaped {
        cell.push('\\');
    }
    let ghost before = done.deep_view();
    let ghost view = cell@;
    done.push(cell);
    assert(done.deep_view() =~= before.push(view));
    done
}

/// How a cell of a delimiter row aligns its column.
pub open spec fn alignment_of(cell: Seq<char>) -> Option<Seq<char>> {
    let t = trimmed(cell);
    let core = without_end(without_start(t, ':'), ':');
    if core.len() < 3 || !all_are(core, '-') {
        None
    } else if t[0] == ':' && t.last() == ':' {
        Some("center"@)
    } else if t.last() == ':' {
        Some("right"@)
    } else {
        Some("left"@)
    }
}

/// The alignments of the cells, if every cell is one of a delimiter row.
pub open spec fn alignments_of_cells(cells: Seq<Seq<char>>) -> Option<Seq<Seq<char>>>
    decreases cells.len(),
{
    if cells.len() == 0 {
        Some(Seq::empty())
    } else {
        match (alignments_of_cells(cells.drop_last()), alignment_of(cells.last())) {
            (Some(before), Some(a)) => Some(before.push(a)),
            _ => None,
        }
    }
}

/// The alignments that a delimiter row gives a table.
pub open spec fn alignments_of(line: Seq<char>) -> Option<Seq<Seq<char>>> {
    let cells = row_cells(line);
    if cells.len() < 2 {
        None
    } else {
        alignments_of_cells(cells)
    }
}

proof fn lemma_core_inside(t: Seq<char>)
    ensures
        without_end(without_start(t, ':'), ':').len() <= t.len(),
{
    lemma_start_inside(t);
    lemma_end_inside(without_start(t, ':'));
}

proof fn lemma_start_inside(t: Seq<char>)
    ensures
        without_start(t, ':').len() <= t.len(),
    decreases t.len(),
{
    if t.len() > 0 && t[0] == ':' {
        lemma_start_inside(t.drop_first());
    }
}

proof fn lemma_end_inside(t: Seq<char>)
    ensures
        without_end(t, ':').len() <= t.len(),
    decreases t.len(),
{
    if t.len() > 0 && t.last() == ':' {
        lemma_end_inside(t.drop_last());
    }
}

fn cell_alignment(cell: &str) -> (r: Option<String>)
    ensures
        r.deep_view() == alignment_of(cell@),
{
    let t = chars_of(trim(cell).as_str());
    let core = strip_ends(&t, true, ':');
    proof {
        lemma_core_inside(t@);
    }
    if core.len() < 3 || !only_char(&core, '-') {
        return None;
    }
    let first = t[0] == ':';
    let last = t[t.len() - 1] == ':';
    Some(
        if first && last {
            "center".to_owned()
        } else if last {
            "right".to_owned()
        } else {
            "left".to_owned()
        },
    )
}

proof fn lemma_alignments_prefix(cells: Seq<Seq<char>>, n: int)
    requires
        0 <= n <= cells.len(),
        alignments_of_cells(cells.take(n)) is None,
    ensures
        alignments_of_cells(cells) is None,
    decreases cells.len(),
{
    if n < cells.len() {
        assert(cells.drop_last().take(n) =~= cells.take(n));
        lemma_alignments_prefix(cells.drop_last(), n);
    } else {
        assert(cells.take(n) =~= cells);
    }
}

pub fn table_alignments(line: &str) -> (r: Option<Vec<String>>)
    ensures
        match r {
            Some(a) => alignments_of(line@) == Some(a.deep_view()),
            None => alignments_of(line@) is None,
        },
{
    let cells = split_table_row(line);
    let ghost views = cells.deep_view();
    if cells.len() < 2 {
        return None;
    }
    let mut out: Vec<String> = Vec::new();
    let mut i: usize = 0;
    assert(views.take(0) =~= Seq::empty());
    assert(out.deep_view() =~= Seq::empty());
    while i < cells.len()
        invariant
            i <= cells@.len(),
            views == cells.deep_view(),
            views == row_cells(line@),
            views.len() >= 2,
            alignments_of_cells(views.take(i as int)) == Some(out.deep_view()),
        decreases cells@.len() - i,
    {
        assert(views.take(i as int + 1).drop_last() =~= views.take(i as int));
        assert(views.take(i as int + 1).last() == cells@[i as int]@);
        match cell_alignment(cells[i].as_str()) {
            Some(a) => {
                let ghost before = out.deep_view();
                let ghost view = a@;
                out.push(a);
                assert(out.deep_view() =~= before.push(view));
            },
            None => {
                proof {
                    lemma_alignments_prefix(views, i as int + 1);
                }
                return None;
            },
        }
        i += 1;
    }
    assert(views.take(i as int) =~= views);
    Some(out)
}

} // verus!
