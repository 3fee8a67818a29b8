//! Markdown as blocks with a layout.
use crate::markdown_lines::{count_run, run_length};
use crate::text::{
    chars_of, is_space, is_whitespace, lines, replace, replaced, same_text, string_of_range,
    text_lines, trim, trimmed,
};
use vstd::prelude::*;
use vstd::string::*;

verus! {

/// A cell of a table: its inline Markdown, that text as it was written, what can be selected of it, its alignment, and the width of its column in tenths of a pixel.
#[derive(Debug, PartialEq, Eq)]
pub struct MarkdownTableCell {
    pub text: String,
    pub literal: String,
    pub raw_text: String,
    pub alignment: String,
    pub column_width: u64,
}

/// What a [`MarkdownTableCell`] holds.
pub struct MarkdownTableCellView {
    pub text: Seq<char>,
    pub literal: Seq<char>,
    pub raw_text: Seq<char>,
    pub alignment: Seq<char>,
    pub column_width: u64,
}

impl DeepView for MarkdownTableCell {
    type V = MarkdownTableCellView;

    open spec fn deep_view(&self) -> MarkdownTableCellView {
        MarkdownTableCellView {
            text: self.text.deep_view(),
            literal: self.literal.deep_view(),
            raw_text: self.raw_text.deep_view(),
            alignment: self.alignment.deep_view(),
            column_width: self.column_width.deep_view(),
        }
    }
}

impl Clone for MarkdownTableCell {
    fn clone(&self) -> (r: Self)
        ensures
            r.deep_view() == self.deep_view(),
    {
        let r = MarkdownTableCell {
            text: self.text.clone(),
            literal: self.literal.clone(),
            raw_text: self.raw_text.clone(),
            alignment: self.alignment.clone(),
            column_width: self.column_width,
        };
        r
    }
}

/// A row of a table with its height in pixels.
#[derive(Debug, PartialEq, Eq)]
pub struct MarkdownTableRow {
    pub cells: Vec<MarkdownTableCell>,
    pub header: bool,
    pub row_height: u64,
}

/// What a [`MarkdownTableRow`] holds.
pub struct MarkdownTableRowView {
    pub cells: Seq<MarkdownTableCellView>,
    pub header: bool,
    pub row_height: u64,
}

impl DeepView for MarkdownTableRow {
    type V = MarkdownTableRowView;

    open spec fn deep_view(&self) -> MarkdownTableRowView {
        MarkdownTableRowView {
            cells: self.cells.deep_view(),
            header: self.header.deep_view(),
            row_height: self.row_height.deep_view(),
        }
    }
}

impl Clone for MarkdownTableRow {
    fn clone(&self) -> (r: Self)
        ensures
            r.deep_view() == self.deep_view(),
    {
        let r = MarkdownTableRow {
            cells: self.cells.clone(),
            header: self.header,
            row_height: self.row_height,
        };
        assert(r.cells.deep_view() =~= self.cells.deep_view());
        r
    }
}

/// A block of Markdown: inline Markdown for display, that text as it was written, what can be selected of it, and its layout. Heights are in pixels, widths in tenths of a pixel.
#[derive(Debug, PartialEq, Eq)]
pub struct MarkdownBlock {
    pub kind: String,
    pub text: String,
    pub literal: String,
    pub raw_text: String,
    pub language: String,
    pub level: i32,
    pub block_height: u64,
    pub column_count: i32,
    pub table_width: u64,
    pub table_height: u64,
    pub table_rows: Vec<MarkdownTableRow>,
}

/// What a [`MarkdownBlock`] holds.
pub struct MarkdownBlockView {
    pub kind: Seq<char>,
    pub text: Seq<char>,
    pub literal: Seq<char>,
    pub raw_text: Seq<char>,
    pub language: Seq<char>,
    pub level: i32,
    pub block_height: u64,
    pub column_count: i32,
    pub table_width: u64,
    pub table_height: u64,
    pub table_rows: Seq<MarkdownTableRowView>,
}

impl DeepView for MarkdownBlock {
    type V = MarkdownBlockView;

    open spec fn deep_view(&self) -> MarkdownBlockView {
        MarkdownBlockView {
            kind: self.kind.deep_view(),
            text: self.text.deep_view(),
            literal: self.literal.deep_view(),
            raw_text: self.raw_text.deep_view(),
            language: self.language.deep_view(),
            level: self.level.deep_view(),
            block_height: self.block_height.deep_view(),
            column_count: self.column_count.deep_view(),
            table_width: self.table_width.deep_view(),
            table_height: self.table_height.deep_view(),
            table_rows: self.table_rows.deep_view(),
        }
    }
}

impl Clone for MarkdownBlock {
    fn clone(&self) -> (r: Self)
        ensures
            r.deep_view() == self.deep_view(),
    {
        let r = MarkdownBlock {
            kind: self.kind.clone(),
            text: self.text.clone(),
            literal: self.literal.clone(),
            raw_text: self.raw_text.clone(),
            language: self.language.clone(),
            level: self.level,
            block_height: self.block_height,
            column_count: self.column_count,
            table_width: self.table_width,
            table_height: self.table_height,
            table_rows: self.table_rows.clone(),
        };
        assert(r.table_rows.deep_view() =~= self.table_rows.deep_view());
        r
    }
}


/// The number of display lines of the texts, each at least one.
pub open spec fn wrapped_count(all: Seq<Seq<char>>, max: nat) -> nat
    decreases all.len(),
{
    if all.len() == 0 {
        0
    } else {
        let n = if all.last().len() == 0 {
            1
        } else {
            all.last().len()
        };
        wrapped_count(all.drop_last(), max) + (n + max - 1) as nat / max
    }
}

/// The number of display lines of a text when no line is longer than `max`.
pub open spec fn wrapped_lines(text: Seq<char>, max: nat) -> nat {
    let n = wrapped_count(text_lines(text), max);
    if n == 0 {
        1
    } else {
        n
    }
}

pub fn wrapped_line_count(text: &str, max_chars: usize) -> (r: u128)
    requires
        max_chars > 0,
    ensures
        r == wrapped_lines(text@, max_chars as nat),
{
    let all = lines(text);
    let ghost views = all.deep_view();
    let mut total: u128 = 0;
    let mut i: usize = 0;
    let max: u128 = max_chars as u128;
    while i < all.len()
        invariant
            i <= all@.len(),
            max == max_chars,
            0 < max <= usize::MAX,
            views == all.deep_view(),
            total == wrapped_count(views.take(i as int), max as nat),
            total <= i * 0xffff_ffff_ffff_ffff,
        decreases all@.len() - i,
    {
        assert(views.take(i as int + 1).drop_last() =~= views.take(i as int));
        assert(views.take(i as int + 1).last() == all@[i as int]@);
        let n: usize = all[i].as_str().unicode_len();
        let len: u128 = if n == 0 {
            1
        } else {
            n as u128
        };
        let more: u128 = (len + max - 1) / max;
        proof {
            assert(more <= len) by (nonlinear_arith)
                requires
                    len >= 1,
                    max >= 1,
                    more == (len + max - 1) / max as int,
            ;
            assert(i * 0xffff_ffff_ffff_ffff + 0xffff_ffff_ffff_ffff == (i + 1)
                * 0xffff_ffff_ffff_ffff) by (nonlinear_arith);
            assert((i + 1) * 0xffff_ffff_ffff_ffff <= 0xffff_ffff_ffff_ffff_ffff_ffff_ffff_ffff)
                by (nonlinear_arith)
                requires
                    i + 1 <= 0xffff_ffff_ffff_ffff,
            ;
        }
        total += more;
        i += 1;
    }
    assert(views.take(i as int) =~= views);
    if total == 0 {
        1
    } else {
        total
    }
}

/// A length on screen, at most the largest number.
pub open spec fn screen(n: nat) -> u64 {
    if n > u64::MAX {
        u64::MAX
    } else {
        n as u64
    }
}

/// So many lines of a height and some more.
pub fn lines_height(count: u128, line: u64, extra: u64) -> (r: u64)
    requires
        1 <= line <= 100,
        extra <= 1000,
    ensures
        r == screen((count * line + extra) as nat),
{
    if count > 0xffff_ffff_ffff_ffff {
        assert(count * line + extra > u64::MAX) by (nonlinear_arith)
            requires
                count > 0xffff_ffff_ffff_ffff,
                line >= 1,
                extra >= 0,
        ;
        18446744073709551615
    } else {
        assert(count * line <= 0xffff_ffff_ffff_ffff * 100) by (nonlinear_arith)
            requires
                count <= 0xffff_ffff_ffff_ffff,
                line <= 100,
        ;
        let total: u128 = count * (line as u128) + extra as u128;
        if total > 18446744073709551615 {
            18446744073709551615
        } else {
            total as u64
        }
    }
}

/// Marks that an ASCII escape can stand before.
pub open spec fn is_mark(c: char) -> bool {
    let n = c as u32;
    (0x21 <= n <= 0x2f) || (0x3a <= n <= 0x40) || (0x5b <= n <= 0x60) || (0x7b <= n <= 0x7e)
}

fn char_is_mark(c: char) -> (r: bool)
    ensures
        r == is_mark(c),
{
    let n: u32 = c as u32;
    (0x21 <= n && n <= 0x2f) || (0x3a <= n && n <= 0x40) || (0x5b <= n && n <= 0x60) || (0x7b <= n
        && n <= 0x7e)
}

/// Where a character first stands from `i` on, or the length.
pub open spec fn find_from(s: Seq<char>, i: int, c: char) -> int
    decreases s.len() - i,
{
    if i < 0 || i >= s.len() {
        s.len() as int
    } else if s[i] == c {
        i
    } else {
        find_from(s, i + 1, c)
    }
}

fn find_char_from(s: &[char], from: usize, c: char) -> (r: usize)
    requires
        from <= s@.len(),
    ensures
        r == find_from(s@, from as int, c),
        from <= r <= s@.len(),
{
    let mut i: usize = from;
    while i < s.len()
        invariant
            from <= i <= s@.len(),
            find_from(s@, from as int, c) == find_from(s@, i as int, c),
        decreases s@.len() - i,
    {
        if s[i] == c {
            return i;
        }
        i += 1;
    }
    i
}

/// Whether the bracket at `i` opens the label of a link.
pub open spec fn opens_link(s: Seq<char>, i: int) -> bool {
    let close = find_from(s, i + 1, ']');
    0 <= i < s.len() && s[i] == '[' && close + 1 < s.len() && s[close + 1] == '('
}

fn is_link_open(s: &[char], i: usize) -> (r: bool)
    requires
        i < s@.len(),
    ensures
        r == opens_link(s@, i as int),
{
    if s[i] != '[' {
        return false;
    }
    let n: usize = s.len();
    let close: usize = find_char_from(s, i + 1, ']');
    close < n && close + 1 < n && s[close + 1] == '('
}

/// Whether a run of emphasis marks is dropped from the plain text. One between
/// white space stays, and so do an underscore inside a word and a single tilde.
pub open spec fn drops_run(s: Seq<char>, i: int, end: int) -> bool {
    let open = i == 0 || is_space(s[i - 1]);
    let shut = end == s.len() || is_space(s[end]);
    if open && shut {
        false
    } else if s[i] == '~' {
        end - i >= 2
    } else if s[i] == '_' {
        open || shut || is_mark(s[i - 1]) || is_mark(s[end])
    } else {
        true
    }
}

/// The text from `i` on without formatting and without the destinations of
/// links. What stands between backticks stays as it is.
pub open spec fn plain_from(s: Seq<char>, i: int) -> Seq<char>
    decreases
            if i < s.len() {
                s.len() - i
            } else {
                0
            },
{
    if i < 0 || i >= s.len() {
        Seq::empty()
    } else {
        let c = s[i];
        if c == '\\' && i + 1 < s.len() && is_mark(s[i + 1]) {
            seq![s[i + 1]] + plain_from(s, i + 2)
        } else if c == ']' && i + 1 < s.len() && s[i + 1] == '(' {
            let close = find_from(s, i + 2, ')');
            if close > i {
                plain_from(s, close + 1)
            } else {
                Seq::empty()
            }
        } else if c == '`' && find_from(s, i + 1, '`') < s.len() {
            let close = find_from(s, i + 1, '`');
            if close > i {
                s.subrange(i + 1, close) + plain_from(s, close + 1)
            } else {
                Seq::empty()
            }
        } else if opens_link(s, i) || (c == '!' && opens_link(s, i + 1)) {
            plain_from(s, i + 1)
        } else if c == '*' || c == '_' || c == '~' {
            let end = i + 1 + run_length(s, i + 1, c);
            if drops_run(s, i, end) {
                plain_from(s, end)
            } else {
                s.subrange(i, end) + plain_from(s, end)
            }
        } else {
            seq![c] + plain_from(s, i + 1)
        }
    }
}

/// What can be selected of inline Markdown.
pub open spec fn plain_text(markdown: Seq<char>) -> Seq<char> {
    plain_from(markdown, 0)
}

fn run_is_dropped(s: &[char], i: usize, end: usize) -> (r: bool)
    requires
        i < end <= s@.len(),
    ensures
        r == drops_run(s@, i as int, end as int),
{
    let open = i == 0 || is_whitespace(s[i - 1]);
    let shut = end == s.len() || is_whitespace(s[end]);
    if open && shut {
        false
    } else if s[i] == '~' {
        end - i >= 2
    } else if s[i] == '_' {
        open || shut || char_is_mark(s[i - 1]) || char_is_mark(s[end])
    } else {
        true
    }
}

pub fn markdown_plain_text(markdown: &str) -> (r: String)
    ensures
        r@ == plain_text(markdown@),
{
    let s = chars_of(markdown);
    let n: usize = s.len();
    let mut out = String::new();
    let mut i: usize = 0;
    assert(out@ + plain_from(s@, 0) =~= plain_from(s@, 0));
    while i < n
        invariant
            i <= n,
            n == s@.len(),
            s@ == markdown@,
            plain_text(markdown@) == out@ + plain_from(s@, i as int),
        decreases n - i,
    {
        let c = s[i];
        let ghost before = out@;
        if c == '\\' && i + 1 < n && char_is_mark(s[i + 1]) {
            out.push(s[i + 1]);
            assert(before + (seq![s@[i + 1]] + plain_from(s@, i + 2)) =~= out@ + plain_from(
                s@,
                i + 2,
            ));
            i += 2;
        } else if c == ']' && i + 1 < n && s[i + 1] == '(' {
            let close: usize = find_char_from(&s, i + 2, ')');
            i = if close < n {
                close + 1
            } else {
                n
            };
            assert(plain_from(s@, close + 1) =~= plain_from(s@, i as int));
        } else if c == '`' && find_char_from(&s, i + 1, '`') < n {
            let close: usize = find_char_from(&s, i + 1, '`');
            out.append(string_of_range(&s, i + 1, close).as_str());
            assert(before + (s@.subrange(i + 1, close as int) + plain_from(s@, close + 1)) =~= out@
                + plain_from(s@, close + 1));
            i = close + 1;
        } else if is_link_open(&s, i) || (c == '!' && i + 1 < n && is_link_open(&s, i + 1)) {
            i += 1;
        } else if c == '*' || c == '_' || c == '~' {
            let more: usize = count_run(&s, i + 1, c);
            let end: usize = i + 1 + more;
            if !run_is_dropped(&s, i, end) {
                out.append(string_of_range(&s, i, end).as_str());
                assert(before + (s@.subrange(i as int, end as int) + plain_from(s@, end as int))
                    =~= out@ + plain_from(s@, end as int));
            }
            i = end;
        } else {
            out.push(c);
            assert(before + (seq![c] + plain_from(s@, i + 1)) =~= out@ + plain_from(s@, i + 1));
            i += 1;
        }
    }
    assert(out@ + plain_from(s@, i as int) =~= out@);
    out
}

/// The number of characters from `i` on that are seen, `hidden` while inside
/// the destination of a link.
pub open spec fn visible_from(s: Seq<char>, i: int, hidden: bool) -> nat
    decreases
            if i < s.len() {
                s.len() - i
            } else {
                0
            },
{
    if i < 0 || i >= s.len() {
        0
    } else if hidden {
        visible_from(s, i + 1, s[i] != ')')
    } else if s[i] == ']' && i + 1 < s.len() && s[i + 1] == '(' {
        visible_from(s, i + 2, true)
    } else if s[i] == '*' || s[i] == '_' || s[i] == '~' || s[i] == '`' || s[i] == '[' || s[i] == ']' {
        visible_from(s, i + 1, false)
    } else if s[i] == '\\' {
        if i + 1 < s.len() {
            1 + visible_from(s, i + 2, false)
        } else {
            0
        }
    } else {
        1 + visible_from(s, i + 1, false)
    }
}

/// The number of characters of inline Markdown that are seen.
pub open spec fn visible_length(markdown: Seq<char>) -> nat {
    visible_from(markdown, 0, false)
}

pub fn markdown_visible_len(markdown: &str) -> (r: usize)
    ensures
        r == visible_length(markdown@),
        r <= markdown@.len(),
{
    let s = chars_of(markdown);
    let n: usize = s.len();
    let mut count: usize = 0;
    let mut hidden = false;
    let mut i: usize = 0;
    while i < n
        invariant
            i <= n,
            n == s@.len(),
            s@ == markdown@,
            count <= i,
            visible_length(markdown@) == count + visible_from(s@, i as int, hidden),
        decreases n - i,
    {
        let c = s[i];
        if hidden {
            hidden = c != ')';
            i += 1;
        } else if c == ']' && i + 1 < n && s[i + 1] == '(' {
            hidden = true;
            i += 2;
        } else if c == '*' || c == '_' || c == '~' || c == '`' || c == '[' || c == ']' {
            i += 1;
        } else if c == '\\' {
            if i + 1 < n {
                count += 1;
                i += 2;
            } else {
                i += 1;
            }
        } else {
            count += 1;
            i += 1;
        }
    }
    count
}

/// Inline Markdown with marks in place of task boxes and images, and with
/// literal angle brackets.
pub open spec fn normalized(markdown: Seq<char>) -> Seq<char> {
    replaced(
        replaced(
            replaced(
                replaced(
                    replaced(markdown, "- [x] "@, "- \u{e2}\u{2dc}\u{2018} "@),
                    "- [X] "@,
                    "- \u{e2}\u{2dc}\u{2018} "@,
                ),
                "- [ ] "@,
                "- \u{e2}\u{2dc}\u{90} "@,
            ),
            "!["@,
            "[\u{f0}\u{178}\u{2013}\u{bc} "@,
        ),
        "<"@,
        "\\<"@,
    )
}

pub fn normalize_inline_markdown(markdown: &str) -> (r: String)
    ensures
        r@ == normalized(markdown@),
{
    proof {
        reveal_strlit("- [x] ");
        reveal_strlit("- [X] ");
        reveal_strlit("- [ ] ");
        reveal_strlit("![");
        reveal_strlit("<");
    }
    let a = replace(markdown, "- [x] ", "- \u{e2}\u{2dc}\u{2018} ");
    let b = replace(a.as_str(), "- [X] ", "- \u{e2}\u{2dc}\u{2018} ");
    let c = replace(b.as_str(), "- [ ] ", "- \u{e2}\u{2dc}\u{90} ");
    let d = replace(c.as_str(), "![", "[\u{f0}\u{178}\u{2013}\u{bc} ");
    replace(d.as_str(), "<", "\\<")
}

pub open spec fn empty_block() -> MarkdownBlockView {
    MarkdownBlockView {
        kind: Seq::empty(),
        text: Seq::empty(),
        literal: Seq::empty(),
        raw_text: Seq::empty(),
        language: Seq::empty(),
        level: 0,
        block_height: 0,
        column_count: 0,
        table_width: 0,
        table_height: 0,
        table_rows: Seq::empty(),
    }
}

pub fn empty_markdown_block() -> (r: MarkdownBlock)
    ensures
        r.deep_view() == empty_block(),
{
    let r = MarkdownBlock {
        kind: String::new(),
        text: String::new(),
        literal: String::new(),
        raw_text: String::new(),
        language: String::new(),
        level: 0,
        block_height: 0,
        column_count: 0,
        table_width: 0,
        table_height: 0,
        table_rows: Vec::new(),
    };
    assert(r.table_rows.deep_view() =~= Seq::empty());
    r
}

/// A block of running text, with two pixels of room for descenders.
pub open spec fn styled_view(kind: Seq<char>, markdown: Seq<char>, reasoning: bool) -> MarkdownBlockView {
    let line = if reasoning {
        15nat
    } else {
        16nat
    };
    let extra = if kind == "quote"@ {
        16nat
    } else {
        2nat
    };
    MarkdownBlockView {
        kind,
        text: normalized(markdown),
        literal: markdown,
        raw_text: plain_text(markdown),
        block_height: screen(wrapped_lines(markdown, 112) * line + extra),
        ..empty_block()
    }
}

pub fn styled_block(kind: &str, markdown: &str, reasoning: bool) -> (r: MarkdownBlock)
    ensures
        r.deep_view() == styled_view(kind@, markdown@, reasoning),
{
    let count: u128 = wrapped_line_count(markdown, 112);
    let line: u64 = if reasoning {
        15
    } else {
        16
    };
    let extra: u64 = if same_text(kind, "quote") {
        16
    } else {
        2
    };
    let mut r = empty_markdown_block();
    r.kind = kind.to_owned();
    r.text = normalize_inline_markdown(markdown);
    r.literal = markdown.to_owned();
    r.raw_text = markdown_plain_text(markdown);
    r.block_height = lines_height(count, line, extra);
    r
}

/// The height of a heading.
pub open spec fn heading_height(level: int) -> u64 {
    if level == 1 {
        34
    } else if level == 2 {
        30
    } else if level == 3 {
        27
    } else if level == 4 {
        24
    } else {
        22
    }
}

pub open spec fn heading_view(level: int, markdown: Seq<char>) -> MarkdownBlockView {
    MarkdownBlockView {
        kind: "heading"@,
        text: normalized(markdown),
        literal: markdown,
        raw_text: plain_text(markdown),
        level: level as i32,
        block_height: heading_height(level),
        ..empty_block()
    }
}

pub fn heading_block(level: i32, markdown: &str) -> (r: MarkdownBlock)
    ensures
        r.deep_view() == heading_view(level as int, markdown@),
{
    let mut r = empty_markdown_block();
    r.kind = "heading".to_owned();
    r.text = normalize_inline_markdown(markdown);
    r.literal = markdown.to_owned();
    r.raw_text = markdown_plain_text(markdown);
    r.level = level;
    r.block_height = match level {
        1 => 34,
        2 => 30,
        3 => 27,
        4 => 24,
        _ => 22,
    };
    r
}

pub open spec fn code_view(code: Seq<char>, language: Seq<char>) -> MarkdownBlockView {
    MarkdownBlockView {
        kind: "code"@,
        raw_text: code,
        language: if language.len() == 0 {
            "text"@
        } else {
            language
        },
        block_height: screen(wrapped_lines(code, 105) * 16 + 42),
        ..empty_block()
    }
}

pub fn code_block(code: &str, language: &str) -> (r: MarkdownBlock)
    ensures
        r.deep_view() == code_view(code@, language@),
{
    let mut r = empty_markdown_block();
    r.kind = "code".to_owned();
    r.raw_text = code.to_owned();
    r.language = if language.is_empty() {
        "text".to_owned()
    } else {
        language.to_owned()
    };
    r.block_height = lines_height(wrapped_line_count(code, 105), 16, 42);
    r
}

pub open spec fn rule_view() -> MarkdownBlockView {
    MarkdownBlockView { kind: "rule"@, block_height: 9, ..empty_block() }
}

pub fn rule_block() -> (r: MarkdownBlock)
    ensures
        r.deep_view() == rule_view(),
{
    let mut r = empty_markdown_block();
    r.kind = "rule".to_owned();
    r.block_height = 9;
    r
}

/// The longest line that is seen of a cell.
pub open spec fn longest_line(all: Seq<Seq<char>>) -> nat
    decreases all.len(),
{
    if all.len() == 0 {
        0
    } else {
        let before = longest_line(all.drop_last());
        let n = visible_length(trimmed(all.last()));
        if n > before {
            n
        } else {
            before
        }
    }
}

fn cell_longest_line(cell: &str) -> (r: usize)
    ensures
        r == longest_line(text_lines(cell@)),
{
    let all = lines(cell);
    let ghost views = all.deep_view();
    let mut longest: usize = 0;
    let mut i: usize = 0;
    while i < all.len()
        invariant
            i <= all@.len(),
            views == all.deep_view(),
            longest == longest_line(views.take(i as int)),
        decreases all@.len() - i,
    {
        assert(views.take(i as int + 1).drop_last() =~= views.take(i as int));
        assert(views.take(i as int + 1).last() == all@[i as int]@);
        let n: usize = markdown_visible_len(trim(all[i].as_str()).as_str());
        if n > longest {
            longest = n;
        }
        i += 1;
    }
    assert(views.take(i as int) =~= views);
    longest
}

/// The width that a cell wants for its column: 6.8 pixels for each character
/// and 18 more, at most 420, in tenths of a pixel.
pub open spec fn cell_width(cell: Seq<char>) -> int {
    let want = (longest_line(text_lines(cell)) * 68 + 180) as int;
    if want > 4200 {
        4200
    } else {
        want
    }
}

fn wanted_width(cell: &str) -> (r: u64)
    ensures
        r == cell_width(cell@),
        r <= 4200,
{
    let n: usize = cell_longest_line(cell);
    if n > 60 {
        4200
    } else {
        let want: u64 = n as u64 * 68 + 180;
        if want > 4200 {
            4200
        } else {
            want
        }
    }
}

/// The width of a column: that of its widest cell, at least 48 pixels.
pub open spec fn column_width(rows: Seq<(Seq<Seq<char>>, bool)>, column: int) -> int
    decreases rows.len(),
{
    if rows.len() == 0 {
        480
    } else {
        let before = column_width(rows.drop_last(), column);
        let cells = rows.last().0;
        if 0 <= column < cells.len() && cell_width(cells[column]) > before {
            cell_width(cells[column])
        } else {
            before
        }
    }
}

pub open spec fn column_widths(rows: Seq<(Seq<Seq<char>>, bool)>, count: nat) -> Seq<u64> {
    Seq::new(count, |i: int| column_width(rows, i) as u64)
}

/// The rows with their cells by their views.
pub open spec fn rows_view(rows: Seq<(Vec<String>, bool)>) -> Seq<(Seq<Seq<char>>, bool)> {
    Seq::new(rows.len(), |i: int| (rows[i].0.deep_view(), rows[i].1))
}

fn one_column_width(rows: &Vec<(Vec<String>, bool)>, column: usize) -> (r: u64)
    ensures
        r == column_width(rows_view(rows@), column as int),
        480 <= r <= 4200,
{
    let ghost views = rows_view(rows@);
    let mut width: u64 = 480;
    let mut i: usize = 0;
    while i < rows.len()
        invariant
            i <= rows@.len(),
            views == rows_view(rows@),
            width == column_width(views.take(i as int), column as int),
            480 <= width <= 4200,
        decreases rows@.len() - i,
    {
        assert(views.take(i as int + 1).drop_last() =~= views.take(i as int));
        assert(views.take(i as int + 1).last() == (rows@[i as int].0.deep_view(), rows@[i as int].1));
        if column < rows[i].0.len() {
            let want: u64 = wanted_width(rows[i].0[column].as_str());
            if want > width {
                width = want;
            }
        }
        i += 1;
    }
    assert(views.take(i as int) =~= views);
    width
}

pub fn table_column_widths(rows: &Vec<(Vec<String>, bool)>, column_count: usize) -> (r: Vec<u64>)
    ensures
        r@ == column_widths(rows_view(rows@), column_count as nat),
        forall|i: int| 0 <= i < r@.len() ==> 480 <= #[trigger] r@[i] <= 4200,
{
    let mut out: Vec<u64> = Vec::new();
    let mut i: usize = 0;
    while i < column_count
        invariant
            i <= column_count,
            out@.len() == i,
            forall|j: int|
                0 <= j < i ==> #[trigger] out@[j] == column_width(rows_view(rows@), j) && 480 <= out@[j]
                    <= 4200,
        decreases column_count - i,
    {
        out.push(one_column_width(rows, i));
        i += 1;
    }
    assert(out@ =~= column_widths(rows_view(rows@), column_count as nat));
    out
}

/// The characters that fit on a line of a column.
pub open spec fn chars_per_line(width: u64) -> nat {
    let n = (width - 180 + 34) / 68;
    if n < 1 {
        1
    } else {
        n as nat
    }
}

/// The display lines of the lines of a cell.
pub open spec fn cell_line_count(all: Seq<Seq<char>>, max: nat) -> nat
    decreases all.len(),
{
    if all.len() == 0 {
        0
    } else {
        let seen = visible_length(trimmed(all.last()));
        let n = if seen == 0 {
            1
        } else {
            seen
        };
        cell_line_count(all.drop_last(), max) + (n + max - 1) as nat / max
    }
}

/// The display lines of a cell, at least one.
pub open spec fn cell_lines(cell: Seq<char>, width: u64) -> nat {
    let n = cell_line_count(text_lines(cell), chars_per_line(width));
    if n == 0 {
        1
    } else {
        n
    }
}

fn count_cell_lines(cell: &str, width: u64) -> (r: u128)
    requires
        480 <= width <= 4200,
    ensures
        r == cell_lines(cell@, width),
{
    let all = lines(cell);
    let ghost views = all.deep_view();
    let max: u128 = ((width - 180 + 34) / 68) as u128;
    let mut total: u128 = 0;
    let mut i: usize = 0;
    while i < all.len()
        invariant
            i <= all@.len(),
            1 <= max <= 100,
            views == all.deep_view(),
            total == cell_line_count(views.take(i as int), max as nat),
            total <= i * 0xffff_ffff_ffff_ffff,
        decreases all@.len() - i,
    {
        assert(views.take(i as int + 1).drop_last() =~= views.take(i as int));
        assert(views.take(i as int + 1).last() == all@[i as int]@);
        let seen: usize = markdown_visible_len(trim(all[i].as_str()).as_str());
        let n: u128 = if seen == 0 {
            1
        } else {
            seen as u128
        };
        let more: u128 = (n + max - 1) / max;
        proof {
            assert(more <= n) by (nonlinear_arith)
                requires
                    n >= 1,
                    max >= 1,
                    more == (n + max - 1) / max as int,
            ;
            assert(i * 0xffff_ffff_ffff_ffff + 0xffff_ffff_ffff_ffff == (i + 1)
                * 0xffff_ffff_ffff_ffff) by (nonlinear_arith);
            assert((i + 1) * 0xffff_ffff_ffff_ffff <= 0xffff_ffff_ffff_ffff_ffff_ffff_ffff_ffff)
                by (nonlinear_arith)
                requires
                    i + 1 <= 0xffff_ffff_ffff_ffff,
            ;
        }
        total += more;
        i += 1;
    }
    assert(views.take(i as int) =~= views);
    if total == 0 {
        1
    } else {
        total
    }
}

/// The display lines of a row: those of its longest cell.
pub open spec fn row_lines(cells: Seq<Seq<char>>, widths: Seq<u64>) -> nat
    decreases cells.len(),
{
    if cells.len() == 0 || cells.len() > widths.len() {
        1
    } else {
        let before = row_lines(cells.drop_last(), widths);
        let n = cell_lines(cells.last(), widths[cells.len() - 1]);
        if n > before {
            n
        } else {
            before
        }
    }
}

pub open spec fn cell_view(cell: Seq<char>, alignment: Seq<char>, width: u64) -> MarkdownTableCellView {
    MarkdownTableCellView {
        text: normalized(trimmed(cell)),
        literal: trimmed(cell),
        raw_text: plain_text(trimmed(cell)),
        alignment,
        column_width: width,
    }
}

/// A row of a table, thirty pixels or more high.
pub open spec fn table_row_view(
    cells: Seq<Seq<char>>,
    alignments: Seq<Seq<char>>,
    widths: Seq<u64>,
    header: bool,
) -> MarkdownTableRowView {
    let height = screen(row_lines(cells, widths) * 16 + 12);
    MarkdownTableRowView {
        cells: Seq::new(cells.len(), |i: int| cell_view(cells[i], alignments[i], widths[i])),
        header,
        row_height: if height < 30 {
            30
        } else {
            height
        },
    }
}

pub fn table_row(
    cells: &Vec<String>,
    alignments: &Vec<String>,
    column_widths: &Vec<u64>,
    header: bool,
) -> (r: MarkdownTableRow)
    requires
        cells@.len() == alignments@.len(),
        cells@.len() == column_widths@.len(),
        forall|i: int| 0 <= i < column_widths@.len() ==> 480 <= #[trigger] column_widths@[i] <= 4200,
    ensures
        r.deep_view() == table_row_view(
            cells.deep_view(),
            alignments.deep_view(),
            column_widths@,
            header,
        ),
{
    let ghost views = cells.deep_view();
    let mut out: Vec<MarkdownTableCell> = Vec::new();
    let mut longest: u128 = 1;
    let mut i: usize = 0;
    while i < cells.len()
        invariant
            i <= cells@.len(),
            cells@.len() == alignments@.len(),
            cells@.len() == column_widths@.len(),
            forall|j: int|
                0 <= j < column_widths@.len() ==> 480 <= #[trigger] column_widths@[j] <= 4200,
            views == cells.deep_view(),
            out@.len() == i,
            longest == row_lines(views.take(i as int), column_widths@),
            forall|j: int|
                0 <= j < i ==> (#[trigger] out@[j]).deep_view() == cell_view(
                    views[j],
                    alignments.deep_view()[j],
                    column_widths@[j],
                ),
        decreases cells@.len() - i,
    {
        assert(views.take(i as int + 1).drop_last() =~= views.take(i as int));
        assert(views.take(i as int + 1).last() == cells@[i as int]@);
        let n: u128 = count_cell_lines(cells[i].as_str(), column_widths[i]);
        if n > longest {
            longest = n;
        }
        let text = trim(cells[i].as_str());
        out.push(
            MarkdownTableCell {
                text: normalize_inline_markdown(text.as_str()),
                raw_text: markdown_plain_text(text.as_str()),
                literal: text,
                alignment: alignments[i].clone(),
                column_width: column_widths[i],
            },
        );
        i += 1;
    }
    assert(views.take(i as int) =~= views);
    let height: u64 = lines_height(longest, 16, 12);
    let r = MarkdownTableRow {
        cells: out,
        header,
        row_height: if height < 30 {
            30
        } else {
            height
        },
    };
    assert(r.cells.deep_view() =~= table_row_view(
        views,
        alignments.deep_view(),
        column_widths@,
        header,
    ).cells);
    r
}

/// The sum of the heights of rows.
pub open spec fn rows_height(rows: Seq<MarkdownTableRowView>) -> nat
    decreases rows.len(),
{
    if rows.len() == 0 {
        0
    } else {
        rows_height(rows.drop_last()) + rows.last().row_height as nat
    }
}

pub open spec fn widths_sum(widths: Seq<u64>) -> nat
    decreases widths.len(),
{
    if widths.len() == 0 {
        0
    } else {
        widths_sum(widths.drop_last()) + widths.last() as nat
    }
}

pub open spec fn table_view(rows: Seq<MarkdownTableRowView>, widths: Seq<u64>) -> MarkdownBlockView {
    MarkdownBlockView {
        kind: "table"@,
        block_height: screen((screen(rows_height(rows)) + 12) as nat),
        column_count: if widths.len() > i32::MAX {
            i32::MAX
        } else {
            widths.len() as i32
        },
        table_width: screen(widths_sum(widths)),
        table_height: screen(rows_height(rows)),
        table_rows: rows,
        ..empty_block()
    }
}

pub fn table_block(rows: Vec<MarkdownTableRow>, column_widths: &Vec<u64>) -> (r: MarkdownBlock)
    ensures
        r.deep_view() == table_view(rows.deep_view(), column_widths@),
{
    let ghost views = rows.deep_view();
    let mut height: u64 = 0;
    let mut i: usize = 0;
    while i < rows.len()
        invariant
            i <= rows@.len(),
            views == rows.deep_view(),
            height == screen(rows_height(views.take(i as int))),
        decreases rows@.len() - i,
    {
        assert(views.take(i as int + 1).drop_last() =~= views.take(i as int));
        assert(views.take(i as int + 1).last() == rows@[i as int].deep_view());
        height = height.saturating_add(rows[i].row_height);
        i += 1;
    }
    assert(views.take(i as int) =~= views);
    let mut width: u64 = 0;
    let mut j: usize = 0;
    while j < column_widths.len()
        invariant
            j <= column_widths@.len(),
            width == screen(widths_sum(column_widths@.take(j as int))),
        decreases column_widths@.len() - j,
    {
        assert(column_widths@.take(j as int + 1).drop_last() =~= column_widths@.take(j as int));
        width = width.saturating_add(column_widths[j]);
        j += 1;
    }
    assert(column_widths@.take(j as int) =~= column_widths@);
    let mut r = empty_markdown_block();
    r.kind = "table".to_owned();
    r.block_height = height.saturating_add(12);
    r.column_count = if column_widths.len() > 2147483647 {
        2147483647
    } else {
        column_widths.len() as i32
    };
    r.table_width = width;
    r.table_height = height;
    r.table_rows = rows;
    r
}

} // verus!
