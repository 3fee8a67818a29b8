//! Splitting Markdown into blocks.
use crate::markdown::{
    code_block, code_view, column_widths, heading_block, heading_view, rows_view, rule_block,
    rule_view, styled_block, styled_view, table_block, table_column_widths, table_row,
    table_row_view, table_view, MarkdownBlock, MarkdownBlockView, MarkdownTableRow,
    MarkdownTableRowView,
};
use crate::markdown_lines::{
    alignments_of, atx_heading, atx_of, closes_fence, closing_fence, fence_of, indented_code,
    is_indented_code, is_markdown_rule, is_rule, markdown_quote, opening_fence, quote_of,
    row_cells, setext_heading_level, setext_of, split_table_row, table_alignments,
};
use crate::model::{ConversationItem, ConversationItemView, ItemKind};
use crate::text::{
    begins, blank, is_blank, join, joined, lines, strip_prefix, text_lines, trim, trimmed,
};
use vstd::prelude::*;
use vstd::string::*;

verus! {

/// Where the code behind an opened fence ends.
pub open spec fn fence_end(all: Seq<Seq<char>>, i: int, marker: char, count: nat) -> int
    decreases all.len() - i,
{
    if i < 0 || i >= all.len() || closes_fence(all[i], marker, count) {
        i
    } else {
        fence_end(all, i + 1, marker, count)
    }
}

/// Where indented code ends; blank lines belong to it.
pub open spec fn indented_end(all: Seq<Seq<char>>, i: int) -> int
    decreases all.len() - i,
{
    if i < 0 || i >= all.len() || !(indented_code(all[i]) || blank(all[i])) {
        i
    } else {
        indented_end(all, i + 1)
    }
}

/// A line of indented code without its indentation.
pub open spec fn deindented(line: Seq<char>) -> Seq<char> {
    if begins(line, "    "@) {
        line.skip("    "@.len() as int)
    } else if begins(line, "\t"@) {
        line.skip("\t"@.len() as int)
    } else {
        Seq::empty()
    }
}

pub open spec fn deindented_lines(all: Seq<Seq<char>>, from: int, to: int) -> Seq<Seq<char>> {
    Seq::new((to - from) as nat, |k: int| deindented(all[from + k]))
}

/// Where the rows of a table with so many columns end.
pub open spec fn table_end(all: Seq<Seq<char>>, i: int, columns: nat) -> int
    decreases all.len() - i,
{
    if i < 0 || i >= all.len() || blank(all[i]) || row_cells(all[i]).len() != columns {
        i
    } else {
        table_end(all, i + 1, columns)
    }
}

/// Whether a table starts: a row with as many cells as the delimiter row under it.
pub open spec fn starts_table(all: Seq<Seq<char>>, i: int) -> bool {
    i + 1 < all.len() && alignments_of(all[i + 1]) is Some && row_cells(all[i]).len()
        == alignments_of(all[i + 1])->0.len() && row_cells(all[i]).len() > 1
}

/// The rows of a table, the header first.
pub open spec fn table_source(all: Seq<Seq<char>>, i: int, end: int) -> Seq<(Seq<Seq<char>>, bool)> {
    seq![(row_cells(all[i]), true)] + Seq::new(
        (end - i - 2) as nat,
        |k: int| (row_cells(all[i + 2 + k]), false),
    )
}

pub open spec fn table_rows_view(
    source: Seq<(Seq<Seq<char>>, bool)>,
    alignments: Seq<Seq<char>>,
) -> Seq<MarkdownTableRowView> {
    Seq::new(
        source.len(),
        |k: int|
            table_row_view(
                source[k].0,
                alignments,
                column_widths(source, alignments.len()),
                source[k].1,
            ),
    )
}

/// The table that starts at a line.
pub open spec fn table_at(all: Seq<Seq<char>>, i: int) -> MarkdownBlockView {
    let alignments = alignments_of(all[i + 1])->0;
    let source = table_source(all, i, table_end(all, i + 2, alignments.len()));
    table_view(table_rows_view(source, alignments), column_widths(source, alignments.len()))
}

/// Where a quote ends.
pub open spec fn quote_end(all: Seq<Seq<char>>, i: int) -> int
    decreases all.len() - i,
{
    if i < 0 || i >= all.len() || quote_of(all[i]) is None {
        i
    } else {
        quote_end(all, i + 1)
    }
}

pub open spec fn quoted_lines(all: Seq<Seq<char>>, from: int, to: int) -> Seq<Seq<char>> {
    Seq::new((to - from) as nat, |k: int| quote_of(all[from + k])->0)
}

/// Whether a line opens a block of its own, which ends a paragraph before it.
pub open spec fn opens_block(all: Seq<Seq<char>>, i: int) -> bool {
    fence_of(all[i]) is Some || indented_code(all[i]) || atx_of(all[i]) is Some || quote_of(
        all[i],
    ) is Some || is_rule(trimmed(all[i])) || (i + 1 < all.len() && (setext_of(all[i + 1]) is Some
        || alignments_of(all[i + 1]) is Some))
}

/// Where the paragraph that starts at `start` ends.
pub open spec fn paragraph_end(all: Seq<Seq<char>>, start: int, i: int) -> int
    decreases all.len() - i,
{
    if i < 0 || i >= all.len() || blank(all[i]) || (i > start && opens_block(all, i)) {
        i
    } else {
        paragraph_end(all, start, i + 1)
    }
}

/// The block at a line, none at a blank one, and the line behind it.
#[verifier::opaque]
pub open spec fn block_at(all: Seq<Seq<char>>, i: int, reasoning: bool) -> (
    Option<MarkdownBlockView>,
    int,
) {
    let line = all[i];
    if blank(line) {
        (None, i + 1)
    } else if fence_of(line) is Some {
        let fence = fence_of(line)->0;
        let end = fence_end(all, i + 1, fence.0, fence.1);
        (
            Some(code_view(joined(all.subrange(i + 1, end), "\n"@), fence.2)),
            if end < all.len() {
                end + 1
            } else {
                end
            },
        )
    } else if indented_code(line) {
        let end = indented_end(all, i);
        (Some(code_view(joined(deindented_lines(all, i, end), "\n"@), "text"@)), end)
    } else if starts_table(all, i) {
        (Some(table_at(all, i)), table_end(all, i + 2, alignments_of(all[i + 1])->0.len()))
    } else if atx_of(line) is Some {
        let (level, heading) = atx_of(line)->0;
        (Some(heading_view(level, heading)), i + 1)
    } else if quote_of(line) is Some {
        let end = quote_end(all, i);
        (Some(styled_view("quote"@, joined(quoted_lines(all, i, end), "\n"@), reasoning)), end)
    } else if i + 1 < all.len() && setext_of(all[i + 1]) is Some {
        (Some(heading_view(setext_of(all[i + 1])->0, trimmed(line))), i + 2)
    } else if is_rule(trimmed(line)) {
        (Some(rule_view()), i + 1)
    } else {
        let end = paragraph_end(all, i, i);
        (Some(styled_view("paragraph"@, joined(all.subrange(i, end), "\n"@), reasoning)), end)
    }
}

/// The blocks from a line on.
pub open spec fn blocks_from(all: Seq<Seq<char>>, i: int, reasoning: bool) -> Seq<MarkdownBlockView>
    decreases all.len() - i,
{
    if i < 0 || i >= all.len() {
        Seq::empty()
    } else {
        let (block, next) = block_at(all, i, reasoning);
        let rest = if i < next <= all.len() {
            blocks_from(all, next, reasoning)
        } else {
            Seq::empty()
        };
        match block {
            Some(b) => seq![b] + rest,
            None => rest,
        }
    }
}

/// The blocks of a text, at least an empty paragraph.
pub open spec fn blocks_of(markdown: Seq<char>, reasoning: bool) -> Seq<MarkdownBlockView> {
    let blocks = blocks_from(text_lines(markdown), 0, reasoning);
    if blocks.len() == 0 {
        seq![styled_view("paragraph"@, ""@, reasoning)]
    } else {
        blocks
    }
}

/// The lines `from..to`, joined.
fn join_range(all: &Vec<String>, from: usize, to: usize) -> (r: String)
    requires
        from <= to <= all@.len(),
    ensures
        r@ == joined(all.deep_view().subrange(from as int, to as int), "\n"@),
{
    let mut part: Vec<String> = Vec::new();
    let mut i: usize = from;
    while i < to
        invariant
            from <= i <= to <= all@.len(),
            part@.len() == i - from,
            forall|j: int| 0 <= j < part@.len() ==> (#[trigger] part@[j])@ == all@[from + j]@,
        decreases to - i,
    {
        part.push(all[i].clone());
        i += 1;
    }
    assert(part.deep_view() =~= all.deep_view().subrange(from as int, to as int));
    join(&part, "\n")
}

fn find_fence_end(all: &Vec<String>, from: usize, marker: char, count: usize) -> (r: usize)
    requires
        from <= all@.len(),
    ensures
        r == fence_end(all.deep_view(), from as int, marker, count as nat),
        from <= r <= all@.len(),
{
    let ghost views = all.deep_view();
    let mut i: usize = from;
    while i < all.len()
        invariant
            from <= i <= all@.len(),
            views == all.deep_view(),
            fence_end(views, from as int, marker, count as nat) == fence_end(
                views,
                i as int,
                marker,
                count as nat,
            ),
        decreases all@.len() - i,
    {
        assert(views[i as int] == all@[i as int]@);
        if closing_fence(all[i].as_str(), marker, count) {
            return i;
        }
        i += 1;
    }
    i
}

fn strip_indent(line: &str) -> (r: String)
    ensures
        r@ == deindented(line@),
{
    match strip_prefix(line, "    ") {
        Some(rest) => rest,
        None => match strip_prefix(line, "\t") {
            Some(rest) => rest,
            None => String::new(),
        },
    }
}

/// The block of indented code at a line, and the line behind it.
fn parse_indented(all: &Vec<String>, from: usize) -> (r: (MarkdownBlock, usize))
    requires
        from < all@.len(),
        indented_code(all.deep_view()[from as int]),
    ensures
        r.1 == indented_end(all.deep_view(), from as int),
        from < r.1 <= all@.len(),
        r.0.deep_view() == code_view(
            joined(
                deindented_lines(
                    all.deep_view(),
                    from as int,
                    indented_end(all.deep_view(), from as int),
                ),
                "\n"@,
            ),
            "text"@,
        ),
{
    let ghost views = all.deep_view();
    let mut code: Vec<String> = Vec::new();
    let mut i: usize = from;
    while i < all.len()
        invariant_except_break
            from <= i <= all@.len(),
            from < all@.len(),
            views == all.deep_view(),
            indented_code(views[from as int]),
            code@.len() == i - from,
            indented_end(views, from as int) == indented_end(views, i as int),
            forall|j: int|
                0 <= j < code@.len() ==> (#[trigger] code@[j])@ == deindented(views[from + j]),
        ensures
            from < i <= all@.len(),
            code@.len() == i - from,
            i == indented_end(views, from as int),
            forall|j: int|
                0 <= j < code@.len() ==> (#[trigger] code@[j])@ == deindented(views[from + j]),
        decreases all@.len() - i,
    {
        assert(views[i as int] == all@[i as int]@);
        if !(is_indented_code(all[i].as_str()) || is_blank(all[i].as_str())) {
            break;
        }
        code.push(strip_indent(all[i].as_str()));
        i += 1;
    }
    assert(code.deep_view() =~= deindented_lines(views, from as int, i as int));
    (code_block(join(&code, "\n").as_str(), "text"), i)
}

/// The quote at a line, and the line behind it.
fn parse_quote(all: &Vec<String>, from: usize, reasoning: bool) -> (r: (MarkdownBlock, usize))
    requires
        from < all@.len(),
        quote_of(all.deep_view()[from as int]) is Some,
    ensures
        r.1 == quote_end(all.deep_view(), from as int),
        from < r.1 <= all@.len(),
        r.0.deep_view() == styled_view(
            "quote"@,
            joined(
                quoted_lines(
                    all.deep_view(),
                    from as int,
                    quote_end(all.deep_view(), from as int),
                ),
                "\n"@,
            ),
            reasoning,
        ),
{
    let ghost views = all.deep_view();
    let mut quote: Vec<String> = Vec::new();
    let mut i: usize = from;
    while i < all.len()
        invariant_except_break
            from <= i <= all@.len(),
            from < all@.len(),
            views == all.deep_view(),
            quote_of(views[from as int]) is Some,
            quote@.len() == i - from,
            quote_end(views, from as int) == quote_end(views, i as int),
            forall|j: int|
                0 <= j < quote@.len() ==> Some((#[trigger] quote@[j])@) == quote_of(views[from + j]),
        ensures
            from < i <= all@.len(),
            quote@.len() == i - from,
            i == quote_end(views, from as int),
            forall|j: int|
                0 <= j < quote@.len() ==> Some((#[trigger] quote@[j])@) == quote_of(views[from + j]),
        decreases all@.len() - i,
    {
        assert(views[i as int] == all@[i as int]@);
        match markdown_quote(all[i].as_str()) {
            Some(content) => {
                quote.push(content);
            },
            None => {
                break;
            },
        }
        i += 1;
    }
    assert(quote.deep_view() =~= quoted_lines(views, from as int, i as int));
    (styled_block("quote", join(&quote, "\n").as_str(), reasoning), i)
}

/// The rows of the table at a line, and the line behind them.
fn read_table(all: &Vec<String>, from: usize, columns: usize) -> (r: (Vec<(Vec<String>, bool)>, usize))
    requires
        from + 1 < all@.len(),
    ensures
        r.1 == table_end(all.deep_view(), from + 2, columns as nat),
        from + 2 <= r.1 <= all@.len(),
        rows_view(r.0@) == table_source(all.deep_view(), from as int, r.1 as int),
{
    let ghost views = all.deep_view();
    let mut rows: Vec<(Vec<String>, bool)> = Vec::new();
    rows.push((split_table_row(all[from].as_str()), true));
    let n: usize = all.len();
    assert(from + 1 < n);
    let mut i: usize = from + 2;
    while i < all.len()
        invariant_except_break
            from + 2 <= i <= all@.len(),
            views == all.deep_view(),
            table_end(views, from + 2, columns as nat) == table_end(views, i as int, columns as nat),
            rows@.len() == i - from - 1,
            rows@[0].0.deep_view() == row_cells(views[from as int]),
            rows@[0].1,
            forall|j: int|
                0 < j < rows@.len() ==> (#[trigger] rows@[j]).0.deep_view() == row_cells(
                    views[from + 1 + j],
                ) && !rows@[j].1,
        ensures
            from + 2 <= i <= all@.len(),
            i == table_end(views, from + 2, columns as nat),
            rows@.len() == i - from - 1,
            rows@[0].0.deep_view() == row_cells(views[from as int]),
            rows@[0].1,
            forall|j: int|
                0 < j < rows@.len() ==> (#[trigger] rows@[j]).0.deep_view() == row_cells(
                    views[from + 1 + j],
                ) && !rows@[j].1,
        decreases all@.len() - i,
    {
        assert(views[i as int] == all@[i as int]@);
        if is_blank(all[i].as_str()) {
            break;
        }
        let cells = split_table_row(all[i].as_str());
        if cells.len() != columns {
            break;
        }
        rows.push((cells, false));
        i += 1;
    }
    assert(rows_view(rows@) =~= table_source(views, from as int, i as int));
    (rows, i)
}

proof fn lemma_rows_have_columns(all: Seq<Seq<char>>, i: int, columns: nat, k: int)
    requires
        0 <= i <= k < table_end(all, i, columns),
    ensures
        row_cells(all[k]).len() == columns,
    decreases all.len() - i,
{
    if i < all.len() && i < k {
        lemma_rows_have_columns(all, i + 1, columns, k);
    }
}

/// The table at a line, and the line behind it.
fn parse_table(all: &Vec<String>, from: usize, alignments: &Vec<String>) -> (r: (MarkdownBlock, usize))
    requires
        from + 1 < all@.len(),
        alignments_of(all.deep_view()[from + 1]) == Some(alignments.deep_view()),
        starts_table(all.deep_view(), from as int),
    ensures
        r.1 == table_end(all.deep_view(), from + 2, alignments@.len()),
        from + 2 <= r.1 <= all@.len(),
        r.0.deep_view() == table_at(all.deep_view(), from as int),
{
    let ghost views = all.deep_view();
    let columns: usize = alignments.len();
    let (rows, end) = read_table(all, from, columns);
    let ghost source = rows_view(rows@);
    assert(source.len() == end - from - 1);
    let widths = table_column_widths(&rows, columns);
    let mut out: Vec<MarkdownTableRow> = Vec::new();
    let mut i: usize = 0;
    while i < rows.len()
        invariant
            i <= rows@.len(),
            rows@.len() == end - from - 1,
            out@.len() == i,
            columns == alignments@.len(),
            alignments.deep_view().len() == columns,
            views == all.deep_view(),
            from + 2 <= end <= views.len(),
            end == table_end(views, from + 2, columns as nat),
            row_cells(views[from as int]).len() == columns,
            source == rows_view(rows@),
            source == table_source(views, from as int, end as int),
            widths@ == column_widths(source, columns as nat),
            forall|j: int| 0 <= j < widths@.len() ==> 480 <= #[trigger] widths@[j] <= 4200,
            forall|j: int|
                0 <= j < i ==> (#[trigger] out@[j]).deep_view() == table_row_view(
                    source[j].0,
                    alignments.deep_view(),
                    widths@,
                    source[j].1,
                ),
        decreases rows@.len() - i,
    {
        proof {
            assert(source[i as int] == (rows@[i as int].0.deep_view(), rows@[i as int].1));
            if i > 0 {
                lemma_rows_have_columns(views, from + 2, columns as nat, from + 1 + i);
                assert(source[i as int].0 == row_cells(views[from + 1 + i]));
            }
            assert(rows@[i as int].0.deep_view().len() == columns);
        }
        out.push(table_row(&rows[i].0, alignments, &widths, rows[i].1));
        i += 1;
    }
    assert(out.deep_view() =~= table_rows_view(source, alignments.deep_view()));
    (table_block(out, &widths), end)
}

pub fn starts_block(all: &Vec<String>, index: usize) -> (r: bool)
    requires
        index < all@.len(),
    ensures
        r == opens_block(all.deep_view(), index as int),
{
    let ghost views = all.deep_view();
    assert(views[index as int] == all@[index as int]@);
    let n: usize = all.len();
    let line = all[index].as_str();
    if opening_fence(line).is_some() || is_indented_code(line) || atx_heading(line).is_some()
        || markdown_quote(line).is_some() || is_markdown_rule(trim(line).as_str()) {
        return true;
    }
    if index + 1 < n {
        assert(views[index + 1] == all@[index + 1]@);
        let next = all[index + 1].as_str();
        setext_heading_level(next).is_some() || table_alignments(next).is_some()
    } else {
        false
    }
}

fn find_paragraph_end(all: &Vec<String>, start: usize) -> (r: usize)
    requires
        start < all@.len(),
        !blank(all.deep_view()[start as int]),
    ensures
        r == paragraph_end(all.deep_view(), start as int, start as int),
        start < r <= all@.len(),
{
    let ghost views = all.deep_view();
    let mut i: usize = start;
    while i < all.len()
        invariant
            start <= i <= all@.len(),
            views == all.deep_view(),
            !blank(views[start as int]),
            paragraph_end(views, start as int, start as int) == paragraph_end(
                views,
                start as int,
                i as int,
            ),
        decreases all@.len() - i,
    {
        assert(views[i as int] == all@[i as int]@);
        if is_blank(all[i].as_str()) {
            return i;
        }
        if i > start && starts_block(all, i) {
            return i;
        }
        i += 1;
    }
    i
}

/// The alignments of the table that starts at a line.
fn table_start(all: &Vec<String>, index: usize) -> (r: Option<Vec<String>>)
    requires
        index < all@.len(),
    ensures
        match r {
            Some(a) => starts_table(all.deep_view(), index as int) && alignments_of(
                all.deep_view()[index + 1],
            ) == Some(a.deep_view()),
            None => !starts_table(all.deep_view(), index as int),
        },
{
    let ghost views = all.deep_view();
    let n: usize = all.len();
    if index + 1 >= n {
        return None;
    }
    assert(views[index + 1] == all@[index + 1]@);
    assert(views[index as int] == all@[index as int]@);
    match table_alignments(all[index + 1].as_str()) {
        Some(alignments) => {
            let headers = split_table_row(all[index].as_str());
            if headers.len() == alignments.len() && headers.len() > 1 {
                Some(alignments)
            } else {
                None
            }
        },
        None => None,
    }
}

/// The block at a line, none at a blank one, and the line behind it.
fn parse_block(all: &Vec<String>, i: usize, reasoning: bool) -> (r: (Option<MarkdownBlock>, usize))
    requires
        i < all@.len(),
    ensures
        (r.0.deep_view(), r.1 as int) == block_at(all.deep_view(), i as int, reasoning),
        i < r.1 <= all@.len(),
{
    proof {
        reveal(block_at);
    }
    let ghost views = all.deep_view();
    assert(views[i as int] == all@[i as int]@);
    let n: usize = all.len();
    let line = all[i].as_str();
    if is_blank(line) {
        return (None, i + 1);
    }
    match opening_fence(line) {
        Some((marker, count, language)) => {
            let end: usize = find_fence_end(all, i + 1, marker, count);
            let code = join_range(all, i + 1, end);
            let next: usize = if end < n {
                end + 1
            } else {
                end
            };
            return (Some(code_block(code.as_str(), language.as_str())), next);
        },
        None => {},
    }
    if is_indented_code(line) {
        let (block, next) = parse_indented(all, i);
        return (Some(block), next);
    }
    match table_start(all, i) {
        Some(alignments) => {
            let (block, next) = parse_table(all, i, &alignments);
            return (Some(block), next);
        },
        None => {},
    }
    match atx_heading(line) {
        Some((level, heading)) => {
            return (Some(heading_block(level, heading.as_str())), i + 1);
        },
        None => {},
    }
    if markdown_quote(line).is_some() {
        let (block, next) = parse_quote(all, i, reasoning);
        return (Some(block), next);
    }
    if i + 1 < n {
        assert(views[i + 1] == all@[i + 1]@);
        match setext_heading_level(all[i + 1].as_str()) {
            Some(level) => {
                return (Some(heading_block(level, trim(line).as_str())), i + 2);
            },
            None => {},
        }
    }
    if is_markdown_rule(trim(line).as_str()) {
        return (Some(rule_block()), i + 1);
    }
    let end: usize = find_paragraph_end(all, i);
    let text = join_range(all, i, end);
    (Some(styled_block("paragraph", text.as_str(), reasoning)), end)
}

pub fn parse_markdown_blocks(markdown: &str, reasoning: bool) -> (r: Vec<MarkdownBlock>)
    ensures
        r.deep_view() == blocks_of(markdown@, reasoning),
        r@.len() > 0,
{
    let all = lines(markdown);
    let ghost views = all.deep_view();
    let mut blocks: Vec<MarkdownBlock> = Vec::new();
    let mut index: usize = 0;
    let ghost whole = blocks_from(views, 0, reasoning);
    assert(blocks.deep_view() + whole =~= whole);
    while index < all.len()
        invariant
            index <= all@.len(),
            views == all.deep_view(),
            whole == blocks.deep_view() + blocks_from(views, index as int, reasoning),
        decreases all@.len() - index,
    {
        let ghost before = blocks.deep_view();
        let (block, next) = parse_block(&all, index, reasoning);
        let ghost rest = blocks_from(views, next as int, reasoning);
        match block {
            Some(b) => {
                let ghost view = b.deep_view();
                blocks.push(b);
                assert(blocks.deep_view() =~= before.push(view));
                assert(before + (seq![view] + rest) =~= blocks.deep_view() + rest);
            },
            None => {},
        }
        index = next;
    }
    assert(blocks.deep_view() =~= whole);
    if blocks.len() == 0 {
        blocks.push(styled_block("paragraph", "", reasoning));
        assert(blocks.deep_view() =~= blocks_of(markdown@, reasoning));
    }
    blocks
}

/// The blocks of an entry; only what the model writes is Markdown.
pub open spec fn blocks_of_item(item: ConversationItemView) -> Seq<MarkdownBlockView> {
    if item.kind == ItemKind::Assistant || item.kind == ItemKind::Reasoning {
        blocks_of(item.body, item.kind == ItemKind::Reasoning)
    } else {
        Seq::empty()
    }
}

pub fn markdown_blocks(item: &ConversationItem) -> (r: Vec<MarkdownBlock>)
    ensures
        r.deep_view() == blocks_of_item(item.deep_view()),
{
    if item.kind != ItemKind::Assistant && item.kind != ItemKind::Reasoning {
        let r: Vec<MarkdownBlock> = Vec::new();
        assert(r.deep_view() =~= Seq::empty());
        return r;
    }
    parse_markdown_blocks(item.body.as_str(), item.kind == ItemKind::Reasoning)
}

} // verus!
