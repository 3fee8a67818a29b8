//! What becomes of Markdown: code is shown as it was written, headings, quotes
//! and paragraphs say what they said.
use crate::markdown::{normalized, plain_from, plain_text, visible_from, visible_length};
use crate::markdown_blocks::{
    block_at, blocks_from, blocks_of, fence_end, paragraph_end, quote_end, quoted_lines,
    starts_table, table_end, table_source,
};
use crate::markdown_lines::{
    alignment_of, alignments_of, all_are, atx_of, cells_from, closes_fence, dense, fence_of,
    first_word, indent_bytes, indented_code, is_rule, lemma_run_length, quote_of, row_cells,
    run_length, setext_of, without_end, without_start,
};
use crate::text::{
    begins, blank, is_space, joined, lemma_blank_trimmed, lemma_joined_pieces, lemma_pieces_around,
    lemma_single_piece, lemma_trimmed_end, lemma_trimmed_start, pieces, text_lines, trimmed,
};
use vstd::prelude::*;
use vstd::string::*;

verus! {

/// The characters that can open a block at the start of a line.
pub open spec fn opens(c: char) -> bool {
    c == '`' || c == '~' || c == '#' || c == '>' || c == '-' || c == '*' || c == '_' || c == '='
        || is_space(c)
}

proof fn lemma_run_is(s: Seq<char>, i: int, c: char, n: int)
    requires
        0 <= i <= n <= s.len(),
        forall|j: int| i <= j < n ==> (#[trigger] s[j]) == c,
        n < s.len() ==> s[n] != c,
    ensures
        run_length(s, i, c) == n - i,
    decreases n - i,
{
    if i < n {
        lemma_run_is(s, i + 1, c, n);
    }
}

proof fn lemma_word(s: Seq<char>)
    requires
        forall|i: int| 0 <= i < s.len() ==> !is_space(#[trigger] s[i]),
    ensures
        first_word(s) == s,
        trimmed(s) == s,
    decreases s.len(),
{
    lemma_trimmed_start(s, 0);
    assert(s.skip(0) =~= s);
    lemma_trimmed_end(s, s.len() as int);
    assert(s.take(s.len() as int) =~= s);
    if s.len() > 0 {
        let rest = s.drop_first();
        assert forall|i: int| 0 <= i < rest.len() implies !is_space(#[trigger] rest[i]) by {
            assert(rest[i] == s[i + 1]);
        }
        lemma_word(rest);
        assert(seq![s[0]] + rest =~= s);
    } else {
        assert(first_word(s) =~= s);
    }
}

proof fn lemma_fence_opens(language: Seq<char>)
    requires
        forall|i: int|
            0 <= i < language.len() ==> !is_space(#[trigger] language[i]) && language[i] != '`',
    ensures
        fence_of("```"@ + language) == Some(('`', 3nat, language)),
        !blank("```"@ + language),
{
    reveal_strlit("```");
    let fence = "```"@;
    assert(fence =~= seq!['`', '`', '`']);
    let line = fence + language;
    assert(line[0] == '`' && line[1] == '`' && line[2] == '`');
    assert(!is_space('`'));
    lemma_trimmed_start(line, 0);
    assert(line.skip(0) =~= line);
    assert(indent_bytes(line) == 0);
    assert forall|j: int| 0 <= j < 3 implies (#[trigger] line[j]) == '`' by {}
    if language.len() > 0 {
        assert(line[3] == language[0]);
    }
    lemma_run_is(line, 0, '`', 3);
    assert(line.skip(3) =~= language);
    lemma_word(language);
    assert(!language.contains('`'));
}

proof fn lemma_fence_closes()
    ensures
        closes_fence("```"@, '`', 3),
{
    reveal_strlit("```");
    let fence = "```"@;
    assert(fence =~= seq!['`', '`', '`']);
    assert(!is_space('`'));
    lemma_trimmed_start(fence, 0);
    assert(fence.skip(0) =~= fence);
    lemma_trimmed_end(fence, 3);
    assert(fence.take(3) =~= fence);
    lemma_run_is(fence, 0, '`', 3);
}

proof fn lemma_fence_stays_open(line: Seq<char>)
    requires
        !begins(trimmed(line), "```"@),
    ensures
        !closes_fence(line, '`', 3),
{
    reveal_strlit("```");
    let t = trimmed(line);
    lemma_run_length(t, 0, '`');
    if run_length(t, 0, '`') >= 3 {
        assert(t[0] == '`' && t[1] == '`' && t[2] == '`');
        assert(t.take(3) =~= "```"@);
    }
}

proof fn lemma_fence_end(all: Seq<Seq<char>>, i: int, n: int)
    requires
        0 <= i <= n < all.len(),
        forall|j: int| i <= j < n ==> !begins(trimmed(#[trigger] all[j]), "```"@),
        all[n] == "```"@,
    ensures
        fence_end(all, i, '`', 3) == n,
    decreases n - i,
{
    if i < n {
        lemma_fence_stays_open(all[i]);
        lemma_fence_end(all, i + 1, n);
    } else {
        lemma_fence_closes();
    }
}

/// Code between fences is shown as it was written, line by line, under the
/// language that its fence names.
pub proof fn lemma_fenced_code_is_shown_as_written(
    markdown: Seq<char>,
    language: Seq<char>,
    code: Seq<Seq<char>>,
    reasoning: bool,
)
    requires
        text_lines(markdown) == seq!["```"@ + language] + code + seq!["```"@],
        forall|i: int|
            0 <= i < language.len() ==> !is_space(#[trigger] language[i]) && language[i] != '`',
        forall|j: int| 0 <= j < code.len() ==> !begins(trimmed(#[trigger] code[j]), "```"@),
    ensures
        ({
            let blocks = blocks_of(markdown, reasoning);
            &&& blocks.len() == 1
            &&& blocks[0].kind == "code"@
            &&& blocks[0].raw_text == joined(code, "\n"@)
            &&& language.len() > 0 ==> blocks[0].language == language
            &&& language.len() == 0 ==> blocks[0].language == "text"@
        }),
{
    let all = text_lines(markdown);
    let n = code.len() as int + 1;
    lemma_fence_opens(language);
    assert(all[0] == "```"@ + language);
    assert(all[n] == "```"@);
    assert forall|j: int| 1 <= j < n implies !begins(trimmed(#[trigger] all[j]), "```"@) by {
        assert(all[j] == code[j - 1]);
    }
    lemma_fence_end(all, 1, n);
    reveal(block_at);
    assert(all.subrange(1, n) =~= code);
    let (block, next) = block_at(all, 0, reasoning);
    assert(next == all.len());
    assert(blocks_from(all, next, reasoning) =~= Seq::empty());
    assert(blocks_from(all, 0, reasoning) =~= seq![block->0]);
}

proof fn lemma_first_dense(line: Seq<char>)
    requires
        line.len() > 0,
        !is_space(line[0]),
    ensures
        dense(line).len() > 0,
        dense(line)[0] == line[0],
    decreases line.len(),
{
    if line.len() > 1 {
        lemma_first_dense(line.drop_last());
    } else {
        assert(line.drop_last() =~= Seq::empty());
        assert(dense(line.drop_last()) =~= Seq::empty());
    }
}

proof fn lemma_plain_line(all: Seq<Seq<char>>, i: int)
    requires
        0 <= i < all.len(),
        all[i].len() > 0,
        !opens(all[i][0]),
        i + 1 == all.len(),
    ensures
        !blank(all[i]),
        fence_of(all[i]) is None,
        !indented_code(all[i]),
        atx_of(all[i]) is None,
        quote_of(all[i]) is None,
        !is_rule(trimmed(all[i])),
{
    let line = all[i];
    lemma_trimmed_start(line, 0);
    assert(line.skip(0) =~= line);
    reveal_strlit("    ");
    reveal_strlit("\t");
    assert("    "@[0] == ' ' && "\t"@[0] == '\t');
    assert("    "@.len() == 4 && "\t"@.len() == 1);
    assert(is_space(' ') && is_space('\t'));
    if begins(line, "    "@) {
        assert(line.take(4)[0] == line[0]);
    }
    if begins(line, "\t"@) {
        assert(line.take(1)[0] == line[0]);
    }
    lemma_run_is(line, 0, '#', 0);
    let t = trimmed(line);
    lemma_trimmed_keeps_first(line);
    lemma_first_dense(t);
}

proof fn lemma_trimmed_keeps_first(line: Seq<char>)
    requires
        line.len() > 0,
        !is_space(line[0]),
    ensures
        trimmed(line).len() > 0,
        trimmed(line)[0] == line[0],
{
    lemma_trimmed_start(line, 0);
    assert(line.skip(0) =~= line);
    lemma_end_keeps_first(line);
}

proof fn lemma_end_keeps_first(line: Seq<char>)
    requires
        line.len() > 0,
        !is_space(line[0]),
    ensures
        crate::text::trimmed_end(line).len() > 0,
        crate::text::trimmed_end(line)[0] == line[0],
    decreases line.len(),
{
    if is_space(line.last()) {
        lemma_end_keeps_first(line.drop_last());
    }
}

/// A line that opens nothing is a paragraph that says what the line says.
pub proof fn lemma_plain_line_is_a_paragraph(line: Seq<char>, reasoning: bool)
    requires
        line.len() > 0,
        !opens(line[0]),
        text_lines(line) == seq![line],
    ensures
        ({
            let blocks = blocks_of(line, reasoning);
            &&& blocks.len() == 1
            &&& blocks[0].kind == "paragraph"@
            &&& blocks[0].literal == line
            &&& blocks[0].text == normalized(line)
        }),
{
    let all = text_lines(line);
    lemma_plain_line(all, 0);
    reveal(block_at);
    assert(paragraph_end(all, 0, 1) == 1);
    assert(paragraph_end(all, 0, 0) == 1);
    assert(all.subrange(0, 1) =~= seq![line]);
    assert(joined(seq![line], "\n"@) == line);
    let (block, next) = block_at(all, 0, reasoning);
    assert(blocks_from(all, 1, reasoning) =~= Seq::empty());
    assert(blocks_from(all, 0, reasoning) =~= seq![block->0]);
}

/// A heading has the level of its marks and the text behind them.
pub proof fn lemma_heading_has_its_level(level: nat, marks: Seq<char>, text: Seq<char>, reasoning: bool)
    requires
        1 <= level <= 6,
        marks.len() == level,
        forall|i: int| 0 <= i < marks.len() ==> (#[trigger] marks[i]) == '#',
        text.len() > 0,
        text.last() != '#' && !is_space(text.last()),
        text_lines(marks.push(' ') + text) == seq![marks.push(' ') + text],
    ensures
        ({
            let blocks = blocks_of(marks.push(' ') + text, reasoning);
            &&& blocks.len() == 1
            &&& blocks[0].kind == "heading"@
            &&& blocks[0].level == level
            &&& blocks[0].literal == text
        }),
{
    let line = marks.push(' ') + text;
    let all = text_lines(line);
    let n = level as int;
    assert(line[0] == marks[0] && line[0] == '#');
    assert(!is_space('#'));
    lemma_trimmed_start(line, 0);
    assert(line.skip(0) =~= line);
    assert(!blank(line));
    assert forall|j: int| 0 <= j < n implies (#[trigger] line[j]) == '#' by {
        assert(line[j] == marks[j]);
    }
    assert(line[n] == ' ');
    lemma_run_is(line, 0, '#', n);
    assert(line.skip(n + 1) =~= text);
    assert(without_end(text, '#') == text);
    lemma_trimmed_end(text, text.len() as int);
    assert(text.take(text.len() as int) =~= text);
    reveal_strlit("    ");
    reveal_strlit("\t");
    assert("    "@[0] == ' ' && "\t"@[0] == '\t');
    assert("    "@.len() == 4 && "\t"@.len() == 1);
    if begins(line, "    "@) {
        assert(line.take(4)[0] == line[0]);
    }
    if begins(line, "\t"@) {
        assert(line.take(1)[0] == line[0]);
    }
    reveal(block_at);
    let (block, next) = block_at(all, 0, reasoning);
    assert(blocks_from(all, 1, reasoning) =~= Seq::empty());
    assert(blocks_from(all, 0, reasoning) =~= seq![block->0]);
}

/// A quoted line is shown as a quote of what stands behind its mark.
pub proof fn lemma_quote_says_what_is_quoted(text: Seq<char>, reasoning: bool)
    requires
        text_lines(seq!['>', ' '] + text) == seq![seq!['>', ' '] + text],
    ensures
        ({
            let blocks = blocks_of(seq!['>', ' '] + text, reasoning);
            &&& blocks.len() == 1
            &&& blocks[0].kind == "quote"@
            &&& blocks[0].literal == text
        }),
{
    let line = seq!['>', ' '] + text;
    let all = text_lines(line);
    assert(line[0] == '>' && line[1] == ' ');
    assert(!is_space('>'));
    lemma_trimmed_start(line, 0);
    assert(line.skip(0) =~= line);
    assert(!blank(line));
    lemma_run_is(line, 0, '#', 0);
    assert(line.skip(2) =~= text);
    reveal_strlit("    ");
    reveal_strlit("\t");
    assert("    "@[0] == ' ' && "\t"@[0] == '\t');
    assert("    "@.len() == 4 && "\t"@.len() == 1);
    if begins(line, "    "@) {
        assert(line.take(4)[0] == line[0]);
    }
    if begins(line, "\t"@) {
        assert(line.take(1)[0] == line[0]);
    }
    reveal(block_at);
    assert(quote_end(all, 1) == 1);
    assert(quote_end(all, 0) == 1);
    assert(quoted_lines(all, 0, 1) =~= seq![text]);
    assert(joined(seq![text], "\n"@) == text);
    let (block, next) = block_at(all, 0, reasoning);
    assert(blocks_from(all, 1, reasoning) =~= Seq::empty());
    assert(blocks_from(all, 0, reasoning) =~= seq![block->0]);
}

/// The marks of inline Markdown.
pub open spec fn is_inline_mark(c: char) -> bool {
    c == '*' || c == '_' || c == '~' || c == '`' || c == '[' || c == ']' || c == '\\' || c == '!'
}

proof fn lemma_plain_stays_from(s: Seq<char>, i: int)
    requires
        0 <= i <= s.len(),
        forall|j: int| 0 <= j < s.len() ==> !is_inline_mark(#[trigger] s[j]),
    ensures
        plain_from(s, i) == s.skip(i),
        visible_from(s, i, false) == s.len() - i,
    decreases s.len() - i,
{
    if i < s.len() {
        lemma_plain_stays_from(s, i + 1);
        assert(!is_inline_mark(s[i]));
        assert(seq![s[i]] + s.skip(i + 1) =~= s.skip(i));
    } else {
        assert(s.skip(i) =~= Seq::empty());
    }
}

/// A text without marks is copied as it is, and all of it is seen.
pub proof fn lemma_unmarked_text_is_kept(s: Seq<char>)
    requires
        forall|j: int| 0 <= j < s.len() ==> !is_inline_mark(#[trigger] s[j]),
    ensures
        plain_text(s) == s,
        visible_length(s) == s.len(),
{
    lemma_plain_stays_from(s, 0);
    assert(s.skip(0) =~= s);
}

/// The characters that mean something inside a row of a table.
pub open spec fn means_something(c: char) -> bool {
    c == '|' || c == '\\' || c == '`'
}

/// Text without escapes and code falls into cells at its bars.
proof fn lemma_plain_cells(s: Seq<char>, i: int, done: Seq<Seq<char>>, cell: Seq<char>)
    requires
        0 <= i <= s.len(),
        forall|k: int| 0 <= k < s.len() ==> (#[trigger] s[k]) != '\\' && s[k] != '`',
        forall|k: int| 0 <= k < cell.len() ==> (#[trigger] cell[k]) != '|',
    ensures
        cells_from(s, i, done, cell, false, 0) == done + pieces(cell + s.skip(i), '|'),
    decreases s.len() - i,
{
    lemma_single_piece(cell, '|');
    if i == s.len() {
        assert(cell + s.skip(i) =~= cell);
        assert(done.push(cell) =~= done + seq![cell]);
    } else if s[i] == '|' {
        let rest = s.skip(i + 1);
        lemma_plain_cells(s, i + 1, done.push(cell), Seq::empty());
        assert(Seq::empty() + rest =~= rest);
        lemma_pieces_around(cell, '|', rest);
        assert(cell + s.skip(i) =~= cell.push('|') + rest);
        assert(done.push(cell) + pieces(rest, '|') =~= done + (seq![cell] + pieces(rest, '|')));
    } else {
        lemma_plain_cells(s, i + 1, done, cell.push(s[i]));
        assert(cell.push(s[i]) + s.skip(i + 1) =~= cell + s.skip(i));
    }
}

proof fn lemma_joined_ends(names: Seq<Seq<char>>)
    requires
        names.len() > 0,
        names[0].len() > 0,
        names.last().len() > 0,
    ensures
        joined(names, seq!['|']).len() > 0,
        joined(names, seq!['|'])[0] == names[0][0],
        joined(names, seq!['|']).last() == names.last().last(),
    decreases names.len(),
{
    if names.len() > 1 {
        lemma_joined_starts(names.drop_last());
    }
}

proof fn lemma_joined_starts(names: Seq<Seq<char>>)
    requires
        names.len() > 0,
        names[0].len() > 0,
    ensures
        joined(names, seq!['|']).len() > 0,
        joined(names, seq!['|'])[0] == names[0][0],
    decreases names.len(),
{
    if names.len() > 1 {
        lemma_joined_starts(names.drop_last());
    }
}

proof fn lemma_joined_holds(names: Seq<Seq<char>>, k: int)
    requires
        forall|i: int, j: int|
            0 <= i < names.len() && 0 <= j < names[i].len() ==> !means_something(
                #[trigger] names[i][j],
            ),
        0 <= k < joined(names, seq!['|']).len(),
    ensures
        joined(names, seq!['|'])[k] != '\\' && joined(names, seq!['|'])[k] != '`',
    decreases names.len(),
{
    if names.len() == 1 {
        assert(!means_something(names[0][k]));
    } else if names.len() > 1 {
        let front = names.drop_last();
        let before = joined(front, seq!['|']);
        assert forall|i: int, j: int| 0 <= i < front.len() && 0 <= j < front[i].len() implies
            !means_something(#[trigger] front[i][j]) by {
            assert(!means_something(names[i][j]));
        }
        if k < before.len() {
            lemma_joined_holds(front, k);
        } else if k > before.len() {
            assert(!means_something(names[names.len() - 1][k - before.len() - 1]));
        }
    }
}

/// The cells of a row are what stands between its bars, in order.
pub proof fn lemma_row_has_its_cells(names: Seq<Seq<char>>)
    requires
        names.len() > 0,
        names[0].len() > 0,
        names.last().len() > 0,
        forall|i: int, j: int|
            0 <= i < names.len() && 0 <= j < names[i].len() ==> !means_something(
                #[trigger] names[i][j],
            ),
    ensures
        row_cells((seq!['|'] + joined(names, seq!['|'])).push('|')) == names,
{
    let body = joined(names, seq!['|']);
    let line = (seq!['|'] + body).push('|');
    lemma_joined_ends(names);
    assert(!is_space('|'));
    assert(line[0] == '|');
    lemma_trimmed_start(line, 0);
    assert(line.skip(0) =~= line);
    lemma_trimmed_end(line, line.len() as int);
    assert(line.take(line.len() as int) =~= line);
    let open = line.drop_first();
    assert(!means_something(names[0][0]));
    assert(open[0] == body[0]);
    assert(without_start(open, '|') == open);
    assert(without_start(line, '|') == open);
    assert(open.last() == '|');
    assert(open.drop_last() =~= body);
    assert(!means_something(names[names.len() - 1][names.last().len() - 1]));
    assert(body.last() != '|');
    assert(without_end(body, '|') == body);
    assert(without_end(open, '|') == body);
    assert forall|k: int| 0 <= k < body.len() implies (#[trigger] body[k]) != '\\' && body[k]
        != '`' by {
        lemma_joined_holds(names, k);
    }
    lemma_plain_cells(body, 0, Seq::empty(), Seq::empty());
    assert(Seq::empty() + body.skip(0) =~= body);
    assert forall|i: int, j: int| 0 <= i < names.len() && 0 <= j < names[i].len() implies (
    #[trigger] names[i][j]) != '|' by {
        assert(!means_something(names[i][j]));
    }
    lemma_joined_pieces(names, '|');
    assert(Seq::empty() + names =~= names);
}

proof fn lemma_dashes_stay(d: Seq<char>)
    requires
        d.len() > 0,
        all_are(d, '-'),
    ensures
        without_start(d, ':') == d,
        without_end(d, ':') == d,
        without_start(d.push(':'), ':') == d.push(':'),
        without_end(d.push(':'), ':') == d,
        without_start(seq![':'] + d, ':') == d,
        without_start((seq![':'] + d).push(':'), ':') == d.push(':'),
{
    assert(d[0] == '-' && d.last() == '-');
    assert(d.push(':')[0] == '-');
    assert(d.push(':').drop_last() =~= d);
    let opened = seq![':'] + d;
    assert(opened.drop_first() =~= d);
    assert(opened[0] == ':');
    assert(opened.push(':').drop_first() =~= d.push(':'));
    assert(opened.push(':')[0] == ':');
}

proof fn lemma_no_space_around(s: Seq<char>)
    requires
        s.len() > 0,
        !is_space(s[0]),
        !is_space(s.last()),
    ensures
        trimmed(s) == s,
{
    lemma_trimmed_start(s, 0);
    assert(s.skip(0) =~= s);
    lemma_trimmed_end(s, s.len() as int);
    assert(s.take(s.len() as int) =~= s);
}

/// A column is aligned to the side at which its delimiter has a colon, in the
/// middle with a colon at both, and to the left without one.
pub proof fn lemma_colons_align_columns(d: Seq<char>)
    requires
        d.len() >= 3,
        all_are(d, '-'),
    ensures
        alignment_of(d) == Some("left"@),
        alignment_of(seq![':'] + d) == Some("left"@),
        alignment_of(d.push(':')) == Some("right"@),
        alignment_of((seq![':'] + d).push(':')) == Some("center"@),
{
    lemma_dashes_stay(d);
    assert(!is_space('-') && !is_space(':'));
    assert(d[0] == '-' && d.last() == '-');
    lemma_no_space_around(d);
    lemma_no_space_around(d.push(':'));
    assert(d.push(':')[0] == '-');
    let opened = seq![':'] + d;
    assert(opened[0] == ':' && opened.last() == '-');
    lemma_no_space_around(opened);
    assert(opened.push(':')[0] == ':');
    lemma_no_space_around(opened.push(':'));
}

/// A table has a row for each of its lines, the first one as its header, and in
/// each row the cells of the line under the alignments of the delimiter row.
pub proof fn lemma_table_keeps_its_cells(
    all: Seq<Seq<char>>,
    i: int,
    reasoning: bool,
    k: int,
    j: int,
)
    requires
        0 <= i,
        starts_table(all, i),
        !blank(all[i]),
        fence_of(all[i]) is None,
        !indented_code(all[i]),
        0 <= k,
        i + 2 + k < table_end(all, i + 2, alignments_of(all[i + 1])->0.len()),
        0 <= j < alignments_of(all[i + 1])->0.len() <= i32::MAX,
    ensures
        block_at(all, i, reasoning).0 matches Some(b) && {
            let alignments = alignments_of(all[i + 1])->0;
            &&& b.kind == "table"@
            &&& b.column_count == alignments.len()
            &&& b.table_rows[0].header
            &&& b.table_rows[0].cells[j].literal == trimmed(row_cells(all[i])[j])
            &&& b.table_rows[0].cells[j].alignment == alignments[j]
            &&& !b.table_rows[1 + k].header
            &&& b.table_rows[1 + k].cells[j].literal == trimmed(row_cells(all[i + 2 + k])[j])
            &&& b.table_rows[1 + k].cells[j].alignment == alignments[j]
        },
{
    reveal(block_at);
    let alignments = alignments_of(all[i + 1])->0;
    lemma_table_rows(all, i + 2, alignments.len(), k);
    let source = table_source(all, i, table_end(all, i + 2, alignments.len()));
    assert(source[0] == (row_cells(all[i]), true));
    assert(source[1 + k] == (row_cells(all[i + 2 + k]), false));
}

proof fn lemma_table_rows(all: Seq<Seq<char>>, i: int, columns: nat, k: int)
    requires
        0 <= i,
        0 <= k,
        i + k < table_end(all, i, columns),
    ensures
        row_cells(all[i + k]).len() == columns,
    decreases k,
{
    if k > 0 {
        lemma_table_rows(all, i + 1, columns, k - 1);
    }
}

/// Paragraphs with a blank line between them are shown one after the other.
pub proof fn lemma_paragraphs_follow_each_other(
    markdown: Seq<char>,
    first: Seq<char>,
    second: Seq<char>,
    reasoning: bool,
)
    requires
        text_lines(markdown) == seq![first, Seq::empty(), second],
        first.len() > 0 && !opens(first[0]),
        second.len() > 0 && !opens(second[0]),
    ensures
        ({
            let blocks = blocks_of(markdown, reasoning);
            &&& blocks.len() == 2
            &&& blocks[0].kind == "paragraph"@ && blocks[0].literal == first
            &&& blocks[1].kind == "paragraph"@ && blocks[1].literal == second
        }),
{
    let all = text_lines(markdown);
    let none = Seq::<char>::empty();
    lemma_plain_line(seq![first], 0);
    lemma_plain_line(all, 2);
    lemma_blank_trimmed(none);
    assert(blank(none));
    assert(trimmed(none) =~= none);
    assert(without_end(without_start(none, '|'), '|') == none);
    assert(row_cells(none) =~= seq![none]);
    assert(alignments_of(none) is None);
    assert(setext_of(none) is None);
    reveal(block_at);
    assert(paragraph_end(all, 0, 1) == 1);
    assert(paragraph_end(all, 0, 0) == 1);
    assert(paragraph_end(all, 2, 3) == 3);
    assert(paragraph_end(all, 2, 2) == 3);
    assert(all.subrange(0, 1) =~= seq![first]);
    assert(all.subrange(2, 3) =~= seq![second]);
    assert(joined(seq![first], "\n"@) == first);
    assert(joined(seq![second], "\n"@) == second);
    let a = block_at(all, 0, reasoning).0->0;
    let b = block_at(all, 2, reasoning).0->0;
    assert(blocks_from(all, 3, reasoning) =~= Seq::empty());
    assert(blocks_from(all, 2, reasoning) =~= seq![b]);
    assert(blocks_from(all, 1, reasoning) =~= seq![b]);
    assert(blocks_from(all, 0, reasoning) =~= seq![a, b]);
}

} // verus!
