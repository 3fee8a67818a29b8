//! Text as sequences of characters: the trimming, splitting, searching and
//! number writing that the rest of the library is stated with.
use vstd::prelude::*;
use vstd::string::*;
use vstd::utf8::encode_utf8_decode_utf8;

verus! {

/// `String::push` appends one character.
pub assume_specification[ String::push ](s: &mut String, c: char)
    ensures
        final(s)@ == old(s)@.push(c),
;

/// The characters of a text.
pub fn chars_of(s: &str) -> (r: Vec<char>)
    ensures
        r@ == s@,
{
    let mut out: Vec<char> = Vec::new();
    for c in it: s.chars()
        invariant
            out@ == it.seq().take(it.index() as int),
            it.seq() == s@,
    {
        out.push(c);
        assert(out@ =~= it.seq().take(it.index() as int + 1));
    }
    assert(out@ =~= s@);
    out
}

/// The text made of the characters `chars[from..to]`.
pub fn string_of_range(chars: &[char], from: usize, to: usize) -> (r: String)
    requires
        from <= to <= chars@.len(),
    ensures
        r@ == chars@.subrange(from as int, to as int),
{
    let mut out = String::new();
    let mut i: usize = from;
    while i < to
        invariant
            from <= i <= to <= chars@.len(),
            out@ == chars@.subrange(from as int, i as int),
        decreases to - i,
    {
        out.push(chars[i]);
        i += 1;
        assert(out@ =~= chars@.subrange(from as int, i as int));
    }
    out
}

/// The text made of `chars`.
pub fn string_of(chars: &[char]) -> (r: String)
    ensures
        r@ == chars@,
{
    let r = string_of_range(chars, 0, chars.len());
    assert(r@ =~= chars@);
    r
}

/// Whether two texts hold the same characters.
pub fn same_text(a: &str, b: &str) -> (r: bool)
    ensures
        r == (a@ == b@),
{
    let x = a.as_bytes();
    let y = b.as_bytes();
    proof {
        encode_utf8_decode_utf8(a@);
        encode_utf8_decode_utf8(b@);
    }
    if x.len() != y.len() {
        return false;
    }
    let mut i: usize = 0;
    while i < x.len()
        invariant
            x@.len() == y@.len(),
            i <= x@.len(),
            forall|j: int| 0 <= j < i ==> x@[j] == y@[j],
            x@ == a.spec_bytes(),
            y@ == b.spec_bytes(),
        decreases x@.len() - i,
    {
        if x[i] != y[i] {
            assert(a.spec_bytes() != b.spec_bytes());
            return false;
        }
        i += 1;
    }
    assert(x@ =~= y@);
    true
}

/// Character by character order, a prefix before what extends it.
pub open spec fn text_less(a: Seq<char>, b: Seq<char>) -> bool
    decreases a.len(),
{
    if b.len() == 0 {
        false
    } else if a.len() == 0 {
        true
    } else if a[0] != b[0] {
        a[0] < b[0]
    } else {
        text_less(a.drop_first(), b.drop_first())
    }
}

/// The White_Space property of Unicode.
pub open spec fn is_space(c: char) -> bool {
    let n = c as u32;
    ||| 0x09 <= n <= 0x0d
    ||| n == 0x20
    ||| n == 0x85
    ||| n == 0xa0
    ||| n == 0x1680
    ||| 0x2000 <= n <= 0x200a
    ||| n == 0x2028
    ||| n == 0x2029
    ||| n == 0x202f
    ||| n == 0x205f
    ||| n == 0x3000
}

/// Whether the character is white space.
pub fn is_whitespace(c: char) -> (r: bool)
    ensures
        r == is_space(c),
{
    let n: u32 = c as u32;
    (0x09 <= n && n <= 0x0d) || n == 0x20 || n == 0x85 || n == 0xa0 || n == 0x1680 || (0x2000 <= n
        && n <= 0x200a) || n == 0x2028 || n == 0x2029 || n == 0x202f || n == 0x205f || n == 0x3000
}

/// The text without leading white space.
pub open spec fn trimmed_start(s: Seq<char>) -> Seq<char>
    decreases s.len(),
{
    if s.len() > 0 && is_space(s[0]) {
        trimmed_start(s.drop_first())
    } else {
        s
    }
}

/// The text without trailing white space.
pub open spec fn trimmed_end(s: Seq<char>) -> Seq<char>
    decreases s.len(),
{
    if s.len() > 0 && is_space(s.last()) {
        trimmed_end(s.drop_last())
    } else {
        s
    }
}

/// The text without white space at either end.
pub open spec fn trimmed(s: Seq<char>) -> Seq<char> {
    trimmed_end(trimmed_start(s))
}

/// Whether nothing but white space is in the text.
pub open spec fn blank(s: Seq<char>) -> bool {
    forall|i: int| 0 <= i < s.len() ==> is_space(#[trigger] s[i])
}

pub proof fn lemma_trimmed_start(s: Seq<char>, k: int)
    requires
        0 <= k <= s.len(),
        forall|j: int| 0 <= j < k ==> is_space(#[trigger] s[j]),
        k < s.len() ==> !is_space(s[k]),
    ensures
        trimmed_start(s) == s.skip(k),
    decreases s.len(),
{
    if k == 0 {
        assert(s.skip(0) =~= s);
    } else {
        assert(is_space(s[0]));
        let t = s.drop_first();
        assert forall|j: int| 0 <= j < k - 1 implies is_space(#[trigger] t[j]) by {
            assert(t[j] == s[j + 1]);
        }
        lemma_trimmed_start(t, k - 1);
        assert(t.skip(k - 1) =~= s.skip(k));
    }
}

pub proof fn lemma_trimmed_end(s: Seq<char>, k: int)
    requires
        0 <= k <= s.len(),
        forall|j: int| k <= j < s.len() ==> is_space(#[trigger] s[j]),
        k > 0 ==> !is_space(s[k - 1]),
    ensures
        trimmed_end(s) == s.take(k),
    decreases s.len(),
{
    if k == s.len() {
        assert(s.take(k) =~= s);
    } else {
        assert(is_space(s[s.len() - 1]));
        let t = s.drop_last();
        assert forall|j: int| k <= j < t.len() implies is_space(#[trigger] t[j]) by {
            assert(t[j] == s[j]);
        }
        lemma_trimmed_end(t, k);
        assert(t.take(k) =~= s.take(k));
    }
}

/// A text is blank when nothing is left of it after trimming.
pub proof fn lemma_blank_trimmed(s: Seq<char>)
    ensures
        blank(s) <==> trimmed(s).len() == 0,
        blank(s) <==> trimmed_start(s).len() == 0,
        trimmed(s).len() > 0 ==> !is_space(trimmed(s)[0]) && !is_space(trimmed(s).last()),
    decreases s.len(),
{
    if s.len() > 0 && is_space(s[0]) {
        lemma_blank_trimmed(s.drop_first());
        assert forall|i: int| blank(s.drop_first()) && 0 <= i < s.len() implies is_space(
            #[trigger] s[i],
        ) by {
            if i > 0 {
                assert(s.drop_first()[i - 1] == s[i]);
            }
        }
        assert forall|i: int| blank(s) && 0 <= i < s.len() - 1 implies is_space(
            #[trigger] s.drop_first()[i],
        ) by {
            assert(s.drop_first()[i] == s[i + 1]);
        }
    } else if s.len() > 0 {
        lemma_trimmed_end_keeps_first(s);
    } else {
    }
}

/// Trimming twice is trimming once.
pub proof fn lemma_trimmed_twice(s: Seq<char>)
    ensures
        trimmed(trimmed(s)) == trimmed(s),
{
    lemma_blank_trimmed(s);
    let t = trimmed(s);
    if t.len() > 0 {
        assert(trimmed_start(t) == t);
        assert(trimmed_end(t) == t);
    }
}

proof fn lemma_trimmed_end_keeps_first(s: Seq<char>)
    requires
        s.len() > 0,
        !is_space(s[0]),
    ensures
        trimmed_end(s).len() > 0,
        trimmed_end(s)[0] == s[0],
        !is_space(trimmed_end(s).last()),
    decreases s.len(),
{
    if is_space(s.last()) {
        assert(s.len() > 1);
        lemma_trimmed_end_keeps_first(s.drop_last());
    }
}

/// The index of the first character that is no white space, or the length.
pub fn leading_space(chars: &[char]) -> (k: usize)
    ensures
        k <= chars@.len(),
        forall|j: int| 0 <= j < k ==> is_space(#[trigger] chars@[j]),
        k < chars@.len() ==> !is_space(chars@[k as int]),
        trimmed_start(chars@) == chars@.skip(k as int),
{
    let mut k: usize = 0;
    while k < chars.len() && is_whitespace(chars[k])
        invariant
            k <= chars@.len(),
            forall|j: int| 0 <= j < k ==> is_space(#[trigger] chars@[j]),
        decreases chars@.len() - k,
    {
        k += 1;
    }
    proof {
        lemma_trimmed_start(chars@, k as int);
    }
    k
}

/// The end of the text before its trailing white space, not before `from`.
fn trailing_end(chars: &[char], from: usize) -> (k: usize)
    requires
        from <= chars@.len(),
    ensures
        from <= k <= chars@.len(),
        trimmed_end(chars@.skip(from as int)) == chars@.subrange(from as int, k as int),
{
    let mut k: usize = chars.len();
    while k > from && is_whitespace(chars[k - 1])
        invariant
            from <= k <= chars@.len(),
            forall|j: int| k <= j < chars@.len() ==> is_space(#[trigger] chars@[j]),
        decreases k,
    {
        k -= 1;
    }
    proof {
        let t = chars@.skip(from as int);
        assert forall|j: int| k - from <= j < t.len() implies is_space(#[trigger] t[j]) by {
            assert(t[j] == chars@[from + j]);
        }
        lemma_trimmed_end(t, k - from);
        assert(t.take(k - from) =~= chars@.subrange(from as int, k as int));
    }
    k
}

pub fn trim(s: &str) -> (r: String)
    ensures
        r@ == trimmed(s@),
{
    let chars = chars_of(s);
    let from = leading_space(&chars);
    let to = trailing_end(&chars, from);
    string_of_range(&chars, from, to)
}

pub fn trim_end(s: &str) -> (r: String)
    ensures
        r@ == trimmed_end(s@),
{
    let chars = chars_of(s);
    let to = trailing_end(&chars, 0);
    assert(s@.skip(0) =~= s@);
    string_of_range(&chars, 0, to)
}

/// Whether nothing but white space is in the text.
pub fn is_blank(s: &str) -> (r: bool)
    ensures
        r == blank(s@),
        r == (trimmed(s@).len() == 0),
{
    let chars = chars_of(s);
    let k = leading_space(&chars);
    proof {
        lemma_blank_trimmed(s@);
    }
    k == chars.len()
}

/// Where the character first occurs, or the length.
pub open spec fn first_char(s: Seq<char>, c: char) -> int
    decreases s.len(),
{
    if s.len() == 0 {
        0
    } else if s[0] == c {
        0
    } else {
        1 + first_char(s.drop_first(), c)
    }
}

pub proof fn lemma_first_char(s: Seq<char>, c: char)
    ensures
        0 <= first_char(s, c) <= s.len(),
        first_char(s, c) < s.len() ==> s[first_char(s, c)] == c,
        forall|j: int| 0 <= j < first_char(s, c) ==> s[j] != c,
    decreases s.len(),
{
    if s.len() > 0 && s[0] != c {
        lemma_first_char(s.drop_first(), c);
        assert forall|j: int| 0 <= j < first_char(s, c) implies s[j] != c by {
            if j > 0 {
                assert(s.drop_first()[j - 1] == s[j]);
            }
        }
    }
}

pub proof fn lemma_first_char_is(s: Seq<char>, c: char, n: int)
    requires
        0 <= n <= s.len(),
        n < s.len() ==> s[n] == c,
        forall|j: int| 0 <= j < n ==> s[j] != c,
    ensures
        first_char(s, c) == n,
{
    lemma_first_char(s, c);
}

/// The pieces of the text between occurrences of a character.
pub open spec fn pieces(s: Seq<char>, c: char) -> Seq<Seq<char>>
    decreases s.len(),
{
    let n = first_char(s, c);
    if 0 <= n < s.len() {
        seq![s.take(n)] + pieces(s.skip(n + 1), c)
    } else {
        seq![s]
    }
}

/// A text with a separator in it falls into the pieces before the separator and
/// those behind it.
pub proof fn lemma_pieces_around(a: Seq<char>, c: char, b: Seq<char>)
    ensures
        pieces(a.push(c) + b, c) == pieces(a, c) + pieces(b, c),
    decreases a.len(),
{
    let s = a.push(c) + b;
    lemma_first_char(a, c);
    let n = first_char(a, c);
    assert forall|j: int| 0 <= j < n implies s[j] != c by {
        assert(s[j] == a[j]);
    }
    assert(s[n] == c);
    lemma_first_char_is(s, c, n);
    assert(s.take(n) =~= a.take(n));
    if n < a.len() {
        let rest = a.skip(n + 1);
        lemma_pieces_around(rest, c, b);
        assert(s.skip(n + 1) =~= rest.push(c) + b);
        assert(seq![a.take(n)] + (pieces(rest, c) + pieces(b, c)) =~= pieces(a, c) + pieces(b, c));
    } else {
        assert(s.skip(n + 1) =~= b);
        assert(a.take(n) =~= a);
    }
}

/// A text without the separator is one piece.
pub proof fn lemma_single_piece(s: Seq<char>, c: char)
    requires
        forall|i: int| 0 <= i < s.len() ==> (#[trigger] s[i]) != c,
    ensures
        pieces(s, c) == seq![s],
{
    lemma_first_char_is(s, c, s.len() as int);
}

/// Names that are joined by a separator none of them holds are its pieces.
pub proof fn lemma_joined_pieces(names: Seq<Seq<char>>, c: char)
    requires
        names.len() > 0,
        forall|i: int, j: int|
            0 <= i < names.len() && 0 <= j < names[i].len() ==> (#[trigger] names[i][j]) != c,
    ensures
        pieces(joined(names, seq![c]), c) == names,
    decreases names.len(),
{
    let last = names.last();
    assert forall|i: int| 0 <= i < last.len() implies (#[trigger] last[i]) != c by {
        assert(names[names.len() - 1][i] != c);
    }
    lemma_single_piece(last, c);
    if names.len() > 1 {
        let front = names.drop_last();
        assert forall|i: int, j: int| 0 <= i < front.len() && 0 <= j < front[i].len() implies (
        #[trigger] front[i][j]) != c by {
            assert(names[i][j] != c);
        }
        lemma_joined_pieces(front, c);
        let before = joined(front, seq![c]);
        lemma_pieces_around(before, c, last);
        assert(before.push(c) + last =~= joined(names, seq![c]));
        assert(front + seq![last] =~= names);
    } else {
        assert(seq![last] =~= names);
    }
}

pub fn split(s: &str, c: char) -> (r: Vec<String>)
    ensures
        r.deep_view() == pieces(s@, c),
        r@.len() > 0,
{
    let chars = chars_of(s);
    let mut out: Vec<String> = Vec::new();
    let mut start: usize = 0;
    let mut i: usize = 0;
    proof {
        assert(s@.skip(0) =~= s@);
        assert(out.deep_view() + pieces(s@, c) =~= pieces(s@, c));
    }
    while i < chars.len()
        invariant
            start <= i <= chars@.len(),
            chars@ == s@,
            forall|j: int| start <= j < i ==> s@[j] != c,
            pieces(s@, c) == out.deep_view() + pieces(s@.skip(start as int), c),
        decreases chars@.len() - i,
    {
        if chars[i] == c {
            let ghost before = out.deep_view();
            out.push(string_of_range(&chars, start, i));
            proof {
                let t = s@.skip(start as int);
                lemma_first_char_is(t, c, i - start);
                assert(t.take(i - start) =~= s@.subrange(start as int, i as int));
                assert(t.skip(i - start + 1) =~= s@.skip(i as int + 1));
                assert(out.deep_view() =~= before.push(t.take(i - start)));
                assert(before + (seq![t.take(i - start)] + pieces(s@.skip(i as int + 1), c))
                    =~= out.deep_view() + pieces(s@.skip(i as int + 1), c));
            }
            start = i + 1;
        }
        i += 1;
    }
    let ghost before = out.deep_view();
    out.push(string_of_range(&chars, start, chars.len()));
    proof {
        let t = s@.skip(start as int);
        lemma_first_char_is(t, c, t.len() as int);
        assert(t =~= s@.subrange(start as int, s@.len() as int));
        assert(out.deep_view() =~= before + seq![t]);
    }
    out
}

/// A line without the carriage return that ends it.
pub open spec fn without_return(s: Seq<char>) -> Seq<char> {
    if s.len() > 0 && s.last() == '\r' {
        s.drop_last()
    } else {
        s
    }
}

/// The lines of a text: each ends at a line feed, which with a carriage return
/// before it is not part of the line; nothing follows a final line feed.
pub open spec fn text_lines(s: Seq<char>) -> Seq<Seq<char>>
    decreases s.len(),
{
    if s.len() == 0 {
        Seq::empty()
    } else {
        let n = first_char(s, '\n');
        if 0 <= n < s.len() {
            seq![without_return(s.take(n))] + text_lines(s.skip(n + 1))
        } else {
            seq![s]
        }
    }
}

pub fn lines(s: &str) -> (r: Vec<String>)
    ensures
        r.deep_view() == text_lines(s@),
{
    let chars = chars_of(s);
    let mut out: Vec<String> = Vec::new();
    let mut start: usize = 0;
    let mut i: usize = 0;
    proof {
        assert(s@.skip(0) =~= s@);
        assert(out.deep_view() + text_lines(s@) =~= text_lines(s@));
    }
    while i < chars.len()
        invariant
            start <= i <= chars@.len(),
            chars@ == s@,
            forall|j: int| start <= j < i ==> s@[j] != '\n',
            text_lines(s@) == out.deep_view() + text_lines(s@.skip(start as int)),
        decreases chars@.len() - i,
    {
        if chars[i] == '\n' {
            let ghost before = out.deep_view();
            let end: usize = if i > start && chars[i - 1] == '\r' {
                i - 1
            } else {
                i
            };
            out.push(string_of_range(&chars, start, end));
            proof {
                let t = s@.skip(start as int);
                lemma_first_char_is(t, '\n', i - start);
                assert(t.take(i - start) =~= s@.subrange(start as int, i as int));
                assert(without_return(t.take(i - start)) =~= s@.subrange(start as int, end as int));
                assert(t.skip(i - start + 1) =~= s@.skip(i as int + 1));
                let line = without_return(t.take(i - start));
                assert(out.deep_view() =~= before.push(line));
                assert(before + (seq![line] + text_lines(s@.skip(i as int + 1)))
                    =~= out.deep_view() + text_lines(s@.skip(i as int + 1)));
            }
            start = i + 1;
        }
        i += 1;
    }
    if start < chars.len() {
        let ghost before = out.deep_view();
        out.push(string_of_range(&chars, start, chars.len()));
        proof {
            let t = s@.skip(start as int);
            lemma_first_char_is(t, '\n', t.len() as int);
            assert(t =~= s@.subrange(start as int, s@.len() as int));
            assert(out.deep_view() =~= before + seq![t]);
        }
    } else {
        assert(s@.skip(start as int).len() == 0);
        assert(out.deep_view() =~= text_lines(s@));
    }
    out
}

/// The parts one after another, `sep` between each two.
pub open spec fn joined(parts: Seq<Seq<char>>, sep: Seq<char>) -> Seq<char>
    decreases parts.len(),
{
    if parts.len() == 0 {
        Seq::empty()
    } else if parts.len() == 1 {
        parts[0]
    } else {
        joined(parts.drop_last(), sep) + sep + parts.last()
    }
}

pub fn join(parts: &Vec<String>, sep: &str) -> (r: String)
    ensures
        r@ == joined(parts.deep_view(), sep@),
{
    let mut out = String::new();
    let mut i: usize = 0;
    let ghost all = parts.deep_view();
    while i < parts.len()
        invariant
            i <= parts@.len(),
            all == parts.deep_view(),
            out@ == joined(all.take(i as int), sep@),
        decreases parts@.len() - i,
    {
        proof {
            let t = all.take(i as int + 1);
            assert(t.drop_last() =~= all.take(i as int));
            assert(t.last() == parts@[i as int]@);
        }
        if i > 0 {
            out.append(sep);
        }
        out.append(parts[i].as_str());
        proof {
            if i == 0 {
                assert(out@ =~= parts@[0]@);
            }
        }
        i += 1;
    }
    assert(all.take(i as int) =~= all);
    out
}

/// The two texts in one.
pub fn cat(a: &str, b: &str) -> (r: String)
    ensures
        r@ == a@ + b@,
{
    let mut r = a.to_owned();
    r.append(b);
    r
}

/// The three texts in one.
pub fn cat3(a: &str, b: &str, c: &str) -> (r: String)
    ensures
        r@ == a@ + b@ + c@,
{
    let mut r = a.to_owned();
    r.append(b);
    r.append(c);
    r
}

/// Whether the text starts with `p`.
pub open spec fn begins(s: Seq<char>, p: Seq<char>) -> bool {
    p.len() <= s.len() && s.take(p.len() as int) == p
}

/// Whether the text ends with `p`.
pub open spec fn ends(s: Seq<char>, p: Seq<char>) -> bool {
    p.len() <= s.len() && s.skip(s.len() - p.len()) == p
}

/// Whether `p` stands in the text.
pub open spec fn has_text(s: Seq<char>, p: Seq<char>) -> bool {
    exists|i: int| 0 <= i <= s.len() && #[trigger] begins(s.skip(i), p)
}

/// What stands in a text stands in every text round it.
pub proof fn lemma_has_text_within(a: Seq<char>, s: Seq<char>, b: Seq<char>, p: Seq<char>)
    requires
        has_text(s, p),
    ensures
        has_text(a + s + b, p),
{
    let i = choose|i: int| 0 <= i <= s.len() && #[trigger] begins(s.skip(i), p);
    let whole = a + s + b;
    assert(whole.skip(a.len() + i).take(p.len() as int) =~= s.skip(i).take(p.len() as int));
    assert(begins(whole.skip(a.len() + i), p));
}

/// A text stands in itself.
pub proof fn lemma_has_itself(s: Seq<char>)
    ensures
        has_text(s, s),
{
    assert(s.skip(0).take(s.len() as int) =~= s);
    assert(begins(s.skip(0), s));
}

/// Every part stands in the parts that are joined.
pub proof fn lemma_joined_has_part(parts: Seq<Seq<char>>, sep: Seq<char>, i: int)
    requires
        0 <= i < parts.len(),
    ensures
        has_text(joined(parts, sep), parts[i]),
    decreases parts.len(),
{
    lemma_has_itself(parts[i]);
    if parts.len() > 1 {
        let before = joined(parts.drop_last(), sep);
        if i == parts.len() - 1 {
            lemma_has_text_within(before + sep, parts[i], Seq::empty(), parts[i]);
            assert(before + sep + parts[i] + Seq::empty() =~= joined(parts, sep));
        } else {
            lemma_joined_has_part(parts.drop_last(), sep, i);
            lemma_has_text_within(Seq::empty(), before, sep + parts.last(), parts[i]);
            assert(Seq::empty() + before + (sep + parts.last()) =~= joined(parts, sep));
        }
    }
}

/// Whether `p` stands at `at` in the characters.
pub fn stands_at(chars: &[char], at: usize, p: &[char]) -> (r: bool)
    requires
        at <= chars@.len(),
    ensures
        r == begins(chars@.skip(at as int), p@),
{
    let n: usize = chars.len();
    if n - at < p.len() {
        return false;
    }
    let ghost t = chars@.skip(at as int);
    let mut i: usize = 0;
    while i < p.len()
        invariant
            i <= p@.len(),
            at + p@.len() <= n,
            n == chars@.len(),
            t == chars@.skip(at as int),
            forall|j: int| 0 <= j < i ==> t[j] == p@[j],
        decreases p@.len() - i,
    {
        if chars[at + i] != p[i] {
            assert(t.take(p@.len() as int)[i as int] == chars@[at + i]);
            return false;
        }
        assert(t[i as int] == chars@[at + i]);
        i += 1;
    }
    assert(t.take(p@.len() as int) =~= p@);
    true
}

pub fn starts_with(s: &str, p: &str) -> (r: bool)
    ensures
        r == begins(s@, p@),
{
    let chars = chars_of(s);
    let pattern = chars_of(p);
    assert(s@.skip(0) =~= s@);
    stands_at(&chars, 0, &pattern)
}

pub fn ends_with(s: &str, p: &str) -> (r: bool)
    ensures
        r == ends(s@, p@),
{
    let chars = chars_of(s);
    let pattern = chars_of(p);
    if pattern.len() > chars.len() {
        return false;
    }
    let at: usize = chars.len() - pattern.len();
    let r = stands_at(&chars, at, &pattern);
    assert(s@.skip(at as int).take(p@.len() as int) =~= s@.skip(at as int));
    r
}

/// The rest of a text after a prefix, when it starts with it.
pub open spec fn after_prefix(s: Seq<char>, p: Seq<char>) -> Option<Seq<char>> {
    if begins(s, p) {
        Some(s.skip(p.len() as int))
    } else {
        None
    }
}

pub fn strip_prefix(s: &str, p: &str) -> (r: Option<String>)
    ensures
        r.deep_view() == after_prefix(s@, p@),
{
    let chars = chars_of(s);
    let pattern = chars_of(p);
    assert(s@.skip(0) =~= s@);
    if stands_at(&chars, 0, &pattern) {
        let r = string_of_range(&chars, pattern.len(), chars.len());
        assert(r@ =~= s@.skip(p@.len() as int));
        Some(r)
    } else {
        None
    }
}

pub fn contains(s: &str, p: &str) -> (r: bool)
    ensures
        r == has_text(s@, p@),
{
    let chars = chars_of(s);
    let pattern = chars_of(p);
    let mut i: usize = 0;
    while i <= chars.len()
        invariant
            i <= chars@.len() + 1,
            chars@ == s@,
            pattern@ == p@,
            forall|j: int| 0 <= j < i ==> !begins(#[trigger] s@.skip(j), p@),
        decreases chars@.len() + 1 - i,
    {
        if stands_at(&chars, i, &pattern) {
            return true;
        }
        if i == chars.len() {
            return false;
        }
        i += 1;
    }
    false
}

/// The text with every occurrence of `p`, from the left, replaced.
pub open spec fn replaced(s: Seq<char>, p: Seq<char>, with: Seq<char>) -> Seq<char>
    decreases s.len(),
{
    if s.len() == 0 || p.len() == 0 {
        s
    } else if begins(s, p) {
        with + replaced(s.skip(p.len() as int), p, with)
    } else {
        seq![s[0]] + replaced(s.drop_first(), p, with)
    }
}

pub fn replace(s: &str, p: &str, with: &str) -> (r: String)
    requires
        p@.len() > 0,
    ensures
        r@ == replaced(s@, p@, with@),
{
    let chars = chars_of(s);
    let pattern = chars_of(p);
    let mut out = String::new();
    let mut i: usize = 0;
    proof {
        assert(s@.skip(0) =~= s@);
        assert(out@ + replaced(s@, p@, with@) =~= replaced(s@, p@, with@));
    }
    while i < chars.len()
        invariant
            i <= chars@.len(),
            chars@ == s@,
            pattern@ == p@,
            p@.len() > 0,
            replaced(s@, p@, with@) == out@ + replaced(s@.skip(i as int), p@, with@),
        decreases chars@.len() - i,
    {
        let ghost t = s@.skip(i as int);
        let ghost before = out@;
        if stands_at(&chars, i, &pattern) {
            out.append(with);
            proof {
                assert(t.skip(p@.len() as int) =~= s@.skip(i + p@.len()));
                assert(before + (with@ + replaced(t.skip(p@.len() as int), p@, with@)) =~= out@
                    + replaced(s@.skip(i + p@.len()), p@, with@));
            }
            i += pattern.len();
        } else {
            out.push(chars[i]);
            proof {
                assert(t.drop_first() =~= s@.skip(i + 1));
                assert(before + (seq![t[0]] + replaced(t.drop_first(), p@, with@)) =~= out@
                    + replaced(s@.skip(i + 1), p@, with@));
            }
            i += 1;
        }
    }
    assert(s@.skip(i as int).len() == 0);
    assert(out@ + replaced(s@.skip(i as int), p@, with@) =~= out@);
    out
}

/// The ASCII capital letters made small.
pub open spec fn lower_char(c: char) -> char {
    if 'A' <= c && c <= 'Z' {
        (c as u32 + 32) as u8 as char
    } else {
        c
    }
}

pub open spec fn lower_text(s: Seq<char>) -> Seq<char> {
    Seq::new(s.len(), |i: int| lower_char(s[i]))
}

pub fn to_ascii_lowercase(s: &str) -> (r: String)
    ensures
        r@ == lower_text(s@),
{
    let chars = chars_of(s);
    let mut out = String::new();
    let mut i: usize = 0;
    while i < chars.len()
        invariant
            i <= chars@.len(),
            chars@ == s@,
            out@ == lower_text(s@).take(i as int),
        decreases chars@.len() - i,
    {
        let c = chars[i];
        let small = if 'A' <= c && c <= 'Z' {
            ((c as u32 + 32) as u8) as char
        } else {
            c
        };
        out.push(small);
        i += 1;
        assert(out@ =~= lower_text(s@).take(i as int));
    }
    assert(lower_text(s@).take(i as int) =~= lower_text(s@));
    out
}

/// The character of a decimal digit.
pub open spec fn digit_char(d: int) -> char {
    if d == 0 {
        '0'
    } else if d == 1 {
        '1'
    } else if d == 2 {
        '2'
    } else if d == 3 {
        '3'
    } else if d == 4 {
        '4'
    } else if d == 5 {
        '5'
    } else if d == 6 {
        '6'
    } else if d == 7 {
        '7'
    } else if d == 8 {
        '8'
    } else {
        '9'
    }
}

/// A number in decimal notation.
pub open spec fn decimal(n: nat) -> Seq<char>
    decreases n,
{
    if n < 10 {
        seq![digit_char(n as int)]
    } else {
        decimal(n / 10).push(digit_char((n % 10) as int))
    }
}

/// The number that a text of decimal digits stands for.
pub open spec fn digits_value(s: Seq<char>) -> nat
    decreases s.len(),
{
    if s.len() == 0 {
        0
    } else {
        10 * digits_value(s.drop_last()) + (s.last() as nat - '0' as nat) as nat
    }
}

/// A number in decimal notation reads back as that number, in digits of which
/// the first is no zero unless it is the only one.
pub proof fn lemma_decimal_reads_back(n: nat)
    ensures
        digits_value(decimal(n)) == n,
        decimal(n).len() > 0,
        forall|i: int| 0 <= i < decimal(n).len() ==> '0' <= #[trigger] decimal(n)[i] <= '9',
        n > 0 ==> decimal(n)[0] != '0',
    decreases n,
{
    if n < 10 {
        let s = decimal(n);
        assert(s.drop_last() =~= Seq::empty());
        assert(digits_value(s.drop_last()) == 0);
    } else {
        lemma_decimal_reads_back(n / 10);
        let before = decimal(n / 10);
        assert(decimal(n).drop_last() =~= before);
        assert(n == 10 * (n / 10) + n % 10);
    }
}

fn digit(d: u128) -> (r: char)
    requires
        d < 10,
    ensures
        r == digit_char(d as int),
{
    match d {
        0 => '0',
        1 => '1',
        2 => '2',
        3 => '3',
        4 => '4',
        5 => '5',
        6 => '6',
        7 => '7',
        8 => '8',
        _ => '9',
    }
}

/// Writes a number in decimal notation.
pub fn decimal_text(n: u128) -> (r: String)
    ensures
        r@ == decimal(n as nat),
    decreases n,
{
    if n < 10 {
        let mut r = String::new();
        r.push(digit(n));
        assert(r@ =~= decimal(n as nat));
        r
    } else {
        let mut r = decimal_text(n / 10);
        r.push(digit(n % 10));
        r
    }
}

/// A signed number in decimal notation.
pub open spec fn signed_decimal(n: int) -> Seq<char> {
    if n < 0 {
        seq!['-'] + decimal((-n) as nat)
    } else {
        decimal(n as nat)
    }
}

pub fn signed_decimal_text(n: i64) -> (r: String)
    ensures
        r@ == signed_decimal(n as int),
{
    if n < 0 {
        let mut r = String::new();
        r.push('-');
        let rest = decimal_text((-(n as i128)) as u128);
        r.append(rest.as_str());
        assert(r@ =~= signed_decimal(n as int));
        r
    } else {
        decimal_text(n as u128)
    }
}

} // verus!
