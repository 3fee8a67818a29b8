//! Short texts for people: cut texts and paths, readable names, counts.
use crate::case::{is_upper, is_uppercase, to_uppercase, upper_form};
use crate::model::{ConversationItem, ConversationItemView, ItemKind, ModelOption, ModelOptionView};
use crate::table::{first_where, lemma_first_where_is, lemma_first_where_none};
use crate::text::{
    cat, cat3, chars_of, contains, decimal, decimal_text, has_text, same_text, string_of_range,
};
use vstd::prelude::*;
use vstd::string::*;

verus! {

/// A text of more than `max` characters keeps the first `max` and an ellipsis.
pub open spec fn truncated(text: Seq<char>, max: nat) -> Seq<char> {
    if text.len() <= max {
        text
    } else {
        text.take(max as int) + "…"@
    }
}

pub fn truncate_text(text: &str, max_chars: usize) -> (r: String)
    ensures
        r@ == truncated(text@, max_chars as nat),
{
    let chars = chars_of(text);
    if chars.len() <= max_chars {
        return text.to_owned();
    }
    let kept = string_of_range(&chars, 0, max_chars);
    assert(kept@ =~= text@.take(max_chars as int));
    cat(kept.as_str(), "…")
}

/// A path of more than `max` characters keeps its end, so that with an
/// ellipsis before it there are `max`.
pub open spec fn shortened(path: Seq<char>, max: nat) -> Seq<char> {
    if path.len() <= max {
        path
    } else {
        let keep = if max == 0 {
            0
        } else {
            max - 1
        };
        "…"@ + path.skip(path.len() - keep)
    }
}

pub fn short_path(path: &str, max_chars: usize) -> (r: String)
    ensures
        r@ == shortened(path@, max_chars as nat),
{
    let chars = chars_of(path);
    if chars.len() <= max_chars {
        return path.to_owned();
    }
    let keep: usize = if max_chars == 0 {
        0
    } else {
        max_chars - 1
    };
    let tail = string_of_range(&chars, chars.len() - keep, chars.len());
    assert(tail@ =~= path@.skip(path@.len() - keep));
    cat("…", tail.as_str())
}

/// Cut texts are at most one character longer than asked for and start as the
/// text does; cut paths are no longer than asked for and end as the path does.
pub proof fn lemma_cut_lengths(text: Seq<char>, max: nat)
    ensures
        truncated(text, max).len() <= max + 1,
        forall|i: int|
            0 <= i < max && i < text.len() ==> #[trigger] truncated(text, max)[i] == text[i],
        text.len() <= max ==> truncated(text, max) == text && shortened(text, max) == text,
        max > 0 ==> shortened(text, max).len() <= max,
        max > 0 ==> forall|k: int|
            0 < k < max && k <= text.len() ==> shortened(text, max)[shortened(text, max).len() - k]
                == #[trigger] text[text.len() - k],
{
    reveal_strlit("…");
}

/// A name in words: a capital inside it starts a word, the first character is
/// capitalised, underscores and hyphens are blanks.
pub open spec fn words_of(value: Seq<char>) -> Seq<char>
    decreases value.len(),
{
    if value.len() == 0 {
        Seq::empty()
    } else {
        let before = words_of(value.drop_last());
        let c = value.last();
        if value.len() == 1 {
            blanks(upper_form(c))
        } else if is_upper(c) {
            before + " "@ + blanks(seq![c])
        } else {
            before + blanks(seq![c])
        }
    }
}

/// The text with underscores and hyphens as blanks.
pub open spec fn blanks(s: Seq<char>) -> Seq<char> {
    Seq::new(
        s.len(),
        |i: int|
            if s[i] == '_' || s[i] == '-' {
                ' '
            } else {
                s[i]
            },
    )
}

fn push_blanked(out: &mut String, c: char)
    ensures
        final(out)@ == old(out)@ + blanks(seq![c]),
{
    if c == '_' || c == '-' {
        out.push(' ');
    } else {
        out.push(c);
    }
    assert(out@ =~= old(out)@ + blanks(seq![c]));
}

pub fn humanize(value: &str) -> (r: String)
    ensures
        r@ == words_of(value@),
{
    let chars = chars_of(value);
    let mut out = String::new();
    let mut i: usize = 0;
    while i < chars.len()
        invariant
            i <= chars@.len(),
            chars@ == value@,
            out@ == words_of(value@.take(i as int)),
        decreases chars@.len() - i,
    {
        let c = chars[i];
        proof {
            assert(value@.take(i as int + 1).drop_last() =~= value@.take(i as int));
            assert(value@.take(i as int + 1).last() == c);
        }
        if i == 0 {
            let first = chars_of(to_uppercase(c).as_str());
            let mut k: usize = 0;
            assert(out@ =~= blanks(first@.take(0)));
            while k < first.len()
                invariant
                    k <= first@.len(),
                    first@ == upper_form(c),
                    out@ == blanks(first@.take(k as int)),
                decreases first@.len() - k,
            {
                push_blanked(&mut out, first[k]);
                k += 1;
                assert(out@ =~= blanks(first@.take(k as int)));
            }
            assert(first@.take(k as int) =~= first@);
        } else {
            if is_uppercase(c) {
                out.append(" ");
            }
            push_blanked(&mut out, c);
        }
        i += 1;
    }
    assert(value@.take(i as int) =~= value@);
    out
}

/// A quotient rounded to the nearest integer, halves to the even one.
pub open spec fn rounded_half_even(n: nat, d: nat) -> nat {
    let q = n / d;
    let r = n % d;
    if 2 * r < d || (2 * r == d && q % 2 == 0) {
        q
    } else {
        q + 1
    }
}

/// The number of values of a binary64 significand.
pub open spec fn significands() -> nat {
    0x20_0000_0000_0000
}

/// The least doubling of `unit` that leaves less than `significands()` of `n`.
pub open spec fn coarse_unit(n: nat, unit: nat) -> nat
    decreases n / unit via coarse_unit_decreases
{
    if unit == 0 || n / unit < significands() {
        unit
    } else {
        coarse_unit(n, 2 * unit)
    }
}

#[via_fn]
proof fn coarse_unit_decreases(n: nat, unit: nat) {
    if unit > 0 && n / unit >= significands() {
        assert(n / (2 * unit) < n / unit) by (nonlinear_arith)
            requires
                unit > 0,
                n / unit >= 1,
        ;
    }
}

/// The binary64 number nearest to an integer.
pub open spec fn as_binary64(n: nat) -> nat {
    let unit = coarse_unit(n, 1);
    rounded_half_even(n, unit) * unit
}

/// The numerator and the unit after as many doublings of both as keep the
/// quotient by `d` below `significands()`.
pub open spec fn scaled(n: nat, unit: nat, d: nat) -> (nat, nat)
    decreases significands() * d - n via scaled_decreases
{
    if n == 0 || d == 0 || (2 * n) / d >= significands() {
        (n, unit)
    } else {
        scaled(2 * n, 2 * unit, d)
    }
}

#[via_fn]
proof fn scaled_decreases(n: nat, unit: nat, d: nat) {
    if !(n == 0 || d == 0 || (2 * n) / d >= significands()) {
        assert(2 * n < significands() * d) by (nonlinear_arith)
            requires
                d > 0,
                (2 * n) / d < significands(),
        ;
    }
}

/// The binary64 quotient of an integer by `d`, in tenths, halves to even.
pub open spec fn binary64_tenths(n: nat, d: nat) -> nat {
    let (numerator, unit) = scaled(as_binary64(n), 1, d);
    rounded_half_even(10 * rounded_half_even(numerator, d), unit)
}

/// A number of tenths with one decimal.
pub open spec fn with_one_decimal(tenths: nat) -> Seq<char> {
    decimal(tenths / 10) + "."@ + decimal(tenths % 10)
}

/// A count of tokens: in millions or thousands with one decimal, or as it is.
pub open spec fn token_count(tokens: nat) -> Seq<char> {
    if tokens >= 1_000_000 {
        with_one_decimal(binary64_tenths(tokens, 1_000_000)) + "M"@
    } else if tokens >= 1_000 {
        with_one_decimal(binary64_tenths(tokens, 1_000)) + "K"@
    } else {
        decimal(tokens)
    }
}

fn round_half_even(n: u128, d: u128) -> (r: u128)
    requires
        0 < d <= 0x1_0000_0000_0000_0000_0000,
        n < 0x1_0000_0000_0000_0000_0000_0000,
    ensures
        r == rounded_half_even(n as nat, d as nat),
        r <= n / d + 1,
{
    let q: u128 = n / d;
    let rest: u128 = n % d;
    if 2 * rest < d || (2 * rest == d && q % 2 == 0) {
        q
    } else {
        q + 1
    }
}

fn nearest_binary64(n: u64) -> (r: u128)
    ensures
        r == as_binary64(n as nat),
        n > 0 ==> 0 < r <= 0x2_0000_0000_0000_0000,
{
    let n: u128 = n as u128;
    let mut unit: u128 = 1;
    while n / unit >= 0x20_0000_0000_0000
        invariant
            1 <= unit <= 4096,
            n <= 0xffff_ffff_ffff_ffff,
            unit > 1 ==> n >= 0x10_0000_0000_0000 * unit,
            coarse_unit(n as nat, 1) == coarse_unit(n as nat, unit as nat),
        decreases 4096 - unit,
    {
        assert(n >= 0x20_0000_0000_0000 * unit) by (nonlinear_arith)
            requires
                n / unit >= 0x20_0000_0000_0000,
                unit >= 1,
        ;
        assert(unit <= 2047);
        unit = unit * 2;
    }
    let r: u128 = round_half_even(n, unit);
    proof {
        if unit > 1 {
            assert(n / unit >= 0x10_0000_0000_0000) by (nonlinear_arith)
                requires
                    n >= 0x10_0000_0000_0000 * unit,
                    unit > 1,
            ;
        } else {
            assert(n / 1 == n);
        }
        assert(r <= 0x20_0000_0000_0000);
        assert(r * unit <= 0x20_0000_0000_0000 * 4096) by (nonlinear_arith)
            requires
                r <= 0x20_0000_0000_0000,
                1 <= unit <= 4096,
        ;
        assert(n > 0 ==> r * unit > 0) by (nonlinear_arith)
            requires
                n > 0 ==> r > 0,
                unit >= 1,
        ;
    }
    r * unit
}

/// The binary64 quotient in tenths.
fn quotient_tenths(n: u64, d: u128) -> (r: u128)
    requires
        d == 1_000 || d == 1_000_000,
        n >= d,
    ensures
        r == binary64_tenths(n as nat, d as nat),
{
    let start: u128 = nearest_binary64(n);
    let mut numerator: u128 = start;
    let mut unit: u128 = 1;
    while 2 * numerator / d < 0x20_0000_0000_0000
        invariant
            d == 1_000 || d == 1_000_000,
            0 < start <= numerator,
            numerator <= 0x2_0000_0000_0000_0000 || numerator < 0x20_0000_0000_0000 * d,
            numerator == start * unit,
            unit >= 1,
            unit <= numerator,
            scaled(start as nat, 1, d as nat) == scaled(numerator as nat, unit as nat, d as nat),
        decreases 0x20_0000_0000_0000 * d - numerator,
    {
        assert(2 * numerator < 0x20_0000_0000_0000 * d) by (nonlinear_arith)
            requires
                d > 0,
                (2 * numerator) / (d as int) < 0x20_0000_0000_0000,
        ;
        assert(2 * (start * unit) == start * (2 * unit)) by (nonlinear_arith);
        numerator = 2 * numerator;
        unit = 2 * unit;
    }
    let q: u128 = round_half_even(numerator, d);
    round_half_even(10 * q, unit)
}

pub fn format_token_count(tokens: u64) -> (r: String)
    ensures
        r@ == token_count(tokens as nat),
{
    if tokens < 1_000 {
        return decimal_text(tokens as u128);
    }
    let (tenths, suffix): (u128, &str) = if tokens >= 1_000_000 {
        (quotient_tenths(tokens, 1_000_000), "M")
    } else {
        (quotient_tenths(tokens, 1_000), "K")
    };
    let mut out = decimal_text(tenths / 10);
    out.append(".");
    out.append(decimal_text(tenths % 10).as_str());
    out.append(suffix);
    out
}

/// Models with an id.
pub open spec fn model_named(id: Seq<char>) -> spec_fn(ModelOptionView) -> bool {
    |m: ModelOptionView| m.id == id
}

/// The first model with an id.
pub open spec fn model_at(models: Seq<ModelOptionView>, id: Seq<char>) -> Option<int> {
    first_where(models, model_named(id))
}

pub fn find_model(models: &Vec<ModelOption>, id: &str) -> (r: Option<usize>)
    ensures
        match r {
            Some(i) => i < models@.len() && model_at(models.deep_view(), id@) == Some(i as int),
            None => model_at(models.deep_view(), id@) is None,
        },
{
    let ghost all = models.deep_view();
    let mut i: usize = 0;
    while i < models.len()
        invariant
            i <= models@.len(),
            all == models.deep_view(),
            forall|j: int| 0 <= j < i ==> !model_named(id@)(#[trigger] all[j]),
        decreases models@.len() - i,
    {
        assert(all[i as int] == models@[i as int].deep_view());
        if same_text(models[i].id.as_str(), id) {
            proof {
                lemma_first_where_is(all, model_named(id@), i as int);
            }
            return Some(i);
        }
        i += 1;
    }
    proof {
        lemma_first_where_none(all, model_named(id@));
    }
    None
}

/// The name a model goes by: its display name, else its id.
pub open spec fn shown_model(models: Seq<ModelOptionView>, id: Seq<char>) -> Seq<char> {
    let named = match model_at(models, id) {
        Some(i) => models[i].display_name,
        None => Seq::empty(),
    };
    if named.len() > 0 {
        named
    } else if id.len() == 0 {
        "Default model"@
    } else {
        id
    }
}

pub fn model_display(models: &Vec<ModelOption>, id: &str) -> (r: String)
    ensures
        r@ == shown_model(models.deep_view(), id@),
{
    match find_model(models, id) {
        Some(i) => if !models[i].display_name.as_str().is_empty() {
            return models[i].display_name.clone();
        },
        None => {},
    }
    if id.is_empty() {
        "Default model".to_owned()
    } else {
        id.to_owned()
    }
}

/// What a group of activity is called when nothing better is known.
pub open spec fn activity_summary(items: Seq<ConversationItemView>) -> Seq<char> {
    let label = if items.len() == 0 {
        "Completed actions"@
    } else {
        match items[0].kind {
            ItemKind::Command => "Ran commands"@,
            ItemKind::FileChange => "Changed files"@,
            ItemKind::Plan => "Updated plan"@,
            ItemKind::Tool => "Used tools"@,
            _ => "Completed actions"@,
        }
    };
    label + " · "@ + decimal(items.len())
}

pub fn fallback_activity_summary(items: &Vec<ConversationItem>) -> (r: String)
    ensures
        r@ == activity_summary(items.deep_view()),
{
    let label = if items.len() == 0 {
        "Completed actions"
    } else {
        assert(items.deep_view()[0] == items@[0].deep_view());
        match items[0].kind {
            ItemKind::Command => "Ran commands",
            ItemKind::FileChange => "Changed files",
            ItemKind::Plan => "Updated plan",
            ItemKind::Tool => "Used tools",
            _ => "Completed actions",
        }
    };
    cat3(label, " · ", decimal_text(items.len() as u128).as_str())
}

/// A warning about the space for skills, which is of no use to the user.
pub open spec fn skills_budget_warning(message: Seq<char>) -> bool {
    has_text(message, "skills context budget"@) || has_text(
        message,
        "Skill descriptions were shortened"@,
    )
}

pub fn is_skills_budget_warning(message: &str) -> (r: bool)
    ensures
        r == skills_budget_warning(message@),
{
    contains(message, "skills context budget") || contains(
        message,
        "Skill descriptions were shortened",
    )
}

} // verus!
