//! Reading and writing JSON text through `serde_json`.
use crate::json::{Json, JsonView};
use crate::order::{lemma_text_less_joins, lemma_text_less_strict, text_before};
use crate::text::{same_text, text_less};
use vstd::prelude::*;
use vstd::string::*;
use vstd::utf8::encode_utf8;

verus! {

/// What a `serde_json::Value` holds, its object members in key order.
pub uninterp spec fn value_view(value: serde_json::Value) -> JsonView;

/// What the `serde_json::Value` made of a `Number` holds.
pub uninterp spec fn number_view(number: serde_json::Number) -> JsonView;

/// What `serde_json::from_slice::<Value>` makes of a text: the value, or the
/// message of the error.
pub uninterp spec fn parsed_json(bytes: Seq<u8>) -> Result<JsonView, Seq<char>>;

/// The bytes that `serde_json::to_vec` writes for a value.
pub uninterp spec fn compact_json(value: JsonView) -> Seq<u8>;

/// The text that `serde_json::to_string_pretty` writes for a value.
pub uninterp spec fn pretty_json(value: JsonView) -> Seq<char>;

/// One level of a `serde_json::Value`.
pub enum Node<'a> {
    Null,
    Bool(bool),
    Unsigned(u64),
    Negative(i64),
    Real(serde_json::Number),
    Text(String),
    Array(Vec<&'a serde_json::Value>),
    Object(Vec<(String, &'a serde_json::Value)>),
}

/// What a value opened one level holds.
pub open spec fn node_view(node: Node<'_>) -> JsonView {
    match node {
        Node::Null => JsonView::Null,
        Node::Bool(b) => JsonView::Bool(b),
        Node::Unsigned(n) => JsonView::Unsigned(n),
        Node::Negative(n) => JsonView::Negative(n),
        Node::Real(n) => JsonView::Real(n),
        Node::Text(t) => JsonView::Text(t@),
        Node::Array(items) => JsonView::Array(
            Seq::new(items@.len(), |i: int| value_view(*items@[i])),
        ),
        Node::Object(entries) => JsonView::Object(
            Seq::new(entries@.len(), |i: int| (entries@[i].0@, value_view(*entries@[i].1))),
        ),
    }
}

/// Opens the outermost level of a `serde_json::Value`: its variant, with the
/// items of an array in order and the members of an object in key order. A
/// number is unsigned where `Number::as_u64` gives it, else negative where
/// `Number::as_i64` does.
#[verifier::external_body]
fn open_value<'a>(value: &'a serde_json::Value) -> (r: Node<'a>)
    ensures
        node_view(r) == value_view(*value),
        r matches Node::Real(n) ==> number_view(n) == value_view(*value),
{
    match value {
        serde_json::Value::Null => Node::Null,
        serde_json::Value::Bool(b) => Node::Bool(*b),
        serde_json::Value::Number(n) => match (n.as_u64(), n.as_i64()) {
            (Some(u), _) => Node::Unsigned(u),
            (None, Some(i)) => Node::Negative(i),
            (None, None) => Node::Real(n.clone()),
        },
        serde_json::Value::String(t) => Node::Text(t.clone()),
        serde_json::Value::Array(items) => Node::Array(items.iter().collect()),
        serde_json::Value::Object(map) => Node::Object(map.iter().map(|e| (e.0.clone(), e.1)).collect()),
    }
}

/// Reads a whole value, level by level.
fn json_of_value(value: &serde_json::Value) -> (r: Json)
    ensures
        r.deep_view() == value_view(*value),
    decreases value_view(*value),
{
    match open_value(value) {
        Node::Null => Json::Null,
        Node::Bool(b) => Json::Bool(b),
        Node::Unsigned(n) => Json::Unsigned(n),
        Node::Negative(n) => Json::Negative(n),
        Node::Real(n) => Json::Real(n),
        Node::Text(t) => Json::Text(t),
        Node::Array(items) => {
            let ghost whole = value_view(*value)->Array_0;
            let mut out: Vec<Json> = Vec::new();
            let mut i: usize = 0;
            while i < items.len()
                invariant
                    i <= items@.len(),
                    out@.len() == i,
                    whole == Seq::new(items@.len(), |j: int| value_view(*items@[j])),
                    value_view(*value) == JsonView::Array(whole),
                    forall|j: int| 0 <= j < i ==> out@[j].deep_view() == #[trigger] whole[j],
                decreases items@.len() - i,
            {
                assert(whole[i as int] == value_view(*items@[i as int]));
                assert(decreases_to!(value_view(*value) => value_view(*value)->Array_0));
                assert(decreases_to!(whole => whole[i as int]));
                let item = json_of_value(items[i]);
                out.push(item);
                i += 1;
            }
            let r = Json::Array(out);
            assert(r.deep_view()->Array_0 =~= whole);
            r
        },
        Node::Object(entries) => {
            let ghost whole = value_view(*value)->Object_0;
            let mut out: Vec<(String, Json)> = Vec::new();
            let mut i: usize = 0;
            while i < entries.len()
                invariant
                    i <= entries@.len(),
                    out@.len() == i,
                    whole == Seq::new(
                        entries@.len(),
                        |j: int| (entries@[j].0@, value_view(*entries@[j].1)),
                    ),
                    value_view(*value) == JsonView::Object(whole),
                    forall|j: int|
                        0 <= j < i ==> (out@[j].0@, out@[j].1.deep_view()) == #[trigger] whole[j],
                decreases entries@.len() - i,
            {
                assert(whole[i as int] == (entries@[i as int].0@, value_view(*entries@[i as int].1)));
                assert(decreases_to!(value_view(*value) => value_view(*value)->Object_0));
                assert(decreases_to!(whole => whole[i as int]));
                assert(decreases_to!(whole[i as int] => whole[i as int].1));
                let item = json_of_value(entries[i].1);
                out.push((entries[i].0.clone(), item));
                i += 1;
            }
            let r = Json::Object(out);
            assert(r.deep_view()->Object_0 =~= whole);
            r
        },
    }
}

/// `serde_json::from_slice::<Value>`: the value that a text denotes, or the
/// message of the parse error.
#[verifier::external_body]
fn value_from_slice(bytes: &[u8]) -> (r: Result<serde_json::Value, String>)
    ensures
        match r {
            Ok(value) => parsed_json(bytes@) matches Ok(v) && v == value_view(value),
            Err(message) => parsed_json(bytes@) matches Err(m) && m == message@,
        },
{
    serde_json::from_slice::<serde_json::Value>(bytes).map_err(|error| error.to_string())
}

/// Parses a JSON text.
pub fn parse_json(bytes: &[u8]) -> (r: Result<Json, String>)
    ensures
        match r {
            Ok(json) => parsed_json(bytes@) matches Ok(v) && v == json.deep_view(),
            Err(message) => parsed_json(bytes@) matches Err(m) && m == message@,
        },
{
    match value_from_slice(bytes) {
        Ok(value) => Ok(json_of_value(&value)),
        Err(message) => Err(message),
    }
}

/// One level of a value to be built.
pub enum Parts {
    Null,
    Bool(bool),
    Unsigned(u64),
    Negative(i64),
    Real(serde_json::Number),
    Text(String),
    Array(Vec<serde_json::Value>),
    Object(Vec<(String, serde_json::Value)>),
}

/// The members with one more: a key that is there gets the new value, another
/// one goes where the order of keys puts it.
pub open spec fn put_member(
    members: Seq<(Seq<char>, JsonView)>,
    key: Seq<char>,
    value: JsonView,
) -> Seq<(Seq<char>, JsonView)>
    decreases members.len(),
{
    if members.len() == 0 {
        seq![(key, value)]
    } else if members[0].0 == key {
        seq![(key, value)] + members.drop_first()
    } else if text_less(key, members[0].0) {
        seq![(key, value)] + members
    } else {
        seq![members[0]] + put_member(members.drop_first(), key, value)
    }
}

/// The members in key order, the last one of each key.
pub open spec fn in_key_order(members: Seq<(Seq<char>, JsonView)>) -> Seq<(Seq<char>, JsonView)>
    decreases members.len(),
{
    if members.len() == 0 {
        Seq::empty()
    } else {
        put_member(in_key_order(members.drop_last()), members.last().0, members.last().1)
    }
}

/// What members with their values hold.
pub open spec fn members_view(entries: Seq<(String, serde_json::Value)>) -> Seq<
    (Seq<char>, JsonView),
> {
    Seq::new(entries.len(), |i: int| (entries[i].0@, value_view(entries[i].1)))
}

/// No two members have one key.
pub open spec fn keys_differ(members: Seq<(Seq<char>, JsonView)>) -> bool {
    forall|i: int, j: int| 0 <= i < j < members.len() ==> members[i].0 != members[j].0
}

/// What a value built of these parts holds.
pub open spec fn parts_view(parts: Parts) -> JsonView {
    match parts {
        Parts::Null => JsonView::Null,
        Parts::Bool(b) => JsonView::Bool(b),
        Parts::Unsigned(n) => JsonView::Unsigned(n),
        Parts::Negative(n) => if n < 0 {
            JsonView::Negative(n)
        } else {
            JsonView::Unsigned(n as u64)
        },
        Parts::Real(n) => number_view(n),
        Parts::Text(t) => JsonView::Text(t@),
        Parts::Array(items) => JsonView::Array(
            Seq::new(items@.len(), |i: int| value_view(items@[i])),
        ),
        Parts::Object(entries) => JsonView::Object(in_key_order(members_view(entries@))),
    }
}

/// Builds a `serde_json::Value` of one variant around its parts. The members
/// of an object, whose keys differ, are collected into a `serde_json::Map`,
/// which holds them in key order; `Number::from` makes an unsigned number of an
/// integer that is not negative.
#[verifier::external_body]
fn close_value(parts: Parts) -> (r: serde_json::Value)
    requires
        parts matches Parts::Object(entries) ==> keys_differ(members_view(entries@)),
    ensures
        value_view(r) == parts_view(parts),
{
    match parts {
        Parts::Null => serde_json::Value::Null,
        Parts::Bool(b) => serde_json::Value::Bool(b),
        Parts::Unsigned(n) => serde_json::Value::Number(serde_json::Number::from(n)),
        Parts::Negative(n) => serde_json::Value::Number(serde_json::Number::from(n)),
        Parts::Real(n) => serde_json::Value::Number(n),
        Parts::Text(t) => serde_json::Value::String(t),
        Parts::Array(items) => serde_json::Value::Array(items),
        Parts::Object(entries) => serde_json::Value::Object(entries.into_iter().collect()),
    }
}

/// `serde_json::Number` clones to an equal number.
#[verifier::external_body]
pub(crate) fn copy_number(number: &serde_json::Number) -> (r: serde_json::Number)
    ensures
        r == *number,
{
    number.clone()
}

/// The form in which a value is written: members in key order, integers by
/// their sign.
pub open spec fn canonical(json: JsonView) -> JsonView
    decreases json,
{
    match json {
        JsonView::Negative(n) => if n < 0 {
            json
        } else {
            JsonView::Unsigned(n as u64)
        },
        JsonView::Real(n) => number_view(n),
        JsonView::Array(items) => JsonView::Array(
            Seq::new(
                items.len(),
                |i: int|
                    if 0 <= i < items.len() {
                        canonical(items[i])
                    } else {
                        JsonView::Null
                    },
            ),
        ),
        JsonView::Object(entries) => JsonView::Object(in_key_order(canonical_members(entries))),
        _ => json,
    }
}

/// Each member with its value in canonical form.
pub open spec fn canonical_members(entries: Seq<(Seq<char>, JsonView)>) -> Seq<
    (Seq<char>, JsonView),
>
    decreases entries,
{
    Seq::new(
        entries.len(),
        |i: int|
            if 0 <= i < entries.len() {
                (entries[i].0, canonical(entries[i].1))
            } else {
                (Seq::empty(), JsonView::Null)
            },
    )
}

/// Each key is before the next one.
pub open spec fn ascending(members: Seq<(Seq<char>, JsonView)>) -> bool {
    forall|i: int, j: int| 0 <= i < j < members.len() ==> text_less(members[i].0, members[j].0)
}

/// Where a member goes in ascending ones: at a key that is there, else before
/// the first key that is greater.
spec fn is_place(members: Seq<(Seq<char>, JsonView)>, key: Seq<char>, at: int) -> bool {
    &&& 0 <= at <= members.len()
    &&& forall|i: int| 0 <= i < at ==> text_less((#[trigger] members[i]).0, key)
    &&& at < members.len() ==> members[at].0 == key || text_less(key, members[at].0)
}

/// The members with one put at its place.
spec fn put_at(
    members: Seq<(Seq<char>, JsonView)>,
    key: Seq<char>,
    value: JsonView,
    at: int,
) -> Seq<(Seq<char>, JsonView)> {
    if at < members.len() && members[at].0 == key {
        members.update(at, (key, value))
    } else {
        members.insert(at, (key, value))
    }
}

proof fn lemma_put_at(
    members: Seq<(Seq<char>, JsonView)>,
    key: Seq<char>,
    value: JsonView,
    at: int,
)
    requires
        ascending(members),
        is_place(members, key, at),
    ensures
        put_member(members, key, value) == put_at(members, key, value, at),
        ascending(put_member(members, key, value)),
    decreases members.len(),
{
    let placed = put_at(members, key, value, at);
    if members.len() == 0 {
        assert(put_member(members, key, value) =~= placed);
    } else if at == 0 {
        if members[0].0 != key {
            lemma_text_less_strict(key, members[0].0, key);
        }
        assert(put_member(members, key, value) =~= placed);
    } else {
        let rest = members.drop_first();
        assert(text_less(members[0].0, key));
        lemma_text_less_strict(members[0].0, key, members[0].0);
        lemma_text_less_strict(key, key, key);
        assert(is_place(rest, key, at - 1)) by {
            assert forall|i: int| 0 <= i < at - 1 implies text_less((#[trigger] rest[i]).0, key) by {
                assert(rest[i] == members[i + 1]);
            }
        }
        assert(ascending(rest)) by {
            assert forall|i: int, j: int| 0 <= i < j < rest.len() implies text_less(
                rest[i].0,
                rest[j].0,
            ) by {
                assert(rest[i] == members[i + 1] && rest[j] == members[j + 1]);
            }
        }
        lemma_put_at(rest, key, value, at - 1);
        assert(put_member(members, key, value) =~= placed);
    }
    assert forall|i: int, j: int| 0 <= i < j < placed.len() implies text_less(
        placed[i].0,
        placed[j].0,
    ) by {
        let there = at < members.len() && members[at].0 == key;
        if there {
            assert(text_less(members[i].0, members[j].0));
        } else if j < at {
            assert(text_less(members[i].0, members[j].0));
        } else if i < at && j == at {
            assert(text_less(members[i].0, key));
        } else if i < at {
            assert(text_less(members[i].0, members[j - 1].0));
        } else if i == at {
            if j - 1 > at {
                assert(text_less(members[at].0, members[j - 1].0));
                lemma_text_less_joins(key, members[at].0, members[j - 1].0);
            }
        } else {
            assert(text_less(members[i - 1].0, members[j - 1].0));
        }
    }
}

/// Members whose keys ascend are in key order already, and their keys differ.
proof fn lemma_ascending_in_order(members: Seq<(Seq<char>, JsonView)>)
    requires
        ascending(members),
    ensures
        in_key_order(members) == members,
        keys_differ(members),
    decreases members.len(),
{
    assert forall|i: int, j: int| 0 <= i < j < members.len() implies members[i].0
        != members[j].0 by {
        assert(text_less(members[i].0, members[j].0));
        lemma_text_less_strict(members[i].0, members[j].0, members[i].0);
        lemma_text_less_strict(members[i].0, members[i].0, members[i].0);
    }
    if members.len() > 0 {
        let rest = members.drop_last();
        let last = members.last();
        lemma_ascending_in_order(rest);
        assert(is_place(rest, last.0, rest.len() as int)) by {
            assert forall|i: int| 0 <= i < rest.len() implies text_less(
                (#[trigger] rest[i]).0,
                last.0,
            ) by {
                assert(text_less(members[i].0, members[members.len() - 1].0));
            }
        }
        lemma_put_at(rest, last.0, last.1, rest.len() as int);
        assert(put_at(rest, last.0, last.1, rest.len() as int) =~= members);
    }
}

/// Puts members in key order, the last one of each key.
fn order_members(entries: Vec<(String, serde_json::Value)>) -> (r: Vec<
    (String, serde_json::Value),
>)
    ensures
        members_view(r@) == in_key_order(members_view(entries@)),
        in_key_order(members_view(r@)) == members_view(r@),
        keys_differ(members_view(r@)),
{
    let ghost all = members_view(entries@);
    let mut rest = entries;
    let mut out: Vec<(String, serde_json::Value)> = Vec::new();
    let ghost mut done: int = 0;
    proof {
        assert(members_view(out@) =~= in_key_order(all.take(0)));
        assert(all.skip(0) =~= all);
    }
    while rest.len() > 0
        invariant
            0 <= done <= all.len(),
            rest@.len() == all.len() - done,
            members_view(rest@) == all.skip(done),
            members_view(out@) == in_key_order(all.take(done)),
            ascending(members_view(out@)),
        decreases rest@.len(),
    {
        let ghost left = members_view(rest@);
        let ghost before = members_view(out@);
        let (key, value) = rest.remove(0);
        let ghost member = (key@, value_view(value));
        proof {
            assert(left[0] == member);
            assert forall|i: int| 0 <= i < rest@.len() implies members_view(rest@)[i] == all.skip(
                done + 1,
            )[i] by {
                assert(left[i + 1] == all.skip(done)[i + 1]);
            }
            assert(members_view(rest@) =~= all.skip(done + 1));
            assert(all.take(done + 1).drop_last() =~= all.take(done));
            assert(all.take(done + 1).last() == member);
        }
        let n: usize = out.len();
        let mut at: usize = 0;
        while at < n && text_before(out[at].0.as_str(), key.as_str())
            invariant
                at <= n,
                n == out@.len(),
                before == members_view(out@),
                forall|i: int| 0 <= i < at ==> text_less((#[trigger] before[i]).0, key@),
            decreases n - at,
        {
            at += 1;
        }
        proof {
            if at < n {
                assert(before[at as int].0 == out@[at as int].0@);
                lemma_text_less_strict(before[at as int].0, key@, key@);
            }
            lemma_put_at(before, key@, value_view(value), at as int);
        }
        if at < n && same_text(out[at].0.as_str(), key.as_str()) {
            out.set(at, (key, value));
        } else {
            out.insert(at, (key, value));
        }
        proof {
            assert(members_view(out@) =~= put_at(before, member.0, member.1, at as int));
            done = done + 1;
        }
    }
    proof {
        assert(all.take(done) =~= all);
        lemma_ascending_in_order(members_view(out@));
    }
    out
}

/// Builds the value that a [`Json`] denotes.
pub(crate) fn value_of_json(json: &Json) -> (r: serde_json::Value)
    ensures
        value_view(r) == canonical(json.deep_view()),
    decreases json,
{
    match json {
        Json::Null => close_value(Parts::Null),
        Json::Bool(b) => close_value(Parts::Bool(*b)),
        Json::Unsigned(n) => close_value(Parts::Unsigned(*n)),
        Json::Negative(n) => close_value(Parts::Negative(*n)),
        Json::Real(n) => close_value(Parts::Real(copy_number(n))),
        Json::Text(t) => close_value(Parts::Text(t.clone())),
        Json::Array(items) => {
            let ghost whole = json.deep_view()->Array_0;
            let mut out: Vec<serde_json::Value> = Vec::new();
            let mut i: usize = 0;
            while i < items.len()
                invariant
                    i <= items@.len(),
                    *json == Json::Array(*items),
                    out@.len() == i,
                    json.deep_view() == JsonView::Array(whole),
                    whole.len() == items@.len(),
                    forall|j: int| 0 <= j < i ==> value_view(#[trigger] out@[j]) == canonical(whole[j]),
                decreases items@.len() - i,
            {
                assert(decreases_to!(json => items));
                assert(decreases_to!(items => items[i as int]));
                assert(whole[i as int] == items@[i as int].deep_view());
                let item = value_of_json(&items[i]);
                out.push(item);
                i += 1;
            }
            let r = close_value(Parts::Array(out));
            assert(value_view(r)->Array_0 =~= canonical(json.deep_view())->Array_0);
            r
        },
        Json::Object(entries) => {
            let ghost whole = json.deep_view()->Object_0;
            let mut out: Vec<(String, serde_json::Value)> = Vec::new();
            let mut i: usize = 0;
            while i < entries.len()
                invariant
                    i <= entries@.len(),
                    *json == Json::Object(*entries),
                    out@.len() == i,
                    json.deep_view() == JsonView::Object(whole),
                    whole.len() == entries@.len(),
                    forall|j: int|
                        0 <= j < i ==> (#[trigger] out@[j]).0@ == whole[j].0 && value_view(out@[j].1)
                            == canonical(whole[j].1),
                decreases entries@.len() - i,
            {
                assert(decreases_to!(json => entries));
                assert(decreases_to!(entries => entries[i as int]));
                assert(decreases_to!(entries[i as int] => entries[i as int].1));
                assert(whole[i as int] == (entries@[i as int].0@, entries@[i as int].1.deep_view()));
                let item = value_of_json(&entries[i].1);
                out.push((entries[i].0.clone(), item));
                i += 1;
            }
            assert(members_view(out@) =~= canonical_members(whole));
            let ordered = order_members(out);
            close_value(Parts::Object(ordered))
        },
    }
}

/// Whether every number in the value is an integer.
pub open spec fn integral(json: JsonView) -> bool
    decreases json,
{
    match json {
        JsonView::Real(n) => false,
        JsonView::Array(items) => forall|i: int| 0 <= i < items.len() ==> integral(#[trigger] items[i]),
        JsonView::Object(entries) => forall|i: int|
            0 <= i < entries.len() ==> integral((#[trigger] entries[i]).1),
        _ => true,
    }
}

/// Whether arrays and objects nest at most `depth` deep.
pub open spec fn nests_within(json: JsonView, depth: nat) -> bool
    decreases json,
{
    match json {
        JsonView::Array(items) => depth > 0 && forall|i: int|
            0 <= i < items.len() ==> nests_within(#[trigger] items[i], (depth - 1) as nat),
        JsonView::Object(entries) => depth > 0 && forall|i: int|
            0 <= i < entries.len() ==> nests_within((#[trigger] entries[i]).1, (depth - 1) as nat),
        _ => true,
    }
}

/// `serde_json::to_vec` on a `Value`, which cannot fail: all keys are strings
/// and the writer is a vector. The compact form writes no white space between
/// tokens and escapes control characters inside strings, so no line feed
/// occurs in it. `from_slice` reads the value back where all numbers are
/// integers and it nests no deeper than the parser goes.
#[verifier::external_body]
fn value_to_vec(value: &serde_json::Value) -> (r: Result<Vec<u8>, String>)
    ensures
        match r {
            Ok(bytes) => {
                &&& bytes@ == compact_json(value_view(*value))
                &&& !bytes@.contains(10u8)
                &&& integral(value_view(*value)) && nests_within(value_view(*value), 127) ==> (
                parsed_json(bytes@) matches Ok(v) && v == value_view(*value))
            },
            Err(_) => false,
        },
{
    serde_json::to_vec(value).map_err(|error| error.to_string())
}

/// `serde_json::to_string` on a `Value`, which cannot fail: the bytes of
/// `to_vec` as a text.
#[verifier::external_body]
fn value_to_string(value: &serde_json::Value) -> (r: Result<String, String>)
    ensures
        match r {
            Ok(text) => encode_utf8(text@) == compact_json(value_view(*value)),
            Err(_) => false,
        },
{
    serde_json::to_string(value).map_err(|error| error.to_string())
}

/// `serde_json::to_string_pretty` on a `Value`, which cannot fail.
#[verifier::external_body]
fn value_to_pretty(value: &serde_json::Value) -> (r: Result<String, String>)
    ensures
        match r {
            Ok(text) => text@ == pretty_json(value_view(*value)),
            Err(_) => false,
        },
{
    serde_json::to_string_pretty(value).map_err(|error| error.to_string())
}

/// `serde_json::to_vec_pretty` on a `Value`, which cannot fail: the text of
/// `to_string_pretty` as bytes. `from_slice` reads the value back where all
/// numbers are integers and it nests no deeper than the parser goes.
#[verifier::external_body]
fn value_to_vec_pretty(value: &serde_json::Value) -> (r: Result<Vec<u8>, String>)
    ensures
        match r {
            Ok(bytes) => {
                &&& bytes@ == encode_utf8(pretty_json(value_view(*value)))
                &&& integral(value_view(*value)) && nests_within(value_view(*value), 127) ==> (
                parsed_json(bytes@) matches Ok(v) && v == value_view(*value))
            },
            Err(_) => false,
        },
{
    serde_json::to_vec_pretty(value).map_err(|error| error.to_string())
}

/// Writes a value as one line of JSON text.
pub fn write_json(json: &Json) -> (r: Vec<u8>)
    ensures
        r@ == compact_json(canonical(json.deep_view())),
        !r@.contains(10u8),
        integral(canonical(json.deep_view())) && nests_within(canonical(json.deep_view()), 127)
            ==> (parsed_json(r@) matches Ok(v) && v == canonical(json.deep_view())),
{
    match value_to_vec(&value_of_json(json)) {
        Ok(bytes) => bytes,
        Err(_) => Vec::new(),
    }
}

/// Writes a value as one line of JSON text.
pub fn write_json_line(json: &Json) -> (r: String)
    ensures
        encode_utf8(r@) == compact_json(canonical(json.deep_view())),
{
    match value_to_string(&value_of_json(json)) {
        Ok(text) => text,
        Err(_) => String::new(),
    }
}

/// Writes a value as the bytes of indented JSON text.
pub fn write_json_pretty_bytes(json: &Json) -> (r: Vec<u8>)
    ensures
        r@ == encode_utf8(pretty_json(canonical(json.deep_view()))),
        integral(canonical(json.deep_view())) && nests_within(canonical(json.deep_view()), 127)
            ==> (parsed_json(r@) matches Ok(v) && v == canonical(json.deep_view())),
{
    match value_to_vec_pretty(&value_of_json(json)) {
        Ok(bytes) => bytes,
        Err(_) => Vec::new(),
    }
}

/// Writes a value as indented JSON text.
pub fn write_json_pretty(json: &Json) -> (r: String)
    ensures
        r@ == pretty_json(canonical(json.deep_view())),
{
    match value_to_pretty(&value_of_json(json)) {
        Ok(text) => text,
        Err(_) => String::new(),
    }
}

} // verus!
