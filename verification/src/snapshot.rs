//! The saved history as it stands in a file: a version and the state.
use crate::json::{entry_value, object, Json, JsonView};
use crate::json_text::{
    canonical, canonical_members, in_key_order, integral, nests_within, parse_json, parsed_json,
    pretty_json, put_member, write_json_pretty_bytes,
};
use crate::text::text_less;
use vstd::prelude::*;
use vstd::string::*;
use vstd::utf8::encode_utf8;

verus! {

/// Why history could not be read or written.
#[derive(Debug)]
pub enum StoreError {
    Io(String),
    Json(String),
    UnsupportedSchema,
}

pub enum StoreErrorView {
    Io(Seq<char>),
    Json(Seq<char>),
    UnsupportedSchema,
}

impl DeepView for StoreError {
    type V = StoreErrorView;

    open spec fn deep_view(&self) -> StoreErrorView {
        match self {
            StoreError::Io(text) => StoreErrorView::Io(text@),
            StoreError::Json(text) => StoreErrorView::Json(text@),
            StoreError::UnsupportedSchema => StoreErrorView::UnsupportedSchema,
        }
    }
}

impl StoreErrorView {
    /// What is said of the error.
    pub open spec fn text(self) -> Seq<char> {
        match self {
            StoreErrorView::Io(text) => text,
            StoreErrorView::Json(text) => text,
            StoreErrorView::UnsupportedSchema =>
                "History was saved by an unsupported version. Open it with a compatible Ferro Code version."@,
        }
    }
}

impl StoreError {
    pub fn text(&self) -> (r: String)
        ensures
            r@ == self.deep_view().text(),
    {
        match self {
            StoreError::Io(text) => text.clone(),
            StoreError::Json(text) => text.clone(),
            StoreError::UnsupportedSchema =>
                "History was saved by an unsupported version. Open it with a compatible Ferro Code version.".to_owned(),
        }
    }
}

/// Whether a value may be a saved state: an object that holds a history or
/// preferences.
pub open spec fn is_state(value: JsonView) -> bool {
    value is Object && (value.get("history"@) is Some || value.get("preferences"@) is Some)
}

/// The value itself where it may be a saved state.
pub open spec fn checked_state(value: JsonView) -> Result<JsonView, StoreErrorView> {
    if is_state(value) {
        Ok(value)
    } else {
        Err(StoreErrorView::Io("This file is not a Ferro Code history snapshot"@))
    }
}

/// The state in a snapshot: behind its version where it has one, else the whole
/// value, as it was written before there were versions.
pub open spec fn state_in(value: JsonView) -> Result<JsonView, StoreErrorView> {
    match value.get("schema_version"@) {
        Some(version) => if version.as_u64() != Some(1u64) {
            Err(StoreErrorView::UnsupportedSchema)
        } else {
            match value.get("state"@) {
                Some(state) => checked_state(state),
                None => Err(StoreErrorView::Io("Missing history snapshot"@)),
            }
        },
        None => checked_state(value),
    }
}

/// The state in the bytes of a snapshot.
pub open spec fn decoded_snapshot(bytes: Seq<u8>) -> Result<JsonView, StoreErrorView> {
    match parsed_json(bytes) {
        Ok(value) => state_in(value),
        Err(message) => Err(StoreErrorView::Json(message)),
    }
}

/// A state behind its version.
pub open spec fn snapshot_view(state: JsonView) -> JsonView {
    JsonView::Object(
        seq![("schema_version"@, JsonView::Unsigned(1u64)), ("state"@, state)],
    )
}

fn check_state(value: &Json) -> (r: Result<Json, StoreError>)
    ensures
        match r {
            Ok(state) => checked_state(value.deep_view()) == Ok::<_, StoreErrorView>(
                state.deep_view(),
            ),
            Err(error) => checked_state(value.deep_view()) == Err::<JsonView, _>(error.deep_view()),
        },
{
    let is_object = match value {
        Json::Object(_) => true,
        _ => false,
    };
    if is_object && (value.get("history").is_some() || value.get("preferences").is_some()) {
        Ok(value.clone())
    } else {
        Err(StoreError::Io("This file is not a Ferro Code history snapshot".to_owned()))
    }
}

/// Finds the state in a snapshot.
pub fn find_state(value: &Json) -> (r: Result<Json, StoreError>)
    ensures
        match r {
            Ok(state) => state_in(value.deep_view()) == Ok::<_, StoreErrorView>(state.deep_view()),
            Err(error) => state_in(value.deep_view()) == Err::<JsonView, _>(error.deep_view()),
        },
{
    match value.get("schema_version") {
        Some(version) => {
            let known = match version.as_u64() {
                Some(n) => n == 1,
                None => false,
            };
            if !known {
                return Err(StoreError::UnsupportedSchema);
            }
            match value.get("state") {
                Some(state) => check_state(state),
                None => Err(StoreError::Io("Missing history snapshot".to_owned())),
            }
        },
        None => check_state(value),
    }
}

/// Reads the bytes of a snapshot.
pub fn decode_snapshot(bytes: &[u8]) -> (r: Result<Json, StoreError>)
    ensures
        match r {
            Ok(state) => decoded_snapshot(bytes@) == Ok::<_, StoreErrorView>(state.deep_view()),
            Err(error) => decoded_snapshot(bytes@) == Err::<JsonView, _>(error.deep_view()),
        },
{
    match parse_json(bytes) {
        Ok(value) => find_state(&value),
        Err(message) => Err(StoreError::Json(message)),
    }
}

proof fn lemma_canonical_snapshot(state: JsonView)
    ensures
        canonical(snapshot_view(state)) == snapshot_view(canonical(state)),
{
    reveal_strlit("schema_version");
    reveal_strlit("state");
    let one = ("schema_version"@, JsonView::Unsigned(1u64));
    let two = ("state"@, canonical(state));
    let members = seq![("schema_version"@, JsonView::Unsigned(1u64)), ("state"@, state)];
    assert(canonical_members(members) =~= seq![one, two]);
    let both = seq![one, two];
    assert(both.drop_last() =~= seq![one]);
    assert(seq![one].drop_last() =~= Seq::empty());
    assert(in_key_order(seq![one].drop_last()) =~= Seq::empty());
    assert(in_key_order(seq![one]) =~= seq![one]);
    let a = "schema_version"@;
    let b = "state"@;
    assert(a[0] == 's' && b[0] == 's');
    assert(a[1] == 'c' && b[1] == 't');
    assert(a.drop_first()[0] == 'c' && b.drop_first()[0] == 't');
    assert(a != b) by {
        assert(a.len() != b.len());
    }
    assert(!text_less(b.drop_first(), a.drop_first()));
    assert(!text_less(b, a));
    assert(seq![one].drop_first() =~= Seq::empty());
    assert(put_member(Seq::empty(), two.0, two.1) =~= seq![two]);
    assert(put_member(seq![one], two.0, two.1) =~= both);
    assert(in_key_order(both) =~= both);
}

/// The state behind its version is read back as it is.
pub proof fn lemma_snapshot_holds_state(state: JsonView)
    requires
        is_state(state),
    ensures
        state_in(snapshot_view(state)) == Ok::<_, StoreErrorView>(state),
{
    reveal_strlit("schema_version");
    reveal_strlit("state");
    let members = seq![("schema_version"@, JsonView::Unsigned(1u64)), ("state"@, state)];
    assert("schema_version"@.len() != "state"@.len());
    assert(members.drop_first()[0] == ("state"@, state));
    assert(entry_value(members, "state"@) == Some(state)) by {
        reveal_with_fuel(entry_value, 3);
    }
}

/// Writes a state as the bytes of a snapshot. Where the state holds integers
/// only and nests no deeper than the parser goes, reading the bytes gives it
/// back.
pub fn encode_snapshot(state: Json) -> (r: Vec<u8>)
    ensures
        r@ == encode_utf8(pretty_json(snapshot_view(canonical(state.deep_view())))),
        is_state(canonical(state.deep_view())) && integral(canonical(state.deep_view()))
            && nests_within(canonical(state.deep_view()), 126) ==> decoded_snapshot(r@) == Ok::<
            _,
            StoreErrorView,
        >(canonical(state.deep_view())),
{
    let ghost view = state.deep_view();
    let mut members: Vec<(String, Json)> = Vec::new();
    members.push(("schema_version".to_owned(), Json::Unsigned(1)));
    members.push(("state".to_owned(), state));
    assert(members.deep_view() =~= snapshot_view(view)->Object_0);
    let whole = object(members);
    proof {
        lemma_canonical_snapshot(view);
        if is_state(canonical(view)) {
            lemma_snapshot_holds_state(canonical(view));
        }
        let written = snapshot_view(canonical(view));
        let members = written->Object_0;
        assert(members[0].1 == JsonView::Unsigned(1u64) && members[1].1 == canonical(view));
        if integral(canonical(view)) && nests_within(canonical(view), 126) {
            assert forall|i: int| 0 <= i < members.len() implies integral(
                (#[trigger] members[i]).1,
            ) && nests_within(members[i].1, 126) by {
                assert(i == 0 || i == 1);
            }
            assert(integral(written) && nests_within(written, 127));
        }
    }
    write_json_pretty_bytes(&whole)
}

} // verus!
