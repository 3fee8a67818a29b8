//! Names for new things, and when two paths name one place.
use crate::path::{backslashed, eq_ignore_ascii_case, same_ignoring_case, to_backslashes};
use crate::text::{cat3, same_text};
use vstd::prelude::*;
use vstd::string::*;

verus! {

/// A digit of a random identifier.
pub open spec fn is_hex_digit(c: char) -> bool {
    '0' <= c <= '9' || 'a' <= c <= 'f'
}

/// The form of a random identifier: groups of hexadecimal digits between
/// hyphens, with a 4 at the place of the version.
pub open spec fn is_random_id(id: Seq<char>) -> bool {
    &&& id.len() == 36
    &&& id[8] == '-' && id[13] == '-' && id[18] == '-' && id[23] == '-'
    &&& id[14] == '4'
    &&& forall|i: int|
        0 <= i < 36 && i != 8 && i != 13 && i != 18 && i != 23 ==> is_hex_digit(#[trigger] id[i])
}

/// `uuid::Uuid::new_v4` as a text. Which identifier comes is left to chance;
/// its form is that of the crate's hyphenated text in lower case.
#[verifier::external_body]
fn random_id() -> (r: String)
    ensures
        is_random_id(r@),
{
    uuid::Uuid::new_v4().to_string()
}

/// A new identifier that begins with a prefix. It does not depend on the clock
/// or on what was made before.
pub fn new_id(prefix: &str) -> (r: String)
    ensures
        r@.len() == prefix@.len() + 37,
        r@.take(prefix@.len() as int + 1) == prefix@ + "-"@,
        is_random_id(r@.skip(prefix@.len() as int + 1)),
{
    let id = random_id();
    let r = cat3(prefix, "-", id.as_str());
    proof {
        reveal_strlit("-");
        assert(r@.take(prefix@.len() as int + 1) =~= prefix@ + "-"@);
        assert(r@.skip(prefix@.len() as int + 1) =~= id@);
    }
    r
}

/// Whether two paths name one place: where paths are those of Windows, either
/// separator and either case will do.
pub open spec fn paths_agree(left: Seq<char>, right: Seq<char>, windows: bool) -> bool {
    if windows {
        same_ignoring_case(backslashed(left), backslashed(right))
    } else {
        left == right
    }
}

pub fn same_path(left: &str, right: &str, windows: bool) -> (r: bool)
    ensures
        r == paths_agree(left@, right@, windows),
{
    if windows {
        eq_ignore_ascii_case(to_backslashes(left).as_str(), to_backslashes(right).as_str())
    } else {
        same_text(left, right)
    }
}

/// Naming one place is an equivalence.
pub proof fn lemma_paths_agree(a: Seq<char>, b: Seq<char>, c: Seq<char>, windows: bool)
    ensures
        paths_agree(a, a, windows),
        paths_agree(a, b, windows) ==> paths_agree(b, a, windows),
        paths_agree(a, b, windows) && paths_agree(b, c, windows) ==> paths_agree(a, c, windows),
{
}

} // verus!
