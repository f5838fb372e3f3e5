//! Identifier rules of the HigherGraphen primitives that completions and reviews
//! are exchanged through.
use vstd::prelude::*;

verus! {

/// Unicode `White_Space`, the characters `str::trim` removes.
pub open spec fn is_white_space(c: char) -> bool {
    let u = c as u32;
    (0x9 <= u && u <= 0xd) || u == 0x20 || u == 0x85 || u == 0xa0 || u == 0x1680 || (0x2000 <= u
        && u <= 0x200a) || u == 0x2028 || u == 0x2029 || u == 0x202f || u == 0x205f || u == 0x3000
}

/// General category `Cc`, the characters `char::is_control` accepts.
pub open spec fn is_control(c: char) -> bool {
    let u = c as u32;
    u <= 0x1f || (0x7f <= u && u <= 0x9f)
}

/// A HigherGraphen identifier is valid when it is not empty after trimming surrounding
/// whitespace and the trimmed text holds no control character: every control
/// character lies in the leading or trailing whitespace.
pub open spec fn hg_id_valid(s: Seq<char>) -> bool {
    &&& exists|i: int| 0 <= i < s.len() && !is_white_space(#[trigger] s[i])
    &&& forall|k: int|
        0 <= k < s.len() && is_control(#[trigger] s[k]) ==> (forall|j: int| 0 <= j <= k ==> is_white_space(s[j]))
            || (forall|j: int| k <= j < s.len() ==> is_white_space(s[j]))
}

/// Validates `value` with `higher_graphen_core::Id::new`. The contract states that the
/// call fails exactly when `hg_id_valid` does not hold, as `Id::new` trims with
/// `str::trim` and then refuses an empty text or one with a control character; on
/// failure the result holds the crate's error text, which the contract leaves unsaid.
#[verifier::external_body]
pub(crate) fn hg_id_error(value: &str) -> (r: Option<String>)
    ensures
        r is None <==> hg_id_valid(value@),
{
    match higher_graphen_core::Id::new(value) {
        Ok(_) => None,
        Err(error) => Some(format!("{error}")),
    }
}

} // verus!
