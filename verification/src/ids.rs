//! Generation of the opaque record identifiers used for recipes,
//! ingredients, items and cash flows.

use rand::Rng;
use vstd::prelude::*;

verus! {

/// Characters that a generated identifier is made of.
pub open spec fn is_id_char(c: char) -> bool {
    ('a' <= c && c <= 'z') || ('A' <= c && c <= 'Z') || ('0' <= c && c <= '9')
}

pub open spec fn is_id_string(s: Seq<char>) -> bool {
    s.len() == 32 && forall|i: int| 0 <= i < s.len() ==> is_id_char(#[trigger] s[i])
}

/// Relies on rand's `thread_rng` sampling the `Alphanumeric`
/// distribution: every draw is one of the 62 ASCII alphanumeric
/// characters, and 32 draws are taken. The value itself is random;
/// nothing beyond its shape is promised.
#[verifier::external_body]
pub(crate) fn new_id() -> (r: String)
    ensures
        is_id_string(r@),
{
    rand::thread_rng()
        .sample_iter(&rand::distributions::Alphanumeric)
        .take(32)
        .map(char::from)
        .collect()
}

} // verus!
