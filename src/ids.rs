//! Request identifiers attached to outbound commands.
use vstd::prelude::*;

verus! {

/// Length of a generated request identifier.
pub const REQUEST_ID_LEN: usize = 21;

/// The characters that a request identifier is drawn from: digits, ASCII
/// letters, `_` and `-`, all of which are safe in a URL.
pub open spec fn is_url_safe_char(c: char) -> bool {
    c == '_' || c == '-' || ('0' <= c && c <= '9') || ('a' <= c && c <= 'z') || ('A' <= c
        && c <= 'Z')
}

/// A well-formed request identifier.
pub open spec fn is_request_id(s: Seq<char>) -> bool {
    &&& s.len() == REQUEST_ID_LEN
    &&& forall|i: int| 0 <= i < s.len() ==> is_url_safe_char(#[trigger] s[i])
}

/// Relies on `nanoid::format` with `nanoid::rngs::default` and the
/// `nanoid::alphabet::SAFE` alphabet: a random identifier of the requested
/// number of characters, each taken from that alphabet. It never returns for
/// a size of zero.
#[verifier::external_body]
fn random_safe_id(size: usize) -> (r: String)
    requires
        size > 0,
    ensures
        r@.len() == size,
        forall|i: int| 0 <= i < r@.len() ==> is_url_safe_char(#[trigger] r@[i]),
{
    nanoid::format(nanoid::rngs::default, &nanoid::alphabet::SAFE, size)
}

/// A fresh random identifier, for a request or a consumer group.
pub fn new_random_id() -> (r: String)
    ensures
        is_request_id(r@),
{
    random_safe_id(REQUEST_ID_LEN)
}

} // verus!
