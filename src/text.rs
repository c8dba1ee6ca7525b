//! String helpers: case folding of header names and the routing key.

use vstd::prelude::*;

verus! {

/// The lower-case form of `s`, as Unicode defines it.
pub uninterp spec fn lower_of(s: Seq<char>) -> Seq<char>;

/// Relies on str::to_lowercase: the result depends on the characters alone.
#[verifier::external_body]
pub(crate) fn to_lower(s: &str) -> (r: String)
    ensures
        r@ == lower_of(s@),
{
    s.to_lowercase()
}

/// The routing key of a request: the `Host` header value followed by the
/// request target, with no scheme.
pub fn compose_url(host: &str, target: &str) -> (r: String)
    ensures
        r@ == host@ + target@,
{
    let mut url = host.to_owned();
    url.append(target);
    url
}

} // verus!
