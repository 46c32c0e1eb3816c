//! Bearer-token checks for the admin API.
use vstd::prelude::*;

use crate::text::{chars_of, has_prefix, str_eq, str_starts_with, string_from_range};

verus! {

/// The header value that carries `token` under the Bearer scheme.
pub open spec fn bearer_value(token: Seq<char>) -> Seq<char> {
    "Bearer "@ + token
}

/// A header matches when it is present and is exactly `"Bearer "` followed by
/// the expected token.
pub open spec fn spec_bearer_matches(header: Option<&str>, expected: &str) -> bool {
    match header {
        Some(h) => h@ == bearer_value(expected@),
        None => false,
    }
}

/// Validates that the request carries the expected Bearer token.
pub fn bearer_matches(header: Option<&str>, expected: &str) -> (r: bool)
    ensures
        r == spec_bearer_matches(header, expected),
{
    match header {
        None => false,
        Some(h) => {
            proof {
                reveal_strlit("Bearer ");
            }
            if !str_starts_with(h, "Bearer ") {
                assert(!(h@ =~= bearer_value(expected@)) || has_prefix(h@, "Bearer "@)) by {
                    if h@ =~= bearer_value(expected@) {
                        assert(h@.subrange(0, 7) =~= "Bearer "@);
                    }
                };
                return false;
            }
            let cs = chars_of(h);
            let rest = string_from_range(&cs, 7, cs.len());
            let r = str_eq(rest.as_str(), expected);
            assert(h@ =~= "Bearer "@ + rest@);
            proof {
                if h@ == bearer_value(expected@) {
                    assert(rest@ =~= h@.subrange(7, h@.len() as int));
                    assert(rest@ =~= expected@);
                }
            }
            r
        },
    }
}

/// The admin middleware's decision: a request passes only when an admin
/// token is configured (non-empty) and the `Authorization` header matches it.
pub fn admin_authorized(expected: &str, header: Option<&str>) -> (r: bool)
    ensures
        r == (expected@.len() > 0 && spec_bearer_matches(header, expected)),
{
    if expected.is_empty() {
        return false;
    }
    bearer_matches(header, expected)
}

} // verus!
