//! The shared-secret guard in front of the healing routes.

use vstd::prelude::*;

use crate::config::str_view;
use crate::text::{trim, trimmed, without_prefix};

verus! {

/// What stands before the token in an `Authorization` header.
pub const BEARER_PREFIX: &'static str = "Bearer ";

/// Whether two byte strings are the same. Looks at every byte of `a` whatever it finds,
/// and at a difference in length no sooner than at any other, so that the time it takes
/// depends on `a` alone and tells neither where the two first differ nor how long `b` is.
pub fn ct_eq(a: &[u8], b: &[u8]) -> (answer: bool)
    ensures
        answer == (a@ == b@),
{
    let mut diff: u8 = if a.len() == b.len() {
        0
    } else {
        1
    };
    let mut i: usize = 0;
    while i < a.len()
        invariant
            i <= a.len(),
            diff == 0 <==> a.len() == b.len() && forall|j: int| 0 <= j < i ==> a@[j] == b@[j],
        decreases a.len() - i,
    {
        let x: u8 = a[i];
        let y: u8 = if i < b.len() {
            b[i]
        } else {
            0
        };
        let before: u8 = diff;
        diff = before | (x ^ y);
        proof {
            assert((before | (x ^ y)) == 0 <==> before == 0 && x == y) by (bit_vector);
            if diff == 0 {
                assert forall|j: int| 0 <= j < i + 1 implies a@[j] == b@[j] by {}
            } else if a.len() == b.len() && forall|j: int| 0 <= j < i + 1 ==> a@[j] == b@[j] {
                assert(a@[i as int] == b@[i as int]);
            }
        }
        i = i + 1;
    }
    proof {
        if diff == 0 {
            assert(a@ == b@);
        }
    }
    diff == 0
}

/// Whether a token that was presented is accepted. One has to be expected, it must
/// not be empty, and the two have to be the same.
pub open spec fn admitted(provided: Option<Seq<char>>, expected: Option<Seq<char>>) -> bool {
    &&& expected is Some
    &&& expected->0.len() > 0
    &&& provided == expected
}

/// Whether `provided` is accepted where the token is `expected`.
pub fn bearer_ok(provided: Option<&str>, expected: Option<&str>) -> (answer: bool)
    ensures
        answer == admitted(str_view(provided), str_view(expected)),
{
    match expected {
        None => false,
        Some(wanted) => {
            if wanted.is_empty() {
                return false;
            }
            let given: &str = match provided {
                Some(p) => p,
                None => "",
            };
            proof {
                reveal_strlit("");
                vstd::utf8::encode_utf8_decode_utf8(given@);
                vstd::utf8::encode_utf8_decode_utf8(wanted@);
                assert(""@ != wanted@);
            }
            ct_eq(given.as_bytes(), wanted.as_bytes())
        },
    }
}

/// The token in the value of an `Authorization` header.
pub open spec fn token_in(header: Seq<char>) -> Option<Seq<char>> {
    if BEARER_PREFIX@.is_prefix_of(header) {
        Some(header.skip(BEARER_PREFIX@.len() as int))
    } else {
        None
    }
}

/// The token in the value of an `Authorization` header.
pub fn bearer_token(header: &str) -> (token: Option<&str>)
    ensures
        str_view(token) == token_in(header@),
{
    let token: Option<&str> = without_prefix(header, BEARER_PREFIX);
    proof {
        if let Some(t) = token {
            assert(BEARER_PREFIX@.is_prefix_of(header@));
            assert(t@ =~= header@.skip(BEARER_PREFIX@.len() as int));
        }
    }
    token
}

/// Whether a request with this `Authorization` header, where it has one, passes.
pub open spec fn passes(header: Option<Seq<char>>, expected: Option<Seq<char>>) -> bool {
    match header {
        Some(h) => admitted(token_in(h), expected),
        None => false,
    }
}

/// Whether a request with this `Authorization` header, where it has one, passes the
/// guard that expects `expected`.
pub fn require_healing_token(header: Option<&str>, expected: Option<&str>) -> (answer: bool)
    ensures
        answer == passes(str_view(header), str_view(expected)),
{
    let provided: Option<&str> = match header {
        Some(h) => bearer_token(h),
        None => None,
    };
    bearer_ok(provided, expected)
}

/// The token that a setting asks for: none where it is not set or blank.
pub open spec fn expected_token(setting: Option<Seq<char>>) -> Option<Seq<char>> {
    match setting {
        Some(s) => if trimmed(s).len() > 0 {
            Some(trimmed(s))
        } else {
            None
        },
        None => None,
    }
}

/// The token that a setting asks for, without white space at its edges.
pub fn resolve_token(setting: Option<&str>) -> (token: Option<String>)
    ensures
        crate::contracts::text_view(token) == expected_token(str_view(setting)),
{
    match setting {
        Some(s) => {
            let token: &str = trim(s);
            if token.is_empty() {
                None
            } else {
                Some(token.to_owned())
            }
        },
        None => None,
    }
}

/// The guard fails closed. Where no token is set, or a blank one, no request passes.
pub proof fn law_guard_fails_closed(header: Option<Seq<char>>, setting: Option<Seq<char>>)
    requires
        expected_token(setting) is None,
    ensures
        !passes(header, expected_token(setting)),
{
}

/// Where a token is set just the requests pass that carry it behind the prefix.
pub proof fn law_guard_opens_for_the_token(
    header: Seq<char>,
    setting: Option<Seq<char>>,
    token: Seq<char>,
)
    requires
        expected_token(setting) == Some(token),
    ensures
        passes(Some(header), Some(token)) <==> header == BEARER_PREFIX@ + token,
        !passes(None, Some(token)),
{
    let n = BEARER_PREFIX@.len() as int;
    if passes(Some(header), Some(token)) {
        assert(header =~= BEARER_PREFIX@ + header.skip(n));
    }
    if header == BEARER_PREFIX@ + token {
        assert(BEARER_PREFIX@.is_prefix_of(header));
        assert(header.skip(n) =~= token);
    }
}

/// A guard that expects a token that is not empty accepts that token and no other; one that
/// expects none, or an empty one, accepts nothing.
pub proof fn law_one_token_is_accepted(
    provided: Option<Seq<char>>,
    token: Seq<char>,
    other: Seq<char>,
)
    ensures
        token.len() > 0 ==> admitted(Some(token), Some(token)),
        token != other ==> !admitted(Some(other), Some(token)),
        !admitted(None, Some(token)),
        token.len() == 0 ==> !admitted(provided, Some(token)),
        !admitted(provided, None),
{
}

/// A header carries the token that stands behind `Bearer` and a blank, to the letter, and
/// none where it does not begin so.
pub proof fn law_header_carries_its_token(header: Seq<char>, token: Seq<char>)
    ensures
        token_in("Bearer "@ + token) == Some(token),
        token_in(header) matches Some(t) ==> header == "Bearer "@ + t,
        token_in(header) is None <==> !"Bearer "@.is_prefix_of(header),
{
    let n = BEARER_PREFIX@.len() as int;
    assert(BEARER_PREFIX@.is_prefix_of("Bearer "@ + token));
    assert(("Bearer "@ + token).skip(n) =~= token);
    if token_in(header) is Some {
        assert(header =~= "Bearer "@ + header.skip(n));
    }
}

/// The token that is set is the setting without white space at its edges, and none where
/// that leaves nothing.
pub proof fn law_token_is_set_without_its_edges(setting: Seq<char>)
    ensures
        expected_token(None) is None,
        expected_token(Some(setting)) matches Some(token) ==> token == trimmed(setting)
            && token.len() > 0,
        expected_token(Some(setting)) is None <==> forall|k: int|
            0 <= k < setting.len() ==> crate::text::is_white_space(#[trigger] setting[k]),
{
    crate::text::law_blank_is_all_white_space(setting);
}

} // verus!
