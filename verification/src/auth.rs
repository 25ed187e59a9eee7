//! Bearer tokens.

use vstd::prelude::*;
use vstd::string::*;
use vstd::utf8::*;

use crate::config::resolved;
use crate::error::{api_seen, unauthorized, ApiError, ApiErrorView};
use crate::text::{
    bytes_seen, is_blank, lemma_encoding_determines_text, same_text, str_seen, trim, trimmed,
    utf8_text,
};

verus! {

/// The bits in which two byte sequences of equal length differ anywhere: the
/// OR of the XORs of all pairs.
pub open spec fn all_differences(a: Seq<u8>, b: Seq<u8>) -> u8
    decreases a.len(),
{
    if a.len() == 0 {
        0
    } else {
        all_differences(a.drop_last(), b.drop_last()) | (a.last() ^ b.last())
    }
}

proof fn lemma_no_differences(a: Seq<u8>, b: Seq<u8>)
    requires
        a.len() == b.len(),
    ensures
        all_differences(a, b) == 0 <==> a == b,
    decreases a.len(),
{
    if a.len() > 0 {
        lemma_no_differences(a.drop_last(), b.drop_last());
        let acc = all_differences(a.drop_last(), b.drop_last());
        let x = a.last();
        let y = b.last();
        assert((acc | (x ^ y)) == 0 <==> acc == 0 && x == y) by (bit_vector);
        if a.drop_last() == b.drop_last() && x == y {
            assert(a =~= a.drop_last().push(x));
            assert(b =~= b.drop_last().push(y));
        }
    } else {
        assert(a =~= b);
    }
}

/// The bits in which two byte slices of equal length differ anywhere. Looks at
/// every byte, wherever they differ.
fn differences(a: &[u8], b: &[u8]) -> (acc: u8)
    requires
        a@.len() == b@.len(),
    ensures
        acc == all_differences(a@, b@),
{
    let mut acc: u8 = 0;
    let mut i: usize = 0;
    while i < a.len()
        invariant
            i <= a.len(),
            a@.len() == b@.len(),
            acc == all_differences(a@.take(i as int), b@.take(i as int)),
        decreases a.len() - i,
    {
        proof {
            assert(a@.take(i + 1).drop_last() =~= a@.take(i as int));
            assert(b@.take(i + 1).drop_last() =~= b@.take(i as int));
        }
        acc = acc | (a[i] ^ b[i]);
        i = i + 1;
    }
    assert(a@.take(i as int) =~= a@);
    assert(b@.take(i as int) =~= b@);
    acc
}

/// Whether two secrets are the same. Every byte of two secrets of equal length
/// counts, wherever they differ, so that the time taken says nothing of how
/// far a guess was right.
pub fn secret_eq(a: &str, b: &str) -> (r: bool)
    ensures
        r == (a@ == b@),
{
    proof {
        lemma_encoding_determines_text(a@, b@);
    }
    let a = a.as_bytes();
    let b = b.as_bytes();
    if a.len() != b.len() {
        return false;
    }
    proof {
        lemma_no_differences(a@, b@);
    }
    differences(a, b) == 0
}

/// Whether a request may pass, given the token that is expected, if any, and
/// what the request presents in its header and in its query.
pub open spec fn is_authorized(
    expected: Option<Seq<char>>,
    header: Option<Seq<char>>,
    query: Option<Seq<char>>,
) -> bool {
    match expected {
        None => true,
        Some(token) => match header {
            Some(presented) => presented == token,
            None => query == Some(token),
        },
    }
}

/// Decides whether a request is authorized.
///
/// `expected` is `None` where no token is configured, which is only possible
/// on a loopback listener. A header wins over the query, and a wrong header
/// does not fall through to the query: a client that presents a credential is
/// judged on the one that it presented.
pub fn authorize(expected: Option<&str>, header: Option<&str>, query: Option<&str>) -> (r: bool)
    ensures
        r == is_authorized(str_seen(expected), str_seen(header), str_seen(query)),
{
    match expected {
        None => true,
        Some(token) => match header {
            Some(presented) => secret_eq(presented, token),
            None => match query {
                Some(presented) => secret_eq(presented, token),
                None => false,
            },
        },
    }
}

/// Whether a byte of a header value is visible ASCII, a space or a tab.
pub open spec fn is_visible(b: u8) -> bool {
    32 <= b < 127 || b == 9
}

/// The text of a header value. Only visible ASCII counts as text.
pub open spec fn header_text(value: Seq<u8>) -> Option<Seq<char>> {
    if forall|i: int| 0 <= i < value.len() ==> is_visible(#[trigger] value[i]) {
        Some(ascii_text(value))
    } else {
        None
    }
}

/// The text whose characters have the given codes.
pub open spec fn ascii_text(bytes: Seq<u8>) -> Seq<char> {
    Seq::new(bytes.len(), |i: int| bytes[i] as char)
}

/// The token in an `Authorization` header: what follows `Bearer `, trimmed.
pub open spec fn bearer_token(value: Option<Seq<u8>>) -> Option<Seq<char>> {
    match value {
        None => None,
        Some(bytes) => match header_text(bytes) {
            None => None,
            Some(text) => if "Bearer "@.is_prefix_of(text) {
                Some(trim(text.skip("Bearer "@.len() as int)))
            } else {
                None
            },
        },
    }
}

proof fn lemma_ascii_text(bytes: Seq<u8>)
    requires
        forall|i: int| 0 <= i < bytes.len() ==> #[trigger] bytes[i] < 128,
    ensures
        valid_utf8(bytes),
        decode_utf8(bytes) == ascii_text(bytes),
        is_ascii_chars(ascii_text(bytes)),
{
    let chars = ascii_text(bytes);
    assert forall|i: int| 0 <= i < chars.len() implies '\0' <= #[trigger] chars[i] <= '\u{7f}' by {
        assert(bytes[i] < 128);
    }
    is_ascii_chars_encode_utf8(chars);
    assert(encode_utf8(chars) =~= bytes);
    encode_utf8_valid_utf8(chars);
    encode_utf8_decode_utf8(chars);
}

/// Takes the token out of the value of an `Authorization` header.
pub fn bearer(value: Option<&[u8]>) -> (r: Option<&str>)
    ensures
        str_seen(r) == bearer_token(bytes_seen(value)),
{
    let bytes = match value {
        Some(bytes) => bytes,
        None => return None,
    };
    let mut i: usize = 0;
    while i < bytes.len()
        invariant
            i <= bytes.len(),
            value == Some(bytes),
            forall|j: int| 0 <= j < i ==> is_visible(#[trigger] bytes@[j]),
        decreases bytes.len() - i,
    {
        let b: u8 = bytes[i];
        if !(b == 9 || (b >= 32 && b < 127)) {
            assert(!is_visible(bytes@[i as int]));
            return None;
        }
        i = i + 1;
    }
    proof {
        assert forall|j: int| 0 <= j < bytes@.len() implies #[trigger] bytes@[j] < 128 by {
            assert(is_visible(bytes@[j]));
        }
        lemma_ascii_text(bytes@);
        reveal_strlit("Bearer ");
    }
    let text = match utf8_text(bytes) {
        Some(text) => text,
        None => return None,
    };
    if bytes.len() < 7 {
        return None;
    }
    if !same_text(text.substring_ascii(0, 7), "Bearer ") {
        proof {
            if "Bearer "@.is_prefix_of(text@) {
                assert(text@.subrange(0, 7) =~= "Bearer "@);
            }
        }
        return None;
    }
    assert("Bearer "@.is_prefix_of(text@));
    let rest = text.substring_ascii(7, bytes.len());
    assert(rest@ =~= text@.skip(7));
    Some(trimmed(rest))
}

/// Refuses a request that is not authorized.
pub fn check_auth(
    token: Option<&str>,
    authorization: Option<&[u8]>,
    query_token: Option<&str>,
) -> (r: Result<(), ApiError>)
    ensures
        api_seen(r) == auth_verdict(
            str_seen(token),
            bytes_seen(authorization),
            str_seen(query_token),
        ),
{
    if authorize(token, bearer(authorization), query_token) {
        Ok(())
    } else {
        Err(ApiError::unauthorized())
    }
}

/// What becomes of a request, given the configured token, the value of its
/// `Authorization` header and the token in its query.
pub open spec fn auth_verdict(
    token: Option<Seq<char>>,
    authorization: Option<Seq<u8>>,
    query_token: Option<Seq<char>>,
) -> Result<(), ApiErrorView> {
    if is_authorized(token, bearer_token(authorization), query_token) {
        Ok(())
    } else {
        Err(unauthorized())
    }
}

/// A header wins over the query: with a token in the header, what the query
/// holds changes nothing.
pub proof fn a_header_is_judged_alone(
    expected: Option<Seq<char>>,
    header: Seq<char>,
    query: Option<Seq<char>>,
)
    ensures
        is_authorized(expected, Some(header), query) == is_authorized(expected, Some(header), None),
{
}

/// Where no token is configured, whatever a request presents lets it pass.
pub proof fn without_a_token_everyone_passes(header: Option<Seq<char>>, query: Option<Seq<char>>)
    ensures
        is_authorized(None, header, query),
{
}

/// A header carries a token exactly if it is visible ASCII throughout, spaces
/// and tabs included, and begins with `Bearer` and a space, letter for letter.
/// The token is what follows, without white space around it.
pub proof fn only_the_bearer_scheme_carries_a_token(value: Seq<u8>)
    ensures
        ({
            let scheme = seq![66u8, 101u8, 97u8, 114u8, 101u8, 114u8, 32u8];
            let visible = forall|i: int|
                0 <= i < value.len() ==> (32 <= #[trigger] value[i] <= 126 || value[i] == 9);
            &&& bearer_token(Some(value)) is Some <==> visible && value.len() >= 7 && value.take(7)
                == scheme
            &&& bearer_token(Some(value)) matches Some(token) ==> token == trim(
                Seq::new((value.len() - 7) as nat, |i: int| value[i + 7] as char),
            )
            &&& bearer_token(None) is None
        }),
{
    reveal_strlit("Bearer ");
    let scheme = seq![66u8, 101u8, 97u8, 114u8, 101u8, 114u8, 32u8];
    let visible = forall|i: int|
        0 <= i < value.len() ==> (32 <= #[trigger] value[i] <= 126 || value[i] == 9);
    assert(visible <==> header_text(value) is Some) by {
        if visible {
            assert forall|i: int| 0 <= i < value.len() implies is_visible(#[trigger] value[i]) by {}
        }
        if header_text(value) is Some {
            assert forall|i: int| 0 <= i < value.len() implies (32 <= #[trigger] value[i] <= 126
                || value[i] == 9) by {
                assert(is_visible(value[i]));
            }
        }
    }
    let text = ascii_text(value);
    if value.len() >= 7 {
        if value.take(7) == scheme {
            assert forall|i: int| 0 <= i < 7 implies text[i] == "Bearer "@[i] by {
                assert(value[i] == value.take(7)[i]);
            }
            assert(text.subrange(0, 7) =~= "Bearer "@);
        }
        if "Bearer "@.is_prefix_of(text) {
            assert forall|i: int| 0 <= i < 7 implies value[i] == scheme[i] by {
                assert(text[i] == text.subrange(0, 7)[i]);
                assert(text[i] == "Bearer "@[i]);
            }
            assert(value.take(7) =~= scheme);
        }
        assert(text.skip(7) =~= Seq::new(
            (value.len() - 7) as nat,
            |i: int| value[i + 7] as char,
        ));
    }
}

/// A configured token lets a request pass exactly if the request presents
/// that very token, in its header, or in its query where the header has none.
pub proof fn a_token_is_required(
    token: Seq<char>,
    header: Option<Seq<char>>,
    query: Option<Seq<char>>,
)
    ensures
        is_authorized(Some(token), header, query) <==> header == Some(token) || (header is None
            && query == Some(token)),
        !is_authorized(Some(token), None, None),
{
}

proof fn lemma_sent_token(token: Seq<u8>)
    requires
        forall|i: int| 0 <= i < token.len() ==> is_visible(#[trigger] token[i]),
    ensures
        bearer_token(Some(encode_utf8("Bearer "@) + token)) == Some(trim(ascii_text(token))),
{
    reveal_strlit("Bearer ");
    let scheme = encode_utf8("Bearer "@);
    assert(is_ascii_chars("Bearer "@));
    is_ascii_chars_encode_utf8("Bearer "@);
    let value = scheme + token;
    assert forall|i: int| 0 <= i < value.len() implies is_visible(#[trigger] value[i]) by {
        if i < 7 {
            assert("Bearer "@[i] as u8 == scheme[i]);
        } else {
            assert(value[i] == token[i - 7]);
        }
    }
    let text = ascii_text(value);
    assert(text.take(7) =~= "Bearer "@) by {
        assert forall|i: int| 0 <= i < 7 implies text[i] == "Bearer "@[i] by {
            assert("Bearer "@[i] as u8 == scheme[i]);
        }
    }
    assert("Bearer "@.is_prefix_of(text));
    assert(text.skip(7) =~= ascii_text(token));
}

/// A token of visible ASCII, as it stands in the settings, is accepted when it
/// is sent as `Authorization: Bearer <token>`, whatever white space surrounds
/// it and whatever the query holds.
pub proof fn a_sent_token_is_accepted(
    port: u16,
    token: Seq<u8>,
    allow_lan: bool,
    query: Option<Seq<char>>,
)
    requires
        forall|i: int| 0 <= i < token.len() ==> is_visible(#[trigger] token[i]),
        resolved(port, Some(ascii_text(token)), allow_lan) is Ok,
    ensures
        auth_verdict(
            resolved(port, Some(ascii_text(token)), allow_lan)->Ok_0.token,
            Some(encode_utf8("Bearer "@) + token),
            query,
        ) is Ok,
{
    lemma_sent_token(token);
}

/// Another token of visible ASCII, which differs from the one in the settings
/// in more than the white space around it, is refused when it is sent as
/// `Authorization: Bearer <token>`, whatever the query holds.
pub proof fn another_token_is_refused(
    port: u16,
    token: Seq<char>,
    allow_lan: bool,
    other: Seq<u8>,
    query: Option<Seq<char>>,
)
    requires
        forall|i: int| 0 <= i < other.len() ==> is_visible(#[trigger] other[i]),
        resolved(port, Some(token), allow_lan) is Ok,
        !is_blank(token),
        trim(ascii_text(other)) != trim(token),
    ensures
        auth_verdict(
            resolved(port, Some(token), allow_lan)->Ok_0.token,
            Some(encode_utf8("Bearer "@) + other),
            query,
        ) == Err::<(), ApiErrorView>(unauthorized()),
{
    lemma_sent_token(other);
}

} // verus!
