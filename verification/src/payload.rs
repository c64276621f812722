//! What a page writes about its tools, as it goes to the viewers.
//!
//! The input, the output and the error text of a tool are written by the page. They
//! are passed on as opaque text, and cut to a limit, since every message goes to
//! every viewer.

use vstd::prelude::*;
use vstd::utf8::{
    decode_utf8,
    decode_utf8_encode_utf8,
    decode_utf8_split,
    encode_scalar,
    encode_utf8,
    encode_utf8_decode_utf8,
    encode_utf8_first_scalar,
    encode_utf8_valid_utf8,
    is_char_boundary,
    pop_first_scalar,
    valid_utf8_split,
};

use crate::json::Json;
use crate::json::JsonView;
use crate::value::render;
use crate::value::json_text;
use crate::text::same_text;

verus! {

/// The most bytes of one payload that go to the viewers.
pub const WEBMCP_PAYLOAD_LIMIT: usize = 16 * 1024;

/// The number of bytes of a text in UTF-8.
pub open spec fn byte_len(text: Seq<char>) -> nat {
    encode_utf8(text).len()
}

/// How many leading characters of a text fit into a number of bytes.
pub open spec fn chars_that_fit(text: Seq<char>, limit: int) -> nat
    decreases text.len(),
{
    if text.len() == 0 || byte_len(text.take(1)) > limit {
        0
    } else {
        1 + chars_that_fit(text.drop_first(), limit - byte_len(text.take(1)))
    }
}

/// The longest leading part of a payload, in whole characters, within the limit.
pub open spec fn truncated(text: Seq<char>) -> Seq<char> {
    text.take(chars_that_fit(text, WEBMCP_PAYLOAD_LIMIT as int) as int)
}

/// Whether a payload is too long to go out whole.
pub open spec fn is_oversized(text: Seq<char>) -> bool {
    byte_len(text) > WEBMCP_PAYLOAD_LIMIT
}

proof fn lemma_encode_single(text: Seq<char>)
    requires
        text.len() > 0,
    ensures
        encode_utf8(text.take(1)) == encode_scalar(text[0] as u32),
        1 <= encode_scalar(text[0] as u32).len() <= 4,
        encode_utf8(text) == encode_utf8(text.take(1)) + encode_utf8(text.drop_first()),
        byte_len(text) == byte_len(text.take(1)) + byte_len(text.drop_first()),
{
    let one = text.take(1);
    assert(one.drop_first() =~= Seq::<char>::empty());
    assert(encode_utf8(one.drop_first()) =~= Seq::<u8>::empty());
    assert(encode_utf8(one) =~= encode_scalar(text[0] as u32));
}

/// The bytes of a text are those of a leading part followed by those of the rest.
pub proof fn lemma_encode_split(text: Seq<char>, n: int)
    requires
        0 <= n <= text.len(),
    ensures
        encode_utf8(text) == encode_utf8(text.take(n)) + encode_utf8(text.skip(n)),
    decreases n,
{
    if n == 0 {
        assert(text.take(0) =~= Seq::<char>::empty());
        assert(text.skip(0) =~= text);
        assert(encode_utf8(text.take(0)) =~= Seq::<u8>::empty());
        assert(encode_utf8(text) =~= encode_utf8(text.take(n)) + encode_utf8(text.skip(n)));
    } else {
        let rest = text.drop_first();
        lemma_encode_split(rest, n - 1);
        lemma_encode_single(text);
        lemma_encode_single(text.take(n));
        assert(text.take(n).take(1) =~= text.take(1));
        assert(text.take(n).drop_first() =~= rest.take(n - 1));
        assert(text.skip(n) =~= rest.skip(n - 1));
        assert(encode_utf8(text) =~= encode_utf8(text.take(n)) + encode_utf8(text.skip(n)));
    }
}

/// A longer leading part has more bytes.
proof fn lemma_byte_len_grows(text: Seq<char>, m: int, n: int)
    requires
        0 <= m < n <= text.len(),
    ensures
        byte_len(text.take(m)) < byte_len(text.take(n)),
{
    lemma_encode_split(text.take(n), m);
    assert(text.take(n).take(m) =~= text.take(m));
    lemma_encode_single(text.take(n).skip(m));
}

/// Every leading part of a text ends at a character boundary.
proof fn lemma_prefix_is_boundary(text: Seq<char>, n: int)
    requires
        0 <= n <= text.len(),
    ensures
        is_char_boundary(encode_utf8(text), byte_len(text.take(n)) as int),
    decreases n,
{
    encode_utf8_valid_utf8(text);
    if n == 0 {
        assert(text.take(0) =~= Seq::<char>::empty());
    } else {
        let rest = text.drop_first();
        lemma_prefix_is_boundary(rest, n - 1);
        lemma_encode_single(text);
        lemma_encode_single(text.take(n));
        assert(text.take(n).take(1) =~= text.take(1));
        assert(text.take(n).drop_first() =~= rest.take(n - 1));
        lemma_encode_split(text, n);
        encode_utf8_first_scalar(text);
        assert(pop_first_scalar(encode_utf8(text)) =~= encode_utf8(rest));
    }
}

/// Every character boundary ends a leading part of the text.
proof fn lemma_boundary_is_prefix(text: Seq<char>, index: int) -> (n: int)
    requires
        0 <= index <= byte_len(text),
        is_char_boundary(encode_utf8(text), index),
    ensures
        0 <= n <= text.len(),
        encode_utf8(text.take(n)) == encode_utf8(text).subrange(0, index),
        decode_utf8(encode_utf8(text).subrange(0, index)) == text.take(n),
        byte_len(text.take(n)) == index,
{
    let bytes = encode_utf8(text);
    encode_utf8_valid_utf8(text);
    encode_utf8_decode_utf8(text);
    valid_utf8_split(bytes, index);
    decode_utf8_split(bytes, index);
    let head = decode_utf8(bytes.subrange(0, index));
    decode_utf8_encode_utf8(bytes.subrange(0, index));
    assert(text.take(head.len() as int) =~= head);
    head.len() as int
}

/// The count of characters that fit, told by the byte lengths of leading parts.
proof fn lemma_chars_that_fit(text: Seq<char>, limit: int, n: int)
    requires
        0 <= n <= text.len(),
        byte_len(text.take(n)) <= limit,
        n < text.len() ==> byte_len(text.take(n + 1)) > limit,
    ensures
        chars_that_fit(text, limit) == n,
    decreases text.len(),
{
    if n == 0 {
    } else {
        let rest = text.drop_first();
        lemma_encode_single(text);
        lemma_encode_single(text.take(n));
        assert(text.take(n).take(1) =~= text.take(1));
        assert(text.take(n).drop_first() =~= rest.take(n - 1));
        if n < text.len() {
            lemma_encode_single(text.take(n + 1));
            assert(text.take(n + 1).take(1) =~= text.take(1));
            assert(text.take(n + 1).drop_first() =~= rest.take(n));
        }
        lemma_chars_that_fit(rest, limit - byte_len(text.take(1)), n - 1);
    }
}

/// Cuts a payload to the limit, at a character boundary, and says whether anything
/// was dropped.
pub fn truncate_payload(text: String) -> (cut: (String, bool))
    ensures
        cut.0@ == truncated(text@),
        cut.1 == is_oversized(text@),
{
    let bytes = text.as_str().as_bytes();
    if bytes.len() <= WEBMCP_PAYLOAD_LIMIT {
        proof {
            assert(text@.take(text@.len() as int) =~= text@);
            lemma_chars_that_fit(text@, WEBMCP_PAYLOAD_LIMIT as int, text@.len() as int);
        }
        return (text, false);
    }
    let mut end: usize = WEBMCP_PAYLOAD_LIMIT;
    let slice: &str = text.as_str();
    proof {
        encode_utf8_valid_utf8(text@);
    }
    while end > 0 && !slice.is_char_boundary(end)
        invariant
            end <= WEBMCP_PAYLOAD_LIMIT,
            WEBMCP_PAYLOAD_LIMIT < byte_len(text@),
            slice@ == text@,
            forall|i: int|
                end < i <= WEBMCP_PAYLOAD_LIMIT ==> !is_char_boundary(encode_utf8(text@), i),
        decreases end,
    {
        end -= 1;
    }
    proof {
        encode_utf8_valid_utf8(text@);
        assert(is_char_boundary(encode_utf8(text@), end as int));
    }
    let (head, _tail) = slice.split_at(end);
    proof {
        let n = lemma_boundary_is_prefix(text@, end as int);
        encode_utf8_decode_utf8(head@);
        if n < text@.len() {
            lemma_prefix_is_boundary(text@, n + 1);
            lemma_byte_len_grows(text@, n, n + 1);
        }
        lemma_chars_that_fit(text@, WEBMCP_PAYLOAD_LIMIT as int, n);
    }
    (head.to_owned(), true)
}

/// The status of a finished invocation, as it goes to the viewers. The protocol's set
/// of statuses may grow: one that is not known is `unknown`, which is not the same
/// fact as a tool that failed.
pub open spec fn status_token(raw: Seq<char>) -> Seq<char> {
    if raw == "Completed"@ {
        "completed"@
    } else if raw == "Canceled"@ {
        "canceled"@
    } else if raw == "Error"@ {
        "error"@
    } else {
        "unknown"@
    }
}

/// Turns the protocol's status of an invocation into the token for the viewers.
pub fn webmcp_status(raw: &str) -> (token: &'static str)
    ensures
        token@ == status_token(raw@),
{
    if same_text(raw, "Completed") {
        "completed"
    } else if same_text(raw, "Canceled") {
        "canceled"
    } else if same_text(raw, "Error") {
        "error"
    } else {
        "unknown"
    }
}

/// A text, unless it is empty.
pub open spec fn non_empty(text: Option<Seq<char>>) -> Option<Seq<char>> {
    match text {
        Some(text) if text.len() > 0 => Some(text),
        _ => None,
    }
}

/// Why an invocation failed: the error text of the response, or else the description
/// of the exception that the tool threw. An empty text is none.
pub open spec fn error_text(params: JsonView) -> Option<Seq<char>> {
    match non_empty(params.text_at("errorText"@)) {
        Some(text) => Some(text),
        None => match params.get("exception"@) {
            Some(exception) => non_empty(exception.text_at("description"@)),
            None => None,
        },
    }
}

/// Finds why an invocation failed, in the parameters of its response.
pub fn webmcp_error_text(params: &Json) -> (text: Option<String>)
    ensures
        text.deep_view() == error_text(params@),
{
    if let Some(text) = params.text_at("errorText") {
        if !text.is_empty() {
            return Some(text.to_owned());
        }
    }
    if let Some(exception) = params.get("exception") {
        if let Some(description) = exception.text_at("description") {
            if !description.is_empty() {
                return Some(description.to_owned());
            }
        }
    }
    None
}

/// A value written by the page, as text: a string as it is, anything else as JSON.
pub open spec fn payload_text(value: JsonView) -> Seq<char> {
    match value {
        JsonView::Text(text) => text,
        other => json_text(other),
    }
}

/// Turns a value written by the page into text.
pub fn webmcp_payload_text(value: &Json) -> (text: String)
    ensures
        text@ == payload_text(value@),
{
    match value.as_str() {
        Some(text) => text.to_owned(),
        None => render(value),
    }
}

/// A payload within the limit goes out as it is.
pub proof fn law_short_payloads_are_untouched(text: Seq<char>)
    requires
        !is_oversized(text),
    ensures
        truncated(text) == text,
{
    assert(text.take(text.len() as int) =~= text);
    lemma_chars_that_fit(text, WEBMCP_PAYLOAD_LIMIT as int, text.len() as int);
}

/// What goes out of a payload is a leading part of it, in whole characters and within
/// the limit; it is shorter than the payload exactly where the payload is flagged, and
/// one more character would not have fitted.
pub proof fn law_truncation_is_the_longest_fit(text: Seq<char>)
    ensures
        truncated(text).is_prefix_of(text),
        byte_len(truncated(text)) <= WEBMCP_PAYLOAD_LIMIT,
        is_oversized(text) <==> truncated(text) != text,
        forall|longer: Seq<char>|
            #![trigger byte_len(longer)]
            longer.is_prefix_of(text) && longer.len() > truncated(text).len() ==> byte_len(longer)
                > WEBMCP_PAYLOAD_LIMIT,
{
    let limit = WEBMCP_PAYLOAD_LIMIT as int;
    lemma_fit_bounds(text, limit);
    let n = chars_that_fit(text, limit) as int;
    assert(text.take(text.len() as int) =~= text);
    if !is_oversized(text) {
        law_short_payloads_are_untouched(text);
    }
    assert forall|longer: Seq<char>|
        #![trigger byte_len(longer)]
        longer.is_prefix_of(text) && longer.len() > truncated(text).len() implies byte_len(longer)
        > limit by {
        assert(longer =~= text.take(longer.len() as int));
        if longer.len() > n + 1 {
            lemma_byte_len_grows(text, n + 1, longer.len() as int);
        }
    }
}

/// Cutting a payload that was cut before changes nothing.
pub proof fn law_truncation_is_idempotent(text: Seq<char>)
    ensures
        truncated(truncated(text)) == truncated(text),
        !is_oversized(truncated(text)),
{
    law_truncation_is_the_longest_fit(text);
    law_short_payloads_are_untouched(truncated(text));
}

/// A cut loses less than one character's worth of the limit: at most three bytes stay
/// unused.
pub proof fn law_truncation_wastes_little(text: Seq<char>)
    requires
        is_oversized(text),
    ensures
        byte_len(truncated(text)) + 4 > WEBMCP_PAYLOAD_LIMIT,
{
    let limit = WEBMCP_PAYLOAD_LIMIT as int;
    lemma_fit_bounds(text, limit);
    let n = chars_that_fit(text, limit) as int;
    assert(text.take(text.len() as int) =~= text);
    let longer = text.take(n + 1);
    lemma_encode_split(longer, n);
    assert(longer.take(n) =~= text.take(n));
    let last = longer.skip(n);
    lemma_encode_single(last);
    assert(last.take(1) =~= last);
}

/// The count of characters that fit is within the text; so many fit, and one more does
/// not.
proof fn lemma_fit_bounds(text: Seq<char>, limit: int)
    requires
        limit >= 0,
    ensures
        chars_that_fit(text, limit) <= text.len(),
        byte_len(text.take(chars_that_fit(text, limit) as int)) <= limit,
        chars_that_fit(text, limit) < text.len() ==> byte_len(
            text.take(chars_that_fit(text, limit) as int + 1),
        ) > limit,
    decreases text.len(),
{
    let n = chars_that_fit(text, limit) as int;
    if n == 0 {
        assert(text.take(0) =~= Seq::<char>::empty());
        assert(encode_utf8(text.take(0)) =~= Seq::<u8>::empty());
    } else {
        let rest = text.drop_first();
        lemma_fit_bounds(rest, limit - byte_len(text.take(1)));
        lemma_encode_single(text.take(n));
        assert(text.take(n).take(1) =~= text.take(1));
        assert(text.take(n).drop_first() =~= rest.take(n - 1));
        if n < text.len() {
            lemma_encode_single(text.take(n + 1));
            assert(text.take(n + 1).take(1) =~= text.take(1));
            assert(text.take(n + 1).drop_first() =~= rest.take(n));
        }
    }
}

/// Only a status that the protocol calls an error is reported as one.
pub proof fn law_only_errors_are_errors(raw: Seq<char>)
    ensures
        status_token(raw) == "error"@ <==> raw == "Error"@,
        status_token(raw) == "unknown"@ <==> raw != "Completed"@ && raw != "Canceled"@ && raw
            != "Error"@,
{
    reveal_strlit("Completed");
    reveal_strlit("Canceled");
    reveal_strlit("Error");
    reveal_strlit("completed");
    reveal_strlit("canceled");
    reveal_strlit("error");
    reveal_strlit("unknown");
    assert("completed"@.len() == 9 && "canceled"@.len() == 8 && "error"@.len() == 5
        && "unknown"@.len() == 7);
    assert("Completed"@.len() == 9 && "Canceled"@.len() == 8 && "Error"@.len() == 5);
}

/// Each status of the protocol has a token of its own, and every other one is unknown.
pub proof fn law_each_status_has_its_token(raw: Seq<char>)
    ensures
        raw == "Completed"@ ==> status_token(raw) == "completed"@,
        raw == "Canceled"@ ==> status_token(raw) == "canceled"@,
        raw == "Error"@ ==> status_token(raw) == "error"@,
        raw != "Completed"@ && raw != "Canceled"@ && raw != "Error"@ ==> status_token(raw)
            == "unknown"@,
{
    reveal_strlit("Completed");
    reveal_strlit("Canceled");
    reveal_strlit("Error");
    assert("Completed"@.len() == 9 && "Canceled"@.len() == 8 && "Error"@.len() == 5);
}

/// An error text that is there and not empty is why an invocation failed, whatever else
/// the response holds.
pub proof fn law_an_error_text_comes_first(params: JsonView, text: Seq<char>)
    requires
        params.get("errorText"@) == Some(JsonView::Text(text)),
        text.len() > 0,
    ensures
        error_text(params) == Some(text),
{
}

/// Without an error text, the description of the exception is why an invocation failed;
/// an empty one, or one that is no text, is none.
pub proof fn law_an_exception_comes_second(params: JsonView)
    requires
        match params.get("errorText"@) {
            Some(JsonView::Text(text)) => text.len() == 0,
            _ => true,
        },
    ensures
        match params.get("exception"@) {
            Some(exception) => match exception.get("description"@) {
                Some(JsonView::Text(text)) => if text.len() > 0 {
                    error_text(params) == Some(text)
                } else {
                    error_text(params) is None
                },
                _ => error_text(params) is None,
            },
            None => error_text(params) is None,
        },
{
}

/// A string goes out as it is, and anything else as its JSON text.
pub proof fn law_strings_stay_verbatim(value: JsonView, text: Seq<char>)
    ensures
        payload_text(JsonView::Text(text)) == text,
        !(value is Text) ==> payload_text(value) == json_text(value),
{
}

/// The limit is sixteen kibibytes of UTF-8: a payload of so many goes out whole, of a
/// longer one the longest leading part that is no longer.
pub proof fn law_the_limit_is_in_bytes(text: Seq<char>, part: Seq<char>)
    requires
        part.is_prefix_of(text),
    ensures
        is_oversized(text) <==> encode_utf8(text).len() > 16384,
        encode_utf8(text).len() <= 16384 ==> truncated(text) == text,
        truncated(text).is_prefix_of(text),
        encode_utf8(truncated(text)).len() <= 16384,
        encode_utf8(part).len() <= 16384 ==> part.len() <= truncated(text).len(),
{
    law_truncation_is_the_longest_fit(text);
    assert(byte_len(part) == encode_utf8(part).len());
}

} // verus!
