//! The calls into other crates and into the clock, each with the contract that the rest of the
//! library relies on. Nothing in this module is proved.
use base64::engine::general_purpose::STANDARD;
use base64::Engine;
use reqwest::header::{HeaderValue, InvalidHeaderValue};
use reqwest::StatusCode;
use std::time::{Duration, Instant};
use vstd::prelude::*;
use vstd::utf8::encode_utf8;

verus! {

/// A point on the machine's monotonic clock.
#[verifier::external_type_specification]
#[verifier::external_body]
pub struct ExInstant(Instant);

/// The error of `HeaderValue::from_str`.
#[verifier::external_type_specification]
#[verifier::external_body]
pub struct ExInvalidHeaderValue(InvalidHeaderValue);

/// `Instant::now`: some point in time, of which nothing is claimed.
pub assume_specification[ Instant::now ]() -> Instant;

/// `Instant::elapsed`: some length of time. It depends on the clock, so nothing is claimed of it.
pub assume_specification[ Instant::elapsed ](since: &Instant) -> Duration;

/// `Duration::as_secs`: the whole seconds of a length of time. A length of time is opaque here, so
/// nothing is claimed of how many they are.
pub assume_specification[ Duration::as_secs ](duration: &Duration) -> u64;

/// Whether the clock can have said `now`: `Instant::now` can return it.
pub open spec fn clock_can_say(now: Instant) -> bool {
    call_ensures(Instant::now, (), now)
}

/// Whether `secs` whole seconds can have passed since then: `Instant::elapsed`, asked of `since`
/// and of no other time, can return a length of time of which `Duration::as_secs` can return
/// `secs`.
pub open spec fn can_have_passed(since: Instant, secs: u64) -> bool {
    exists|duration: Duration|
        {
            &&& #[trigger] call_ensures(Instant::elapsed, (&since,), duration)
            &&& call_ensures(Duration::as_secs, (&duration,), secs)
        }
}

/// What `base64`'s `STANDARD` engine encodes the bytes to.
pub uninterp spec fn base64_standard(input: Seq<u8>) -> Seq<char>;

/// Whether `c` is in the standard base64 alphabet or is the padding character.
pub open spec fn is_base64_char(c: char) -> bool {
    'A' <= c <= 'Z' || 'a' <= c <= 'z' || '0' <= c <= '9' || c == '+' || c == '/' || c == '='
}

/// Whether an encoding of `len` bytes, four characters for each three bytes begun, still fits in
/// one allocation.
pub open spec fn fits_base64(len: nat) -> bool {
    len <= isize::MAX / 4 * 3
}

/// `Engine::encode` of `base64`'s `STANDARD` engine. The result is named, and every character of
/// it is in the standard alphabet or is padding. Longer inputs, whose encoding no allocation can
/// hold, make the call panic.
#[verifier::external_body]
pub(crate) fn encode_base64(input: &[u8]) -> (r: String)
    requires
        fits_base64(input@.len()),
    ensures
        r@ == base64_standard(input@),
        forall|i: int| 0 <= i < r@.len() ==> is_base64_char(#[trigger] r@[i]),
{
    STANDARD.encode(input)
}

/// Whether `b` may stand in the value of an HTTP header: a tab, or anything but a control
/// character.
pub open spec fn is_header_byte(b: u8) -> bool {
    b == 9 || (b >= 32 && b != 127)
}

/// Whether the text, in UTF-8, is made of bytes that may stand in the value of an HTTP header.
pub open spec fn is_header_text(text: Seq<char>) -> bool {
    forall|i: int|
        0 <= i < encode_utf8(text).len() ==> is_header_byte(#[trigger] encode_utf8(text)[i])
}

/// `HeaderValue::from_str` of `reqwest`: succeeds exactly on texts whose bytes may all stand in
/// a header value, and the header value then holds those bytes, which are handed back.
#[verifier::external_body]
pub(crate) fn header_value(text: &str) -> (r: Result<Vec<u8>, InvalidHeaderValue>)
    ensures
        r is Ok <==> is_header_text(text@),
        r is Ok ==> r->Ok_0@ == encode_utf8(text@),
{
    match HeaderValue::from_str(text) {
        Ok(value) => Ok(value.as_bytes().to_vec()),
        Err(e) => Err(e),
    }
}

/// How `reqwest` prints an HTTP status: the number and its canonical reason.
pub uninterp spec fn http_status_text(status: u16) -> Seq<char>;

/// `StatusCode`'s `to_string`. The result is named. A number that is no HTTP status has no
/// `StatusCode`.
#[verifier::external_body]
pub(crate) fn status_text(status: u16) -> (r: String)
    requires
        100 <= status <= 999,
    ensures
        r@ == http_status_text(status),
{
    StatusCode::from_u16(status).unwrap().to_string()
}

} // verus!
