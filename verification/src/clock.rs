//! The wall clock and the random identifiers that messages carry.

use vstd::prelude::*;

verus! {

/// `|x|`.
pub open spec fn abs(x: int) -> int {
    if x < 0 {
        -x
    } else {
        x
    }
}

/// `a - b` and its absolute value are `i64`s.
pub open spec fn fits_i64_distance(a: i64, b: i64) -> bool {
    i64::MIN < a - b <= i64::MAX
}

/// `|a - b| <= bound`.
pub open spec fn within(a: i64, b: i64, bound: i64) -> bool {
    abs(a - b) <= bound
}

/// The Unix times in seconds that the clock can read: from the epoch
/// (`Utc::now` panics before it) to the last second of chrono's last
/// representable day, 262142-12-31 (past it, `from_timestamp` fails and
/// `Utc::now` panics).
pub open spec fn is_seconds_reading(t: int) -> bool {
    0 <= t <= 8_210_266_876_799
}

/// The Unix times in milliseconds that the clock can read, over the same
/// span.
pub open spec fn is_millis_reading(t: int) -> bool {
    0 <= t <= 8_210_266_876_799_999
}

/// `chrono::Utc::now().timestamp()`: the current Unix time in seconds.
/// Which second is read is not said, only that it lies in the clock's span.
#[verifier::external_body]
pub(crate) fn unix_time_now() -> (now: i64)
    ensures
        is_seconds_reading(now as int),
{
    chrono::Utc::now().timestamp()
}

/// `chrono::Utc::now().timestamp_millis()`: the current Unix time in
/// milliseconds. Which millisecond is read is not said, only that it lies in
/// the clock's span.
#[verifier::external_body]
pub(crate) fn unix_time_now_millis() -> (now: i64)
    ensures
        is_millis_reading(now as int),
{
    chrono::Utc::now().timestamp_millis()
}

/// Whether `a - b` is an `i64` other than `i64::MIN` (so that its absolute
/// value is one too).
pub fn difference_fits(a: i64, b: i64) -> (fits: bool)
    ensures
        fits == fits_i64_distance(a, b),
{
    if b >= 0 {
        a > i64::MIN + b
    } else {
        a <= i64::MAX + b
    }
}

} // verus!

verus! {

/// A lowercase hexadecimal digit.
pub open spec fn is_lower_hex_digit(c: char) -> bool {
    ('0' <= c <= '9') || ('a' <= c <= 'f')
}

/// The hyphenated text of a version-4 UUID: 36 characters, hyphens at 8,
/// 13, 18 and 23, lowercase hexadecimal digits elsewhere, the version digit
/// `4` at 14 and the variant digit `8`, `9`, `a` or `b` at 19.
pub open spec fn is_uuid_v4_text(s: Seq<char>) -> bool {
    &&& s.len() == 36
    &&& s[8] == '-' && s[13] == '-' && s[18] == '-' && s[23] == '-'
    &&& forall|i: int|
        0 <= i < 36 && i != 8 && i != 13 && i != 18 && i != 23 ==> is_lower_hex_digit(#[trigger] s[i])
    &&& s[14] == '4'
    &&& s[19] == '8' || s[19] == '9' || s[19] == 'a' || s[19] == 'b'
}

/// `uuid::Uuid::new_v4().to_string()`: a random version-4 identifier in its
/// hyphenated lowercase form (`Display` writes `LowerHex`, and `new_v4`
/// sets the version and variant bits). Which random bits it holds is not
/// said.
#[verifier::external_body]
pub(crate) fn new_request_id() -> (id: String)
    ensures
        is_uuid_v4_text(id@),
{
    uuid::Uuid::new_v4().to_string()
}

} // verus!
