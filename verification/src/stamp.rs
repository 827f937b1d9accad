//! Where operations get their identifiers and times from.
use vstd::prelude::*;

verus! {

/// Whether a text has the shape of a UTC time in RFC 3339: only digits and the
/// marks of that form, these in their places for a year of four digits (a later
/// one is written with a sign), and the offset `+00:00` at its end.
pub open spec fn utc_time_text(s: Seq<char>) -> bool {
    &&& s.len() >= 25
    &&& s[0] != '+' ==> {
        &&& s[4] == '-' && s[7] == '-'
        &&& s[10] == 'T'
        &&& s[13] == ':' && s[16] == ':'
    }
    &&& forall|i: int|
        0 <= i < s.len() ==> '0' <= #[trigger] s[i] <= '9' || s[i] == '-' || s[i] == ':' || s[i] == 'T'
            || s[i] == '.' || s[i] == '+'
    &&& s.skip(s.len() - 6) == seq!['+', '0', '0', ':', '0', '0']
}

/// A small hexadecimal digit.
pub open spec fn hex_digit(c: char) -> bool {
    '0' <= c <= '9' || 'a' <= c <= 'f'
}

/// Whether a text is a random (version 4) identifier: 36 characters, small
/// hexadecimal digits but for the four hyphens, with a `4` where the version
/// stands.
pub open spec fn random_id_text(s: Seq<char>) -> bool {
    &&& s.len() == 36
    &&& forall|i: int|
        0 <= i < 36 ==> if i == 8 || i == 13 || i == 18 || i == 23 {
            #[trigger] s[i] == '-'
        } else {
            hex_digit(s[i])
        }
    &&& s[14] == '4'
}

/// `chrono::Utc::now` with `to_rfc3339` writes the present time in UTC. The
/// time itself is open; claimed is the shape of the text. A clock set before 1970
/// gives no time at all.
#[verifier::external_body]
pub(crate) fn now_rfc3339() -> (time: String)
    ensures
        utc_time_text(time@),
{
    chrono::Utc::now().to_rfc3339()
}

/// The last millisecond that a `chrono` date can hold.
pub const LAST_MILLISECOND: i64 = 8_210_266_876_799_999;

/// `chrono::Utc::now` with `timestamp_millis` counts the milliseconds since
/// 1970. The count is open; claimed is that it is neither negative (a clock
/// set before 1970 gives no time at all) nor past the last date.
#[verifier::external_body]
pub(crate) fn now_millis() -> (now: i64)
    ensures
        0 <= now <= LAST_MILLISECOND,
{
    chrono::Utc::now().timestamp_millis()
}

/// `uuid::Uuid::new_v4` makes a random identifier, which `to_string` writes
/// with hyphens. The digits are open; claimed is the shape of the text. A machine
/// without random numbers gives no identifier at all.
#[verifier::external_body]
pub(crate) fn new_random_id() -> (id: String)
    ensures
        random_id_text(id@),
{
    uuid::Uuid::new_v4().to_string()
}

} // verus!
