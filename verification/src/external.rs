use vstd::prelude::*;

verus! {

/// A lowercase hexadecimal digit.
pub open spec fn is_lower_hex(c: char) -> bool {
    ('0' <= c && c <= '9') || ('a' <= c && c <= 'f')
}

/// The text of a hyphenated UUID: 36 characters, with hyphens at positions
/// 8, 13, 18 and 23 and lowercase hexadecimal digits everywhere else.
pub open spec fn is_hyphenated_uuid(s: Seq<char>) -> bool {
    &&& s.len() == 36
    &&& forall|i: int|
        0 <= i < 36 ==> if i == 8 || i == 13 || i == 18 || i == 23 {
            s[i] == '-'
        } else {
            is_lower_hex(#[trigger] s[i])
        }
}

/// Calls `uuid::Uuid::new_v4` and renders the result with its `Display` impl.
/// The UUID is random, so nothing is claimed of which one comes back; the claim is
/// only its shape: `Display` for `Uuid` writes the lowercase hyphenated form.
#[verifier::external_body]
pub fn uuid_v4_text() -> (s: String)
    ensures
        is_hyphenated_uuid(s@),
{
    uuid::Uuid::new_v4().to_string()
}

/// Calls `chrono::Utc::now` and renders the instant with `DateTime::to_rfc3339`.
/// The result depends on the clock, so nothing is claimed of it.
#[verifier::external_body]
pub fn now() -> String {
    chrono::Utc::now().to_rfc3339()
}

/// Calls `chrono::Utc::now`, adds `chrono::TimeDelta::hours(hours)` with
/// `DateTime::checked_add_signed` and renders the sum with `DateTime::to_rfc3339`;
/// `None` where the sum leaves the range of dates that chrono represents. The result
/// depends on the clock, so nothing is claimed of it.
#[verifier::external_body]
pub fn rfc3339_hours_from_now(hours: u32) -> Option<String> {
    match chrono::Utc::now().checked_add_signed(chrono::TimeDelta::hours(hours as i64)) {
        Some(t) => Some(t.to_rfc3339()),
        None => None,
    }
}

} // verus!
