//! What the library takes from the outside world: the time of day and
//! random identifiers. Nothing is proved of these two functions; each
//! states the little that holds of every value it can hand out.

use vstd::prelude::*;

verus! {

/// The current time in UTC as an RFC 3339 timestamp, such as
/// `2024-05-01T09:30:00.123456789+00:00`.
///
/// Calls `chrono::Utc::now` and renders the result with
/// `chrono::DateTime::to_rfc3339`. The value depends on the clock, so the
/// contract claims only that the text is not empty: the rendering always
/// writes a year. The call gives up where the system clock stands before
/// 1970.
#[verifier::external_body]
pub(crate) fn now_rfc3339() -> (stamp: String)
    ensures
        stamp@.len() > 0,
{
    chrono::Utc::now().to_rfc3339()
}

/// A fresh random identifier in hyphenated form, such as
/// `67e55044-10b1-426f-9247-bb680e5fe0c8`.
///
/// Calls `uuid::Uuid::new_v4` and renders the result through its `Display`
/// impl. The value is random, so the contract claims only its length: 32
/// hexadecimal digits and 4 hyphens. The call gives up where the operating
/// system hands out no random bytes.
#[verifier::external_body]
pub(crate) fn new_random_id() -> (id: String)
    ensures
        id@.len() == 36,
{
    uuid::Uuid::new_v4().to_string()
}

} // verus!
