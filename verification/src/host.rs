//! What the library takes from its host: the clock, a source of random
//! identifiers, and Unicode lower-casing. Nothing in this file is proved;
//! each contract states what the called function is relied on to do.

use crate::time::Timestamp;
use vstd::prelude::*;

verus! {

/// The lower-case form that `str::to_lowercase` gives a text.
pub uninterp spec fn lowercase(text: Seq<char>) -> Seq<char>;

/// Calls `str::to_lowercase`. Relied on: the result is a function of the
/// characters of `text` alone, here called `lowercase`.
#[verifier::external_body]
pub(crate) fn to_lowercase(text: &str) -> (lowered: String)
    ensures
        lowered@ == lowercase(text@),
{
    text.to_lowercase()
}

/// Calls `uuid::Uuid::new_v4` and renders the identifier through its
/// `Display` impl. Relied on: the rendering is the hyphenated form, which
/// is 36 characters long. The identifier is random: two calls are expected
/// to differ, and nothing here says that they do. `Uuid::new_v4` stops the
/// program if the operating system hands out no random bytes.
#[verifier::external_body]
pub(crate) fn fresh_id() -> (id: String)
    ensures
        id@.len() == 36,
{
    uuid::Uuid::new_v4().to_string()
}

/// Calls `chrono::Utc::now` and reads the result with `DateTime::timestamp`
/// and `DateTime::timestamp_subsec_nanos`. Nothing is relied on: the system
/// clock may stand still or step back between two calls. `Utc::now` stops
/// the program if the system clock reads earlier than the Unix epoch.
#[verifier::external_body]
pub(crate) fn clock_now() -> (now: Timestamp) {
    let reading = chrono::Utc::now();
    Timestamp { secs: reading.timestamp(), nanos: reading.timestamp_subsec_nanos() }
}

} // verus!
