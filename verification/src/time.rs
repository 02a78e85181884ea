//! Timestamps in the format of RFC 3339, as `chrono` writes and reads them.

use vstd::prelude::*;

verus! {

/// Whether `chrono::DateTime::parse_from_rfc3339` accepts `text`.
pub uninterp spec fn is_rfc3339(text: Seq<char>) -> bool;

/// Calls `chrono::DateTime::parse_from_rfc3339` and says whether it
/// succeeded. The contract gives that answer its name, `is_rfc3339`, and
/// claims nothing else of it.
#[verifier::external_body]
pub(crate) fn parses_as_rfc3339(text: &str) -> (ok: bool)
    ensures
        ok == is_rfc3339(text@),
{
    chrono::DateTime::parse_from_rfc3339(text).is_ok()
}

/// Reads `text` with `chrono::DateTime::parse_from_rfc3339`, moves the
/// instant to the time zone of this machine with `DateTime::with_timezone`,
/// and writes it with `DateTime::to_rfc3339`. The text must be one that the
/// parser accepts. Nothing is claimed of the result: it depends on the time
/// zone that the machine is set to. The conversion panics where the time
/// zone data of the machine gives no offset for the instant.
#[verifier::external_body]
pub(crate) fn local_rfc3339(text: &str) -> (local: String)
    requires
        is_rfc3339(text@),
{
    chrono::DateTime::parse_from_rfc3339(text).unwrap().with_timezone(&chrono::Local).to_rfc3339()
}

/// Reads the clock with `chrono::Utc::now` and writes the instant with
/// `DateTime::to_rfc3339`. Nothing is claimed of the result. `Utc::now`
/// panics where the machine's clock is set before 1970.
#[verifier::external_body]
pub(crate) fn utc_now_rfc3339() -> (stamp: String) {
    chrono::Utc::now().to_rfc3339()
}

} // verus!
