//! Instants as rows hold them, and the text in which responses carry them.
use vstd::prelude::*;
use crate::text::Text;

verus! {

/// The RFC 3339 text of an instant, given in nanoseconds since the Unix epoch,
/// or the message that says why it has none.
pub uninterp spec fn rfc3339(nanoseconds: int) -> Result<Text, Text>;

/// `time::OffsetDateTime::format` writes the instant, in UTC, by the well-known
/// description `Rfc3339`. It declines a year that the format cannot hold, as
/// `from_unix_timestamp_nanos` declines one that no date can; the message is
/// then theirs.
#[verifier::external_body]
pub(crate) fn format_time(nanoseconds: i128) -> (text: Result<String, String>)
    ensures
        match text {
            Ok(text) => rfc3339(nanoseconds as int) == Ok::<Text, Text>(text@),
            Err(message) => rfc3339(nanoseconds as int) == Err::<Text, Text>(message@),
        },
{
    match time::OffsetDateTime::from_unix_timestamp_nanos(nanoseconds) {
        Ok(at) => at.format(&time::format_description::well_known::Rfc3339).map_err(
            |error| error.to_string(),
        ),
        Err(error) => Err(error.to_string()),
    }
}

} // verus!
