use vstd::prelude::*;
use crate::error::Error;
use crate::model::Status;

verus! {

/// The error type of `time`'s formatting.
#[verifier::external_type_specification]
#[verifier::external_body]
pub struct ExTimeFormatError(time::error::Format);

/// The RFC 2822 text of the moment `seconds` after the Unix epoch, in UTC.
pub uninterp spec fn rfc2822_text(seconds: u32) -> Seq<char>;

/// `OffsetDateTime::UNIX_EPOCH` advanced by `Duration::new(seconds, 0)` and
/// formatted with `well_known::Rfc2822`. The formatter fails only for a
/// year before 1900 (or past 9999) or an offset with seconds; a 32-bit count
/// of seconds after the epoch in UTC lies between 1970 and 2106, so the
/// contract states success. The text itself is only named.
#[verifier::external_body]
fn format_rfc2822(seconds: u32) -> (r: Result<String, time::error::Format>)
    ensures
        r is Ok,
        r is Ok ==> r->Ok_0@ == rfc2822_text(seconds),
{
    (time::OffsetDateTime::UNIX_EPOCH + time::Duration::new(seconds as i64, 0)).format(
        &time::format_description::well_known::Rfc2822,
    )
}

impl Status {
    /// The block time as an RFC 2822 date (UTC) for a confirmed
    /// transaction, and the empty text for an unconfirmed one.
    pub fn timestamp(&self) -> (r: Result<String, Error>)
        ensures
            self.confirmed ==> (r matches Ok(s) && s@ == rfc2822_text(self.block_time)),
            !self.confirmed ==> (r matches Ok(s) && s@ == Seq::<char>::empty()),
    {
        if self.confirmed {
            match format_rfc2822(self.block_time) {
                Ok(formatted_timestamp) => Ok(formatted_timestamp),
                Err(_) => Err(Error::TimeFormat),
            }
        } else {
            Ok(String::new())
        }
    }
}

} // verus!
