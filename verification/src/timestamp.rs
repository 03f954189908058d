//! The moment at which a chat line was written.

use crate::message::Chat;
use crate::number::{integer_of, parse_integer};
use time::OffsetDateTime;
use vstd::prelude::*;

verus! {

/// A moment with its offset from UTC, as `time` holds it. Opaque here; it is
/// only carried to the caller.
#[verifier::external_type_specification]
#[verifier::external_body]
pub struct ExOffsetDateTime(time::OffsetDateTime);

/// The moment, in UTC, that lies the given number of seconds after the start
/// of 1970, or nothing where `time` cannot hold that moment.
pub uninterp spec fn utc_moment(seconds: i64) -> Option<OffsetDateTime>;

/// Calls `OffsetDateTime::from_unix_timestamp`. Believed: the outcome is a
/// function of the number of seconds alone, which [`utc_moment`] names: the
/// moment, or nothing where the call fails.
#[verifier::external_body]
fn from_unix_timestamp(seconds: i64) -> (r: Option<OffsetDateTime>)
    ensures
        r == utc_moment(seconds),
{
    OffsetDateTime::from_unix_timestamp(seconds).ok()
}

/// The moment that a timestamp field names: the field is a number of seconds
/// since the start of 1970. Nothing where the field is no number or the
/// moment is out of reach.
pub open spec fn moment_of(timestamp: Seq<char>) -> Option<OffsetDateTime> {
    match integer_of(timestamp) {
        Some(seconds) => utc_moment(seconds),
        None => None,
    }
}

impl<'a> Chat<'a> {
    /// The moment at which the line was written, where the server sent one
    /// that can be read.
    pub fn timestamp(&self) -> (r: Option<OffsetDateTime>)
        ensures
            r == moment_of(self@.timestamp),
    {
        match parse_integer(self.raw_timestamp()) {
            Some(seconds) => from_unix_timestamp(seconds),
            None => None,
        }
    }
}

} // verus!
