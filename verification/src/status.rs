//! The status feed: what one poll reports, how its indicator is read, and
//! what a response of the feed means for the poller.

use crate::markets::{incident_type_of, IncidentType, UnknownIndicator};
use crate::text::same_text;
use vstd::prelude::*;

verus! {

/// What the status feed reports in one poll.
#[derive(Debug)]
pub struct StatusEnvelope {
    description: String,
    indicator: String,
}

/// What a status report holds, as plain text.
pub struct StatusView {
    pub description: Seq<char>,
    pub indicator: Seq<char>,
}

/// What an indicator says of the service.
#[derive(Clone, Copy, Debug, PartialEq, Eq, Structural)]
pub enum Reading {
    /// No incident: nothing to do.
    Calm,
    /// An incident of the given class is going on.
    Incident(IncidentType),
}

/// How an indicator is read: `none` is calm, `minor` and `major` are any
/// incident, `critical` is a red incident, and nothing else can be read.
pub open spec fn reading_of(indicator: Seq<char>) -> Option<Reading> {
    if indicator == "none"@ {
        Some(Reading::Calm)
    } else {
        match incident_type_of(indicator) {
            Some(kind) => Some(Reading::Incident(kind)),
            None => None,
        }
    }
}

impl View for StatusEnvelope {
    type V = StatusView;

    closed spec fn view(&self) -> StatusView {
        StatusView { description: self.description@, indicator: self.indicator@ }
    }
}

impl StatusEnvelope {
    pub fn new(description: String, indicator: String) -> (envelope: StatusEnvelope)
        ensures
            envelope@.description == description@,
            envelope@.indicator == indicator@,
    {
        StatusEnvelope { description, indicator }
    }

    /// The feed's description of the service's state.
    pub fn description(&self) -> (text: &str)
        ensures
            text@ == self@.description,
    {
        self.description.as_str()
    }

    /// The severity indicator as the feed wrote it.
    pub fn indicator(&self) -> (text: &str)
        ensures
            text@ == self@.indicator,
    {
        self.indicator.as_str()
    }

    /// Tells whether the feed reports no incident.
    pub fn is_ok(&self) -> (calm: bool)
        ensures
            calm == (self@.indicator == "none"@),
    {
        same_text(self.indicator.as_str(), "none")
    }

    /// Reads the indicator. One that cannot be read comes back in the error.
    pub fn reading(&self) -> (read: Result<Reading, UnknownIndicator>)
        ensures
            match read {
                Ok(reading) => reading_of(self@.indicator) == Some(reading),
                Err(unknown) => reading_of(self@.indicator).is_none() && unknown.indicator@
                    == self@.indicator,
            },
    {
        if self.is_ok() {
            Ok(Reading::Calm)
        } else {
            match IncidentType::from_indicator(self.indicator.as_str()) {
                Ok(kind) => Ok(Reading::Incident(kind)),
                Err(unknown) => Err(unknown),
            }
        }
    }
}

/// What the poller does with a response of the status feed.
#[derive(Clone, Copy, Debug, PartialEq, Eq, Structural)]
pub enum FetchVerdict {
    /// The body holds a status report: decode it.
    Decode,
    /// The feed limits the rate of requests: wait and ask again.
    RetryLater,
    /// The poll has failed for good.
    Fail,
}

/// An HTTP status code from 200 to 299 reports success.
pub open spec fn is_success(status_code: u16) -> bool {
    200 <= status_code <= 299
}

/// The verdict on an HTTP status code: 429 is transient, a success carries a
/// report, and every other code is a permanent failure.
pub open spec fn verdict_of(status_code: u16) -> FetchVerdict {
    if status_code == 429 {
        FetchVerdict::RetryLater
    } else if is_success(status_code) {
        FetchVerdict::Decode
    } else {
        FetchVerdict::Fail
    }
}

/// Tells whether the venue or the feed answered a request with success. A
/// listing or a bet that was answered otherwise has failed.
pub fn is_success_code(status_code: u16) -> (success: bool)
    ensures
        success == is_success(status_code),
{
    200 <= status_code && status_code <= 299
}

/// Decides what the poller does with a response that has the given HTTP
/// status code.
pub fn classify_response(status_code: u16) -> (verdict: FetchVerdict)
    ensures
        verdict == verdict_of(status_code),
{
    if status_code == 429 {
        FetchVerdict::RetryLater
    } else if is_success_code(status_code) {
        FetchVerdict::Decode
    } else {
        FetchVerdict::Fail
    }
}

} // verus!
