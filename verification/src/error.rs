//! The error taxonomy of the resolver. Every failure mode is a distinct,
//! attributable variant carrying the context a caller-facing message needs,
//! and each maps to an HTTP-like status code.

use vstd::prelude::*;

verus! {

/// Transport and deserialization failures map to a server error.
pub const STATUS_INTERNAL_SERVER_ERROR: u16 = 500;

/// An ambiguous schedule name maps to a client error.
pub const STATUS_UNPROCESSABLE_ENTITY: u16 = 422;

/// "Nothing to act on" outcomes get a status of their own, distinct from both
/// success and server error, so monitoring can tell "provider broken" from
/// "no coverage configured".
pub const STATUS_NOTHING_TO_DO: u16 = 418;

/// Every way an on-call resolution can fail.
#[derive(Clone, Debug, PartialEq, Eq)]
pub enum Error {
    /// The on-call lookup at the roster provider failed in transport or decoding.
    RequestOnCallPerson,
    /// The schedule search at the roster provider failed in transport or decoding.
    RequestSchedule,
    /// The contact lookup for one person failed in transport or decoding.
    RequestPhoneNumberForPerson { username: String },
    /// The roster provider reports nobody on call.
    NoOnCallPerson,
    /// No schedule carries the requested name.
    ScheduleNotFound { schedule_name: String },
    /// More than one schedule matched the requested name.
    TooManySchedulesFound { schedule_name: String, schedules_found: usize },
    /// The on-call person has no usable phone number.
    NoPhoneNumber { username: String },
}

/// The status class of each failure: transport failures are server errors, an
/// ambiguous schedule name is a client error, and an empty roster or a person
/// without a number is "nothing to act on".
pub open spec fn spec_status_code(e: Error) -> u16 {
    match e {
        Error::RequestOnCallPerson => STATUS_INTERNAL_SERVER_ERROR,
        Error::RequestSchedule => STATUS_INTERNAL_SERVER_ERROR,
        Error::RequestPhoneNumberForPerson { .. } => STATUS_INTERNAL_SERVER_ERROR,
        Error::NoOnCallPerson => STATUS_NOTHING_TO_DO,
        Error::ScheduleNotFound { .. } => STATUS_UNPROCESSABLE_ENTITY,
        Error::TooManySchedulesFound { .. } => STATUS_UNPROCESSABLE_ENTITY,
        Error::NoPhoneNumber { .. } => STATUS_NOTHING_TO_DO,
    }
}

impl Error {
    /// The HTTP-like status code this failure is reported with.
    pub fn status_code(&self) -> (code: u16)
        ensures
            code == spec_status_code(*self),
    {
        match self {
            Error::RequestOnCallPerson => STATUS_INTERNAL_SERVER_ERROR,
            Error::RequestSchedule => STATUS_INTERNAL_SERVER_ERROR,
            Error::RequestPhoneNumberForPerson { .. } => STATUS_INTERNAL_SERVER_ERROR,
            Error::NoOnCallPerson => STATUS_NOTHING_TO_DO,
            Error::ScheduleNotFound { .. } => STATUS_UNPROCESSABLE_ENTITY,
            Error::TooManySchedulesFound { .. } => STATUS_UNPROCESSABLE_ENTITY,
            Error::NoPhoneNumber { .. } => STATUS_NOTHING_TO_DO,
        }
    }
}

} // verus!
