//! Failures of collecting an observation, and their public codes.

use vstd::prelude::*;
use crate::observation::{NetworkSnapshot, ObservationError};
use crate::sink::IoErrorKind;

verus! {

/// Why nothing could be collected.
#[derive(Debug, PartialEq, Eq)]
pub enum CollectorError {
    Read { kind: IoErrorKind, message: String },
    Platform { message: String },
    WorkerExited,
    OwnershipPermissionDenied,
    Observation(ObservationError),
}

impl CollectorError {
    pub open spec fn text(self) -> Seq<char> {
        match self {
            CollectorError::Read { message, .. } => message@,
            CollectorError::Platform { message } => message@,
            CollectorError::WorkerExited => "collector worker exited before returning"@,
            CollectorError::OwnershipPermissionDenied => "socket ownership permission was denied"@,
            CollectorError::Observation(error) => error.text(),
        }
    }

    /// The sentence shown for the error.
    pub fn message(&self) -> (r: String)
        ensures
            r@ == self.text(),
    {
        match self {
            CollectorError::Read { message, .. } => message.clone(),
            CollectorError::Platform { message } => message.clone(),
            CollectorError::WorkerExited => "collector worker exited before returning".to_owned(),
            CollectorError::OwnershipPermissionDenied => {
                "socket ownership permission was denied".to_owned()
            },
            CollectorError::Observation(error) => error.message(),
        }
    }

    /// The owners could not be read for want of permission.
    pub fn is_ownership_permission_denied(&self) -> (r: bool)
        ensures
            r == (*self is OwnershipPermissionDenied),
    {
        match self {
            CollectorError::OwnershipPermissionDenied => true,
            _ => false,
        }
    }
}

/// The public code of an observation error.
pub open spec fn observation_code(error: ObservationError) -> Seq<char> {
    match error {
        ObservationError::SocketTableUnavailable => "socket_table_unavailable"@,
        ObservationError::SocketTablePermissionDenied => "socket_table_permission_denied"@,
        ObservationError::NativeDataMalformed => "native_data_malformed"@,
        ObservationError::NativeDataOversized => "native_data_oversized"@,
        ObservationError::ScopeIdentifierOversized => "native_data_oversized"@,
        ObservationError::ScopeLimitationLimitExceeded => "native_data_oversized"@,
        ObservationError::SocketObservationLimitExceeded => "socket_observation_limit_exceeded"@,
        ObservationError::ProcessIdentityLimitExceeded => "process_identity_limit_exceeded"@,
        ObservationError::OwnerAttributionLimitExceeded => "owner_attribution_limit_exceeded"@,
        ObservationError::LegacyProjectionLimitExceeded => "legacy_projection_limit_exceeded"@,
        ObservationError::PlatformApiFailed(_) => "platform_api_failed"@,
        ObservationError::ClockUnavailable => "clock_unavailable"@,
        ObservationError::InvalidWallClockInterval => "clock_unavailable"@,
        ObservationError::PartialSocketSet => "partial_socket_set"@,
        ObservationError::ObservationRaced => "observation_raced"@,
        ObservationError::OwnerReasonLimitExceeded => "owner_reason_limit_exceeded"@,
    }
}

pub fn observation_error_code(error: &ObservationError) -> (r: &'static str)
    ensures
        r@ == observation_code(*error),
{
    match error {
        ObservationError::SocketTableUnavailable => "socket_table_unavailable",
        ObservationError::SocketTablePermissionDenied => "socket_table_permission_denied",
        ObservationError::NativeDataMalformed => "native_data_malformed",
        ObservationError::NativeDataOversized => "native_data_oversized",
        ObservationError::ScopeIdentifierOversized => "native_data_oversized",
        ObservationError::ScopeLimitationLimitExceeded => "native_data_oversized",
        ObservationError::SocketObservationLimitExceeded => "socket_observation_limit_exceeded",
        ObservationError::ProcessIdentityLimitExceeded => "process_identity_limit_exceeded",
        ObservationError::OwnerAttributionLimitExceeded => "owner_attribution_limit_exceeded",
        ObservationError::LegacyProjectionLimitExceeded => "legacy_projection_limit_exceeded",
        ObservationError::PlatformApiFailed(_) => "platform_api_failed",
        ObservationError::ClockUnavailable => "clock_unavailable",
        ObservationError::InvalidWallClockInterval => "clock_unavailable",
        ObservationError::PartialSocketSet => "partial_socket_set",
        ObservationError::ObservationRaced => "observation_raced",
        ObservationError::OwnerReasonLimitExceeded => "owner_reason_limit_exceeded",
    }
}

/// The public code of a collection failure.
pub open spec fn collector_code(error: CollectorError) -> Seq<char> {
    match error {
        CollectorError::Read { kind, .. } => if kind == IoErrorKind::PermissionDenied {
            "socket_table_permission_denied"@
        } else {
            "socket_table_unavailable"@
        },
        CollectorError::Platform { .. } => "platform_api_failed"@,
        CollectorError::WorkerExited => "platform_api_failed"@,
        CollectorError::OwnershipPermissionDenied => "socket_table_permission_denied"@,
        CollectorError::Observation(error) => observation_code(error),
    }
}

pub fn collector_error_code(error: &CollectorError) -> (r: &'static str)
    ensures
        r@ == collector_code(*error),
{
    match error {
        CollectorError::Read { kind, .. } => if *kind == IoErrorKind::PermissionDenied {
            "socket_table_permission_denied"
        } else {
            "socket_table_unavailable"
        },
        CollectorError::Platform { .. } => "platform_api_failed",
        CollectorError::WorkerExited => "platform_api_failed",
        CollectorError::OwnershipPermissionDenied => "socket_table_permission_denied",
        CollectorError::Observation(error) => observation_error_code(error),
    }
}

/// A failure of the wall clock, which is never a gap in the evidence.
pub open spec fn is_clock_error(error: ObservationError) -> bool {
    error is ClockUnavailable || error is InvalidWallClockInterval
}

/// The clock failure inside a collection result, if that is what it is.
pub open spec fn clock_error_of(result: Result<NetworkSnapshot, CollectorError>) -> Option<
    ObservationError,
> {
    match result {
        Err(CollectorError::Observation(error)) => if is_clock_error(error) {
            Some(error)
        } else {
            None
        },
        _ => None,
    }
}

pub fn collector_clock_error(result: &Result<NetworkSnapshot, CollectorError>) -> (r: Option<
    &ObservationError,
>)
    ensures
        match r {
            Some(error) => clock_error_of(*result) == Some(*error),
            None => clock_error_of(*result) is None,
        },
{
    match result {
        Err(CollectorError::Observation(error)) => match error {
            ObservationError::ClockUnavailable => Some(error),
            ObservationError::InvalidWallClockInterval => Some(error),
            _ => None,
        },
        _ => None,
    }
}

} // verus!
