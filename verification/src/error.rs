//! The codes in which the outcome of a scan is handed to the caller.
use vstd::prelude::*;
use crate::nvidia::error::NvidiaError;
use crate::vaapi::error::VaError;

verus! {

/// The outcome of a scan as the caller sees it.
#[derive(Clone, Copy, Debug, PartialEq, Eq, Structural, Hash)]
pub enum ErrorCode {
    /// An unexpected fault interrupted the scan.
    CriticalError,
    /// The scan ran to its end. A driver that is not installed counts as a
    /// success that found nothing.
    Success,
    /// A driver is installed but lacks a function.
    DriverFailure,
    /// A driver call failed.
    OperationFailed,
    /// A driver handed out a value that could not be read.
    ConversionFailed,
}

impl ErrorCode {
    /// The number that stands for this code.
    pub open spec fn spec_code(self) -> int {
        match self {
            ErrorCode::CriticalError => -666,
            ErrorCode::Success => 0,
            ErrorCode::DriverFailure => 1,
            ErrorCode::OperationFailed => 2,
            ErrorCode::ConversionFailed => 3,
        }
    }

    /// The number that stands for this code.
    pub fn code(self) -> (r: i32)
        ensures
            r == self.spec_code(),
    {
        match self {
            ErrorCode::CriticalError => -666,
            ErrorCode::Success => 0,
            ErrorCode::DriverFailure => 1,
            ErrorCode::OperationFailed => 2,
            ErrorCode::ConversionFailed => 3,
        }
    }
}

/// The code of a failure of the NVIDIA backend.
pub open spec fn nvidia_error_code(error: NvidiaError) -> ErrorCode {
    match error {
        NvidiaError::NotLoaded(_) => ErrorCode::Success,
        NvidiaError::OperationFailed(_) => ErrorCode::OperationFailed,
        NvidiaError::SymbolNotFound(_) => ErrorCode::DriverFailure,
        NvidiaError::NvEncFunctionNotAvailable(_) => ErrorCode::DriverFailure,
        NvidiaError::FailedToConvertUuid(_) => ErrorCode::ConversionFailed,
        NvidiaError::FailedToConvertResult(_) => ErrorCode::ConversionFailed,
    }
}

/// The code of a failure of the VA-API backend.
pub open spec fn vaapi_error_code(error: VaError) -> ErrorCode {
    match error {
        VaError::NotLoaded(_) => ErrorCode::Success,
        VaError::SymbolNotFound(_) => ErrorCode::DriverFailure,
        VaError::FailedToEnumerateDevices(_) => ErrorCode::DriverFailure,
        VaError::FailedToOpenDevice(_, _) => ErrorCode::DriverFailure,
        VaError::FailedToGetDisplay(_) => ErrorCode::DriverFailure,
        VaError::OperationFailed(_) => ErrorCode::OperationFailed,
        VaError::OperationFailedT(_, _) => ErrorCode::OperationFailed,
    }
}

/// The code under which a failure of the NVIDIA backend is reported.
pub fn map_nvidia_error_code(error: &NvidiaError) -> (r: ErrorCode)
    ensures
        r == nvidia_error_code(*error),
{
    match error {
        NvidiaError::NotLoaded(_) => ErrorCode::Success,
        NvidiaError::OperationFailed(_) => ErrorCode::OperationFailed,
        NvidiaError::SymbolNotFound(_) => ErrorCode::DriverFailure,
        NvidiaError::NvEncFunctionNotAvailable(_) => ErrorCode::DriverFailure,
        NvidiaError::FailedToConvertUuid(_) => ErrorCode::ConversionFailed,
        NvidiaError::FailedToConvertResult(_) => ErrorCode::ConversionFailed,
    }
}

/// The code under which a failure of the VA-API backend is reported.
pub fn map_vaapi_error_code(error: &VaError) -> (r: ErrorCode)
    ensures
        r == vaapi_error_code(*error),
{
    match error {
        VaError::NotLoaded(_) => ErrorCode::Success,
        VaError::SymbolNotFound(_) => ErrorCode::DriverFailure,
        VaError::FailedToEnumerateDevices(_) => ErrorCode::DriverFailure,
        VaError::FailedToOpenDevice(_, _) => ErrorCode::DriverFailure,
        VaError::FailedToGetDisplay(_) => ErrorCode::DriverFailure,
        VaError::OperationFailed(_) => ErrorCode::OperationFailed,
        VaError::OperationFailedT(_, _) => ErrorCode::OperationFailed,
    }
}

} // verus!
