//! What can go wrong on the NVIDIA backend.
use vstd::prelude::*;

verus! {

/// The status with which a CUDA call reports success.
pub const CUDA_SUCCESS: u32 = 0;

/// The status with which an encoder call reports success.
pub const NV_ENC_SUCCESS: u32 = 0;

/// A failure of the NVIDIA backend.
#[derive(Clone, Debug, PartialEq, Eq)]
pub enum NvidiaError {
    /// A driver library is not installed; holds the library's name.
    NotLoaded(&'static str),
    /// A driver call returned the given status.
    OperationFailed(u32),
    /// A driver library lacks the named function.
    SymbolNotFound(&'static str),
    /// The encoder's function list lacks the named function.
    NvEncFunctionNotAvailable(&'static str),
    /// An identifier had the given number of bytes instead of sixteen.
    FailedToConvertUuid(usize),
    /// The driver reported the given value where only a size can stand.
    FailedToConvertResult(i32),
}

/// What a CUDA status means: success, or a failed operation that carries
/// the status.
pub open spec fn cuda_outcome(status: u32) -> Result<(), NvidiaError> {
    if status == CUDA_SUCCESS {
        Ok(())
    } else {
        Err(NvidiaError::OperationFailed(status))
    }
}

/// Turns the status of a CUDA call into a result.
pub fn check_cuda_status(status: u32) -> (r: Result<(), NvidiaError>)
    ensures
        r == cuda_outcome(status),
{
    if status == CUDA_SUCCESS {
        Ok(())
    } else {
        Err(NvidiaError::OperationFailed(status))
    }
}

/// What the outcome of an encoder call means. A function that the
/// encoder's list lacks was never called, so it has no status.
pub open spec fn encoder_outcome(name: &'static str, status: Option<u32>) -> Result<
    (),
    NvidiaError,
> {
    match status {
        None => Err(NvidiaError::NvEncFunctionNotAvailable(name)),
        Some(s) => if s == NV_ENC_SUCCESS {
            Ok(())
        } else {
            Err(NvidiaError::OperationFailed(s))
        },
    }
}

/// Turns the outcome of an encoder call into a result: `status` is what
/// the function named `name` returned, or nothing if the encoder's list
/// does not hold that function.
pub fn check_encoder_status(name: &'static str, status: Option<u32>) -> (r: Result<
    (),
    NvidiaError,
>)
    ensures
        r == encoder_outcome(name, status),
{
    match status {
        None => Err(NvidiaError::NvEncFunctionNotAvailable(name)),
        Some(s) => if s == NV_ENC_SUCCESS {
            Ok(())
        } else {
            Err(NvidiaError::OperationFailed(s))
        },
    }
}

/// What a value that the driver reports as a signed number is as a size.
pub open spec fn size_of_value(value: i32) -> Result<u32, NvidiaError> {
    if value < 0 {
        Err(NvidiaError::FailedToConvertResult(value))
    } else {
        Ok(value as u32)
    }
}

/// Reads a value that the driver reports as a signed number as a size. A
/// negative value is refused.
pub fn convert_size(value: i32) -> (r: Result<u32, NvidiaError>)
    ensures
        r == size_of_value(value),
{
    if value < 0 {
        Err(NvidiaError::FailedToConvertResult(value))
    } else {
        Ok(value as u32)
    }
}

} // verus!
