//! What can go wrong on the VA-API backend.
use vstd::prelude::*;

verus! {

/// The status with which a VA-API call reports success.
pub const VA_STATUS_SUCCESS: i32 = 0;

/// A failure of the VA-API backend.
#[derive(Clone, Debug, PartialEq, Eq)]
pub enum VaError {
    /// A driver library is not installed; holds the library's name.
    NotLoaded(&'static str),
    /// A driver library lacks the named function.
    SymbolNotFound(&'static str),
    /// The device directory could not be read; holds the reason.
    FailedToEnumerateDevices(String),
    /// The device node at the given path could not be opened; holds the
    /// path and the reason.
    FailedToOpenDevice(String, String),
    /// The driver gave no display for the device node at the given path.
    FailedToGetDisplay(String),
    /// A driver call returned the given status, for which the driver has no
    /// text.
    OperationFailed(i32),
    /// A driver call returned the given status; holds the driver's text for
    /// it.
    OperationFailedT(String, i32),
}

/// The text of an optional string.
pub open spec fn message_view(text: Option<String>) -> Option<Seq<char>> {
    match text {
        Some(s) => Some(s@),
        None => None,
    }
}

impl VaError {
    /// The failure that a status stands for: with the driver's text for
    /// the status where it has one, without where it has none.
    pub fn from_status(status: i32, text: Option<String>) -> (r: VaError)
        ensures
            text is None ==> r == VaError::OperationFailed(status),
            text is Some ==> (r matches VaError::OperationFailedT(t, s) && t@ == text.unwrap()@
                && s == status),
    {
        match text {
            None => VaError::OperationFailed(status),
            Some(t) => VaError::OperationFailedT(t, status),
        }
    }
}

/// Whether a status reports a failure.
pub fn is_failure(status: i32) -> (r: bool)
    ensures
        r == (status != VA_STATUS_SUCCESS),
{
    status != VA_STATUS_SUCCESS
}

} // verus!
