//! The encoder's side of the driver: structure versions, identifier lists
//! and the opening of a session.
use vstd::prelude::*;
use crate::nvidia::encoder::guid::{guid_bytes, guid_to_uuid, Guid, UuidBytes};
use crate::nvidia::error::{check_encoder_status, NvidiaError, NV_ENC_SUCCESS};

pub mod guid;

verus! {

/// The major version of the encoder API that the scanner speaks.
pub const NVENCAPI_MAJOR_VERSION: u32 = 7;

/// The minor version of the encoder API that the scanner speaks.
pub const NVENCAPI_MINOR_VERSION: u32 = 0;

/// The API version that is announced to the encoder.
pub const NVENCAPI_VERSION: u32 = NVENCAPI_MAJOR_VERSION | (NVENCAPI_MINOR_VERSION << 24);

/// The version word of a parameter structure: the API version in the low
/// bits, the structure's own version from bit 16 on, and the marker 7 in
/// the top four bits.
pub open spec fn struct_version(version: u32) -> u32 {
    NVENCAPI_VERSION | (version << 16) | (0x7u32 << 28)
}

/// The version word that the encoder expects in a parameter structure
/// whose own version is `version`.
pub fn nvencapi_struct_version(version: u32) -> (r: u32)
    ensures
        r == struct_version(version),
        version < 0x1000 ==> r == 0x7000_0007 + version * 0x1_0000,
{
    let r = NVENCAPI_VERSION | (version << 16) | (0x7u32 << 28);
    assert(version < 0x1000 ==> (7u32 | (0u32 << 24)) | (version << 16) | (0x7u32 << 28)
        == 0x7000_0007 + version * 0x1_0000) by (bit_vector);
    r
}

/// The canonical forms of the identifiers in a list that the encoder
/// filled in, in their order.
pub fn make_uuid_vec(guids: &Vec<Guid>) -> (r: Result<Vec<UuidBytes>, NvidiaError>)
    ensures
        r is Ok,
        r.unwrap()@.len() == guids@.len(),
        forall|i: int|
            0 <= i < guids@.len() ==> (#[trigger] r.unwrap()@[i])@ == guid_bytes(guids@[i]),
{
    let mut result: Vec<UuidBytes> = Vec::new();
    let mut i: usize = 0;
    while i < guids.len()
        invariant
            i <= guids@.len(),
            result@.len() == i,
            forall|k: int| 0 <= k < i ==> (#[trigger] result@[k])@ == guid_bytes(guids@[k]),
        decreases guids@.len() - i,
    {
        match guid_to_uuid(&guids[i]) {
            Ok(id) => {
                result.push(id);
            },
            Err(e) => {
                return Err(e);
            },
        }
        i = i + 1;
    }
    Ok(result)
}

/// An open encode session.
#[derive(Debug, PartialEq, Eq)]
pub struct NvEncoder {
    handle: usize,
}

impl View for NvEncoder {
    type V = usize;

    closed spec fn view(&self) -> usize {
        self.handle
    }
}

/// What came of opening an encode session.
#[derive(Debug, PartialEq, Eq)]
pub enum SessionOpening {
    /// The session is open.
    Opened(NvEncoder),
    /// The session could not be opened. Where `destroy` is set the caller
    /// is to destroy the handle all the same, as the encoder demands it of
    /// a session whose opening it refused.
    Failed { error: NvidiaError, destroy: bool },
}

impl NvEncoder {
    /// The session behind `handle`, from the status with which the encoder
    /// opened it; no status means that the encoder's function list lacks
    /// the function that opens a session, which was then never called.
    pub fn new(handle: usize, status: Option<u32>) -> (r: SessionOpening)
        ensures
            match status {
                None => r == (SessionOpening::Failed {
                    error: NvidiaError::NvEncFunctionNotAvailable("nvEncOpenEncodeSessionEx"),
                    destroy: false,
                }),
                Some(s) => if s == NV_ENC_SUCCESS {
                    r matches SessionOpening::Opened(encoder) && encoder@ == handle
                } else {
                    r == (SessionOpening::Failed {
                        error: NvidiaError::OperationFailed(s),
                        destroy: true,
                    })
                },
            },
    {
        match check_encoder_status("nvEncOpenEncodeSessionEx", status) {
            Ok(_) => SessionOpening::Opened(NvEncoder { handle }),
            Err(error) => SessionOpening::Failed { error, destroy: status.is_some() },
        }
    }

    /// The session's handle.
    pub fn handle(&self) -> (r: usize)
        ensures
            r == self@,
    {
        self.handle
    }
}

} // verus!
