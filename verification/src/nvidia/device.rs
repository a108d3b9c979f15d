//! The GPUs that the CUDA driver lists.
use vstd::prelude::*;
use vstd::slice::slice_subrange;
use vstd::utf8::{decode_utf8, valid_utf8};
use crate::nvidia::encoder::guid::{nil_uuid, uuid_from_bytes, UuidBytes};
use crate::nvidia::error::NvidiaError;

verus! {

/// The size of the buffer into which the driver writes a device's name.
pub const DEVICE_NAME_BUFFER_LEN: usize = 64;

/// One GPU: the driver's handle for it, its name and its unique
/// identifier, which is all zero where the driver cannot tell it.
#[derive(Clone, Debug, PartialEq, Eq)]
pub struct CudaDevice {
    pub handle: i32,
    pub name: String,
    pub uuid: UuidBytes,
}

/// What the driver said about one GPU: its handle, the buffer that holds
/// its name, and the bytes of its unique identifier where the driver can
/// tell it.
#[derive(Clone, Debug, PartialEq, Eq)]
pub struct RawCudaDevice {
    pub handle: i32,
    pub name_buffer: Vec<u8>,
    pub uuid: Option<Vec<u8>>,
}

/// The text that bytes decode to when every ill-formed part is replaced by
/// the replacement character, as `String::from_utf8_lossy` does it.
pub uninterp spec fn utf8_lossy(bytes: Seq<u8>) -> Seq<char>;

/// `String::from_utf8_lossy`, as an owned string: the text that the bytes
/// decode to, ill-formed parts replaced. Bytes that are well-formed UTF-8
/// decode to exactly the text they encode.
#[verifier::external_body]
fn from_utf8_lossy(bytes: &[u8]) -> (r: String)
    ensures
        r@ == utf8_lossy(bytes@),
        valid_utf8(bytes@) ==> r@ == decode_utf8(bytes@),
{
    String::from_utf8_lossy(bytes).into_owned()
}

/// How many bytes stand before the first zero byte; all of them where
/// there is no zero byte.
pub open spec fn text_len(bytes: Seq<u8>) -> int
    decreases bytes.len(),
{
    if bytes.len() == 0 || bytes[0] == 0 {
        0
    } else {
        1 + text_len(bytes.skip(1))
    }
}

/// The bytes before the first zero byte.
pub open spec fn nul_truncated(bytes: Seq<u8>) -> Seq<u8> {
    bytes.take(text_len(bytes))
}

/// The place of the first zero byte: no byte before it is zero, and it is
/// either the end or a zero byte.
pub proof fn lemma_text_len(bytes: Seq<u8>)
    ensures
        0 <= text_len(bytes) <= bytes.len(),
        forall|i: int| 0 <= i < text_len(bytes) ==> bytes[i] != 0,
        text_len(bytes) < bytes.len() ==> bytes[text_len(bytes)] == 0,
    decreases bytes.len(),
{
    if bytes.len() != 0 && bytes[0] != 0 {
        let rest = bytes.skip(1);
        lemma_text_len(rest);
        assert forall|i: int| 0 <= i < text_len(bytes) implies bytes[i] != 0 by {
            if i > 0 {
                assert(rest[i - 1] == bytes[i]);
            }
        }
        if text_len(bytes) < bytes.len() {
            assert(rest[text_len(rest)] == bytes[text_len(bytes)]);
        }
    }
}

/// The first place that is the end or holds a zero byte, with no zero byte
/// before it, is where the text ends.
proof fn lemma_text_len_is(bytes: Seq<u8>, k: int)
    requires
        0 <= k <= bytes.len(),
        forall|i: int| 0 <= i < k ==> bytes[i] != 0,
        k < bytes.len() ==> bytes[k] == 0,
    ensures
        text_len(bytes) == k,
    decreases bytes.len(),
{
    if k > 0 {
        let rest = bytes.skip(1);
        assert forall|i: int| 0 <= i < k - 1 implies rest[i] != 0 by {
            assert(rest[i] == bytes[i + 1]);
        }
        lemma_text_len_is(rest, k - 1);
    }
}

/// The name that a name buffer holds: the bytes before the first zero
/// byte, decoded with every ill-formed part replaced.
pub fn device_name(buffer: &[u8]) -> (r: String)
    ensures
        r@ == utf8_lossy(nul_truncated(buffer@)),
        valid_utf8(nul_truncated(buffer@)) ==> r@ == decode_utf8(nul_truncated(buffer@)),
{
    let mut k: usize = 0;
    while k < buffer.len() && buffer[k] != 0
        invariant
            k <= buffer@.len(),
            forall|i: int| 0 <= i < k ==> buffer@[i] != 0,
        decreases buffer@.len() - k,
    {
        k = k + 1;
    }
    proof {
        lemma_text_len_is(buffer@, k as int);
    }
    let text = slice_subrange(buffer, 0, k);
    assert(text@ =~= nul_truncated(buffer@));
    from_utf8_lossy(text)
}

/// The bytes of an optional run of bytes.
pub open spec fn bytes_view(bytes: Option<Vec<u8>>) -> Option<Seq<u8>> {
    match bytes {
        Some(b) => Some(b@),
        None => None,
    }
}

/// The length of a device's identifier, where it is not sixteen.
pub open spec fn bad_uuid_len(raw: RawCudaDevice) -> Option<usize> {
    match raw.uuid {
        Some(bytes) => if bytes@.len() == 16 {
            None
        } else {
            Some(bytes@.len() as usize)
        },
        None => None,
    }
}

/// The length of the first identifier in the list that is not sixteen bytes
/// long, if there is one.
pub open spec fn first_bad_uuid_len(raw: Seq<RawCudaDevice>) -> Option<usize>
    decreases raw.len(),
{
    if raw.len() == 0 {
        None
    } else if bad_uuid_len(raw[0]) is Some {
        bad_uuid_len(raw[0])
    } else {
        first_bad_uuid_len(raw.skip(1))
    }
}

/// The identifier of a device: the bytes the driver gave, or sixteen zero
/// bytes where it gave none.
pub open spec fn uuid_of(raw: RawCudaDevice) -> Seq<u8> {
    match raw.uuid {
        Some(bytes) => bytes@,
        None => Seq::new(16, |i: int| 0u8),
    }
}

/// Whether `device` is what the driver said in `raw`.
pub open spec fn describes(device: CudaDevice, raw: RawCudaDevice) -> bool {
    &&& device.handle == raw.handle
    &&& device.name@ == utf8_lossy(nul_truncated(raw.name_buffer@))
    &&& device.uuid@ == uuid_of(raw)
}

/// The GPUs of the host, from what the driver said about each, in the
/// driver's order. A device whose identifier the driver cannot tell gets
/// the all-zero identifier. An identifier that is not sixteen bytes long
/// ends the enumeration with its length.
pub fn enumerate_devices(raw: &Vec<RawCudaDevice>) -> (r: Result<Vec<CudaDevice>, NvidiaError>)
    ensures
        match first_bad_uuid_len(raw@) {
            Some(len) => r == Err::<Vec<CudaDevice>, NvidiaError>(
                NvidiaError::FailedToConvertUuid(len),
            ),
            None => r is Ok && r.unwrap()@.len() == raw@.len() && forall|i: int|
                0 <= i < raw@.len() ==> describes(#[trigger] r.unwrap()@[i], raw@[i]),
        },
{
    let mut devices: Vec<CudaDevice> = Vec::new();
    let mut i: usize = 0;
    assert(raw@.skip(0) =~= raw@);
    while i < raw.len()
        invariant
            i <= raw@.len(),
            devices@.len() == i,
            first_bad_uuid_len(raw@) == first_bad_uuid_len(raw@.skip(i as int)),
            forall|k: int| 0 <= k < i ==> describes(#[trigger] devices@[k], raw@[k]),
        decreases raw@.len() - i,
    {
        let entry = &raw[i];
        let name = device_name(entry.name_buffer.as_slice());
        let uuid = match &entry.uuid {
            Some(bytes) => match uuid_from_bytes(bytes.as_slice()) {
                Ok(uuid) => uuid,
                Err(e) => {
                    return Err(e);
                },
            },
            None => nil_uuid(),
        };
        assert(raw@.skip(i as int).skip(1) =~= raw@.skip(i + 1));
        devices.push(CudaDevice { handle: entry.handle, name, uuid });
        i = i + 1;
    }
    Ok(devices)
}

} // verus!
