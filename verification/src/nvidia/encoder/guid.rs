//! The two forms of a 128-bit identifier, the encoder's and the canonical
//! one, and the identifiers of the codecs and profiles that are known.
use vstd::prelude::*;
use vstd::arithmetic::div_mod::{lemma_fundamental_div_mod, lemma_fundamental_div_mod_converse};
use crate::nvidia::error::NvidiaError;

verus! {

/// A 128-bit identifier as sixteen bytes, most significant first.
pub type UuidBytes = [u8; 16];

/// A 128-bit identifier in the layout the encoder uses: three integers and
/// eight bytes.
#[derive(Clone, Copy, Debug, PartialEq, Eq)]
pub struct Guid {
    pub data1: u32,
    pub data2: u16,
    pub data3: u16,
    pub data4: [u8; 8],
}

/// The number that the given bytes spell, most significant byte first.
pub open spec fn big_endian(bytes: Seq<u8>) -> int
    decreases bytes.len(),
{
    if bytes.len() == 0 {
        0
    } else {
        big_endian(bytes.drop_last()) * 256 + bytes.last()
    }
}

/// Whether `guid` and the sixteen bytes `id` are the same identifier: each
/// integer of `guid` is spelled by its bytes of `id`, most significant
/// first, and the last eight bytes are the same.
pub open spec fn same_identifier(guid: Guid, id: Seq<u8>) -> bool {
    &&& id.len() == 16
    &&& guid.data1 == big_endian(id.subrange(0, 4))
    &&& guid.data2 == big_endian(id.subrange(4, 6))
    &&& guid.data3 == big_endian(id.subrange(6, 8))
    &&& guid.data4@ == id.subrange(8, 16)
}

/// The first eight bytes of an identifier's canonical form.
pub open spec fn leading_bytes(guid: Guid) -> Seq<u8> {
    seq![
        (guid.data1 / 0x100_0000) as u8,
        ((guid.data1 / 0x1_0000) % 0x100) as u8,
        ((guid.data1 / 0x100) % 0x100) as u8,
        (guid.data1 % 0x100) as u8,
        (guid.data2 / 0x100) as u8,
        (guid.data2 % 0x100) as u8,
        (guid.data3 / 0x100) as u8,
        (guid.data3 % 0x100) as u8,
    ]
}

/// The sixteen bytes of an identifier's canonical form.
pub open spec fn guid_bytes(guid: Guid) -> Seq<u8> {
    leading_bytes(guid) + guid.data4@
}

/// The encoder's identifier of H.264.
pub const CODEC_H264: UuidBytes = [
    0x6b, 0xc8, 0x27, 0x62, 0x4e, 0x63, 0x4c, 0xa4,
    0xaa, 0x85, 0x1e, 0x50, 0xf3, 0x21, 0xf6, 0xbf,
];

/// The encoder's identifier of HEVC.
pub const CODEC_HEVC: UuidBytes = [
    0x79, 0x0c, 0xdc, 0x88, 0x45, 0x22, 0x4d, 0x7b,
    0x94, 0x25, 0xbd, 0xa9, 0x97, 0x5f, 0x76, 0x03,
];

/// The encoder's identifier of AV1.
pub const CODEC_AV1: UuidBytes = [
    0x0a, 0x35, 0x22, 0x89, 0x0a, 0xa7, 0x47, 0x59,
    0x86, 0x2d, 0x5d, 0x15, 0xcd, 0x16, 0xd2, 0x54,
];

/// The encoder's identifier of the H.264 baseline profile.
pub const H264_PROFILE_BASELINE: UuidBytes = [
    0x07, 0x27, 0xbc, 0xaa, 0x78, 0xc4, 0x4c, 0x83,
    0x8c, 0x2f, 0xef, 0x3d, 0xff, 0x26, 0x7c, 0x6a,
];

/// The encoder's identifier of the H.264 main profile.
pub const H264_PROFILE_MAIN: UuidBytes = [
    0x60, 0xb5, 0xc1, 0xd4, 0x67, 0xfe, 0x47, 0x90,
    0x94, 0xd5, 0xc4, 0x72, 0x6d, 0x7b, 0x6e, 0x6d,
];

/// The encoder's identifier of the H.264 high profile.
pub const H264_PROFILE_HIGH: UuidBytes = [
    0xe7, 0xcb, 0xc3, 0x09, 0x4f, 0x7a, 0x4b, 0x89,
    0xaf, 0x2a, 0xd5, 0x37, 0xc9, 0x2b, 0xe3, 0x10,
];

/// The encoder's identifier of the H.264 high 4:4:4 profile.
pub const H264_PROFILE_HIGH_444: UuidBytes = [
    0x7a, 0xc6, 0x63, 0xcb, 0xa5, 0x98, 0x49, 0x60,
    0xb8, 0x44, 0x33, 0x9b, 0x26, 0x1a, 0x7d, 0x52,
];

/// The encoder's identifier of the HEVC main profile.
pub const HEVC_PROFILE_MAIN: UuidBytes = [
    0xb5, 0x14, 0xc3, 0x9a, 0xb5, 0x5b, 0x40, 0xfa,
    0x87, 0x8f, 0xf1, 0x25, 0x3b, 0x4d, 0xfd, 0xec,
];

/// The encoder's identifier of the HEVC main 10 profile.
pub const HEVC_PROFILE_MAIN10: UuidBytes = [
    0xfa, 0x4d, 0x2b, 0x6c, 0x3a, 0x5b, 0x41, 0x1a,
    0x80, 0x18, 0x0a, 0x3f, 0x5e, 0x3c, 0x9b, 0xe5,
];

/// The encoder's identifier of the AV1 main profile.
pub const AV1_PROFILE_MAIN: UuidBytes = [
    0x5f, 0x2a, 0x39, 0xf5, 0xf1, 0x4e, 0x4f, 0x95,
    0x9a, 0x9e, 0xb7, 0x6d, 0x56, 0x8f, 0xcf, 0x97,
];

/// The failure of an identifier conversion.
#[verifier::external_type_specification]
#[verifier::external_body]
pub struct ExUuidError(uuid::Error);

/// `uuid::Uuid::from_slice`, with the identifier handed back as its bytes:
/// it accepts exactly the slices of sixteen bytes, and the identifier then
/// holds those bytes in the same order.
#[verifier::external_body]
fn uuid_from_slice(bytes: &[u8]) -> (r: Result<UuidBytes, uuid::Error>)
    ensures
        r is Ok <==> bytes@.len() == 16,
        r is Ok ==> r.unwrap()@ == bytes@,
{
    match uuid::Uuid::from_slice(bytes) {
        Ok(id) => Ok(id.into_bytes()),
        Err(e) => Err(e),
    }
}

/// `uuid::Uuid::as_fields` on the identifier with the given bytes: the
/// first four bytes, the next two and the next two are each read as one
/// integer, most significant byte first, and the last eight bytes are
/// handed back as they are.
#[verifier::external_body]
fn uuid_as_fields(id: &UuidBytes) -> (r: (u32, u16, u16, [u8; 8]))
    ensures
        r.0 == big_endian(id@.subrange(0, 4)),
        r.1 == big_endian(id@.subrange(4, 6)),
        r.2 == big_endian(id@.subrange(6, 8)),
        r.3@ == id@.subrange(8, 16),
{
    let uuid = uuid::Uuid::from_bytes(*id);
    let (d1, d2, d3, d4) = uuid.as_fields();
    (d1, d2, d3, *d4)
}

/// `uuid::Uuid::nil`, as its bytes: sixteen zero bytes.
#[verifier::external_body]
fn uuid_nil() -> (r: UuidBytes)
    ensures
        forall|i: int| 0 <= i < 16 ==> r@[i] == 0,
{
    uuid::Uuid::nil().into_bytes()
}

/// The identifier that stands for "none": sixteen zero bytes.
pub fn nil_uuid() -> (r: UuidBytes)
    ensures
        r@ == Seq::new(16, |i: int| 0u8),
{
    let r = uuid_nil();
    assert(r@ =~= Seq::new(16, |i: int| 0u8));
    r
}

/// An identifier from a slice of bytes, which must be sixteen; a slice of
/// any other length is refused with its length.
pub fn uuid_from_bytes(bytes: &[u8]) -> (r: Result<UuidBytes, NvidiaError>)
    ensures
        bytes@.len() == 16 ==> r is Ok && r.unwrap()@ == bytes@,
        bytes@.len() != 16 ==> r == Err::<UuidBytes, NvidiaError>(
            NvidiaError::FailedToConvertUuid(bytes@.len() as usize),
        ),
{
    match uuid_from_slice(bytes) {
        Ok(id) => Ok(id),
        Err(_) => Err(NvidiaError::FailedToConvertUuid(bytes.len())),
    }
}

/// Whether two identifiers are the same.
pub fn same_uuid(a: &UuidBytes, b: &UuidBytes) -> (r: bool)
    ensures
        r == (a@ == b@),
{
    let mut i: usize = 0;
    while i < 16
        invariant
            i <= 16,
            forall|k: int| 0 <= k < i ==> a@[k] == b@[k],
        decreases 16 - i,
    {
        if a[i] != b[i] {
            return false;
        }
        i = i + 1;
    }
    assert(a@ =~= b@);
    true
}

/// The first integer of an identifier's encoder form.
pub fn first_field(id: &UuidBytes) -> (r: u32)
    ensures
        r == big_endian(id@.subrange(0, 4)),
{
    uuid_as_fields(id).0
}

/// The canonical form of an identifier that the encoder handed out: the
/// bytes of its three integers, most significant first, then its eight
/// bytes.
pub fn guid_to_uuid(guid: &Guid) -> (r: Result<UuidBytes, NvidiaError>)
    ensures
        r is Ok,
        r.unwrap()@ == guid_bytes(*guid),
        same_identifier(*guid, r.unwrap()@),
{
    let mut bytes: Vec<u8> = Vec::new();
    bytes.push((guid.data1 / 0x100_0000) as u8);
    bytes.push(((guid.data1 / 0x1_0000) % 0x100) as u8);
    bytes.push(((guid.data1 / 0x100) % 0x100) as u8);
    bytes.push((guid.data1 % 0x100) as u8);
    bytes.push((guid.data2 / 0x100) as u8);
    bytes.push((guid.data2 % 0x100) as u8);
    bytes.push((guid.data3 / 0x100) as u8);
    bytes.push((guid.data3 % 0x100) as u8);
    let mut i: usize = 0;
    while i < 8
        invariant
            i <= 8,
            bytes@.len() == 8 + i,
            bytes@.subrange(0, 8) == leading_bytes(*guid),
            forall|k: int| 0 <= k < i ==> bytes@[8 + k] == guid.data4@[k],
        decreases 8 - i,
    {
        let ghost before = bytes@;
        bytes.push(guid.data4[i]);
        assert(bytes@.subrange(0, 8) =~= before.subrange(0, 8));
        i = i + 1;
    }
    proof {
        assert(bytes@ =~= guid_bytes(*guid));
        lemma_identifier_round_trip(*guid, bytes@);
    }
    uuid_from_bytes(bytes.as_slice())
}

/// The encoder's form of an identifier.
pub fn uuid_to_guid(id: &UuidBytes) -> (r: Guid)
    ensures
        same_identifier(r, id@),
        guid_bytes(r) == id@,
{
    let fields = uuid_as_fields(id);
    let r = Guid { data1: fields.0, data2: fields.1, data3: fields.2, data4: fields.3 };
    proof {
        lemma_identifier_round_trip(r, id@);
    }
    r
}

proof fn lemma_big_endian_4(b: Seq<u8>)
    requires
        b.len() == 4,
    ensures
        big_endian(b) == b[0] * 0x100_0000 + b[1] * 0x1_0000 + b[2] * 0x100 + b[3],
{
    reveal_with_fuel(big_endian, 5);
    assert(b.drop_last().drop_last().drop_last().drop_last().len() == 0);
    assert(b.drop_last()[2] == b[2]);
    assert(b.drop_last().drop_last()[1] == b[1]);
    assert(b.drop_last().drop_last().drop_last()[0] == b[0]);
}

proof fn lemma_big_endian_2(b: Seq<u8>)
    requires
        b.len() == 2,
    ensures
        big_endian(b) == b[0] * 0x100 + b[1],
{
    reveal_with_fuel(big_endian, 3);
    assert(b.drop_last().drop_last().len() == 0);
    assert(b.drop_last()[0] == b[0]);
}

proof fn lemma_split_u32(d: u32)
    ensures
        (d / 0x100_0000) * 0x100_0000 + ((d / 0x1_0000) % 0x100) * 0x1_0000 + ((d / 0x100) % 0x100)
            * 0x100 + d % 0x100 == d,
        d / 0x100_0000 < 0x100,
{
    let x = d as int;
    lemma_fundamental_div_mod(x, 0x100);
    lemma_fundamental_div_mod(x / 0x100, 0x100);
    lemma_fundamental_div_mod(x / 0x1_0000, 0x100);
    assert(x / 0x100 / 0x100 == x / 0x1_0000);
    assert(x / 0x1_0000 / 0x100 == x / 0x100_0000);
    assert(x / 0x100_0000 < 0x100);
    assert((x / 0x100_0000) % 0x100 == x / 0x100_0000);
}

proof fn lemma_join_u32(b0: u8, b1: u8, b2: u8, b3: u8)
    ensures
        ({
            let d = b0 * 0x100_0000 + b1 * 0x1_0000 + b2 * 0x100 + b3;
            &&& d / 0x100_0000 == b0
            &&& (d / 0x1_0000) % 0x100 == b1
            &&& (d / 0x100) % 0x100 == b2
            &&& d % 0x100 == b3
        }),
{
    let d = b0 * 0x100_0000 + b1 * 0x1_0000 + b2 * 0x100 + b3;
    lemma_fundamental_div_mod_converse(
        d,
        0x100_0000,
        b0 as int,
        b1 * 0x1_0000 + b2 * 0x100 + b3,
    );
    lemma_fundamental_div_mod_converse(d, 0x1_0000, b0 * 0x100 + b1, b2 * 0x100 + b3);
    lemma_fundamental_div_mod_converse(b0 * 0x100 + b1, 0x100, b0 as int, b1 as int);
    lemma_fundamental_div_mod_converse(d, 0x100, b0 * 0x1_0000 + b1 * 0x100 + b2, b3 as int);
    lemma_fundamental_div_mod_converse(
        b0 * 0x1_0000 + b1 * 0x100 + b2,
        0x100,
        b0 * 0x100 + b1,
        b2 as int,
    );
}

proof fn lemma_join_u16(b0: u8, b1: u8)
    ensures
        (b0 * 0x100 + b1) / 0x100 == b0,
        (b0 * 0x100 + b1) % 0x100 == b1,
{
    lemma_fundamental_div_mod_converse(b0 * 0x100 + b1, 0x100, b0 as int, b1 as int);
}

/// The integers of a `Guid` are spelled by the leading bytes of its
/// canonical form.
proof fn lemma_leading_bytes_spell(guid: Guid)
    ensures
        big_endian(leading_bytes(guid).subrange(0, 4)) == guid.data1,
        big_endian(leading_bytes(guid).subrange(4, 6)) == guid.data2,
        big_endian(leading_bytes(guid).subrange(6, 8)) == guid.data3,
{
    let lead = leading_bytes(guid);
    lemma_big_endian_4(lead.subrange(0, 4));
    lemma_big_endian_2(lead.subrange(4, 6));
    lemma_big_endian_2(lead.subrange(6, 8));
    lemma_split_u32(guid.data1);
}

/// Bytes that spell the integers of a `Guid` are the leading bytes of its
/// canonical form.
proof fn lemma_spelling_is_leading_bytes(guid: Guid, lead: Seq<u8>)
    requires
        lead.len() == 8,
        big_endian(lead.subrange(0, 4)) == guid.data1,
        big_endian(lead.subrange(4, 6)) == guid.data2,
        big_endian(lead.subrange(6, 8)) == guid.data3,
    ensures
        lead == leading_bytes(guid),
{
    lemma_big_endian_4(lead.subrange(0, 4));
    lemma_big_endian_2(lead.subrange(4, 6));
    lemma_big_endian_2(lead.subrange(6, 8));
    lemma_join_u32(lead[0], lead[1], lead[2], lead[3]);
    lemma_join_u16(lead[4], lead[5]);
    lemma_join_u16(lead[6], lead[7]);
    assert(lead.subrange(0, 4)[0] == lead[0]);
    assert(lead.subrange(0, 4)[1] == lead[1]);
    assert(lead.subrange(0, 4)[2] == lead[2]);
    assert(lead.subrange(0, 4)[3] == lead[3]);
    assert(lead.subrange(4, 6)[0] == lead[4]);
    assert(lead.subrange(4, 6)[1] == lead[5]);
    assert(lead.subrange(6, 8)[0] == lead[6]);
    assert(lead.subrange(6, 8)[1] == lead[7]);
    assert(lead =~= leading_bytes(guid));
}

/// The two forms of an identifier determine each other. The canonical
/// bytes of a `Guid` are the same identifier as the `Guid`; sixteen bytes
/// that are the same identifier as a `Guid` are its canonical bytes; and
/// two `Guid`s that are the same identifier as one run of bytes agree in
/// every field. So converting either way and back gives the value one
/// started with.
pub proof fn lemma_identifier_round_trip(guid: Guid, id: Seq<u8>)
    ensures
        same_identifier(guid, guid_bytes(guid)),
        same_identifier(guid, id) ==> guid_bytes(guid) == id,
        forall|other: Guid|
            same_identifier(guid, id) && #[trigger] same_identifier(other, id) ==> {
                &&& other.data1 == guid.data1
                &&& other.data2 == guid.data2
                &&& other.data3 == guid.data3
                &&& other.data4@ == guid.data4@
            },
{
    let own = guid_bytes(guid);
    assert(guid.data4@.len() == 8);
    assert(own.len() == 16);
    lemma_leading_bytes_spell(guid);
    assert(own.subrange(0, 4) =~= leading_bytes(guid).subrange(0, 4));
    assert(own.subrange(4, 6) =~= leading_bytes(guid).subrange(4, 6));
    assert(own.subrange(6, 8) =~= leading_bytes(guid).subrange(6, 8));
    assert(own.subrange(8, 16) =~= guid.data4@);
    if same_identifier(guid, id) {
        let lead = id.subrange(0, 8);
        assert(lead.subrange(0, 4) =~= id.subrange(0, 4));
        assert(lead.subrange(4, 6) =~= id.subrange(4, 6));
        assert(lead.subrange(6, 8) =~= id.subrange(6, 8));
        lemma_spelling_is_leading_bytes(guid, lead);
        assert(id =~= lead + id.subrange(8, 16));
    }
}

} // verus!
