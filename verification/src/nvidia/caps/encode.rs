//! The encode probe: which codecs and profiles the encoder's identifiers
//! stand for, and which formats its capability values give.
use vstd::prelude::*;
use crate::aggregate::{assemble, assembled, empty_lists, lists, no_entries};
use crate::model::{
    codec_order, details_views, Chroma, Codec, CodecDetails, ColorDepth, DecodingSpec,
    EncodeProfile, EncodingSpec, ThreeValue, CODEC_COUNT,
};
use crate::nvidia::encoder::guid::{
    big_endian, first_field, same_uuid, UuidBytes, AV1_PROFILE_MAIN, CODEC_AV1, CODEC_H264,
    CODEC_HEVC, H264_PROFILE_BASELINE, H264_PROFILE_HIGH, H264_PROFILE_HIGH_444,
    H264_PROFILE_MAIN, HEVC_PROFILE_MAIN, HEVC_PROFILE_MAIN10,
};
use crate::nvidia::error::{convert_size, NvidiaError};

verus! {

/// The codec that an encoder identifier stands for, if it is a known one.
pub open spec fn codec_of_guid(id: Seq<u8>) -> Option<Codec> {
    if id == CODEC_H264@ {
        Some(Codec::H264)
    } else if id == CODEC_HEVC@ {
        Some(Codec::Hevc)
    } else if id == CODEC_AV1@ {
        Some(Codec::Av1)
    } else {
        None
    }
}

/// The codec that an encoder identifier stands for. An identifier that is
/// not known stands for none.
pub fn match_codec(uuid: &UuidBytes) -> (r: Option<Codec>)
    ensures
        r == codec_of_guid(uuid@),
{
    if same_uuid(uuid, &CODEC_H264) {
        Some(Codec::H264)
    } else if same_uuid(uuid, &CODEC_HEVC) {
        Some(Codec::Hevc)
    } else if same_uuid(uuid, &CODEC_AV1) {
        Some(Codec::Av1)
    } else {
        None
    }
}

/// The profile that an encoder identifier stands for, if it is a known one.
pub open spec fn profile_of_guid(id: Seq<u8>) -> Option<EncodeProfile> {
    if id == H264_PROFILE_BASELINE@ {
        Some(EncodeProfile::Baseline)
    } else if id == H264_PROFILE_MAIN@ {
        Some(EncodeProfile::Main)
    } else if id == H264_PROFILE_HIGH@ {
        Some(EncodeProfile::High)
    } else if id == H264_PROFILE_HIGH_444@ {
        Some(EncodeProfile::High444)
    } else if id == HEVC_PROFILE_MAIN@ {
        Some(EncodeProfile::Main)
    } else if id == HEVC_PROFILE_MAIN10@ {
        Some(EncodeProfile::Main10)
    } else if id == AV1_PROFILE_MAIN@ {
        Some(EncodeProfile::Main)
    } else {
        None
    }
}

/// Whether the first integer of a profile identifier marks a profile that
/// is passed over in silence.
pub open spec fn is_ignored_field(first: int) -> bool {
    first == 0x4084_7bf5 || first == 0xbfd6_f8e7 || first == 0x51ec_32b5
}

/// What a profile identifier is to the probe.
#[derive(Clone, Copy, Debug, PartialEq, Eq, Structural)]
pub enum ProfileMatch {
    /// The identifier of the given profile.
    Known(EncodeProfile),
    /// An identifier that is passed over in silence.
    Ignored,
    /// An identifier that is passed over and worth a diagnostic.
    Unknown,
}

/// What a profile identifier is to the probe, as a mathematical value.
pub open spec fn profile_match_of(id: Seq<u8>) -> ProfileMatch {
    match profile_of_guid(id) {
        Some(profile) => ProfileMatch::Known(profile),
        None => if is_ignored_field(big_endian(id.subrange(0, 4))) {
            ProfileMatch::Ignored
        } else {
            ProfileMatch::Unknown
        },
    }
}

/// Tells what a profile identifier is to the probe: a known profile, an
/// identifier to pass over in silence, or one to pass over with a
/// diagnostic.
pub fn match_profile(uuid: &UuidBytes) -> (r: ProfileMatch)
    ensures
        r == profile_match_of(uuid@),
{
    if same_uuid(uuid, &H264_PROFILE_BASELINE) {
        ProfileMatch::Known(EncodeProfile::Baseline)
    } else if same_uuid(uuid, &H264_PROFILE_MAIN) {
        ProfileMatch::Known(EncodeProfile::Main)
    } else if same_uuid(uuid, &H264_PROFILE_HIGH) {
        ProfileMatch::Known(EncodeProfile::High)
    } else if same_uuid(uuid, &H264_PROFILE_HIGH_444) {
        ProfileMatch::Known(EncodeProfile::High444)
    } else if same_uuid(uuid, &HEVC_PROFILE_MAIN) {
        ProfileMatch::Known(EncodeProfile::Main)
    } else if same_uuid(uuid, &HEVC_PROFILE_MAIN10) {
        ProfileMatch::Known(EncodeProfile::Main10)
    } else if same_uuid(uuid, &AV1_PROFILE_MAIN) {
        ProfileMatch::Known(EncodeProfile::Main)
    } else {
        let first = first_field(uuid);
        if first == 0x4084_7bf5 || first == 0xbfd6_f8e7 || first == 0x51ec_32b5 {
            ProfileMatch::Ignored
        } else {
            ProfileMatch::Unknown
        }
    }
}

/// The contents of a list of identifiers.
pub open spec fn uuid_views(uuids: Seq<UuidBytes>) -> Seq<Seq<u8>> {
    Seq::new(uuids.len(), |i: int| uuids[i]@)
}

/// The known profiles among the given identifiers, in their order.
pub open spec fn matched_profiles(ids: Seq<Seq<u8>>) -> Seq<EncodeProfile>
    decreases ids.len(),
{
    if ids.len() == 0 {
        Seq::empty()
    } else {
        let before = matched_profiles(ids.drop_last());
        match profile_of_guid(ids.last()) {
            Some(profile) => before.push(profile),
            None => before,
        }
    }
}

/// The profiles that the given identifiers stand for, in their order.
/// Identifiers that stand for no known profile are passed over.
pub fn match_profiles(uuids: &Vec<UuidBytes>) -> (r: Vec<EncodeProfile>)
    ensures
        r@ == matched_profiles(uuid_views(uuids@)),
{
    let mut r: Vec<EncodeProfile> = Vec::new();
    let mut i: usize = 0;
    let ghost ids = uuid_views(uuids@);
    while i < uuids.len()
        invariant
            i <= uuids@.len(),
            ids == uuid_views(uuids@),
            r@ == matched_profiles(ids.take(i as int)),
        decreases uuids@.len() - i,
    {
        let matched = match_profile(&uuids[i]);
        proof {
            let next = ids.take(i + 1);
            assert(next.drop_last() =~= ids.take(i as int));
            assert(next.last() == uuids@[i as int]@);
        }
        match matched {
            ProfileMatch::Known(profile) => {
                r.push(profile);
            },
            _ => {},
        }
        i = i + 1;
    }
    assert(ids.take(uuids@.len() as int) =~= ids);
    r
}

/// The formats that one profile of a codec gives, from the encoder's
/// capability values for that codec. There is always the plain format,
/// 4:2:0 with 8 bits. Where the encoder can do 10 bits or 4:4:4 there is
/// one format more: 10 bits in 4:2:0 if only 10 bits are on offer, 8 bits
/// in 4:4:4 if only 4:4:4 is, and 10 bits in 4:4:4 if both are.
pub open spec fn synthesized(
    profile: EncodeProfile,
    max_width: u32,
    max_height: u32,
    ten_bit: bool,
    b_frames: bool,
    yuv444: bool,
) -> Seq<EncodingSpec> {
    let base = EncodingSpec {
        chroma: Chroma::Yuv420,
        color_depth: ColorDepth::Bit8,
        profile,
        max_width,
        max_height,
        b_frames_supported: ThreeValue::of_bool(b_frames),
    };
    if ten_bit && !yuv444 {
        seq![base, EncodingSpec { color_depth: ColorDepth::Bit10, ..base }]
    } else if yuv444 && !ten_bit {
        seq![base, EncodingSpec { chroma: Chroma::Yuv444, ..base }]
    } else if ten_bit && yuv444 {
        seq![base, EncodingSpec { chroma: Chroma::Yuv444, color_depth: ColorDepth::Bit10, ..base }]
    } else {
        seq![base]
    }
}

/// The formats that one profile of a codec gives, from the encoder's
/// capability values for that codec.
pub fn synthesize_specs(
    profile: EncodeProfile,
    max_width: u32,
    max_height: u32,
    ten_bit: bool,
    b_frames: bool,
    yuv444: bool,
) -> (r: Vec<EncodingSpec>)
    ensures
        r@ == synthesized(profile, max_width, max_height, ten_bit, b_frames, yuv444),
{
    let base = EncodingSpec {
        chroma: Chroma::Yuv420,
        color_depth: ColorDepth::Bit8,
        profile,
        max_width,
        max_height,
        b_frames_supported: ThreeValue::from(b_frames),
    };
    let mut r: Vec<EncodingSpec> = Vec::new();
    r.push(base);
    if ten_bit && !yuv444 {
        r.push(EncodingSpec { color_depth: ColorDepth::Bit10, ..base });
    } else if yuv444 && !ten_bit {
        r.push(EncodingSpec { chroma: Chroma::Yuv444, ..base });
    } else if ten_bit && yuv444 {
        r.push(EncodingSpec { chroma: Chroma::Yuv444, color_depth: ColorDepth::Bit10, ..base });
    }
    assert(r@ =~= synthesized(profile, max_width, max_height, ten_bit, b_frames, yuv444));
    r
}

/// A profile gives one format, or two where the encoder can do 10 bits or
/// 4:4:4, and never three. The first is always 4:2:0 with 8 bits. The
/// second is 10 bits in 4:2:0 where only 10 bits are on offer, 8 bits in
/// 4:4:4 where only 4:4:4 is, and 10 bits in 4:4:4 where both are. Every
/// format says definitely whether B-frames can be used.
pub proof fn lemma_synthesized_formats(
    profile: EncodeProfile,
    max_width: u32,
    max_height: u32,
    ten_bit: bool,
    b_frames: bool,
    yuv444: bool,
)
    ensures
        ({
            let specs = synthesized(profile, max_width, max_height, ten_bit, b_frames, yuv444);
            &&& specs.len() == if ten_bit || yuv444 {
                2nat
            } else {
                1nat
            }
            &&& specs[0].chroma == Chroma::Yuv420
            &&& specs[0].color_depth == ColorDepth::Bit8
            &&& ten_bit || yuv444 ==> specs[1].chroma == if yuv444 {
                Chroma::Yuv444
            } else {
                Chroma::Yuv420
            }
            &&& ten_bit || yuv444 ==> specs[1].color_depth == if ten_bit {
                ColorDepth::Bit10
            } else {
                ColorDepth::Bit8
            }
            &&& forall|i: int|
                0 <= i < specs.len() ==> {
                    &&& (#[trigger] specs[i]).profile == profile
                    &&& specs[i].max_width == max_width
                    &&& specs[i].max_height == max_height
                    &&& specs[i].b_frames_supported == ThreeValue::of_bool(b_frames)
                    &&& specs[i].b_frames_supported != ThreeValue::Unknown
                }
        }),
{
}

/// What the encoder said about one of the codecs it listed: the
/// identifiers of the codec and of its profiles, and the values of five
/// capabilities, as the encoder reports them.
#[derive(Clone, Debug, PartialEq, Eq)]
pub struct EncoderCaps {
    pub codec_guid: UuidBytes,
    pub profile_guids: Vec<UuidBytes>,
    pub width_max: i32,
    pub height_max: i32,
    pub support_10bit_encode: i32,
    pub num_max_bframes: i32,
    pub support_yuv444_encode: i32,
}

/// The value that cannot stand as a size in what the encoder said about a
/// codec, if there is one: the width is looked at before the height. What
/// is said about a codec that is not known is never read.
pub open spec fn refused_value(caps: EncoderCaps) -> Option<i32> {
    if codec_of_guid(caps.codec_guid@) is None {
        None
    } else if caps.width_max < 0 {
        Some(caps.width_max)
    } else if caps.height_max < 0 {
        Some(caps.height_max)
    } else {
        None
    }
}

/// The first value in the list that cannot stand as a size, if there is
/// one.
pub open spec fn first_refused(list: Seq<EncoderCaps>) -> Option<i32>
    decreases list.len(),
{
    if list.len() == 0 {
        None
    } else if refused_value(list[0]) is Some {
        refused_value(list[0])
    } else {
        first_refused(list.skip(1))
    }
}

/// The formats that the given profiles give, profile by profile.
pub open spec fn profiles_encoding(
    profiles: Seq<EncodeProfile>,
    max_width: u32,
    max_height: u32,
    ten_bit: bool,
    b_frames: bool,
    yuv444: bool,
) -> Seq<EncodingSpec>
    decreases profiles.len(),
{
    if profiles.len() == 0 {
        Seq::empty()
    } else {
        profiles_encoding(
            profiles.drop_last(),
            max_width,
            max_height,
            ten_bit,
            b_frames,
            yuv444,
        ) + synthesized(profiles.last(), max_width, max_height, ten_bit, b_frames, yuv444)
    }
}

/// The entries that what was said about one codec adds to the encode list
/// of `codec`: the formats of its known profiles if it is about that codec,
/// none otherwise. 10 bits and 4:4:4 are on offer where the encoder says 1,
/// B-frames where it allows more than none.
pub open spec fn caps_encoding(caps: EncoderCaps, codec: Codec) -> Seq<EncodingSpec> {
    if codec_of_guid(caps.codec_guid@) == Some(codec) {
        profiles_encoding(
            matched_profiles(uuid_views(caps.profile_guids@)),
            caps.width_max as u32,
            caps.height_max as u32,
            caps.support_10bit_encode == 1,
            caps.num_max_bframes > 0,
            caps.support_yuv444_encode == 1,
        )
    } else {
        Seq::empty()
    }
}

/// The encode list of `codec` after what was said about the given codecs,
/// in the order in which the encoder listed them.
pub open spec fn encoded_list(list: Seq<EncoderCaps>, codec: Codec) -> Seq<EncodingSpec>
    decreases list.len(),
{
    if list.len() == 0 {
        Seq::empty()
    } else {
        encoded_list(list.drop_last(), codec) + caps_encoding(list.last(), codec)
    }
}

/// The encode lists of all codecs, in report order.
pub open spec fn encoded_lists(list: Seq<EncoderCaps>) -> Seq<Seq<EncodingSpec>> {
    Seq::new(CODEC_COUNT as nat, |k: int| encoded_list(list, codec_order()[k]))
}

/// What the encoder can do with one codec, read from what it said: the
/// codec, its known profiles in the encoder's order, the largest picture,
/// and whether 10 bits, B-frames and 4:4:4 are on offer.
#[derive(Clone, Debug, PartialEq, Eq)]
pub struct NvEncodeCapabilities {
    pub codec: Codec,
    pub profiles: Vec<EncodeProfile>,
    pub max_width: u32,
    pub max_height: u32,
    pub ten_bit_encode_supported: bool,
    pub b_frames_supported: bool,
    pub yuv_444_encode_supported: bool,
}

impl NvEncodeCapabilities {
    /// Whether these are the capabilities that `caps` spells out. 10 bits
    /// and 4:4:4 are on offer where the encoder says 1, B-frames where it
    /// allows more than none.
    pub open spec fn reads(self, caps: EncoderCaps) -> bool {
        &&& Some(self.codec) == codec_of_guid(caps.codec_guid@)
        &&& self.profiles@ == matched_profiles(uuid_views(caps.profile_guids@))
        &&& self.max_width == caps.width_max
        &&& self.max_height == caps.height_max
        &&& self.ten_bit_encode_supported == (caps.support_10bit_encode == 1)
        &&& self.b_frames_supported == (caps.num_max_bframes > 0)
        &&& self.yuv_444_encode_supported == (caps.support_yuv444_encode == 1)
    }

    /// The formats these capabilities give, profile by profile.
    pub open spec fn formats(self) -> Seq<EncodingSpec> {
        profiles_encoding(
            self.profiles@,
            self.max_width,
            self.max_height,
            self.ten_bit_encode_supported,
            self.b_frames_supported,
            self.yuv_444_encode_supported,
        )
    }
}

impl NvEncodeCapabilities {
    /// The formats these capabilities give, profile by profile.
    pub fn encoding_specs(&self) -> (r: Vec<EncodingSpec>)
        ensures
            r@ == self.formats(),
    {
        let mut r: Vec<EncodingSpec> = Vec::new();
        file_profiles(
            &mut r,
            &self.profiles,
            self.max_width,
            self.max_height,
            self.ten_bit_encode_supported,
            self.b_frames_supported,
            self.yuv_444_encode_supported,
        );
        assert(r@ =~= self.formats());
        r
    }
}

/// Reads what the encoder said about one codec. A codec whose identifier is
/// not known gives nothing, whatever else was said about it. For a known
/// codec a negative width or height is refused, the width being looked at
/// first.
pub fn read_caps(caps: &EncoderCaps) -> (r: Result<Option<NvEncodeCapabilities>, NvidiaError>)
    ensures
        match refused_value(*caps) {
            Some(value) => r == Err::<Option<NvEncodeCapabilities>, NvidiaError>(
                NvidiaError::FailedToConvertResult(value),
            ),
            None => match r {
                Ok(Some(read)) => read.reads(*caps),
                Ok(None) => codec_of_guid(caps.codec_guid@) is None,
                Err(_) => false,
            },
        },
{
    let codec = match match_codec(&caps.codec_guid) {
        Some(codec) => codec,
        None => {
            return Ok(None);
        },
    };
    let profiles = match_profiles(&caps.profile_guids);
    let max_width = match convert_size(caps.width_max) {
        Ok(width) => width,
        Err(e) => {
            return Err(e);
        },
    };
    let max_height = match convert_size(caps.height_max) {
        Ok(height) => height,
        Err(e) => {
            return Err(e);
        },
    };
    Ok(
        Some(
            NvEncodeCapabilities {
                codec,
                profiles,
                max_width,
                max_height,
                ten_bit_encode_supported: caps.support_10bit_encode == 1,
                b_frames_supported: caps.num_max_bframes > 0,
                yuv_444_encode_supported: caps.support_yuv444_encode == 1,
            },
        ),
    )
}

/// Appends the formats of the given profiles to one list.
fn file_profiles(
    list: &mut Vec<EncodingSpec>,
    profiles: &Vec<EncodeProfile>,
    max_width: u32,
    max_height: u32,
    ten_bit: bool,
    b_frames: bool,
    yuv444: bool,
)
    ensures
        final(list)@ == old(list)@ + profiles_encoding(
            profiles@,
            max_width,
            max_height,
            ten_bit,
            b_frames,
            yuv444,
        ),
{
    let mut j: usize = 0;
    assert(list@ =~= old(list)@ + profiles_encoding(
        profiles@.take(0),
        max_width,
        max_height,
        ten_bit,
        b_frames,
        yuv444,
    ));
    while j < profiles.len()
        invariant
            j <= profiles@.len(),
            list@ == old(list)@ + profiles_encoding(
                profiles@.take(j as int),
                max_width,
                max_height,
                ten_bit,
                b_frames,
                yuv444,
            ),
        decreases profiles@.len() - j,
    {
        let specs = synthesize_specs(profiles[j], max_width, max_height, ten_bit, b_frames, yuv444);
        let ghost before = list@;
        let mut k: usize = 0;
        while k < specs.len()
            invariant
                k <= specs@.len(),
                list@ == before + specs@.take(k as int),
            decreases specs@.len() - k,
        {
            list.push(specs[k]);
            assert(specs@.take(k + 1) =~= specs@.take(k as int).push(specs@[k as int]));
            k = k + 1;
        }
        proof {
            assert(specs@.take(specs@.len() as int) =~= specs@);
            let next = profiles@.take(j + 1);
            assert(next.drop_last() =~= profiles@.take(j as int));
            assert(next.last() == profiles@[j as int]);
            assert(list@ =~= old(list)@ + profiles_encoding(
                next,
                max_width,
                max_height,
                ten_bit,
                b_frames,
                yuv444,
            ));
        }
        j = j + 1;
    }
    assert(profiles@.take(profiles@.len() as int) =~= profiles@);
}

/// The encode records of one GPU, from what the encoder said about each
/// codec it listed, in the order of its list. A codec whose identifier is
/// not known is passed over unread. For a known codec a negative width or
/// height ends the probe with that value, the width being looked at
/// first. Otherwise each known profile of the codec files its formats
/// under the codec, the codecs come out in report order, and a codec
/// without a format is left out.
pub fn get_encode_capabilities(list: &Vec<EncoderCaps>) -> (r: Result<
    Vec<CodecDetails>,
    NvidiaError,
>)
    ensures
        match first_refused(list@) {
            Some(value) => r == Err::<Vec<CodecDetails>, NvidiaError>(
                NvidiaError::FailedToConvertResult(value),
            ),
            None => r is Ok && details_views(r.unwrap()@) == assembled(
                no_entries::<DecodingSpec>(),
                encoded_lists(list@),
                CODEC_COUNT as int,
            ),
        },
{
    let decode: Vec<Vec<DecodingSpec>> = empty_lists();
    let mut encode: Vec<Vec<EncodingSpec>> = empty_lists();
    let mut i: usize = 0;
    assert(list@.skip(0) =~= list@);
    while i < list.len()
        invariant
            i <= list@.len(),
            encode@.len() == CODEC_COUNT,
            first_refused(list@) == first_refused(list@.skip(i as int)),
            forall|k: int|
                0 <= k < CODEC_COUNT ==> (#[trigger] encode@[k])@ == encoded_list(
                    list@.take(i as int),
                    codec_order()[k],
                ),
        decreases list@.len() - i,
    {
        let caps = &list[i];
        let ghost before = encode@;
        match read_caps(caps) {
            Err(e) => {
                return Err(e);
            },
            Ok(None) => {},
            Ok(Some(read)) => {
                file_profiles(
                    &mut encode[read.codec.rank()],
                    &read.profiles,
                    read.max_width,
                    read.max_height,
                    read.ten_bit_encode_supported,
                    read.b_frames_supported,
                    read.yuv_444_encode_supported,
                );
            },
        }
        proof {
            let next = list@.take(i + 1);
            assert(next.drop_last() =~= list@.take(i as int));
            assert(next.last() == *caps);
            assert(list@.skip(i as int).skip(1) =~= list@.skip(i + 1));
            assert forall|k: int| 0 <= k < CODEC_COUNT implies (#[trigger] encode@[k])@
                == encoded_list(next, codec_order()[k]) by {
                assert(before[k]@ == encoded_list(list@.take(i as int), codec_order()[k]));
                assert(encode@[k]@ =~= before[k]@ + caps_encoding(*caps, codec_order()[k]));
            }
        }
        i = i + 1;
    }
    proof {
        assert(list@.take(list@.len() as int) =~= list@);
        assert(lists(encode@) =~= encoded_lists(list@));
    }
    Ok(assemble(decode, encode))
}

/// The order of the encoder's list is the order of the entries: the list
/// after one run of codecs followed by another is the list after the first
/// run, followed by what the second run adds.
pub proof fn lemma_codec_order_kept(first: Seq<EncoderCaps>, second: Seq<EncoderCaps>, codec: Codec)
    ensures
        encoded_list(first + second, codec) == encoded_list(first, codec) + encoded_list(
            second,
            codec,
        ),
    decreases second.len(),
{
    if second.len() == 0 {
        assert(first + second =~= first);
        assert(encoded_list(first, codec) + encoded_list(second, codec) =~= encoded_list(
            first,
            codec,
        ));
    } else {
        let all = first + second;
        assert(all.drop_last() =~= first + second.drop_last());
        assert(all.last() == second.last());
        lemma_codec_order_kept(first, second.drop_last(), codec);
        assert(encoded_list(all, codec) =~= encoded_list(first, codec) + encoded_list(
            second,
            codec,
        ));
    }
}

/// Whether the encoder said the same about a codec twice.
pub open spec fn same_caps(a: EncoderCaps, b: EncoderCaps) -> bool {
    &&& a.codec_guid@ == b.codec_guid@
    &&& uuid_views(a.profile_guids@) == uuid_views(b.profile_guids@)
    &&& a.width_max == b.width_max
    &&& a.height_max == b.height_max
    &&& a.support_10bit_encode == b.support_10bit_encode
    &&& a.num_max_bframes == b.num_max_bframes
    &&& a.support_yuv444_encode == b.support_yuv444_encode
}

/// Whether the encoder said the same twice, codec by codec.
pub open spec fn same_caps_list(a: Seq<EncoderCaps>, b: Seq<EncoderCaps>) -> bool {
    &&& a.len() == b.len()
    &&& forall|i: int| 0 <= i < a.len() ==> same_caps(#[trigger] a[i], b[i])
}

/// What the encode probe makes of the encoder's words depends on those
/// words alone: the same words give the same lists and the same refusal.
pub proof fn lemma_same_caps_same_lists(a: Seq<EncoderCaps>, b: Seq<EncoderCaps>)
    requires
        same_caps_list(a, b),
    ensures
        encoded_lists(a) == encoded_lists(b),
        first_refused(a) == first_refused(b),
    decreases a.len(),
{
    assert forall|k: int| 0 <= k < CODEC_COUNT implies #[trigger] encoded_lists(a)[k]
        == encoded_lists(b)[k] by {
        lemma_same_caps_same_list(a, b, codec_order()[k]);
    }
    assert(encoded_lists(a) =~= encoded_lists(b));
    lemma_same_caps_same_refusal(a, b);
}

proof fn lemma_same_caps_same_list(a: Seq<EncoderCaps>, b: Seq<EncoderCaps>, codec: Codec)
    requires
        same_caps_list(a, b),
    ensures
        encoded_list(a, codec) == encoded_list(b, codec),
    decreases a.len(),
{
    if a.len() > 0 {
        assert(same_caps(a[a.len() - 1], b[b.len() - 1]));
        assert forall|i: int| 0 <= i < a.drop_last().len() implies same_caps(
            #[trigger] a.drop_last()[i],
            b.drop_last()[i],
        ) by {
            assert(same_caps(a[i], b[i]));
        }
        lemma_same_caps_same_list(a.drop_last(), b.drop_last(), codec);
    }
}

proof fn lemma_same_caps_same_refusal(a: Seq<EncoderCaps>, b: Seq<EncoderCaps>)
    requires
        same_caps_list(a, b),
    ensures
        first_refused(a) == first_refused(b),
    decreases a.len(),
{
    if a.len() > 0 {
        assert(same_caps(a[0], b[0]));
        assert forall|i: int| 0 <= i < a.skip(1).len() implies same_caps(
            #[trigger] a.skip(1)[i],
            b.skip(1)[i],
        ) by {
            assert(same_caps(a[i + 1], b[i + 1]));
        }
        lemma_same_caps_same_refusal(a.skip(1), b.skip(1));
    }
}

} // verus!
