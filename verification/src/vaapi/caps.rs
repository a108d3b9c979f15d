//! From a display's profiles, entrypoints and attributes to the records of
//! its codecs.
use vstd::prelude::*;
use crate::aggregate::{assemble, assembled, empty_lists, lists};
use crate::model::{
    codec_order, details_views, Chroma, Codec, CodecDetails, ColorDepth, DecodingSpec,
    EncodeProfile, EncodingSpec, ThreeValue, CODEC_COUNT,
};

verus! {

pub const VA_PROFILE_MPEG2_MAIN: i32 = 1;

pub const VA_PROFILE_MPEG4_MAIN: i32 = 4;

pub const VA_PROFILE_H264_BASELINE: i32 = 5;

pub const VA_PROFILE_H264_MAIN: i32 = 6;

pub const VA_PROFILE_H264_HIGH: i32 = 7;

pub const VA_PROFILE_VC1_MAIN: i32 = 9;

pub const VA_PROFILE_VP8_VERSION0_3: i32 = 14;

pub const VA_PROFILE_HEVC_MAIN: i32 = 17;

pub const VA_PROFILE_HEVC_MAIN10: i32 = 18;

pub const VA_PROFILE_VP9_PROFILE0: i32 = 19;

pub const VA_PROFILE_VP9_PROFILE1: i32 = 20;

pub const VA_PROFILE_VP9_PROFILE2: i32 = 21;

pub const VA_PROFILE_VP9_PROFILE3: i32 = 22;

pub const VA_PROFILE_HEVC_MAIN12: i32 = 23;

pub const VA_PROFILE_HEVC_MAIN422_10: i32 = 24;

pub const VA_PROFILE_HEVC_MAIN422_12: i32 = 25;

pub const VA_PROFILE_HEVC_MAIN444: i32 = 26;

pub const VA_PROFILE_HEVC_MAIN444_10: i32 = 27;

pub const VA_PROFILE_HEVC_MAIN444_12: i32 = 28;

pub const VA_PROFILE_AV1_PROFILE0: i32 = 32;

pub const VA_PROFILE_AV1_PROFILE1: i32 = 33;

pub const VA_PROFILE_H264_HIGH10: i32 = 36;

/// The entrypoint through which a display decodes.
pub const VA_ENTRYPOINT_VLD: u32 = 1;

/// The entrypoint through which a display encodes slices.
pub const VA_ENTRYPOINT_ENC_SLICE: u32 = 6;

/// The attribute that holds the largest picture width.
pub const VA_CONFIG_ATTRIB_MAX_PICTURE_WIDTH: u32 = 18;

/// The attribute that holds the largest picture height.
pub const VA_CONFIG_ATTRIB_MAX_PICTURE_HEIGHT: u32 = 19;

/// The value a display leaves in an attribute that it does not support.
pub const VA_ATTRIB_NOT_SUPPORTED: u32 = 0x8000_0000;

/// How many attribute kinds a display is asked about at once.
pub const CONFIG_ATTRIB_COUNT: u32 = 57;

/// One picture format of a profile: the codec, the profile it encodes as,
/// the chroma subsampling and the sample depth.
pub type Format = (Codec, EncodeProfile, Chroma, ColorDepth);

/// The formats a display offers when it reports the given profile. A
/// display reports some profiles once for several formats that it does not
/// tell apart; a profile that the table does not hold gives none.
pub open spec fn profile_formats(profile: i32) -> Seq<Format> {
    if profile == VA_PROFILE_MPEG2_MAIN {
        seq![(Codec::Mpeg2, EncodeProfile::Main, Chroma::Yuv420, ColorDepth::Bit8)]
    } else if profile == VA_PROFILE_MPEG4_MAIN {
        seq![(Codec::Mpeg4, EncodeProfile::Main, Chroma::Yuv420, ColorDepth::Bit8)]
    } else if profile == VA_PROFILE_H264_BASELINE {
        seq![(Codec::H264, EncodeProfile::Baseline, Chroma::Yuv420, ColorDepth::Bit8)]
    } else if profile == VA_PROFILE_H264_MAIN {
        seq![(Codec::H264, EncodeProfile::Main, Chroma::Yuv420, ColorDepth::Bit8)]
    } else if profile == VA_PROFILE_H264_HIGH {
        seq![(Codec::H264, EncodeProfile::High, Chroma::Yuv420, ColorDepth::Bit8)]
    } else if profile == VA_PROFILE_VC1_MAIN {
        seq![(Codec::Vc1, EncodeProfile::Main, Chroma::Yuv420, ColorDepth::Bit8)]
    } else if profile == VA_PROFILE_VP8_VERSION0_3 {
        seq![(Codec::Vp8, EncodeProfile::Baseline, Chroma::Yuv420, ColorDepth::Bit8)]
    } else if profile == VA_PROFILE_HEVC_MAIN {
        seq![(Codec::Hevc, EncodeProfile::Main, Chroma::Yuv420, ColorDepth::Bit8)]
    } else if profile == VA_PROFILE_HEVC_MAIN10 {
        seq![(Codec::Hevc, EncodeProfile::Main10, Chroma::Yuv420, ColorDepth::Bit10)]
    } else if profile == VA_PROFILE_VP9_PROFILE0 {
        seq![(Codec::Vp9, EncodeProfile::Main, Chroma::Yuv420, ColorDepth::Bit8)]
    } else if profile == VA_PROFILE_VP9_PROFILE1 {
        seq![
            (Codec::Vp9, EncodeProfile::Main, Chroma::Yuv420, ColorDepth::Bit8),
            (Codec::Vp9, EncodeProfile::Main, Chroma::Yuv422, ColorDepth::Bit8),
            (Codec::Vp9, EncodeProfile::Main, Chroma::Yuv444, ColorDepth::Bit8),
        ]
    } else if profile == VA_PROFILE_VP9_PROFILE2 {
        seq![
            (Codec::Vp9, EncodeProfile::Main, Chroma::Yuv420, ColorDepth::Bit10),
            (Codec::Vp9, EncodeProfile::Main, Chroma::Yuv420, ColorDepth::Bit12),
        ]
    } else if profile == VA_PROFILE_VP9_PROFILE3 {
        seq![
            (Codec::Vp9, EncodeProfile::Main, Chroma::Yuv420, ColorDepth::Bit10),
            (Codec::Vp9, EncodeProfile::Main, Chroma::Yuv420, ColorDepth::Bit12),
            (Codec::Vp9, EncodeProfile::Main, Chroma::Yuv422, ColorDepth::Bit10),
            (Codec::Vp9, EncodeProfile::Main, Chroma::Yuv422, ColorDepth::Bit12),
            (Codec::Vp9, EncodeProfile::Main, Chroma::Yuv444, ColorDepth::Bit10),
            (Codec::Vp9, EncodeProfile::Main, Chroma::Yuv444, ColorDepth::Bit12),
        ]
    } else if profile == VA_PROFILE_HEVC_MAIN12 {
        seq![(Codec::Hevc, EncodeProfile::Main, Chroma::Yuv420, ColorDepth::Bit12)]
    } else if profile == VA_PROFILE_HEVC_MAIN422_10 {
        seq![(Codec::Hevc, EncodeProfile::Main10, Chroma::Yuv422, ColorDepth::Bit10)]
    } else if profile == VA_PROFILE_HEVC_MAIN422_12 {
        seq![(Codec::Hevc, EncodeProfile::Main, Chroma::Yuv422, ColorDepth::Bit12)]
    } else if profile == VA_PROFILE_HEVC_MAIN444 {
        seq![(Codec::Hevc, EncodeProfile::Main, Chroma::Yuv444, ColorDepth::Bit8)]
    } else if profile == VA_PROFILE_HEVC_MAIN444_10 {
        seq![(Codec::Hevc, EncodeProfile::Main10, Chroma::Yuv444, ColorDepth::Bit10)]
    } else if profile == VA_PROFILE_HEVC_MAIN444_12 {
        seq![(Codec::Hevc, EncodeProfile::Main, Chroma::Yuv444, ColorDepth::Bit12)]
    } else if profile == VA_PROFILE_AV1_PROFILE0 {
        seq![
            (Codec::Av1, EncodeProfile::Main, Chroma::Yuv420, ColorDepth::Bit8),
            (Codec::Av1, EncodeProfile::Main10, Chroma::Yuv420, ColorDepth::Bit10),
        ]
    } else if profile == VA_PROFILE_AV1_PROFILE1 {
        seq![
            (Codec::Av1, EncodeProfile::High, Chroma::Yuv420, ColorDepth::Bit8),
            (Codec::Av1, EncodeProfile::High10, Chroma::Yuv420, ColorDepth::Bit10),
            (Codec::Av1, EncodeProfile::High, Chroma::Yuv444, ColorDepth::Bit8),
            (Codec::Av1, EncodeProfile::High10, Chroma::Yuv444, ColorDepth::Bit10),
        ]
    } else if profile == VA_PROFILE_H264_HIGH10 {
        seq![(Codec::H264, EncodeProfile::High10, Chroma::Yuv420, ColorDepth::Bit10)]
    } else {
        Seq::empty()
    }
}

/// The formats a display offers when it reports the given profile, in the
/// order in which they are filed.
pub fn map_profile(profile: i32) -> (r: Vec<Format>)
    ensures
        r@ == profile_formats(profile),
{
    let r = if profile == VA_PROFILE_MPEG2_MAIN {
        vec![(Codec::Mpeg2, EncodeProfile::Main, Chroma::Yuv420, ColorDepth::Bit8)]
    } else if profile == VA_PROFILE_MPEG4_MAIN {
        vec![(Codec::Mpeg4, EncodeProfile::Main, Chroma::Yuv420, ColorDepth::Bit8)]
    } else if profile == VA_PROFILE_H264_BASELINE {
        vec![(Codec::H264, EncodeProfile::Baseline, Chroma::Yuv420, ColorDepth::Bit8)]
    } else if profile == VA_PROFILE_H264_MAIN {
        vec![(Codec::H264, EncodeProfile::Main, Chroma::Yuv420, ColorDepth::Bit8)]
    } else if profile == VA_PROFILE_H264_HIGH {
        vec![(Codec::H264, EncodeProfile::High, Chroma::Yuv420, ColorDepth::Bit8)]
    } else if profile == VA_PROFILE_VC1_MAIN {
        vec![(Codec::Vc1, EncodeProfile::Main, Chroma::Yuv420, ColorDepth::Bit8)]
    } else if profile == VA_PROFILE_VP8_VERSION0_3 {
        vec![(Codec::Vp8, EncodeProfile::Baseline, Chroma::Yuv420, ColorDepth::Bit8)]
    } else if profile == VA_PROFILE_HEVC_MAIN {
        vec![(Codec::Hevc, EncodeProfile::Main, Chroma::Yuv420, ColorDepth::Bit8)]
    } else if profile == VA_PROFILE_HEVC_MAIN10 {
        vec![(Codec::Hevc, EncodeProfile::Main10, Chroma::Yuv420, ColorDepth::Bit10)]
    } else if profile == VA_PROFILE_VP9_PROFILE0 {
        vec![(Codec::Vp9, EncodeProfile::Main, Chroma::Yuv420, ColorDepth::Bit8)]
    } else if profile == VA_PROFILE_VP9_PROFILE1 {
        vec![
            (Codec::Vp9, EncodeProfile::Main, Chroma::Yuv420, ColorDepth::Bit8),
            (Codec::Vp9, EncodeProfile::Main, Chroma::Yuv422, ColorDepth::Bit8),
            (Codec::Vp9, EncodeProfile::Main, Chroma::Yuv444, ColorDepth::Bit8),
        ]
    } else if profile == VA_PROFILE_VP9_PROFILE2 {
        vec![
            (Codec::Vp9, EncodeProfile::Main, Chroma::Yuv420, ColorDepth::Bit10),
            (Codec::Vp9, EncodeProfile::Main, Chroma::Yuv420, ColorDepth::Bit12),
        ]
    } else if profile == VA_PROFILE_VP9_PROFILE3 {
        vec![
            (Codec::Vp9, EncodeProfile::Main, Chroma::Yuv420, ColorDepth::Bit10),
            (Codec::Vp9, EncodeProfile::Main, Chroma::Yuv420, ColorDepth::Bit12),
            (Codec::Vp9, EncodeProfile::Main, Chroma::Yuv422, ColorDepth::Bit10),
            (Codec::Vp9, EncodeProfile::Main, Chroma::Yuv422, ColorDepth::Bit12),
            (Codec::Vp9, EncodeProfile::Main, Chroma::Yuv444, ColorDepth::Bit10),
            (Codec::Vp9, EncodeProfile::Main, Chroma::Yuv444, ColorDepth::Bit12),
        ]
    } else if profile == VA_PROFILE_HEVC_MAIN12 {
        vec![(Codec::Hevc, EncodeProfile::Main, Chroma::Yuv420, ColorDepth::Bit12)]
    } else if profile == VA_PROFILE_HEVC_MAIN422_10 {
        vec![(Codec::Hevc, EncodeProfile::Main10, Chroma::Yuv422, ColorDepth::Bit10)]
    } else if profile == VA_PROFILE_HEVC_MAIN422_12 {
        vec![(Codec::Hevc, EncodeProfile::Main, Chroma::Yuv422, ColorDepth::Bit12)]
    } else if profile == VA_PROFILE_HEVC_MAIN444 {
        vec![(Codec::Hevc, EncodeProfile::Main, Chroma::Yuv444, ColorDepth::Bit8)]
    } else if profile == VA_PROFILE_HEVC_MAIN444_10 {
        vec![(Codec::Hevc, EncodeProfile::Main10, Chroma::Yuv444, ColorDepth::Bit10)]
    } else if profile == VA_PROFILE_HEVC_MAIN444_12 {
        vec![(Codec::Hevc, EncodeProfile::Main, Chroma::Yuv444, ColorDepth::Bit12)]
    } else if profile == VA_PROFILE_AV1_PROFILE0 {
        vec![
            (Codec::Av1, EncodeProfile::Main, Chroma::Yuv420, ColorDepth::Bit8),
            (Codec::Av1, EncodeProfile::Main10, Chroma::Yuv420, ColorDepth::Bit10),
        ]
    } else if profile == VA_PROFILE_AV1_PROFILE1 {
        vec![
            (Codec::Av1, EncodeProfile::High, Chroma::Yuv420, ColorDepth::Bit8),
            (Codec::Av1, EncodeProfile::High10, Chroma::Yuv420, ColorDepth::Bit10),
            (Codec::Av1, EncodeProfile::High, Chroma::Yuv444, ColorDepth::Bit8),
            (Codec::Av1, EncodeProfile::High10, Chroma::Yuv444, ColorDepth::Bit10),
        ]
    } else if profile == VA_PROFILE_H264_HIGH10 {
        vec![(Codec::H264, EncodeProfile::High10, Chroma::Yuv420, ColorDepth::Bit10)]
    } else {
        Vec::new()
    };
    assert(r@ =~= profile_formats(profile));
    r
}

/// One attribute of a profile and entrypoint, as a display reports it.
#[derive(Clone, Copy, Debug, PartialEq, Eq, Structural)]
pub struct ConfigAttrib {
    pub kind: u32,
    pub value: u32,
}

/// What a display said about one of its profiles: the entrypoints it has
/// for it and, for the decode and the encode entrypoint, the attributes it
/// supports. The attributes of an entrypoint that the profile lacks are
/// never read.
#[derive(Clone, Debug, PartialEq, Eq)]
pub struct ProfileReport {
    pub profile: i32,
    pub entrypoints: Vec<u32>,
    pub decode_attributes: Vec<ConfigAttrib>,
    pub encode_attributes: Vec<ConfigAttrib>,
}

/// The value of the first attribute of the given kind, 0 where there is
/// none.
pub open spec fn attribute_value(attributes: Seq<ConfigAttrib>, kind: u32) -> u32
    decreases attributes.len(),
{
    if attributes.len() == 0 {
        0
    } else if attributes[0].kind == kind {
        attributes[0].value
    } else {
        attribute_value(attributes.skip(1), kind)
    }
}

/// The decode entries that the given formats add to the list of `codec`,
/// all with the same largest picture.
pub open spec fn decoding_of(formats: Seq<Format>, codec: Codec, width: u32, height: u32) -> Seq<
    DecodingSpec,
>
    decreases formats.len(),
{
    if formats.len() == 0 {
        Seq::empty()
    } else {
        let before = decoding_of(formats.drop_last(), codec, width, height);
        let format = formats.last();
        if format.0 == codec {
            before.push(
                DecodingSpec {
                    chroma: format.2,
                    color_depth: format.3,
                    max_width: width,
                    max_height: height,
                },
            )
        } else {
            before
        }
    }
}

/// The encode entries that the given formats add to the list of `codec`,
/// all with the same largest picture. Whether B-frames can be used is not
/// known on this path.
pub open spec fn encoding_of(formats: Seq<Format>, codec: Codec, width: u32, height: u32) -> Seq<
    EncodingSpec,
>
    decreases formats.len(),
{
    if formats.len() == 0 {
        Seq::empty()
    } else {
        let before = encoding_of(formats.drop_last(), codec, width, height);
        let format = formats.last();
        if format.0 == codec {
            before.push(
                EncodingSpec {
                    chroma: format.2,
                    color_depth: format.3,
                    profile: format.1,
                    max_width: width,
                    max_height: height,
                    b_frames_supported: ThreeValue::Unknown,
                },
            )
        } else {
            before
        }
    }
}

/// The decode entries that one profile adds to the list of `codec`: one for
/// each of its formats if it has the decode entrypoint, none otherwise.
pub open spec fn report_decoding(report: ProfileReport, codec: Codec) -> Seq<DecodingSpec> {
    if report.entrypoints@.contains(VA_ENTRYPOINT_VLD) {
        decoding_of(
            profile_formats(report.profile),
            codec,
            attribute_value(report.decode_attributes@, VA_CONFIG_ATTRIB_MAX_PICTURE_WIDTH),
            attribute_value(report.decode_attributes@, VA_CONFIG_ATTRIB_MAX_PICTURE_HEIGHT),
        )
    } else {
        Seq::empty()
    }
}

/// The encode entries that one profile adds to the list of `codec`: one for
/// each of its formats if it has the slice encode entrypoint, none
/// otherwise.
pub open spec fn report_encoding(report: ProfileReport, codec: Codec) -> Seq<EncodingSpec> {
    if report.entrypoints@.contains(VA_ENTRYPOINT_ENC_SLICE) {
        encoding_of(
            profile_formats(report.profile),
            codec,
            attribute_value(report.encode_attributes@, VA_CONFIG_ATTRIB_MAX_PICTURE_WIDTH),
            attribute_value(report.encode_attributes@, VA_CONFIG_ATTRIB_MAX_PICTURE_HEIGHT),
        )
    } else {
        Seq::empty()
    }
}

/// The decode list of `codec` after the given profiles, in the order in
/// which the display reported them.
pub open spec fn decoding_list(reports: Seq<ProfileReport>, codec: Codec) -> Seq<DecodingSpec>
    decreases reports.len(),
{
    if reports.len() == 0 {
        Seq::empty()
    } else {
        decoding_list(reports.drop_last(), codec) + report_decoding(reports.last(), codec)
    }
}

/// The encode list of `codec` after the given profiles, in the order in
/// which the display reported them.
pub open spec fn encoding_list(reports: Seq<ProfileReport>, codec: Codec) -> Seq<EncodingSpec>
    decreases reports.len(),
{
    if reports.len() == 0 {
        Seq::empty()
    } else {
        encoding_list(reports.drop_last(), codec) + report_encoding(reports.last(), codec)
    }
}

/// The decode lists of all codecs, in report order.
pub open spec fn decoding_lists(reports: Seq<ProfileReport>) -> Seq<Seq<DecodingSpec>> {
    Seq::new(CODEC_COUNT as nat, |k: int| decoding_list(reports, codec_order()[k]))
}

/// The encode lists of all codecs, in report order.
pub open spec fn encoding_lists(reports: Seq<ProfileReport>) -> Seq<Seq<EncodingSpec>> {
    Seq::new(CODEC_COUNT as nat, |k: int| encoding_list(reports, codec_order()[k]))
}

/// Looks an attribute up by its kind. The first one of that kind counts; a
/// kind that is not in the list reads as 0.
pub fn find_attribute(attributes: &Vec<ConfigAttrib>, kind: u32) -> (r: u32)
    ensures
        r == attribute_value(attributes@, kind),
{
    let mut i: usize = 0;
    assert(attributes@.skip(0) =~= attributes@);
    while i < attributes.len()
        invariant
            i <= attributes@.len(),
            attribute_value(attributes@, kind) == attribute_value(
                attributes@.skip(i as int),
                kind,
            ),
        decreases attributes@.len() - i,
    {
        if attributes[i].kind == kind {
            return attributes[i].value;
        }
        assert(attributes@.skip(i as int).skip(1) =~= attributes@.skip(i + 1));
        i = i + 1;
    }
    0
}

/// Whether a profile has the given entrypoint.
pub fn has_entrypoint(entrypoints: &Vec<u32>, entrypoint: u32) -> (r: bool)
    ensures
        r == entrypoints@.contains(entrypoint),
{
    let mut i: usize = 0;
    while i < entrypoints.len()
        invariant
            i <= entrypoints@.len(),
            forall|k: int| 0 <= k < i ==> entrypoints@[k] != entrypoint,
        decreases entrypoints@.len() - i,
    {
        if entrypoints[i] == entrypoint {
            return true;
        }
        i = i + 1;
    }
    false
}

/// Files one decode entry per format under the format's codec.
fn file_decoding(lists: &mut Vec<Vec<DecodingSpec>>, formats: &Vec<Format>, width: u32, height: u32)
    requires
        old(lists)@.len() == CODEC_COUNT,
    ensures
        final(lists)@.len() == CODEC_COUNT,
        forall|k: int|
            0 <= k < CODEC_COUNT ==> (#[trigger] final(lists)@[k])@ == old(lists)@[k]@ + decoding_of(
                formats@,
                codec_order()[k],
                width,
                height,
            ),
{
    let mut j: usize = 0;
    while j < formats.len()
        invariant
            j <= formats@.len(),
            lists@.len() == CODEC_COUNT,
            forall|k: int|
                0 <= k < CODEC_COUNT ==> (#[trigger] lists@[k])@ == old(lists)@[k]@ + decoding_of(
                    formats@.take(j as int),
                    codec_order()[k],
                    width,
                    height,
                ),
        decreases formats@.len() - j,
    {
        let format = formats[j];
        let place = format.0.rank();
        let ghost before = lists@;
        lists[place].push(
            DecodingSpec {
                chroma: format.2,
                color_depth: format.3,
                max_width: width,
                max_height: height,
            },
        );
        proof {
            let next = formats@.take(j + 1);
            assert(next.drop_last() =~= formats@.take(j as int));
            assert(next.last() == format);
            assert forall|k: int| 0 <= k < CODEC_COUNT implies (#[trigger] lists@[k])@ == old(
                lists,
            )@[k]@ + decoding_of(next, codec_order()[k], width, height) by {
                if k == place {
                    assert(lists@[k]@ =~= before[k]@.push(
                        DecodingSpec {
                            chroma: format.2,
                            color_depth: format.3,
                            max_width: width,
                            max_height: height,
                        },
                    ));
                    assert(lists@[k]@ =~= old(lists)@[k]@ + decoding_of(
                        next,
                        codec_order()[k],
                        width,
                        height,
                    ));
                } else {
                    assert(lists@[k] == before[k]);
                    assert(codec_order()[k] != format.0);
                }
            }
        }
        j = j + 1;
    }
    assert(formats@.take(formats@.len() as int) =~= formats@);
}

/// Files one encode entry per format under the format's codec.
fn file_encoding(lists: &mut Vec<Vec<EncodingSpec>>, formats: &Vec<Format>, width: u32, height: u32)
    requires
        old(lists)@.len() == CODEC_COUNT,
    ensures
        final(lists)@.len() == CODEC_COUNT,
        forall|k: int|
            0 <= k < CODEC_COUNT ==> (#[trigger] final(lists)@[k])@ == old(lists)@[k]@ + encoding_of(
                formats@,
                codec_order()[k],
                width,
                height,
            ),
{
    let mut j: usize = 0;
    while j < formats.len()
        invariant
            j <= formats@.len(),
            lists@.len() == CODEC_COUNT,
            forall|k: int|
                0 <= k < CODEC_COUNT ==> (#[trigger] lists@[k])@ == old(lists)@[k]@ + encoding_of(
                    formats@.take(j as int),
                    codec_order()[k],
                    width,
                    height,
                ),
        decreases formats@.len() - j,
    {
        let format = formats[j];
        let place = format.0.rank();
        let ghost before = lists@;
        lists[place].push(
            EncodingSpec {
                chroma: format.2,
                color_depth: format.3,
                profile: format.1,
                max_width: width,
                max_height: height,
                b_frames_supported: ThreeValue::Unknown,
            },
        );
        proof {
            let next = formats@.take(j + 1);
            assert(next.drop_last() =~= formats@.take(j as int));
            assert(next.last() == format);
            assert forall|k: int| 0 <= k < CODEC_COUNT implies (#[trigger] lists@[k])@ == old(
                lists,
            )@[k]@ + encoding_of(next, codec_order()[k], width, height) by {
                if k == place {
                    assert(lists@[k]@ =~= before[k]@.push(
                        EncodingSpec {
                            chroma: format.2,
                            color_depth: format.3,
                            profile: format.1,
                            max_width: width,
                            max_height: height,
                            b_frames_supported: ThreeValue::Unknown,
                        },
                    ));
                    assert(lists@[k]@ =~= old(lists)@[k]@ + encoding_of(
                        next,
                        codec_order()[k],
                        width,
                        height,
                    ));
                } else {
                    assert(lists@[k] == before[k]);
                    assert(codec_order()[k] != format.0);
                }
            }
        }
        j = j + 1;
    }
    assert(formats@.take(formats@.len() as int) =~= formats@);
}

/// The records of a display's codecs, from what the display said about each
/// of its profiles. Profiles are taken in the order given and each adds its
/// entries behind those of earlier profiles; the codecs come out in report
/// order, and a codec that no profile decodes or encodes is left out.
pub fn get_capabilities(reports: &Vec<ProfileReport>) -> (r: Vec<CodecDetails>)
    ensures
        details_views(r@) == assembled(
            decoding_lists(reports@),
            encoding_lists(reports@),
            CODEC_COUNT as int,
        ),
{
    let mut decode: Vec<Vec<DecodingSpec>> = empty_lists();
    let mut encode: Vec<Vec<EncodingSpec>> = empty_lists();
    let mut i: usize = 0;
    while i < reports.len()
        invariant
            i <= reports@.len(),
            decode@.len() == CODEC_COUNT,
            encode@.len() == CODEC_COUNT,
            forall|k: int|
                0 <= k < CODEC_COUNT ==> (#[trigger] decode@[k])@ == decoding_list(
                    reports@.take(i as int),
                    codec_order()[k],
                ),
            forall|k: int|
                0 <= k < CODEC_COUNT ==> (#[trigger] encode@[k])@ == encoding_list(
                    reports@.take(i as int),
                    codec_order()[k],
                ),
        decreases reports@.len() - i,
    {
        let report = &reports[i];
        let formats = map_profile(report.profile);
        let ghost decode_before = decode@;
        let ghost encode_before = encode@;
        if has_entrypoint(&report.entrypoints, VA_ENTRYPOINT_VLD) {
            let width = find_attribute(&report.decode_attributes, VA_CONFIG_ATTRIB_MAX_PICTURE_WIDTH);
            let height = find_attribute(
                &report.decode_attributes,
                VA_CONFIG_ATTRIB_MAX_PICTURE_HEIGHT,
            );
            file_decoding(&mut decode, &formats, width, height);
        }
        if has_entrypoint(&report.entrypoints, VA_ENTRYPOINT_ENC_SLICE) {
            let width = find_attribute(&report.encode_attributes, VA_CONFIG_ATTRIB_MAX_PICTURE_WIDTH);
            let height = find_attribute(
                &report.encode_attributes,
                VA_CONFIG_ATTRIB_MAX_PICTURE_HEIGHT,
            );
            file_encoding(&mut encode, &formats, width, height);
        }
        proof {
            let next = reports@.take(i + 1);
            assert(next.drop_last() =~= reports@.take(i as int));
            assert(next.last() == *report);
            assert forall|k: int| 0 <= k < CODEC_COUNT implies (#[trigger] decode@[k])@
                == decoding_list(next, codec_order()[k]) by {
                assert(decode_before[k]@ == decoding_list(reports@.take(i as int), codec_order()[k]));
                assert(decode@[k]@ =~= decode_before[k]@ + report_decoding(*report, codec_order()[k]));
            }
            assert forall|k: int| 0 <= k < CODEC_COUNT implies (#[trigger] encode@[k])@
                == encoding_list(next, codec_order()[k]) by {
                assert(encode_before[k]@ == encoding_list(reports@.take(i as int), codec_order()[k]));
                assert(encode@[k]@ =~= encode_before[k]@ + report_encoding(*report, codec_order()[k]));
            }
        }
        i = i + 1;
    }
    proof {
        assert(reports@.take(reports@.len() as int) =~= reports@);
        assert(lists(decode@) =~= decoding_lists(reports@));
        assert(lists(encode@) =~= encoding_lists(reports@));
    }
    assemble(decode, encode)
}

/// The codec of a profile's formats, if the profile has any.
pub open spec fn profile_codec(profile: i32) -> Option<Codec> {
    if profile_formats(profile).len() == 0 {
        None
    } else {
        Some(profile_formats(profile)[0].0)
    }
}

/// All formats of one profile are of one codec.
pub proof fn lemma_profile_has_one_codec(profile: i32)
    ensures
        forall|i: int|
            0 <= i < profile_formats(profile).len() ==> Some(
                (#[trigger] profile_formats(profile)[i]).0,
            ) == profile_codec(profile),
{
}

proof fn lemma_one_entry_per_format_of(formats: Seq<Format>, codec: Codec, width: u32, height: u32)
    ensures
        (forall|i: int| 0 <= i < formats.len() ==> (#[trigger] formats[i]).0 == codec) ==> {
            &&& decoding_of(formats, codec, width, height).len() == formats.len()
            &&& encoding_of(formats, codec, width, height).len() == formats.len()
            &&& forall|i: int|
                0 <= i < formats.len() ==> #[trigger] decoding_of(formats, codec, width, height)[i]
                    == (DecodingSpec {
                    chroma: formats[i].2,
                    color_depth: formats[i].3,
                    max_width: width,
                    max_height: height,
                })
            &&& forall|i: int|
                0 <= i < formats.len() ==> #[trigger] encoding_of(formats, codec, width, height)[i]
                    == (EncodingSpec {
                    chroma: formats[i].2,
                    color_depth: formats[i].3,
                    profile: formats[i].1,
                    max_width: width,
                    max_height: height,
                    b_frames_supported: ThreeValue::Unknown,
                })
        },
        (forall|i: int| 0 <= i < formats.len() ==> (#[trigger] formats[i]).0 != codec) ==> {
            &&& decoding_of(formats, codec, width, height).len() == 0
            &&& encoding_of(formats, codec, width, height).len() == 0
        },
    decreases formats.len(),
{
    if formats.len() > 0 {
        let shorter = formats.drop_last();
        lemma_one_entry_per_format_of(shorter, codec, width, height);
        assert(formats.last() == formats[formats.len() - 1]);
        assert forall|i: int| 0 <= i < shorter.len() implies shorter[i] == formats[i] by {}
        if forall|i: int| 0 <= i < formats.len() ==> (#[trigger] formats[i]).0 == codec {
            assert forall|i: int| 0 <= i < shorter.len() implies (#[trigger] shorter[i]).0
                == codec by {
                assert(shorter[i] == formats[i]);
            }
        }
        if forall|i: int| 0 <= i < formats.len() ==> (#[trigger] formats[i]).0 != codec {
            assert forall|i: int| 0 <= i < shorter.len() implies (#[trigger] shorter[i]).0
                != codec by {
                assert(shorter[i] == formats[i]);
            }
        }
    }
}

/// A profile adds one entry per format, for each entrypoint it has. Under
/// the codec of its formats a profile with the decode entrypoint adds as
/// many decode entries as it has formats, each with the format's chroma and
/// depth, and a profile with the slice encode entrypoint as many encode
/// entries, each with unknown B-frame support; so a profile of six formats
/// adds six. Without the entrypoint, and under every other codec, it adds
/// nothing.
pub proof fn lemma_one_entry_per_format(report: ProfileReport, codec: Codec)
    ensures
        report_decoding(report, codec).len() == if report.entrypoints@.contains(VA_ENTRYPOINT_VLD)
            && profile_codec(report.profile) == Some(codec) {
            profile_formats(report.profile).len()
        } else {
            0nat
        },
        report_encoding(report, codec).len() == if report.entrypoints@.contains(
            VA_ENTRYPOINT_ENC_SLICE,
        ) && profile_codec(report.profile) == Some(codec) {
            profile_formats(report.profile).len()
        } else {
            0nat
        },
        forall|i: int|
            0 <= i < report_decoding(report, codec).len() ==> {
                &&& (#[trigger] report_decoding(report, codec)[i]).chroma == profile_formats(
                    report.profile,
                )[i].2
                &&& report_decoding(report, codec)[i].color_depth == profile_formats(
                    report.profile,
                )[i].3
            },
        forall|i: int|
            0 <= i < report_encoding(report, codec).len() ==> {
                &&& (#[trigger] report_encoding(report, codec)[i]).chroma == profile_formats(
                    report.profile,
                )[i].2
                &&& report_encoding(report, codec)[i].color_depth == profile_formats(
                    report.profile,
                )[i].3
                &&& report_encoding(report, codec)[i].profile == profile_formats(report.profile)[i].1
                &&& report_encoding(report, codec)[i].b_frames_supported == ThreeValue::Unknown
            },
        profile_formats(VA_PROFILE_VP9_PROFILE3).len() == 6,
{
    let formats = profile_formats(report.profile);
    lemma_profile_has_one_codec(report.profile);
    let dw = attribute_value(report.decode_attributes@, VA_CONFIG_ATTRIB_MAX_PICTURE_WIDTH);
    let dh = attribute_value(report.decode_attributes@, VA_CONFIG_ATTRIB_MAX_PICTURE_HEIGHT);
    let ew = attribute_value(report.encode_attributes@, VA_CONFIG_ATTRIB_MAX_PICTURE_WIDTH);
    let eh = attribute_value(report.encode_attributes@, VA_CONFIG_ATTRIB_MAX_PICTURE_HEIGHT);
    lemma_one_entry_per_format_of(formats, codec, dw, dh);
    lemma_one_entry_per_format_of(formats, codec, ew, eh);
    if profile_codec(report.profile) == Some(codec) {
        assert forall|i: int| 0 <= i < formats.len() implies (#[trigger] formats[i]).0 == codec by {
            assert(Some(formats[i].0) == profile_codec(report.profile));
        }
    } else {
        assert forall|i: int| 0 <= i < formats.len() implies (#[trigger] formats[i]).0 != codec by {
            assert(Some(formats[i].0) == profile_codec(report.profile));
        }
    }
}

/// The order of the profiles is the order of the entries: the lists after
/// one run of profiles followed by another are the lists after the first
/// run, followed by what the second run adds.
pub proof fn lemma_profile_order_kept(
    first: Seq<ProfileReport>,
    second: Seq<ProfileReport>,
    codec: Codec,
)
    ensures
        decoding_list(first + second, codec) == decoding_list(first, codec) + decoding_list(
            second,
            codec,
        ),
        encoding_list(first + second, codec) == encoding_list(first, codec) + encoding_list(
            second,
            codec,
        ),
    decreases second.len(),
{
    if second.len() == 0 {
        assert(first + second =~= first);
        assert(decoding_list(first, codec) + decoding_list(second, codec) =~= decoding_list(
            first,
            codec,
        ));
        assert(encoding_list(first, codec) + encoding_list(second, codec) =~= encoding_list(
            first,
            codec,
        ));
    } else {
        let all = first + second;
        assert(all.drop_last() =~= first + second.drop_last());
        assert(all.last() == second.last());
        lemma_profile_order_kept(first, second.drop_last(), codec);
        assert(decoding_list(all, codec) =~= decoding_list(first, codec) + decoding_list(
            second,
            codec,
        ));
        assert(encoding_list(all, codec) =~= encoding_list(first, codec) + encoding_list(
            second,
            codec,
        ));
    }
}

/// Whether a display said the same about a profile twice.
pub open spec fn same_report(a: ProfileReport, b: ProfileReport) -> bool {
    &&& a.profile == b.profile
    &&& a.entrypoints@ == b.entrypoints@
    &&& a.decode_attributes@ == b.decode_attributes@
    &&& a.encode_attributes@ == b.encode_attributes@
}

/// Whether a display said the same twice, profile by profile.
pub open spec fn same_reports(a: Seq<ProfileReport>, b: Seq<ProfileReport>) -> bool {
    &&& a.len() == b.len()
    &&& forall|i: int| 0 <= i < a.len() ==> same_report(#[trigger] a[i], b[i])
}

proof fn lemma_same_reports_same_list(a: Seq<ProfileReport>, b: Seq<ProfileReport>, codec: Codec)
    requires
        same_reports(a, b),
    ensures
        decoding_list(a, codec) == decoding_list(b, codec),
        encoding_list(a, codec) == encoding_list(b, codec),
    decreases a.len(),
{
    if a.len() > 0 {
        assert(same_report(a[a.len() - 1], b[b.len() - 1]));
        assert forall|i: int| 0 <= i < a.drop_last().len() implies same_report(
            #[trigger] a.drop_last()[i],
            b.drop_last()[i],
        ) by {
            assert(same_report(a[i], b[i]));
        }
        lemma_same_reports_same_list(a.drop_last(), b.drop_last(), codec);
    }
}

/// What the probe makes of a display's words depends on those words
/// alone: the same words give the same lists.
pub proof fn lemma_same_reports_same_lists(a: Seq<ProfileReport>, b: Seq<ProfileReport>)
    requires
        same_reports(a, b),
    ensures
        decoding_lists(a) == decoding_lists(b),
        encoding_lists(a) == encoding_lists(b),
{
    assert forall|k: int| 0 <= k < CODEC_COUNT implies #[trigger] decoding_lists(a)[k]
        == decoding_lists(b)[k] by {
        lemma_same_reports_same_list(a, b, codec_order()[k]);
    }
    assert forall|k: int| 0 <= k < CODEC_COUNT implies #[trigger] encoding_lists(a)[k]
        == encoding_lists(b)[k] by {
        lemma_same_reports_same_list(a, b, codec_order()[k]);
    }
    assert(decoding_lists(a) =~= decoding_lists(b));
    assert(encoding_lists(a) =~= encoding_lists(b));
}

} // verus!
