//! The decode probe: which formats to ask the decoder about, and what its
//! answers say.
use vstd::prelude::*;
use crate::aggregate::{assemble, assembled, lists};
use crate::model::{
    codec_order, details_views, Chroma, Codec, CodecDetails, ColorDepth, DecodingSpec,
    EncodingSpec, CODEC_COUNT,
};
use crate::nvidia::error::{NvidiaError, CUDA_SUCCESS};

verus! {

pub const CUDA_VIDEO_CODEC_MPEG1: u32 = 0;

pub const CUDA_VIDEO_CODEC_MPEG2: u32 = 1;

pub const CUDA_VIDEO_CODEC_MPEG4: u32 = 2;

pub const CUDA_VIDEO_CODEC_VC1: u32 = 3;

pub const CUDA_VIDEO_CODEC_H264: u32 = 4;

pub const CUDA_VIDEO_CODEC_HEVC: u32 = 8;

pub const CUDA_VIDEO_CODEC_VP8: u32 = 9;

pub const CUDA_VIDEO_CODEC_VP9: u32 = 10;

pub const CUDA_VIDEO_CODEC_AV1: u32 = 11;

pub const CUDA_VIDEO_CHROMA_FORMAT_MONOCHROME: u32 = 0;

pub const CUDA_VIDEO_CHROMA_FORMAT_420: u32 = 1;

pub const CUDA_VIDEO_CHROMA_FORMAT_422: u32 = 2;

pub const CUDA_VIDEO_CHROMA_FORMAT_444: u32 = 3;

/// How many chroma formats the decoder is asked about.
pub const CHROMA_COUNT: usize = 4;

/// How many sample depths the decoder is asked about.
pub const DEPTH_COUNT: usize = 3;

/// How many questions the full probe of one device asks.
pub const PROBE_COUNT: usize = 108;

/// The decoder's codec values, in the order in which they are probed.
pub open spec fn cuda_codecs() -> Seq<u32> {
    seq![
        CUDA_VIDEO_CODEC_MPEG1,
        CUDA_VIDEO_CODEC_MPEG2,
        CUDA_VIDEO_CODEC_MPEG4,
        CUDA_VIDEO_CODEC_VC1,
        CUDA_VIDEO_CODEC_H264,
        CUDA_VIDEO_CODEC_HEVC,
        CUDA_VIDEO_CODEC_VP8,
        CUDA_VIDEO_CODEC_VP9,
        CUDA_VIDEO_CODEC_AV1,
    ]
}

/// The decoder's chroma format values, in the order in which they are
/// probed.
pub open spec fn cuda_chroma_formats() -> Seq<u32> {
    seq![
        CUDA_VIDEO_CHROMA_FORMAT_MONOCHROME,
        CUDA_VIDEO_CHROMA_FORMAT_420,
        CUDA_VIDEO_CHROMA_FORMAT_422,
        CUDA_VIDEO_CHROMA_FORMAT_444,
    ]
}

/// The sample depths, in the order in which they are probed.
pub open spec fn cuda_bit_depths() -> Seq<u8> {
    seq![8u8, 10u8, 12u8]
}

/// The codec that a decoder codec value stands for. Values outside
/// [`cuda_codecs`] stand for none; the function is not meant for them.
pub open spec fn codec_of(codec_type: u32) -> Codec {
    if codec_type == CUDA_VIDEO_CODEC_MPEG1 {
        Codec::Mpeg1
    } else if codec_type == CUDA_VIDEO_CODEC_MPEG2 {
        Codec::Mpeg2
    } else if codec_type == CUDA_VIDEO_CODEC_MPEG4 {
        Codec::Mpeg4
    } else if codec_type == CUDA_VIDEO_CODEC_VC1 {
        Codec::Vc1
    } else if codec_type == CUDA_VIDEO_CODEC_H264 {
        Codec::H264
    } else if codec_type == CUDA_VIDEO_CODEC_HEVC {
        Codec::Hevc
    } else if codec_type == CUDA_VIDEO_CODEC_VP8 {
        Codec::Vp8
    } else if codec_type == CUDA_VIDEO_CODEC_VP9 {
        Codec::Vp9
    } else {
        Codec::Av1
    }
}

/// The subsampling that a decoder chroma format value stands for. Values
/// outside [`cuda_chroma_formats`] stand for none.
pub open spec fn chroma_of(chroma_format: u32) -> Chroma {
    if chroma_format == CUDA_VIDEO_CHROMA_FORMAT_MONOCHROME {
        Chroma::Monochrome
    } else if chroma_format == CUDA_VIDEO_CHROMA_FORMAT_420 {
        Chroma::Yuv420
    } else if chroma_format == CUDA_VIDEO_CHROMA_FORMAT_422 {
        Chroma::Yuv422
    } else {
        Chroma::Yuv444
    }
}

/// The depth that a number of bits stands for. Numbers outside
/// [`cuda_bit_depths`] stand for none.
pub open spec fn depth_of(bit_depth: u8) -> ColorDepth {
    if bit_depth == 8 {
        ColorDepth::Bit8
    } else if bit_depth == 10 {
        ColorDepth::Bit10
    } else {
        ColorDepth::Bit12
    }
}

/// The codec that a decoder codec value stands for.
pub fn map_codec_type(cuda_video_codec: u32) -> (r: Codec)
    requires
        cuda_codecs().contains(cuda_video_codec),
    ensures
        r == codec_of(cuda_video_codec),
        cuda_codecs()[r.spec_rank()] == cuda_video_codec,
{
    assert forall|k: int| 0 <= k < 9 implies (#[trigger] cuda_codecs()[k]) == cuda_codecs()[k] by {}
    let r = if cuda_video_codec == CUDA_VIDEO_CODEC_MPEG1 {
        Codec::Mpeg1
    } else if cuda_video_codec == CUDA_VIDEO_CODEC_MPEG2 {
        Codec::Mpeg2
    } else if cuda_video_codec == CUDA_VIDEO_CODEC_MPEG4 {
        Codec::Mpeg4
    } else if cuda_video_codec == CUDA_VIDEO_CODEC_VC1 {
        Codec::Vc1
    } else if cuda_video_codec == CUDA_VIDEO_CODEC_H264 {
        Codec::H264
    } else if cuda_video_codec == CUDA_VIDEO_CODEC_HEVC {
        Codec::Hevc
    } else if cuda_video_codec == CUDA_VIDEO_CODEC_VP8 {
        Codec::Vp8
    } else if cuda_video_codec == CUDA_VIDEO_CODEC_VP9 {
        Codec::Vp9
    } else {
        Codec::Av1
    };
    r
}

/// The subsampling that a decoder chroma format value stands for.
pub fn map_chroma_format(cuda_chroma_format: u32) -> (r: Chroma)
    requires
        cuda_chroma_formats().contains(cuda_chroma_format),
    ensures
        r == chroma_of(cuda_chroma_format),
{
    if cuda_chroma_format == CUDA_VIDEO_CHROMA_FORMAT_MONOCHROME {
        Chroma::Monochrome
    } else if cuda_chroma_format == CUDA_VIDEO_CHROMA_FORMAT_420 {
        Chroma::Yuv420
    } else if cuda_chroma_format == CUDA_VIDEO_CHROMA_FORMAT_422 {
        Chroma::Yuv422
    } else {
        Chroma::Yuv444
    }
}

/// The depth that a number of bits stands for.
pub fn map_bit_depth(bit_depth: u8) -> (r: ColorDepth)
    requires
        cuda_bit_depths().contains(bit_depth),
    ensures
        r == depth_of(bit_depth),
        r.spec_bits() == bit_depth,
{
    if bit_depth == 8 {
        ColorDepth::Bit8
    } else if bit_depth == 10 {
        ColorDepth::Bit10
    } else {
        ColorDepth::Bit12
    }
}

/// One question to the decoder: a codec, a chroma format and a sample
/// depth, as the decoder's own values. Every value of this type holds
/// values that the decoder knows.
#[derive(Clone, Copy, Debug, PartialEq, Eq)]
pub struct CudaDecodeSpec {
    codec_type: u32,
    chroma_format: u32,
    bit_depth: u8,
}

/// Whether the three values are among those the decoder is asked about.
pub open spec fn is_probe_triple(codec_type: u32, chroma_format: u32, bit_depth: u8) -> bool {
    &&& cuda_codecs().contains(codec_type)
    &&& cuda_chroma_formats().contains(chroma_format)
    &&& cuda_bit_depths().contains(bit_depth)
}

impl View for CudaDecodeSpec {
    type V = (u32, u32, u8);

    closed spec fn view(&self) -> (u32, u32, u8) {
        (self.codec_type, self.chroma_format, self.bit_depth)
    }
}

/// The question at place `i` of the full probe: codecs change slowest,
/// sample depths fastest.
pub open spec fn probe_at(i: int) -> (u32, u32, u8) {
    (
        cuda_codecs()[i / 12],
        cuda_chroma_formats()[(i / 3) % 4],
        cuda_bit_depths()[i % 3],
    )
}

impl CudaDecodeSpec {
    #[verifier::type_invariant]
    spec fn well_formed(self) -> bool {
        is_probe_triple(self.codec_type, self.chroma_format, self.bit_depth)
    }

    /// A question about the given values, if the decoder knows all three.
    pub fn new(codec_type: u32, chroma_format: u32, bit_depth: u8) -> (r: Option<CudaDecodeSpec>)
        ensures
            r is Some <==> is_probe_triple(codec_type, chroma_format, bit_depth),
            r is Some ==> r.unwrap()@ == (codec_type, chroma_format, bit_depth),
    {
        let codec_known = codec_type <= CUDA_VIDEO_CODEC_H264 || (CUDA_VIDEO_CODEC_HEVC
            <= codec_type && codec_type <= CUDA_VIDEO_CODEC_AV1);
        let chroma_known = chroma_format <= CUDA_VIDEO_CHROMA_FORMAT_444;
        let depth_known = bit_depth == 8 || bit_depth == 10 || bit_depth == 12;
        proof {
            lemma_probe_values();
        }
        if codec_known && chroma_known && depth_known {
            Some(CudaDecodeSpec { codec_type, chroma_format, bit_depth })
        } else {
            None
        }
    }

    /// Every question of the full probe: each codec with each chroma format
    /// and each sample depth, codecs changing slowest and depths fastest.
    pub fn all() -> (r: Vec<CudaDecodeSpec>)
        ensures
            r@.len() == PROBE_COUNT,
            forall|i: int| 0 <= i < PROBE_COUNT ==> (#[trigger] r@[i])@ == probe_at(i),
            forall|c: int, f: int, d: int|
                0 <= c < CODEC_COUNT && 0 <= f < CHROMA_COUNT && 0 <= d < DEPTH_COUNT ==> (
                #[trigger] r@[(c * 4 + f) * 3 + d])@ == (
                    cuda_codecs()[c],
                    cuda_chroma_formats()[f],
                    cuda_bit_depths()[d],
                ),
    {
        let codecs: [u32; 9] = [
            CUDA_VIDEO_CODEC_MPEG1,
            CUDA_VIDEO_CODEC_MPEG2,
            CUDA_VIDEO_CODEC_MPEG4,
            CUDA_VIDEO_CODEC_VC1,
            CUDA_VIDEO_CODEC_H264,
            CUDA_VIDEO_CODEC_HEVC,
            CUDA_VIDEO_CODEC_VP8,
            CUDA_VIDEO_CODEC_VP9,
            CUDA_VIDEO_CODEC_AV1,
        ];
        let chroma_formats: [u32; 4] = [
            CUDA_VIDEO_CHROMA_FORMAT_MONOCHROME,
            CUDA_VIDEO_CHROMA_FORMAT_420,
            CUDA_VIDEO_CHROMA_FORMAT_422,
            CUDA_VIDEO_CHROMA_FORMAT_444,
        ];
        let bit_depths: [u8; 3] = [8, 10, 12];
        assert(codecs@ =~= cuda_codecs());
        assert(chroma_formats@ =~= cuda_chroma_formats());
        assert(bit_depths@ =~= cuda_bit_depths());
        let mut r: Vec<CudaDecodeSpec> = Vec::new();
        let mut c: usize = 0;
        while c < CODEC_COUNT
            invariant
                c <= CODEC_COUNT,
                codecs@ == cuda_codecs(),
                chroma_formats@ == cuda_chroma_formats(),
                bit_depths@ == cuda_bit_depths(),
                r@.len() == c * 12,
                forall|i: int| 0 <= i < r@.len() ==> (#[trigger] r@[i])@ == probe_at(i),
            decreases CODEC_COUNT - c,
        {
            let mut f: usize = 0;
            while f < CHROMA_COUNT
                invariant
                    c < CODEC_COUNT,
                    f <= CHROMA_COUNT,
                    codecs@ == cuda_codecs(),
                    chroma_formats@ == cuda_chroma_formats(),
                    bit_depths@ == cuda_bit_depths(),
                    r@.len() == c * 12 + f * 3,
                    forall|i: int| 0 <= i < r@.len() ==> (#[trigger] r@[i])@ == probe_at(i),
                decreases CHROMA_COUNT - f,
            {
                let mut d: usize = 0;
                while d < DEPTH_COUNT
                    invariant
                        c < CODEC_COUNT,
                        f < CHROMA_COUNT,
                        d <= DEPTH_COUNT,
                        codecs@ == cuda_codecs(),
                        chroma_formats@ == cuda_chroma_formats(),
                        bit_depths@ == cuda_bit_depths(),
                        r@.len() == c * 12 + f * 3 + d,
                        forall|i: int| 0 <= i < r@.len() ==> (#[trigger] r@[i])@ == probe_at(i),
                    decreases DEPTH_COUNT - d,
                {
                    let spec = CudaDecodeSpec {
                        codec_type: codecs[c],
                        chroma_format: chroma_formats[f],
                        bit_depth: bit_depths[d],
                    };
                    assert(spec@ == probe_at(r@.len() as int));
                    r.push(spec);
                    d = d + 1;
                }
                f = f + 1;
            }
            c = c + 1;
        }
        r
    }

    /// The decoder's value for the codec.
    pub fn codec_type(&self) -> (r: u32)
        ensures
            r == self@.0,
            cuda_codecs().contains(r),
    {
        proof {
            use_type_invariant(self);
        }
        self.codec_type
    }

    /// The decoder's value for the chroma format.
    pub fn chroma_format(&self) -> (r: u32)
        ensures
            r == self@.1,
            cuda_chroma_formats().contains(r),
    {
        proof {
            use_type_invariant(self);
        }
        self.chroma_format
    }

    /// The number of bits per sample.
    pub fn bit_depth(&self) -> (r: u8)
        ensures
            r == self@.2,
            cuda_bit_depths().contains(r),
    {
        proof {
            use_type_invariant(self);
        }
        self.bit_depth
    }

    /// The number of bits per sample beyond eight, which is what a question
    /// to the decoder carries.
    pub fn bit_depth_minus8(&self) -> (r: u32)
        ensures
            r == self@.2 - 8,
    {
        proof {
            use_type_invariant(self);
            lemma_probe_values();
        }
        (self.bit_depth - 8) as u32
    }
}

/// The values the decoder is asked about, spelled out.
pub proof fn lemma_probe_values()
    ensures
        forall|v: u32|
            cuda_codecs().contains(v) <==> (v <= CUDA_VIDEO_CODEC_H264 || CUDA_VIDEO_CODEC_HEVC <= v
                <= CUDA_VIDEO_CODEC_AV1),
        forall|v: u32| cuda_chroma_formats().contains(v) <==> v <= CUDA_VIDEO_CHROMA_FORMAT_444,
        forall|v: u8| cuda_bit_depths().contains(v) <==> (v == 8 || v == 10 || v == 12),
{
    let codecs = cuda_codecs();
    assert(codecs[0] == 0 && codecs[1] == 1 && codecs[2] == 2 && codecs[3] == 3 && codecs[4] == 4
        && codecs[5] == 8 && codecs[6] == 9 && codecs[7] == 10 && codecs[8] == 11);
    let formats = cuda_chroma_formats();
    assert(formats[0] == 0 && formats[1] == 1 && formats[2] == 2 && formats[3] == 3);
    let depths = cuda_bit_depths();
    assert(depths[0] == 8 && depths[1] == 10 && depths[2] == 12);
}

/// The decoder's answer to one question: the status of the call and, where
/// the call succeeded, whether the format is supported and up to which
/// picture size.
#[derive(Clone, Copy, Debug, PartialEq, Eq)]
pub struct DecoderCaps {
    pub spec: CudaDecodeSpec,
    pub status: u32,
    pub is_supported: u8,
    pub max_width: u32,
    pub max_height: u32,
}

/// The status of the first call that failed, if one did.
pub open spec fn first_failure(answers: Seq<DecoderCaps>) -> Option<u32>
    decreases answers.len(),
{
    if answers.len() == 0 {
        None
    } else if answers[0].status != CUDA_SUCCESS {
        Some(answers[0].status)
    } else {
        first_failure(answers.skip(1))
    }
}

/// The entry that one answer adds to the decode list of `codec`: one if the
/// decoder supports the format and the format is of that codec, none
/// otherwise.
pub open spec fn answer_decoding(answer: DecoderCaps, codec: Codec) -> Seq<DecodingSpec> {
    if answer.is_supported != 0 && codec_of(answer.spec@.0) == codec {
        seq![
            DecodingSpec {
                chroma: chroma_of(answer.spec@.1),
                color_depth: depth_of(answer.spec@.2),
                max_width: answer.max_width,
                max_height: answer.max_height,
            },
        ]
    } else {
        Seq::empty()
    }
}

/// The decode list of `codec` after the given answers, in the order in
/// which the questions were asked.
pub open spec fn answered_decoding(answers: Seq<DecoderCaps>, codec: Codec) -> Seq<DecodingSpec>
    decreases answers.len(),
{
    if answers.len() == 0 {
        Seq::empty()
    } else {
        answered_decoding(answers.drop_last(), codec) + answer_decoding(answers.last(), codec)
    }
}

/// The decode lists of all codecs, in report order.
pub open spec fn answered_decoding_lists(answers: Seq<DecoderCaps>) -> Seq<Seq<DecodingSpec>> {
    Seq::new(CODEC_COUNT as nat, |k: int| answered_decoding(answers, codec_order()[k]))
}

/// The decode records of one GPU, from the decoder's answers in the order
/// in which the questions were asked. The first answer whose call failed
/// ends the probe with that status, whatever stands behind it. Otherwise
/// every supported format is filed under its codec, the codecs come out in
/// report order, and a codec without a supported format is left out.
pub fn get_decode_capabilities(answers: &Vec<DecoderCaps>) -> (r: Result<
    Vec<CodecDetails>,
    NvidiaError,
>)
    ensures
        match first_failure(answers@) {
            Some(status) => r == Err::<Vec<CodecDetails>, NvidiaError>(
                NvidiaError::OperationFailed(status),
            ),
            None => r is Ok && details_views(r.unwrap()@) == assembled(
                answered_decoding_lists(answers@),
                crate::aggregate::no_entries::<EncodingSpec>(),
                CODEC_COUNT as int,
            ),
        },
{
    let mut decode: Vec<Vec<DecodingSpec>> = crate::aggregate::empty_lists();
    let encode: Vec<Vec<EncodingSpec>> = crate::aggregate::empty_lists();
    let mut i: usize = 0;
    assert(answers@.skip(0) =~= answers@);
    while i < answers.len()
        invariant
            i <= answers@.len(),
            decode@.len() == CODEC_COUNT,
            first_failure(answers@) == first_failure(answers@.skip(i as int)),
            forall|k: int|
                0 <= k < CODEC_COUNT ==> (#[trigger] decode@[k])@ == answered_decoding(
                    answers@.take(i as int),
                    codec_order()[k],
                ),
        decreases answers@.len() - i,
    {
        let answer = &answers[i];
        if answer.status != CUDA_SUCCESS {
            return Err(NvidiaError::OperationFailed(answer.status));
        }
        let ghost before = decode@;
        if answer.is_supported != 0 {
            let codec = map_codec_type(answer.spec.codec_type());
            let chroma = map_chroma_format(answer.spec.chroma_format());
            let color_depth = map_bit_depth(answer.spec.bit_depth());
            decode[codec.rank()].push(
                DecodingSpec {
                    chroma,
                    color_depth,
                    max_width: answer.max_width,
                    max_height: answer.max_height,
                },
            );
        }
        proof {
            let next = answers@.take(i + 1);
            assert(next.drop_last() =~= answers@.take(i as int));
            assert(next.last() == *answer);
            assert(answers@.skip(i as int).skip(1) =~= answers@.skip(i + 1));
            assert forall|k: int| 0 <= k < CODEC_COUNT implies (#[trigger] decode@[k])@
                == answered_decoding(next, codec_order()[k]) by {
                assert(before[k]@ == answered_decoding(answers@.take(i as int), codec_order()[k]));
                assert(decode@[k]@ =~= before[k]@ + answer_decoding(*answer, codec_order()[k]));
            }
        }
        i = i + 1;
    }
    proof {
        assert(answers@.take(answers@.len() as int) =~= answers@);
        assert(lists(decode@) =~= answered_decoding_lists(answers@));
    }
    Ok(assemble(decode, encode))
}

/// The order of the answers is the order of the entries: the list after
/// one run of answers followed by another is the list after the first run,
/// followed by what the second run adds.
pub proof fn lemma_answer_order_kept(first: Seq<DecoderCaps>, second: Seq<DecoderCaps>, codec: Codec)
    ensures
        answered_decoding(first + second, codec) == answered_decoding(first, codec)
            + answered_decoding(second, codec),
    decreases second.len(),
{
    if second.len() == 0 {
        assert(first + second =~= first);
        assert(answered_decoding(first, codec) + answered_decoding(second, codec)
            =~= answered_decoding(first, codec));
    } else {
        let all = first + second;
        assert(all.drop_last() =~= first + second.drop_last());
        assert(all.last() == second.last());
        lemma_answer_order_kept(first, second.drop_last(), codec);
        assert(answered_decoding(all, codec) =~= answered_decoding(first, codec)
            + answered_decoding(second, codec));
    }
}

} // verus!
