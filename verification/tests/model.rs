use enc_dec_hwscan::aggregate::combine_codecs;
use enc_dec_hwscan::error::{map_nvidia_error_code, map_vaapi_error_code, ErrorCode};
use enc_dec_hwscan::model::{
    Chroma, Codec, CodecDetails, ColorDepth, DecodingSpec, Device, Driver, EncDecDevices,
    EncodeProfile, EncodingSpec, ThreeValue, CODEC_COUNT,
};
use enc_dec_hwscan::nvidia::error::NvidiaError;
use enc_dec_hwscan::support::{CodecSupport, SupportInfo};
use enc_dec_hwscan::vaapi::error::VaError;

fn decoding(chroma: Chroma, color_depth: ColorDepth, max_width: u32, max_height: u32) -> DecodingSpec {
    DecodingSpec { chroma, color_depth, max_width, max_height }
}

fn encoding(profile: EncodeProfile, max_width: u32, max_height: u32) -> EncodingSpec {
    EncodingSpec {
        chroma: Chroma::Yuv420,
        color_depth: ColorDepth::Bit8,
        profile,
        max_width,
        max_height,
        b_frames_supported: ThreeValue::True,
    }
}

#[test]
fn new_keeps_both_lists() {
    let d = decoding(Chroma::Yuv420, ColorDepth::Bit8, 4096, 2160);
    let e = encoding(EncodeProfile::High, 4096, 4096);
    let details = CodecDetails::new(Codec::H264, vec![d], vec![e]);
    assert_eq!(details.codec(), Codec::H264);
    assert_eq!(details.decoding_specs(), &vec![d]);
    assert_eq!(details.encoding_specs(), &vec![e]);
}

#[test]
fn combine_takes_one_side_of_each() {
    let d = decoding(Chroma::Yuv420, ColorDepth::Bit10, 8192, 8192);
    let stray = encoding(EncodeProfile::Baseline, 1, 1);
    let e = encoding(EncodeProfile::Main, 4096, 4096);
    let decode = CodecDetails::new(Codec::Hevc, vec![d], vec![stray]);
    let encode = CodecDetails::new(Codec::Hevc, vec![], vec![e]);
    let both = CodecDetails::combine(Codec::Hevc, Some(decode), Some(encode));
    assert_eq!(both.codec(), Codec::Hevc);
    assert_eq!(both.decoding_specs(), &vec![d]);
    assert_eq!(both.encoding_specs(), &vec![e]);
}

#[test]
fn combine_with_one_side_missing() {
    let d = decoding(Chroma::Yuv444, ColorDepth::Bit8, 100, 200);
    let only_decode = CodecDetails::combine(
        Codec::Vp9,
        Some(CodecDetails::new(Codec::Vp9, vec![d], vec![])),
        None,
    );
    assert_eq!(only_decode.decoding_specs(), &vec![d]);
    assert!(only_decode.encoding_specs().is_empty());
    let nothing = CodecDetails::combine(Codec::Vp9, None, None);
    assert!(nothing.decoding_specs().is_empty());
    assert!(nothing.encoding_specs().is_empty());
    assert_eq!(nothing.codec(), Codec::Vp9);
}

#[test]
fn three_value_from_bool_is_definite() {
    assert_eq!(ThreeValue::from(true), ThreeValue::True);
    assert_eq!(ThreeValue::from(false), ThreeValue::False);
    assert_ne!(ThreeValue::from(true), ThreeValue::Unknown);
    assert_ne!(ThreeValue::from(false), ThreeValue::Unknown);
}

#[test]
fn codes_of_the_flattened_report() {
    assert_eq!(Driver::Vaapi.code(), 0);
    assert_eq!(Driver::Nvidia.code(), 1);
    let codecs: Vec<u32> = Codec::all().iter().map(|c| c.code()).collect();
    assert_eq!(codecs, vec![1, 2, 4, 7, 264, 265, 8, 9, 10]);
    assert_eq!(Chroma::Monochrome.code(), 0);
    assert_eq!(Chroma::Yuv420.code(), 420);
    assert_eq!(Chroma::Yuv422.code(), 422);
    assert_eq!(Chroma::Yuv444.code(), 444);
    assert_eq!(ColorDepth::Bit8.code(), 8);
    assert_eq!(ColorDepth::Bit10.code(), 10);
    assert_eq!(ColorDepth::Bit12.code(), 12);
    assert_eq!(EncodeProfile::Baseline.code(), 1);
    assert_eq!(EncodeProfile::Main.code(), 10);
    assert_eq!(EncodeProfile::Main10.code(), 11);
    assert_eq!(EncodeProfile::High.code(), 100);
    assert_eq!(EncodeProfile::High10.code(), 110);
    assert_eq!(EncodeProfile::High12.code(), 112);
    assert_eq!(EncodeProfile::High444.code(), 140);
    assert_eq!(ThreeValue::False.code(), 0);
    assert_eq!(ThreeValue::True.code(), 1);
    assert_eq!(ThreeValue::Unknown.code(), 2);
}

#[test]
fn codec_order_and_ranks_agree() {
    let all = Codec::all();
    assert_eq!(all.len(), CODEC_COUNT);
    assert_eq!(
        all,
        vec![
            Codec::Mpeg1,
            Codec::Mpeg2,
            Codec::Mpeg4,
            Codec::Vc1,
            Codec::H264,
            Codec::Hevc,
            Codec::Vp8,
            Codec::Vp9,
            Codec::Av1,
        ]
    );
    for (k, codec) in all.iter().enumerate() {
        assert_eq!(codec.rank(), k);
    }
}

#[test]
fn error_codes_and_their_numbers() {
    assert_eq!(ErrorCode::CriticalError.code(), -666);
    assert_eq!(ErrorCode::Success.code(), 0);
    assert_eq!(ErrorCode::DriverFailure.code(), 1);
    assert_eq!(ErrorCode::OperationFailed.code(), 2);
    assert_eq!(ErrorCode::ConversionFailed.code(), 3);
}

#[test]
fn nvidia_failures_map_to_codes() {
    assert_eq!(map_nvidia_error_code(&NvidiaError::NotLoaded("libcuda.so")), ErrorCode::Success);
    assert_eq!(map_nvidia_error_code(&NvidiaError::OperationFailed(100)), ErrorCode::OperationFailed);
    assert_eq!(map_nvidia_error_code(&NvidiaError::SymbolNotFound("cuDeviceGet")), ErrorCode::DriverFailure);
    assert_eq!(
        map_nvidia_error_code(&NvidiaError::NvEncFunctionNotAvailable("nvEncGetEncodeCaps")),
        ErrorCode::DriverFailure
    );
    assert_eq!(map_nvidia_error_code(&NvidiaError::FailedToConvertUuid(3)), ErrorCode::ConversionFailed);
    assert_eq!(map_nvidia_error_code(&NvidiaError::FailedToConvertResult(-1)), ErrorCode::ConversionFailed);
}

#[test]
fn vaapi_failures_map_to_codes() {
    assert_eq!(map_vaapi_error_code(&VaError::NotLoaded("libva.so.2")), ErrorCode::Success);
    assert_eq!(map_vaapi_error_code(&VaError::SymbolNotFound("vaInitialize")), ErrorCode::DriverFailure);
    assert_eq!(
        map_vaapi_error_code(&VaError::FailedToEnumerateDevices("denied".to_string())),
        ErrorCode::DriverFailure
    );
    assert_eq!(
        map_vaapi_error_code(&VaError::FailedToOpenDevice("/dev/dri/renderD128".to_string(), "busy".to_string())),
        ErrorCode::DriverFailure
    );
    assert_eq!(
        map_vaapi_error_code(&VaError::FailedToGetDisplay("/dev/dri/renderD128".to_string())),
        ErrorCode::DriverFailure
    );
    assert_eq!(map_vaapi_error_code(&VaError::OperationFailed(1)), ErrorCode::OperationFailed);
    assert_eq!(
        map_vaapi_error_code(&VaError::OperationFailedT("operation failed".to_string(), 1)),
        ErrorCode::OperationFailed
    );
}

#[test]
fn devices_keep_what_they_were_made_of() {
    let d = decoding(Chroma::Yuv420, ColorDepth::Bit8, 4096, 4096);
    let by_ordinal = Device::new_with_ordinal(
        Driver::Nvidia,
        3,
        "GeForce".to_string(),
        vec![CodecDetails::new(Codec::H264, vec![d], vec![])],
    );
    assert_eq!(by_ordinal.driver(), Driver::Nvidia);
    assert_eq!(by_ordinal.ordinal(), 3);
    assert_eq!(by_ordinal.path(), &None);
    assert_eq!(by_ordinal.name(), &Some("GeForce".to_string()));
    assert_eq!(by_ordinal.codecs().len(), 1);

    let by_path = Device::new_with_path(Driver::Vaapi, "/dev/dri/renderD128".to_string(), None, vec![]);
    assert_eq!(by_path.driver(), Driver::Vaapi);
    assert_eq!(by_path.ordinal(), 0);
    assert_eq!(by_path.path(), &Some("/dev/dri/renderD128".to_string()));
    assert_eq!(by_path.name(), &None);
    assert!(by_path.codecs().is_empty());

    let report = EncDecDevices::new(vec![by_ordinal.clone(), by_path.clone()]);
    assert_eq!(report.devices(), &vec![by_ordinal.clone(), by_path.clone()]);
    assert_eq!(report.into_devices(), vec![by_ordinal, by_path]);
}

#[test]
fn a_codec_is_listed_iff_it_has_a_format() {
    let d = decoding(Chroma::Yuv420, ColorDepth::Bit8, 1920, 1080);
    let e = encoding(EncodeProfile::Main, 1280, 720);
    let decode = vec![
        CodecDetails::new(Codec::Av1, vec![d], vec![]),
        CodecDetails::new(Codec::Vp8, vec![], vec![]),
        CodecDetails::new(Codec::H264, vec![d], vec![]),
    ];
    let encode = vec![
        CodecDetails::new(Codec::H264, vec![], vec![e]),
        CodecDetails::new(Codec::Mpeg2, vec![], vec![e]),
        CodecDetails::new(Codec::Vp8, vec![], vec![]),
    ];
    let records = combine_codecs(decode, encode);
    assert_eq!(
        records,
        vec![
            CodecDetails::new(Codec::Mpeg2, vec![], vec![e]),
            CodecDetails::new(Codec::H264, vec![d], vec![e]),
            CodecDetails::new(Codec::Av1, vec![d], vec![]),
        ]
    );
    for codec in Codec::all() {
        let listed = records.iter().any(|r| r.codec() == codec);
        let expected = matches!(codec, Codec::Mpeg2 | Codec::H264 | Codec::Av1);
        assert_eq!(listed, expected);
    }
    assert!(combine_codecs(vec![], vec![]).is_empty());
}

#[test]
fn combine_codecs_orders_and_joins() {
    let d1 = decoding(Chroma::Yuv420, ColorDepth::Bit8, 4096, 4096);
    let d2 = decoding(Chroma::Yuv420, ColorDepth::Bit10, 8192, 8192);
    let e = encoding(EncodeProfile::Main, 4096, 4096);
    let decode = vec![
        CodecDetails::new(Codec::Vp9, vec![d2], vec![]),
        CodecDetails::new(Codec::H264, vec![d1], vec![]),
    ];
    let encode = vec![
        CodecDetails::new(Codec::Hevc, vec![], vec![e]),
        CodecDetails::new(Codec::H264, vec![], vec![e]),
    ];
    let records = combine_codecs(decode, encode);
    assert_eq!(
        records,
        vec![
            CodecDetails::new(Codec::H264, vec![d1], vec![e]),
            CodecDetails::new(Codec::Hevc, vec![], vec![e]),
            CodecDetails::new(Codec::Vp9, vec![d2], vec![]),
        ]
    );
}

#[test]
fn combine_codecs_last_record_of_a_codec_counts() {
    let d1 = decoding(Chroma::Yuv420, ColorDepth::Bit8, 1, 1);
    let d2 = decoding(Chroma::Yuv420, ColorDepth::Bit8, 2, 2);
    let decode = vec![
        CodecDetails::new(Codec::H264, vec![d1], vec![]),
        CodecDetails::new(Codec::H264, vec![d2], vec![]),
    ];
    let records = combine_codecs(decode, vec![]);
    assert_eq!(records, vec![CodecDetails::new(Codec::H264, vec![d2], vec![])]);
}

#[test]
fn combine_codecs_drops_records_without_formats() {
    let decode = vec![CodecDetails::new(Codec::Vc1, vec![], vec![])];
    let encode = vec![CodecDetails::new(Codec::Vc1, vec![], vec![])];
    assert!(combine_codecs(decode, encode).is_empty());
}

#[test]
fn support_summary_keeps_what_it_was_made_of() {
    let support = CodecSupport::new(
        Codec::H264,
        vec![1920, 1080],
        vec![Chroma::Yuv420],
        vec![ColorDepth::Bit8, ColorDepth::Bit10],
    );
    assert_eq!(support.codec(), Codec::H264);
    assert_eq!(support.resolutions(), &vec![1920, 1080]);
    assert_eq!(support.chromas(), &vec![Chroma::Yuv420]);
    assert_eq!(support.color_depths(), &vec![ColorDepth::Bit8, ColorDepth::Bit10]);
    let device = enc_dec_hwscan::support::Device::new(
        enc_dec_hwscan::support::Driver::Nvidia,
        0,
        "GPU".to_string(),
        "".to_string(),
        vec![support.clone()],
        vec![],
    );
    assert_eq!(device.decoders(), &vec![support]);
    assert!(device.encoders().is_empty());
    let info = SupportInfo::new(vec![device.clone()]);
    assert_eq!(info.devices(), &vec![device]);
    assert_eq!(enc_dec_hwscan::support::Driver::Reserved.code(), 0);
    assert_eq!(enc_dec_hwscan::support::Driver::Nvidia.code(), 1);
    assert_eq!(enc_dec_hwscan::support::Driver::Vaapi.code(), 2);
}
