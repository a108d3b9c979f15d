use enc_dec_hwscan::error::ErrorCode;
use enc_dec_hwscan::model::{
    Chroma, Codec, CodecDetails, ColorDepth, DecodingSpec, Device, Driver, EncDecDevices,
    EncodeProfile, EncodingSpec, ThreeValue,
};
use enc_dec_hwscan::nvidia::caps::decode::{
    CudaDecodeSpec, DecoderCaps, CUDA_VIDEO_CHROMA_FORMAT_420, CUDA_VIDEO_CODEC_H264,
    CUDA_VIDEO_CODEC_VP9,
};
use enc_dec_hwscan::nvidia::caps::encode::EncoderCaps;
use enc_dec_hwscan::nvidia::device::CudaDevice;
use enc_dec_hwscan::nvidia::encoder::guid::{CODEC_H264, H264_PROFILE_MAIN};
use enc_dec_hwscan::nvidia::error::NvidiaError;
use enc_dec_hwscan::scan::{
    after_nvidia, after_vaapi, get_nvidia_devices, get_vaapi_devices, is_duplicate_device,
    is_nvdec_vendor, merge_devices, scan_devices, DeviceProbe, DisplayProbe,
};
use enc_dec_hwscan::vaapi::caps::{
    ConfigAttrib, ProfileReport, VA_ENTRYPOINT_VLD, VA_PROFILE_HEVC_MAIN,
};
use enc_dec_hwscan::vaapi::error::VaError;

fn gpu(handle: i32, name: &str) -> DeviceProbe {
    let spec = |codec| CudaDecodeSpec::new(codec, CUDA_VIDEO_CHROMA_FORMAT_420, 8).unwrap();
    DeviceProbe {
        device: CudaDevice { handle, name: name.to_string(), uuid: [0; 16] },
        decoder_answers: vec![
            DecoderCaps { spec: spec(CUDA_VIDEO_CODEC_H264), status: 0, is_supported: 1, max_width: 4096, max_height: 4096 },
            DecoderCaps { spec: spec(CUDA_VIDEO_CODEC_VP9), status: 0, is_supported: 1, max_width: 8192, max_height: 8192 },
        ],
        encoder_caps: vec![EncoderCaps {
            codec_guid: CODEC_H264,
            profile_guids: vec![H264_PROFILE_MAIN],
            width_max: 4096,
            height_max: 4096,
            support_10bit_encode: 0,
            num_max_bframes: 4,
            support_yuv444_encode: 0,
        }],
    }
}

fn gpu_codecs() -> Vec<CodecDetails> {
    vec![
        CodecDetails::new(
            Codec::H264,
            vec![DecodingSpec { chroma: Chroma::Yuv420, color_depth: ColorDepth::Bit8, max_width: 4096, max_height: 4096 }],
            vec![EncodingSpec {
                chroma: Chroma::Yuv420,
                color_depth: ColorDepth::Bit8,
                profile: EncodeProfile::Main,
                max_width: 4096,
                max_height: 4096,
                b_frames_supported: ThreeValue::True,
            }],
        ),
        CodecDetails::new(
            Codec::Vp9,
            vec![DecodingSpec { chroma: Chroma::Yuv420, color_depth: ColorDepth::Bit8, max_width: 8192, max_height: 8192 }],
            vec![],
        ),
    ]
}

fn display(path: &str, vendor: &str) -> DisplayProbe {
    DisplayProbe {
        path: path.to_string(),
        vendor: vendor.to_string(),
        profiles: vec![ProfileReport {
            profile: VA_PROFILE_HEVC_MAIN,
            entrypoints: vec![VA_ENTRYPOINT_VLD],
            decode_attributes: vec![ConfigAttrib { kind: 18, value: 1920 }, ConfigAttrib { kind: 19, value: 1080 }],
            encode_attributes: vec![],
        }],
    }
}

fn display_device(path: &str, vendor: &str) -> Device {
    Device::new_with_path(
        Driver::Vaapi,
        path.to_string(),
        Some(vendor.to_string()),
        vec![CodecDetails::new(
            Codec::Hevc,
            vec![DecodingSpec { chroma: Chroma::Yuv420, color_depth: ColorDepth::Bit8, max_width: 1920, max_height: 1080 }],
            vec![],
        )],
    )
}

const NVDEC_VENDOR: &str = "VA-API NVDEC driver [direct backend]";
const INTEL_VENDOR: &str = "Intel iHD driver for Intel(R) Gen Graphics";

#[test]
fn lib_test_detect_devices() {
    let result = scan_devices(Err(NvidiaError::NotLoaded("libcuda.so")), Err(VaError::NotLoaded("libva.so.2")));
    assert_eq!(result, Ok(EncDecDevices::new(vec![])));
    assert_eq!(ErrorCode::Success.code(), 0);
    let nothing_found = scan_devices(Ok(vec![]), Ok(vec![]));
    assert_eq!(nothing_found, Ok(EncDecDevices::new(vec![])));
}

#[test]
fn nvidia_devices_come_first() {
    let report = scan_devices(
        Ok(vec![gpu(0, "first"), gpu(1, "second")]),
        Ok(vec![display("/dev/dri/renderD128", INTEL_VENDOR), display("/dev/dri/renderD129", "Mesa")]),
    )
    .unwrap();
    assert_eq!(
        report.into_devices(),
        vec![
            Device::new_with_ordinal(Driver::Nvidia, 0, "first".to_string(), gpu_codecs()),
            Device::new_with_ordinal(Driver::Nvidia, 1, "second".to_string(), gpu_codecs()),
            display_device("/dev/dri/renderD128", INTEL_VENDOR),
            display_device("/dev/dri/renderD129", "Mesa"),
        ]
    );
}

#[test]
fn a_scan_said_the_same_twice_reports_the_same() {
    let nvidia = || Ok(vec![gpu(0, "first"), gpu(1, "second")]);
    let vaapi = || Ok(vec![display("a", NVDEC_VENDOR), display("b", INTEL_VENDOR)]);
    assert_eq!(scan_devices(nvidia(), vaapi()), scan_devices(nvidia(), vaapi()));
    let once = get_nvidia_devices(vec![gpu(3, "x")]).unwrap();
    assert_eq!(format!("{:?}", once), format!("{:?}", get_nvidia_devices(vec![gpu(3, "x")]).unwrap()));
}

#[test]
fn nvdec_fronted_display_is_dropped_after_nvidia_ran() {
    let displays = || vec![display("/dev/dri/renderD128", NVDEC_VENDOR), display("/dev/dri/renderD129", INTEL_VENDOR)];
    for vendor in ["nvdec", "NVDEC", "NvDec", "va nVdEc x"] {
        let report = scan_devices(Ok(vec![]), Ok(vec![display("p", vendor)])).unwrap();
        assert!(report.devices().is_empty());
        assert!(get_vaapi_devices(true, vec![display("p", vendor)]).is_empty());
    }
    let report = scan_devices(Ok(vec![gpu(0, "GPU")]), Ok(displays())).unwrap();
    assert_eq!(
        report.into_devices(),
        vec![
            Device::new_with_ordinal(Driver::Nvidia, 0, "GPU".to_string(), gpu_codecs()),
            display_device("/dev/dri/renderD129", INTEL_VENDOR),
        ]
    );
    assert_eq!(
        get_vaapi_devices(true, displays()),
        vec![display_device("/dev/dri/renderD129", INTEL_VENDOR)]
    );
}

#[test]
fn nvdec_fronted_display_is_kept_where_nvidia_did_not_run() {
    let displays = || vec![display("/dev/dri/renderD128", NVDEC_VENDOR), display("/dev/dri/renderD129", INTEL_VENDOR)];
    let expected = vec![
        display_device("/dev/dri/renderD128", NVDEC_VENDOR),
        display_device("/dev/dri/renderD129", INTEL_VENDOR),
    ];
    let report = scan_devices(Err(NvidiaError::NotLoaded("libcuda.so")), Ok(displays())).unwrap();
    assert_eq!(report.into_devices(), expected);
    assert_eq!(get_vaapi_devices(false, displays()), expected);
    for vendor in ["nvdec", "NVDEC", "NvDec"] {
        assert_eq!(get_vaapi_devices(false, vec![display("p", vendor)]), vec![display_device("p", vendor)]);
    }
}

#[test]
fn the_word_nvdec() {
    assert!(is_nvdec_vendor("nvdec"));
    assert!(is_nvdec_vendor("NVDEC"));
    assert!(is_nvdec_vendor("VA-API NVDEC driver"));
    assert!(is_nvdec_vendor("xxNvDeCxx"));
    assert!(is_nvdec_vendor("nvdenvdec"));
    assert!(is_nvdec_vendor("\u{00e4}\u{4e2d}nvdec"));
    assert!(!is_nvdec_vendor(""));
    assert!(!is_nvdec_vendor("nvde"));
    assert!(!is_nvdec_vendor("nv dec"));
    assert!(!is_nvdec_vendor("nvenc"));
    assert!(!is_nvdec_vendor("cedvn"));
    assert!(!is_nvdec_vendor(INTEL_VENDOR));
    assert!(is_duplicate_device(true, "NVDEC"));
    assert!(!is_duplicate_device(false, "NVDEC"));
    assert!(!is_duplicate_device(true, "Mesa"));
    assert!(!is_duplicate_device(false, "Mesa"));
}

#[test]
fn a_failure_of_the_nvidia_backend_ends_the_scan() {
    let displays = || Ok(vec![display("p", INTEL_VENDOR)]);
    assert_eq!(scan_devices(Err(NvidiaError::OperationFailed(100)), displays()), Err(ErrorCode::OperationFailed));
    assert_eq!(scan_devices(Err(NvidiaError::SymbolNotFound("cuDeviceGet")), displays()), Err(ErrorCode::DriverFailure));
    assert_eq!(
        scan_devices(Err(NvidiaError::NvEncFunctionNotAvailable("nvEncGetEncodeGUIDs")), displays()),
        Err(ErrorCode::DriverFailure)
    );
    assert_eq!(scan_devices(Err(NvidiaError::FailedToConvertUuid(4)), displays()), Err(ErrorCode::ConversionFailed));
    assert_eq!(
        scan_devices(Err(NvidiaError::FailedToConvertResult(-1)), Err(VaError::SymbolNotFound("vaInitialize"))),
        Err(ErrorCode::ConversionFailed)
    );
}

#[test]
fn a_failure_inside_a_probe_ends_the_scan() {
    let mut failing = gpu(1, "second");
    failing.decoder_answers[1].status = 700;
    failing.encoder_caps[0].width_max = -1;
    let probes = vec![gpu(0, "first"), failing.clone(), gpu(2, "third")];
    assert_eq!(get_nvidia_devices(probes.clone()), Err(NvidiaError::OperationFailed(700)));
    assert_eq!(scan_devices(Ok(probes), Ok(vec![])), Err(ErrorCode::OperationFailed));
    failing.decoder_answers[1].status = 0;
    assert_eq!(get_nvidia_devices(vec![failing.clone()]), Err(NvidiaError::FailedToConvertResult(-1)));
    assert_eq!(scan_devices(Ok(vec![failing]), Ok(vec![])), Err(ErrorCode::ConversionFailed));
}

#[test]
fn a_failure_of_the_vaapi_backend_ends_the_scan() {
    let gpus = || Ok(vec![gpu(0, "GPU")]);
    assert_eq!(scan_devices(gpus(), Err(VaError::SymbolNotFound("vaInitialize"))), Err(ErrorCode::DriverFailure));
    assert_eq!(
        scan_devices(gpus(), Err(VaError::FailedToEnumerateDevices("denied".to_string()))),
        Err(ErrorCode::DriverFailure)
    );
    assert_eq!(
        scan_devices(gpus(), Err(VaError::FailedToOpenDevice("p".to_string(), "busy".to_string()))),
        Err(ErrorCode::DriverFailure)
    );
    assert_eq!(scan_devices(gpus(), Err(VaError::FailedToGetDisplay("p".to_string()))), Err(ErrorCode::DriverFailure));
    assert_eq!(scan_devices(gpus(), Err(VaError::OperationFailed(2))), Err(ErrorCode::OperationFailed));
    assert_eq!(
        scan_devices(gpus(), Err(VaError::OperationFailedT("failed".to_string(), 2))),
        Err(ErrorCode::OperationFailed)
    );
    let only_nvidia = scan_devices(gpus(), Err(VaError::NotLoaded("libva.so.2"))).unwrap();
    assert_eq!(
        only_nvidia.into_devices(),
        vec![Device::new_with_ordinal(Driver::Nvidia, 0, "GPU".to_string(), gpu_codecs())]
    );
}

#[test]
fn the_stages_of_a_scan() {
    let device = Device::new_with_ordinal(Driver::Nvidia, 0, "GPU".to_string(), vec![]);
    assert_eq!(after_nvidia(Ok(vec![device.clone()])), Ok((vec![device.clone()], true)));
    assert_eq!(after_nvidia(Ok(vec![])), Ok((vec![], true)));
    assert_eq!(after_nvidia(Err(NvidiaError::NotLoaded("libcuda.so"))), Ok((vec![], false)));
    assert_eq!(after_nvidia(Err(NvidiaError::OperationFailed(1))), Err(ErrorCode::OperationFailed));
    let node = Device::new_with_path(Driver::Vaapi, "p".to_string(), None, vec![]);
    assert_eq!(after_vaapi(Ok(vec![node.clone()])), Ok(vec![node.clone()]));
    assert_eq!(after_vaapi(Err(VaError::NotLoaded("libva.so.2"))), Ok(vec![]));
    assert_eq!(after_vaapi(Err(VaError::OperationFailed(1))), Err(ErrorCode::OperationFailed));
    assert_eq!(
        merge_devices(vec![device.clone()], vec![node.clone()]),
        EncDecDevices::new(vec![device.clone(), node.clone()])
    );
    assert_eq!(merge_devices(vec![], vec![node.clone()]), EncDecDevices::new(vec![node]));
    assert_eq!(merge_devices(vec![device.clone()], vec![]), EncDecDevices::new(vec![device]));
}

#[test]
fn the_ordinal_is_the_low_byte_of_the_handle() {
    let ordinals: Vec<u8> = get_nvidia_devices(vec![gpu(0, "a"), gpu(255, "b"), gpu(256, "c"), gpu(513, "d"), gpu(-1, "e")])
        .unwrap()
        .iter()
        .map(|d| d.ordinal())
        .collect();
    assert_eq!(ordinals, vec![0, 255, 0, 1, 255]);
}
