use enc_dec_hwscan::dylib::{DriverRegistry, Event, Step};
use enc_dec_hwscan::model::Chroma::{Yuv420, Yuv422, Yuv444};
use enc_dec_hwscan::model::ColorDepth::{Bit10, Bit12, Bit8};
use enc_dec_hwscan::model::EncodeProfile::{Baseline, High, High10, Main, Main10};
use enc_dec_hwscan::model::{
    Chroma, Codec, CodecDetails, ColorDepth, DecodingSpec, EncodeProfile, EncodingSpec, ThreeValue,
};
use enc_dec_hwscan::vaapi::caps::{
    find_attribute, get_capabilities, has_entrypoint, map_profile, ConfigAttrib, ProfileReport,
    CONFIG_ATTRIB_COUNT, VA_ATTRIB_NOT_SUPPORTED, VA_CONFIG_ATTRIB_MAX_PICTURE_HEIGHT,
    VA_CONFIG_ATTRIB_MAX_PICTURE_WIDTH, VA_ENTRYPOINT_ENC_SLICE, VA_ENTRYPOINT_VLD,
    VA_PROFILE_AV1_PROFILE0, VA_PROFILE_AV1_PROFILE1, VA_PROFILE_H264_BASELINE,
    VA_PROFILE_H264_HIGH, VA_PROFILE_H264_HIGH10, VA_PROFILE_H264_MAIN, VA_PROFILE_HEVC_MAIN,
    VA_PROFILE_HEVC_MAIN10, VA_PROFILE_HEVC_MAIN12, VA_PROFILE_HEVC_MAIN422_10,
    VA_PROFILE_HEVC_MAIN422_12, VA_PROFILE_HEVC_MAIN444, VA_PROFILE_HEVC_MAIN444_10,
    VA_PROFILE_HEVC_MAIN444_12, VA_PROFILE_MPEG2_MAIN, VA_PROFILE_MPEG4_MAIN,
    VA_PROFILE_VC1_MAIN, VA_PROFILE_VP8_VERSION0_3, VA_PROFILE_VP9_PROFILE0,
    VA_PROFILE_VP9_PROFILE1, VA_PROFILE_VP9_PROFILE2, VA_PROFILE_VP9_PROFILE3,
};
use enc_dec_hwscan::vaapi::device::{
    ends_with_render, enumerate_devices, select_by_path, select_flat, starts_with_render,
    DEV_BY_PATH_PATH, DEV_PATH,
};
use enc_dec_hwscan::vaapi::display::{
    attribute_request, entrypoint_capacity, get_config_attributes, profile_capacity,
    DisplayOpening, DrmDisplay,
};
use enc_dec_hwscan::vaapi::dylib::{ensure_available, is_va_loaded, registry, Libs};
use enc_dec_hwscan::vaapi::error::{is_failure, VaError};

fn settle(registry: &mut DriverRegistry, found: &[&str]) -> Vec<&'static str> {
    let mut asked = Vec::new();
    loop {
        match registry.next_step() {
            Step::Load { library: _, name } => {
                asked.push(name);
                registry.record(Event::Loaded(found.contains(&name)));
            }
            Step::Init => registry.record(Event::Initialized(0)),
            _ => return asked,
        }
    }
}

fn installed() -> DriverRegistry {
    let mut r = registry();
    settle(&mut r, &["libva.so.2", "libva-drm.so.2"]);
    r
}

fn names(list: &[&str]) -> Vec<String> {
    list.iter().map(|s| s.to_string()).collect()
}

fn size(width: u32, height: u32) -> Vec<ConfigAttrib> {
    vec![
        ConfigAttrib { kind: 0, value: 7 },
        ConfigAttrib { kind: VA_CONFIG_ATTRIB_MAX_PICTURE_WIDTH, value: width },
        ConfigAttrib { kind: VA_CONFIG_ATTRIB_MAX_PICTURE_HEIGHT, value: height },
    ]
}

fn report(profile: i32, entrypoints: Vec<u32>, decode: (u32, u32), encode: (u32, u32)) -> ProfileReport {
    ProfileReport {
        profile,
        entrypoints,
        decode_attributes: size(decode.0, decode.1),
        encode_attributes: size(encode.0, encode.1),
    }
}

fn opened(vendor: Option<&str>) -> DisplayOpening {
    DisplayOpening {
        display_found: true,
        init_status: 0,
        init_text: None,
        version_major: 1,
        version_minor: 20,
        vendor: vendor.map(|v| v.to_string()),
    }
}

fn d(chroma: Chroma, color_depth: ColorDepth, max_width: u32, max_height: u32) -> DecodingSpec {
    DecodingSpec { chroma, color_depth, max_width, max_height }
}

fn e(profile: EncodeProfile, chroma: Chroma, color_depth: ColorDepth, max_width: u32, max_height: u32) -> EncodingSpec {
    EncodingSpec {
        chroma,
        color_depth,
        profile,
        max_width,
        max_height,
        b_frames_supported: ThreeValue::Unknown,
    }
}

#[test]
fn test_get_capabilities() {
    let registry = installed();
    assert!(is_va_loaded(&registry));

    let devices = enumerate_devices(&None, &Some(names(&["card0", "renderD128"])));
    assert!(!devices.is_empty());

    let drm_display = DrmDisplay::new(devices[0].clone(), opened(Some("Intel iHD driver"))).unwrap();
    println!("Found device: {}", &drm_display.vendor);

    let said = vec![
        report(VA_PROFILE_H264_MAIN, vec![VA_ENTRYPOINT_VLD, VA_ENTRYPOINT_ENC_SLICE], (4096, 4096), (4096, 2304)),
        report(VA_PROFILE_HEVC_MAIN10, vec![VA_ENTRYPOINT_VLD], (8192, 8192), (1, 1)),
        report(VA_PROFILE_MPEG2_MAIN, vec![VA_ENTRYPOINT_VLD], (2048, 2048), (1, 1)),
        report(VA_PROFILE_H264_HIGH, vec![VA_ENTRYPOINT_ENC_SLICE, 8], (1, 1), (4096, 2304)),
    ];
    let capabilities = get_capabilities(&said);
    assert!(!capabilities.is_empty());
    assert_eq!(
        capabilities,
        vec![
            CodecDetails::new(Codec::Mpeg2, vec![d(Chroma::Yuv420, ColorDepth::Bit8, 2048, 2048)], vec![]),
            CodecDetails::new(
                Codec::H264,
                vec![d(Chroma::Yuv420, ColorDepth::Bit8, 4096, 4096)],
                vec![
                    e(EncodeProfile::Main, Chroma::Yuv420, ColorDepth::Bit8, 4096, 2304),
                    e(EncodeProfile::High, Chroma::Yuv420, ColorDepth::Bit8, 4096, 2304),
                ],
            ),
            CodecDetails::new(Codec::Hevc, vec![d(Chroma::Yuv420, ColorDepth::Bit10, 8192, 8192)], vec![]),
        ]
    );
    assert_eq!(get_capabilities(&said), capabilities);
}

#[test]
fn a_profile_of_six_formats_gives_six_entries_per_entrypoint() {
    assert_eq!(map_profile(VA_PROFILE_VP9_PROFILE3).len(), 6);
    let six = |w, h| {
        vec![
            (Chroma::Yuv420, ColorDepth::Bit10, w, h),
            (Chroma::Yuv420, ColorDepth::Bit12, w, h),
            (Chroma::Yuv422, ColorDepth::Bit10, w, h),
            (Chroma::Yuv422, ColorDepth::Bit12, w, h),
            (Chroma::Yuv444, ColorDepth::Bit10, w, h),
            (Chroma::Yuv444, ColorDepth::Bit12, w, h),
        ]
    };
    let decode: Vec<DecodingSpec> = six(8192, 4320).into_iter().map(|(c, b, w, h)| d(c, b, w, h)).collect();
    let encode: Vec<EncodingSpec> =
        six(4096, 2160).into_iter().map(|(c, b, w, h)| e(EncodeProfile::Main, c, b, w, h)).collect();

    let both = vec![report(
        VA_PROFILE_VP9_PROFILE3,
        vec![VA_ENTRYPOINT_VLD, VA_ENTRYPOINT_ENC_SLICE],
        (8192, 4320),
        (4096, 2160),
    )];
    let records = get_capabilities(&both);
    assert_eq!(records.len(), 1);
    assert_eq!(records[0].decoding_specs().len(), 6);
    assert_eq!(records[0].encoding_specs().len(), 6);
    assert_eq!(records, vec![CodecDetails::new(Codec::Vp9, decode.clone(), encode.clone())]);

    let decode_only = vec![report(VA_PROFILE_VP9_PROFILE3, vec![VA_ENTRYPOINT_VLD], (8192, 4320), (4096, 2160))];
    assert_eq!(get_capabilities(&decode_only), vec![CodecDetails::new(Codec::Vp9, decode, vec![])]);
    let encode_only =
        vec![report(VA_PROFILE_VP9_PROFILE3, vec![VA_ENTRYPOINT_ENC_SLICE], (8192, 4320), (4096, 2160))];
    assert_eq!(get_capabilities(&encode_only), vec![CodecDetails::new(Codec::Vp9, vec![], encode)]);
    let neither = vec![report(VA_PROFILE_VP9_PROFILE3, vec![2, 10], (8192, 4320), (4096, 2160))];
    assert!(get_capabilities(&neither).is_empty());
}

#[test]
fn the_profile_table() {
    assert_eq!(map_profile(VA_PROFILE_MPEG2_MAIN), vec![(Codec::Mpeg2, Main, Yuv420, Bit8)]);
    assert_eq!(map_profile(VA_PROFILE_MPEG4_MAIN), vec![(Codec::Mpeg4, Main, Yuv420, Bit8)]);
    assert_eq!(map_profile(VA_PROFILE_H264_BASELINE), vec![(Codec::H264, Baseline, Yuv420, Bit8)]);
    assert_eq!(map_profile(VA_PROFILE_H264_MAIN), vec![(Codec::H264, Main, Yuv420, Bit8)]);
    assert_eq!(map_profile(VA_PROFILE_H264_HIGH), vec![(Codec::H264, High, Yuv420, Bit8)]);
    assert_eq!(map_profile(VA_PROFILE_H264_HIGH10), vec![(Codec::H264, High10, Yuv420, Bit10)]);
    assert_eq!(map_profile(VA_PROFILE_VC1_MAIN), vec![(Codec::Vc1, Main, Yuv420, Bit8)]);
    assert_eq!(map_profile(VA_PROFILE_VP8_VERSION0_3), vec![(Codec::Vp8, Baseline, Yuv420, Bit8)]);
    assert_eq!(map_profile(VA_PROFILE_HEVC_MAIN), vec![(Codec::Hevc, Main, Yuv420, Bit8)]);
    assert_eq!(map_profile(VA_PROFILE_HEVC_MAIN10), vec![(Codec::Hevc, Main10, Yuv420, Bit10)]);
    assert_eq!(map_profile(VA_PROFILE_HEVC_MAIN12), vec![(Codec::Hevc, Main, Yuv420, Bit12)]);
    assert_eq!(map_profile(VA_PROFILE_HEVC_MAIN422_10), vec![(Codec::Hevc, Main10, Yuv422, Bit10)]);
    assert_eq!(map_profile(VA_PROFILE_HEVC_MAIN422_12), vec![(Codec::Hevc, Main, Yuv422, Bit12)]);
    assert_eq!(map_profile(VA_PROFILE_HEVC_MAIN444), vec![(Codec::Hevc, Main, Yuv444, Bit8)]);
    assert_eq!(map_profile(VA_PROFILE_HEVC_MAIN444_10), vec![(Codec::Hevc, Main10, Yuv444, Bit10)]);
    assert_eq!(map_profile(VA_PROFILE_HEVC_MAIN444_12), vec![(Codec::Hevc, Main, Yuv444, Bit12)]);
    assert_eq!(map_profile(VA_PROFILE_VP9_PROFILE0), vec![(Codec::Vp9, Main, Yuv420, Bit8)]);
    assert_eq!(
        map_profile(VA_PROFILE_VP9_PROFILE1),
        vec![
            (Codec::Vp9, Main, Yuv420, Bit8),
            (Codec::Vp9, Main, Yuv422, Bit8),
            (Codec::Vp9, Main, Yuv444, Bit8),
        ]
    );
    assert_eq!(
        map_profile(VA_PROFILE_VP9_PROFILE2),
        vec![(Codec::Vp9, Main, Yuv420, Bit10), (Codec::Vp9, Main, Yuv420, Bit12)]
    );
    assert_eq!(
        map_profile(VA_PROFILE_VP9_PROFILE3),
        vec![
            (Codec::Vp9, Main, Yuv420, Bit10),
            (Codec::Vp9, Main, Yuv420, Bit12),
            (Codec::Vp9, Main, Yuv422, Bit10),
            (Codec::Vp9, Main, Yuv422, Bit12),
            (Codec::Vp9, Main, Yuv444, Bit10),
            (Codec::Vp9, Main, Yuv444, Bit12),
        ]
    );
    assert_eq!(
        map_profile(VA_PROFILE_AV1_PROFILE0),
        vec![(Codec::Av1, Main, Yuv420, Bit8), (Codec::Av1, Main10, Yuv420, Bit10)]
    );
    assert_eq!(
        map_profile(VA_PROFILE_AV1_PROFILE1),
        vec![
            (Codec::Av1, High, Yuv420, Bit8),
            (Codec::Av1, High10, Yuv420, Bit10),
            (Codec::Av1, High, Yuv444, Bit8),
            (Codec::Av1, High10, Yuv444, Bit10),
        ]
    );
}

#[test]
fn profiles_outside_the_table_give_nothing() {
    for profile in [-1, 0, 2, 3, 8, 10, 11, 12, 13, 15, 16, 29, 30, 31, 34, 35, 37, 1000, i32::MIN, i32::MAX] {
        assert!(map_profile(profile).is_empty());
    }
    let said = vec![report(12, vec![VA_ENTRYPOINT_VLD, VA_ENTRYPOINT_ENC_SLICE], (1, 1), (1, 1))];
    assert!(get_capabilities(&said).is_empty());
    assert!(get_capabilities(&vec![]).is_empty());
}

#[test]
fn the_profile_numbers() {
    assert_eq!(
        [
            VA_PROFILE_MPEG2_MAIN,
            VA_PROFILE_MPEG4_MAIN,
            VA_PROFILE_H264_BASELINE,
            VA_PROFILE_H264_MAIN,
            VA_PROFILE_H264_HIGH,
            VA_PROFILE_VC1_MAIN,
            VA_PROFILE_VP8_VERSION0_3,
            VA_PROFILE_HEVC_MAIN,
            VA_PROFILE_HEVC_MAIN10,
            VA_PROFILE_VP9_PROFILE0,
            VA_PROFILE_VP9_PROFILE1,
            VA_PROFILE_VP9_PROFILE2,
            VA_PROFILE_VP9_PROFILE3,
            VA_PROFILE_HEVC_MAIN12,
            VA_PROFILE_HEVC_MAIN422_10,
            VA_PROFILE_HEVC_MAIN422_12,
            VA_PROFILE_HEVC_MAIN444,
            VA_PROFILE_HEVC_MAIN444_10,
            VA_PROFILE_HEVC_MAIN444_12,
            VA_PROFILE_AV1_PROFILE0,
            VA_PROFILE_AV1_PROFILE1,
            VA_PROFILE_H264_HIGH10,
        ],
        [1, 4, 5, 6, 7, 9, 14, 17, 18, 19, 20, 21, 22, 23, 24, 25, 26, 27, 28, 32, 33, 36]
    );
    assert_eq!((VA_ENTRYPOINT_VLD, VA_ENTRYPOINT_ENC_SLICE), (1, 6));
    assert_eq!((VA_CONFIG_ATTRIB_MAX_PICTURE_WIDTH, VA_CONFIG_ATTRIB_MAX_PICTURE_HEIGHT), (18, 19));
    assert_eq!(VA_ATTRIB_NOT_SUPPORTED, 0x8000_0000);
    assert_eq!(CONFIG_ATTRIB_COUNT, 57);
}

#[test]
fn entries_follow_the_order_of_the_profiles() {
    let said = vec![
        report(VA_PROFILE_AV1_PROFILE1, vec![VA_ENTRYPOINT_VLD], (100, 100), (0, 0)),
        report(VA_PROFILE_VP9_PROFILE2, vec![VA_ENTRYPOINT_VLD], (200, 200), (0, 0)),
        report(VA_PROFILE_AV1_PROFILE0, vec![VA_ENTRYPOINT_VLD], (300, 300), (0, 0)),
        report(VA_PROFILE_VP9_PROFILE0, vec![VA_ENTRYPOINT_VLD], (400, 400), (0, 0)),
    ];
    assert_eq!(
        get_capabilities(&said),
        vec![
            CodecDetails::new(
                Codec::Vp9,
                vec![
                    d(Chroma::Yuv420, ColorDepth::Bit10, 200, 200),
                    d(Chroma::Yuv420, ColorDepth::Bit12, 200, 200),
                    d(Chroma::Yuv420, ColorDepth::Bit8, 400, 400),
                ],
                vec![],
            ),
            CodecDetails::new(
                Codec::Av1,
                vec![
                    d(Chroma::Yuv420, ColorDepth::Bit8, 100, 100),
                    d(Chroma::Yuv420, ColorDepth::Bit10, 100, 100),
                    d(Chroma::Yuv444, ColorDepth::Bit8, 100, 100),
                    d(Chroma::Yuv444, ColorDepth::Bit10, 100, 100),
                    d(Chroma::Yuv420, ColorDepth::Bit8, 300, 300),
                    d(Chroma::Yuv420, ColorDepth::Bit10, 300, 300),
                ],
                vec![],
            ),
        ]
    );
}

#[test]
fn attributes_are_found_by_kind() {
    let attributes = vec![
        ConfigAttrib { kind: 18, value: 4096 },
        ConfigAttrib { kind: 19, value: 2160 },
        ConfigAttrib { kind: 18, value: 1 },
    ];
    assert_eq!(find_attribute(&attributes, 18), 4096);
    assert_eq!(find_attribute(&attributes, 19), 2160);
    assert_eq!(find_attribute(&attributes, 20), 0);
    assert_eq!(find_attribute(&vec![], 18), 0);
    let missing = ProfileReport {
        profile: VA_PROFILE_VC1_MAIN,
        entrypoints: vec![VA_ENTRYPOINT_VLD],
        decode_attributes: vec![ConfigAttrib { kind: 19, value: 1088 }],
        encode_attributes: vec![],
    };
    assert_eq!(
        get_capabilities(&vec![missing]),
        vec![CodecDetails::new(Codec::Vc1, vec![d(Chroma::Yuv420, ColorDepth::Bit8, 0, 1088)], vec![])]
    );
    assert!(has_entrypoint(&vec![1, 6, 8], 6));
    assert!(!has_entrypoint(&vec![1, 8], 6));
    assert!(!has_entrypoint(&vec![], 1));
}

#[test]
fn test_create_drm_display() {
    let registry = installed();
    assert!(is_va_loaded(&registry));

    let devices = enumerate_devices(&Some(names(&["pci-0000:00:02.0-card", "pci-0000:00:02.0-render"])), &None);
    assert!(!devices.is_empty());

    let drm_display = DrmDisplay::new(devices[0].clone(), opened(Some("Mesa Gallium driver"))).unwrap();
    println!("Found device: {}", &drm_display.vendor);
    assert_eq!(
        drm_display,
        DrmDisplay {
            path: "/dev/dri/by-path/pci-0000:00:02.0-render".to_string(),
            vendor: "Mesa Gallium driver".to_string(),
            version_major: 1,
            version_minor: 20,
        }
    );
    assert_eq!(DrmDisplay::new("p".to_string(), opened(None)).unwrap().vendor, "");
}

#[test]
fn a_display_that_does_not_open() {
    let mut none = opened(Some("x"));
    none.display_found = false;
    none.init_status = 2;
    assert_eq!(
        DrmDisplay::new("/dev/dri/renderD128".to_string(), none),
        Err(VaError::FailedToGetDisplay("/dev/dri/renderD128".to_string()))
    );
    let mut failed = opened(Some("x"));
    failed.init_status = 2;
    assert_eq!(DrmDisplay::new("p".to_string(), failed.clone()), Err(VaError::OperationFailed(2)));
    failed.init_text = Some("resource allocation failed".to_string());
    assert_eq!(
        DrmDisplay::new("p".to_string(), failed),
        Err(VaError::OperationFailedT("resource allocation failed".to_string(), 2))
    );
}

#[test]
fn test_query_everything() {
    let registry = installed();
    assert!(is_va_loaded(&registry));

    let devices = enumerate_devices(&None, &Some(names(&["renderD128"])));
    assert!(!devices.is_empty());
    let drm_display = DrmDisplay::new(devices[0].clone(), opened(Some("vendor"))).unwrap();
    assert_eq!(drm_display.path, "/dev/dri/renderD128");

    assert_eq!(profile_capacity(24), Ok(24));
    let profiles = vec![VA_PROFILE_H264_MAIN, VA_PROFILE_HEVC_MAIN];
    assert!(!profiles.is_empty());

    assert_eq!(entrypoint_capacity(10), Ok(10));
    let entrypoints = vec![VA_ENTRYPOINT_VLD];
    assert!(!entrypoints.is_empty());
    assert!(has_entrypoint(&entrypoints, VA_ENTRYPOINT_VLD));

    let mut filled = attribute_request();
    assert_eq!(filled.len(), 57);
    filled[0].value = 3;
    filled[18].value = 4096;
    filled[19].value = 4096;
    let config_attribs = get_config_attributes(&filled);
    assert!(!config_attribs.is_empty());
    assert_eq!(
        config_attribs,
        vec![
            ConfigAttrib { kind: 0, value: 3 },
            ConfigAttrib { kind: 18, value: 4096 },
            ConfigAttrib { kind: 19, value: 4096 },
        ]
    );
}

#[test]
fn the_attribute_request_is_blank() {
    let request = attribute_request();
    assert_eq!(request.len(), 57);
    for (i, attribute) in request.iter().enumerate() {
        assert_eq!(*attribute, ConfigAttrib { kind: i as u32, value: 0x8000_0000 });
    }
    assert!(get_config_attributes(&request).is_empty());
    assert!(get_config_attributes(&vec![]).is_empty());
}

#[test]
fn a_negative_capacity_is_a_failure() {
    assert_eq!(profile_capacity(0), Ok(0));
    assert_eq!(
        profile_capacity(-1),
        Err(VaError::OperationFailedT("vaMaxNumProfiles returned a negative value".to_string(), -1))
    );
    assert_eq!(
        entrypoint_capacity(i32::MIN),
        Err(VaError::OperationFailedT("vaMaxNumEntrypoints returned a negative value".to_string(), -1))
    );
    assert_eq!(entrypoint_capacity(i32::MAX), Ok(i32::MAX as usize));
}

#[test]
fn test_from_status() {
    let registry = installed();
    assert!(is_va_loaded(&registry));
    let error = VaError::from_status(1, Some("operation failed".to_string()));
    assert_eq!(error, VaError::OperationFailedT("operation failed".to_string(), 1));
    assert_eq!(VaError::from_status(1, None), VaError::OperationFailed(1));
    assert!(is_failure(1));
    assert!(is_failure(-1));
    assert!(!is_failure(0));
}

#[test]
fn render_nodes_by_stable_name_are_preferred() {
    let by_path = Some(names(&[
        "pci-0000:01:00.0-card",
        "pci-0000:01:00.0-render",
        "render-pci",
        "pci-0000:02:00.0-render",
    ]));
    let flat = Some(names(&["card0", "renderD128", "renderD129"]));
    assert_eq!(
        enumerate_devices(&by_path, &flat),
        names(&["/dev/dri/by-path/pci-0000:01:00.0-render", "/dev/dri/by-path/pci-0000:02:00.0-render"])
    );
    assert_eq!(DEV_PATH, "/dev/dri");
    assert_eq!(DEV_BY_PATH_PATH, "/dev/dri/by-path");
}

#[test]
fn render_nodes_fall_back_to_the_device_directory() {
    let flat = Some(names(&["card0", "renderD128", "by-path", "xrenderD1", "renderD129", "render"]));
    let expected = names(&["/dev/dri/renderD128", "/dev/dri/renderD129", "/dev/dri/render"]);
    assert_eq!(enumerate_devices(&None, &flat), expected);
    assert_eq!(enumerate_devices(&Some(vec![]), &flat), expected);
    assert_eq!(enumerate_devices(&Some(names(&["pci-card", "renderer"])), &flat), expected);
    assert_eq!(select_flat(&names(&["card0"])), Vec::<String>::new());
    assert_eq!(select_by_path(&names(&["a-render"])), names(&["/dev/dri/by-path/a-render"]));
}

#[test]
fn device_test_enumerate_devices_of_no_directory() {
    assert_eq!(enumerate_devices(&None, &None), Vec::<String>::new());
    assert_eq!(enumerate_devices(&Some(vec![]), &None), Vec::<String>::new());
    assert_eq!(enumerate_devices(&Some(names(&["card"])), &Some(names(&["card0"]))), Vec::<String>::new());
}

#[test]
fn the_word_render() {
    assert!(ends_with_render("render"));
    assert!(ends_with_render("pci-0000:00:02.0-render"));
    assert!(!ends_with_render("renderD128"));
    assert!(!ends_with_render("rende"));
    assert!(!ends_with_render(""));
    assert!(!ends_with_render("Render"));
    assert!(ends_with_render("\u{00e4}render"));
    assert!(starts_with_render("render"));
    assert!(starts_with_render("renderD128"));
    assert!(!starts_with_render("pci-render"));
    assert!(!starts_with_render("rende"));
    assert!(!starts_with_render(""));
    assert!(!starts_with_render("RENDERD128"));
}

#[test]
fn the_versioned_library_name_comes_first() {
    let mut both = registry();
    assert_eq!(settle(&mut both, &["libva.so.2", "libva-drm.so.2"]), vec!["libva.so.2", "libva-drm.so.2"]);
    assert!(is_va_loaded(&both));
    assert_eq!(ensure_available(&both), Ok(Ok(Libs { libva: 0, libva_drm: 1 })));

    let mut plain = registry();
    assert_eq!(
        settle(&mut plain, &["libva.so", "libva-drm.so"]),
        vec!["libva.so.2", "libva.so", "libva-drm.so.2", "libva-drm.so"]
    );
    assert!(is_va_loaded(&plain));
    assert_eq!(ensure_available(&plain), Ok(Ok(Libs { libva: 0, libva_drm: 1 })));

    let mut half = registry();
    assert_eq!(settle(&mut half, &["libva.so.2"]), vec!["libva.so.2", "libva-drm.so.2", "libva-drm.so"]);
    assert!(!is_va_loaded(&half));
    assert_eq!(ensure_available(&half), Err(VaError::NotLoaded("libva-drm.so.2")));

    let mut none = registry();
    assert_eq!(settle(&mut none, &[]), vec!["libva.so.2", "libva.so"]);
    assert!(!is_va_loaded(&none));
    assert_eq!(ensure_available(&none), Err(VaError::NotLoaded("libva.so.2")));
    assert_eq!(
        ensure_available(&registry()),
        Ok(Err(Step::Load { library: 0, name: "libva.so.2" }))
    );
}
