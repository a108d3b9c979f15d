//! One scan: the devices of each backend, and the report that joins them.
use vstd::prelude::*;
use vstd::utf8::encode_utf8;
use crate::aggregate::{
    assembled, combine_codecs, in_report_order, lemma_codec_listed_iff_supported,
    lemma_filed_assembled, lists_codec, no_entries,
};
use crate::error::{
    map_nvidia_error_code, map_vaapi_error_code, nvidia_error_code, vaapi_error_code, ErrorCode,
};
use crate::model::{
    device_views, Codec, DecodingSpec, Device, DeviceView, Driver, EncDecDevices, EncodingSpec,
    CODEC_COUNT,
};
use crate::nvidia::caps::decode::{
    answered_decoding, answered_decoding_lists, first_failure, get_decode_capabilities,
    DecoderCaps,
};
use crate::nvidia::caps::encode::{
    encoded_list, encoded_lists, first_refused, get_encode_capabilities,
    lemma_same_caps_same_lists, same_caps_list, EncoderCaps,
};
use crate::nvidia::device::CudaDevice;
use crate::nvidia::error::NvidiaError;
use crate::vaapi::caps::{
    decoding_list, decoding_lists, encoding_list, encoding_lists, get_capabilities,
    lemma_same_reports_same_lists, same_reports, ProfileReport,
};
use crate::vaapi::error::VaError;

verus! {

/// Everything the NVIDIA driver said about one GPU: the device itself, the
/// decoder's answers in the order of the questions, and what the encoder
/// said about each codec it listed.
#[derive(Clone, Debug, PartialEq, Eq)]
pub struct DeviceProbe {
    pub device: CudaDevice,
    pub decoder_answers: Vec<DecoderCaps>,
    pub encoder_caps: Vec<EncoderCaps>,
}

/// Everything the VA-API driver said about one device node: the node's
/// path, the driver's vendor string, and its profiles in the order in
/// which it listed them.
#[derive(Clone, Debug, PartialEq, Eq)]
pub struct DisplayProbe {
    pub path: String,
    pub vendor: String,
    pub profiles: Vec<ProfileReport>,
}

/// The failure that the probe of one GPU ends with, if it does: a failed
/// decoder call comes before a refused encoder value.
pub open spec fn probe_failure(probe: DeviceProbe) -> Option<NvidiaError> {
    match first_failure(probe.decoder_answers@) {
        Some(status) => Some(NvidiaError::OperationFailed(status)),
        None => match first_refused(probe.encoder_caps@) {
            Some(value) => Some(NvidiaError::FailedToConvertResult(value)),
            None => None,
        },
    }
}

/// The failure of the first GPU whose probe fails, if one does.
pub open spec fn first_probe_failure(probes: Seq<DeviceProbe>) -> Option<NvidiaError>
    decreases probes.len(),
{
    if probes.len() == 0 {
        None
    } else if probe_failure(probes[0]) is Some {
        probe_failure(probes[0])
    } else {
        first_probe_failure(probes.skip(1))
    }
}

/// The report's entry for one GPU: found through the NVIDIA backend, under
/// the low eight bits of its handle and under its name, with the formats
/// that its decoder and its encoder support.
pub open spec fn nvidia_device(probe: DeviceProbe) -> DeviceView {
    DeviceView {
        driver: Driver::Nvidia,
        ordinal: probe.device.handle as u8,
        path: None,
        name: Some(probe.device.name@),
        codecs: assembled(
            answered_decoding_lists(probe.decoder_answers@),
            encoded_lists(probe.encoder_caps@),
            CODEC_COUNT as int,
        ),
    }
}

/// The report's entries for the given GPUs, in their order.
pub open spec fn nvidia_devices(probes: Seq<DeviceProbe>) -> Seq<DeviceView> {
    Seq::new(probes.len(), |i: int| nvidia_device(probes[i]))
}

/// The devices of the NVIDIA backend, from what the driver said about each
/// GPU, in the driver's order. The first GPU whose probe fails ends the
/// scan of this backend with that failure.
pub fn get_nvidia_devices(probes: Vec<DeviceProbe>) -> (r: Result<Vec<Device>, NvidiaError>)
    ensures
        match first_probe_failure(probes@) {
            Some(e) => r == Err::<Vec<Device>, NvidiaError>(e),
            None => r is Ok && device_views(r.unwrap()@) == nvidia_devices(probes@),
        },
{
    let mut result: Vec<Device> = Vec::new();
    let ghost full = probes@;
    assert(full.skip(0) =~= full);
    for probe in it: probes
        invariant
            it.seq() == full,
            result@.len() == it.index(),
            first_probe_failure(full) == first_probe_failure(full.skip(it.index() as int)),
            forall|k: int|
                0 <= k < it.index() ==> (#[trigger] result@[k])@ == nvidia_device(full[k]),
    {
        let ghost i = it.index() as int;
        assert(full.skip(i).skip(1) =~= full.skip(i + 1));
        assert(full.skip(i)[0] == probe);
        let DeviceProbe { device, decoder_answers, encoder_caps } = probe;
        let decode = match get_decode_capabilities(&decoder_answers) {
            Ok(records) => records,
            Err(e) => {
                return Err(e);
            },
        };
        let encode = match get_encode_capabilities(&encoder_caps) {
            Ok(records) => records,
            Err(e) => {
                return Err(e);
            },
        };
        proof {
            lemma_filed_assembled(
                answered_decoding_lists(decoder_answers@),
                no_entries::<EncodingSpec>(),
            );
            lemma_filed_assembled(no_entries::<DecodingSpec>(), encoded_lists(encoder_caps@));
        }
        let codecs = combine_codecs(decode, encode);
        let CudaDevice { handle, name, uuid: _ } = device;
        let ordinal = #[verifier::truncate]
        (handle as u8);
        result.push(Device::new_with_ordinal(Driver::Nvidia, ordinal, name, codecs));
    }
    assert(device_views(result@) =~= nvidia_devices(full));
    Ok(result)
}

/// The letter that an ASCII capital stands for in lower case; any other
/// byte is itself.
pub open spec fn ascii_lower(byte: u8) -> u8 {
    if 0x41 <= byte <= 0x5a {
        (byte + 0x20) as u8
    } else {
        byte
    }
}

/// Whether `word` stands in `text` at the given place, capitals in `text`
/// counting as their lower-case letters.
pub open spec fn stands_at(text: Seq<u8>, at: int, word: Seq<u8>) -> bool {
    &&& 0 <= at
    &&& at + word.len() <= text.len()
    &&& forall|k: int| 0 <= k < word.len() ==> ascii_lower(#[trigger] text[at + k]) == word[k]
}

/// Whether `word` stands somewhere in `text`, capitals in `text` counting
/// as their lower-case letters.
pub open spec fn mentions(text: Seq<u8>, word: Seq<u8>) -> bool {
    exists|at: int| stands_at(text, at, word)
}

/// The word that marks a VA-API driver that fronts the NVIDIA decoder.
pub open spec fn nvdec_word() -> Seq<u8> {
    seq![0x6eu8, 0x76u8, 0x64u8, 0x65u8, 0x63u8]
}

/// Whether a vendor string names a driver that fronts the NVIDIA decoder:
/// it holds the word "nvdec", in any mix of upper and lower case.
pub open spec fn names_nvdec(vendor: Seq<char>) -> bool {
    mentions(encode_utf8(vendor), nvdec_word())
}

/// Whether a VA-API device is a GPU that the NVIDIA backend has already
/// listed. It is one if the NVIDIA enumeration ran to its end, whatever it
/// found, and the device's vendor string names the NVIDIA decoder.
pub open spec fn is_duplicate(nvidia_done: bool, vendor: Seq<char>) -> bool {
    nvidia_done && names_nvdec(vendor)
}

/// Tells whether a vendor string holds the word "nvdec", in any mix of
/// upper and lower case.
pub fn is_nvdec_vendor(vendor: &str) -> (r: bool)
    ensures
        r == names_nvdec(vendor@),
{
    let text = vendor.as_bytes();
    let word: [u8; 5] = [0x6e, 0x76, 0x64, 0x65, 0x63];
    assert(word@ =~= nvdec_word());
    assert(text@ == encode_utf8(vendor@));
    if text.len() < 5 {
        assert forall|at: int| !stands_at(text@, at, nvdec_word()) by {}
        return false;
    }
    let last = text.len() - 5;
    let mut at: usize = 0;
    while at <= last
        invariant
            at <= last + 1,
            last + 5 == text@.len(),
            text@.len() <= usize::MAX,
            text@ == encode_utf8(vendor@),
            word@ == nvdec_word(),
            forall|a: int| 0 <= a < at ==> !stands_at(text@, a, nvdec_word()),
        decreases last + 1 - at,
    {
        let mut k: usize = 0;
        let mut same = true;
        while k < 5 && same
            invariant
                k <= 5,
                at + 5 <= text@.len(),
                text@.len() <= usize::MAX,
                word@ == nvdec_word(),
                same ==> forall|j: int|
                    0 <= j < k ==> ascii_lower(#[trigger] text@[at + j]) == nvdec_word()[j],
                !same ==> !stands_at(text@, at as int, nvdec_word()),
            decreases 5 - k, same as int,
        {
            let byte = text[at + k];
            let lower = if 0x41 <= byte && byte <= 0x5a {
                byte + 0x20
            } else {
                byte
            };
            if lower != word[k] {
                same = false;
                assert(ascii_lower(text@[at + k]) != nvdec_word()[k as int]);
            } else {
                k = k + 1;
            }
        }
        if same {
            assert(stands_at(text@, at as int, nvdec_word()));
            return true;
        }
        at = at + 1;
    }
    assert forall|a: int| !stands_at(text@, a, nvdec_word()) by {}
    false
}

/// Tells whether a VA-API device is a GPU that the NVIDIA backend has
/// already listed, so that it need not be probed.
pub fn is_duplicate_device(nvidia_done: bool, vendor: &str) -> (r: bool)
    ensures
        r == is_duplicate(nvidia_done, vendor@),
{
    nvidia_done && is_nvdec_vendor(vendor)
}

/// The report's entry for one VA-API device: found through the VA-API
/// backend, under the path of its device node and under its vendor string,
/// with the formats that its profiles give.
pub open spec fn vaapi_device(probe: DisplayProbe) -> DeviceView {
    DeviceView {
        driver: Driver::Vaapi,
        ordinal: 0,
        path: Some(probe.path@),
        name: Some(probe.vendor@),
        codecs: assembled(
            decoding_lists(probe.profiles@),
            encoding_lists(probe.profiles@),
            CODEC_COUNT as int,
        ),
    }
}

/// The report's entries for the given VA-API devices, in their order,
/// without those that the NVIDIA backend has already listed.
pub open spec fn vaapi_devices(nvidia_done: bool, probes: Seq<DisplayProbe>) -> Seq<DeviceView>
    decreases probes.len(),
{
    if probes.len() == 0 {
        Seq::empty()
    } else {
        let before = vaapi_devices(nvidia_done, probes.drop_last());
        if is_duplicate(nvidia_done, probes.last().vendor@) {
            before
        } else {
            before.push(vaapi_device(probes.last()))
        }
    }
}

/// The devices of the VA-API backend, from what the driver said about each
/// device node, in the given order. `nvidia_done` says whether the NVIDIA
/// enumeration ran to its end; if it did, a device whose vendor string
/// names the NVIDIA decoder is left out, as the same GPU is already listed.
pub fn get_vaapi_devices(nvidia_done: bool, probes: Vec<DisplayProbe>) -> (r: Vec<Device>)
    ensures
        device_views(r@) == vaapi_devices(nvidia_done, probes@),
{
    let mut result: Vec<Device> = Vec::new();
    let ghost full = probes@;
    assert(device_views(result@) =~= vaapi_devices(nvidia_done, full.take(0)));
    for probe in it: probes
        invariant
            it.seq() == full,
            device_views(result@) == vaapi_devices(nvidia_done, full.take(it.index() as int)),
    {
        let ghost i = it.index() as int;
        let ghost before = device_views(result@);
        proof {
            let next = full.take(i + 1);
            assert(next.drop_last() =~= full.take(i));
            assert(next.last() == probe);
        }
        let DisplayProbe { path, vendor, profiles } = probe;
        if !is_duplicate_device(nvidia_done, vendor.as_str()) {
            let codecs = get_capabilities(&profiles);
            let device = Device::new_with_path(Driver::Vaapi, path, Some(vendor), codecs);
            assert(device@ == vaapi_device(probe));
            result.push(device);
            assert(device_views(result@) =~= before.push(vaapi_device(probe)));
        }
    }
    assert(full.take(full.len() as int) =~= full);
    result
}

/// Whether `device` is the report's entry for one of the given VA-API
/// devices.
pub open spec fn was_probed(probes: Seq<DisplayProbe>, device: DeviceView) -> bool {
    exists|i: int| 0 <= i < probes.len() && #[trigger] vaapi_device(probes[i]) == device
}

/// With the NVIDIA enumeration not run, every VA-API device is listed,
/// whatever its vendor string says. With it run to its end, no listed
/// device names the NVIDIA decoder. Either way every device that is not a
/// duplicate is listed, and nothing is listed that was not probed.
pub proof fn lemma_duplicates_dropped(nvidia_done: bool, probes: Seq<DisplayProbe>)
    ensures
        !nvidia_done ==> vaapi_devices(nvidia_done, probes) == Seq::new(
            probes.len(),
            |i: int| vaapi_device(probes[i]),
        ),
        nvidia_done ==> forall|j: int|
            0 <= j < vaapi_devices(nvidia_done, probes).len() ==> !names_nvdec(
                (#[trigger] vaapi_devices(nvidia_done, probes)[j]).name.unwrap(),
            ),
        forall|i: int|
            0 <= i < probes.len() && !is_duplicate(nvidia_done, (#[trigger] probes[i]).vendor@)
                ==> vaapi_devices(nvidia_done, probes).contains(vaapi_device(probes[i])),
        forall|j: int|
            0 <= j < vaapi_devices(nvidia_done, probes).len() ==> was_probed(
                probes,
                #[trigger] vaapi_devices(nvidia_done, probes)[j],
            ),
        vaapi_devices(nvidia_done, probes).len() <= probes.len(),
    decreases probes.len(),
{
    let all = vaapi_devices(nvidia_done, probes);
    if probes.len() > 0 {
        let shorter = probes.drop_last();
        let before = vaapi_devices(nvidia_done, shorter);
        lemma_duplicates_dropped(nvidia_done, shorter);
        if !nvidia_done {
            assert(all =~= Seq::new(probes.len(), |i: int| vaapi_device(probes[i])));
        }
        assert forall|i: int|
            0 <= i < probes.len() && !is_duplicate(
                nvidia_done,
                (#[trigger] probes[i]).vendor@,
            ) implies all.contains(vaapi_device(probes[i])) by {
            if i < shorter.len() {
                assert(shorter[i] == probes[i]);
                let d = vaapi_device(probes[i]);
                assert(before.contains(d));
                let j = choose|j: int| 0 <= j < before.len() && before[j] == d;
                assert(all[j] == d);
            } else {
                assert(all[all.len() - 1] == vaapi_device(probes[i]));
            }
        }
        assert forall|j: int| 0 <= j < all.len() implies was_probed(probes, #[trigger] all[j]) by {
            if j < before.len() {
                assert(was_probed(shorter, before[j]));
                let i = choose|i: int|
                    0 <= i < shorter.len() && #[trigger] vaapi_device(shorter[i]) == before[j];
                assert(vaapi_device(probes[i]) == all[j]);
            } else {
                assert(vaapi_device(probes[probes.len() - 1]) == all[j]);
            }
        }
    } else {
        assert(all =~= Seq::new(probes.len(), |i: int| vaapi_device(probes[i])));
    }
}

/// What the scan makes of the NVIDIA backend's outcome: its devices and
/// whether its enumeration ran to its end, or the code with which the scan
/// ends. A driver that is not installed gives no device and no failure.
pub open spec fn nvidia_stage(outcome: Result<Seq<DeviceView>, NvidiaError>) -> Result<
    (Seq<DeviceView>, bool),
    ErrorCode,
> {
    match outcome {
        Ok(devices) => Ok((devices, true)),
        Err(NvidiaError::NotLoaded(_)) => Ok((Seq::empty(), false)),
        Err(e) => Err(nvidia_error_code(e)),
    }
}

/// What the scan makes of the VA-API backend's outcome: its devices, or
/// the code with which the scan ends. A driver that is not installed gives
/// no device and no failure.
pub open spec fn vaapi_stage(outcome: Result<Seq<DeviceView>, VaError>) -> Result<
    Seq<DeviceView>,
    ErrorCode,
> {
    match outcome {
        Ok(devices) => Ok(devices),
        Err(VaError::NotLoaded(_)) => Ok(Seq::empty()),
        Err(e) => Err(vaapi_error_code(e)),
    }
}

/// The views of a backend's outcome.
pub open spec fn outcome_views<E>(outcome: Result<Vec<Device>, E>) -> Result<Seq<DeviceView>, E> {
    match outcome {
        Ok(devices) => Ok(device_views(devices@)),
        Err(e) => Err(e),
    }
}

/// Takes the outcome of the NVIDIA backend into the scan: on success its
/// devices, with the note that the enumeration ran to its end; where the
/// driver is not installed no device, with the note that it did not; on
/// any other failure the code with which the scan ends.
pub fn after_nvidia(outcome: Result<Vec<Device>, NvidiaError>) -> (r: Result<
    (Vec<Device>, bool),
    ErrorCode,
>)
    ensures
        match nvidia_stage(outcome_views(outcome)) {
            Ok((devices, done)) => r is Ok && device_views(r.unwrap().0@) == devices && r.unwrap().1
                == done,
            Err(code) => r == Err::<(Vec<Device>, bool), ErrorCode>(code),
        },
        r is Err ==> r.unwrap_err() != ErrorCode::Success,
{
    match outcome {
        Ok(devices) => Ok((devices, true)),
        Err(e) => match e {
            NvidiaError::NotLoaded(_) => {
                let none: Vec<Device> = Vec::new();
                assert(device_views(none@) =~= Seq::empty());
                Ok((none, false))
            },
            _ => Err(map_nvidia_error_code(&e)),
        },
    }
}

/// Takes the outcome of the VA-API backend into the scan: on success its
/// devices; where the driver is not installed no device; on any other
/// failure the code with which the scan ends.
pub fn after_vaapi(outcome: Result<Vec<Device>, VaError>) -> (r: Result<Vec<Device>, ErrorCode>)
    ensures
        match vaapi_stage(outcome_views(outcome)) {
            Ok(devices) => r is Ok && device_views(r.unwrap()@) == devices,
            Err(code) => r == Err::<Vec<Device>, ErrorCode>(code),
        },
        r is Err ==> r.unwrap_err() != ErrorCode::Success,
{
    match outcome {
        Ok(devices) => Ok(devices),
        Err(e) => match e {
            VaError::NotLoaded(_) => {
                let none: Vec<Device> = Vec::new();
                assert(device_views(none@) =~= Seq::empty());
                Ok(none)
            },
            _ => Err(map_vaapi_error_code(&e)),
        },
    }
}

/// The report of a scan: the NVIDIA devices first, then the VA-API
/// devices, each backend's devices in its own order.
pub fn merge_devices(nvidia: Vec<Device>, vaapi: Vec<Device>) -> (r: EncDecDevices)
    ensures
        r@ == device_views(nvidia@) + device_views(vaapi@),
{
    let mut all = nvidia;
    let mut rest = vaapi;
    all.append(&mut rest);
    assert(device_views(all@) =~= device_views(nvidia@) + device_views(vaapi@));
    EncDecDevices::new(all)
}

/// What the NVIDIA backend's probes come to: the devices, or the failure
/// that ended the backend's scan, be it one that the caller met or one
/// that the probes hold.
pub open spec fn nvidia_outcome(probes: Result<Vec<DeviceProbe>, NvidiaError>) -> Result<
    Seq<DeviceView>,
    NvidiaError,
> {
    match probes {
        Ok(list) => match first_probe_failure(list@) {
            Some(e) => Err(e),
            None => Ok(nvidia_devices(list@)),
        },
        Err(e) => Err(e),
    }
}

/// What the VA-API backend's probes come to, given whether the NVIDIA
/// enumeration ran to its end.
pub open spec fn vaapi_outcome(
    nvidia_done: bool,
    probes: Result<Vec<DisplayProbe>, VaError>,
) -> Result<Seq<DeviceView>, VaError> {
    match probes {
        Ok(list) => Ok(vaapi_devices(nvidia_done, list@)),
        Err(e) => Err(e),
    }
}

/// The report that a scan comes to, or the code with which it ends. A
/// failure of the NVIDIA backend ends the scan before the VA-API backend
/// is looked at; a backend whose driver is not installed adds nothing and
/// is no failure.
pub open spec fn scan_result(
    nvidia: Result<Vec<DeviceProbe>, NvidiaError>,
    vaapi: Result<Vec<DisplayProbe>, VaError>,
) -> Result<Seq<DeviceView>, ErrorCode> {
    match nvidia_stage(nvidia_outcome(nvidia)) {
        Err(code) => Err(code),
        Ok((first, done)) => match vaapi_stage(vaapi_outcome(done, vaapi)) {
            Err(code) => Err(code),
            Ok(second) => Ok(first + second),
        },
    }
}

/// One scan, from everything the two backends said. Each argument is what
/// the caller gathered from a backend, or the failure that kept it from
/// gathering. The report lists the NVIDIA devices first, then the VA-API
/// devices without those that the NVIDIA backend has already listed.
pub fn scan_devices(
    nvidia: Result<Vec<DeviceProbe>, NvidiaError>,
    vaapi: Result<Vec<DisplayProbe>, VaError>,
) -> (r: Result<EncDecDevices, ErrorCode>)
    ensures
        match scan_result(nvidia, vaapi) {
            Ok(devices) => r is Ok && r.unwrap()@ == devices,
            Err(code) => r == Err::<EncDecDevices, ErrorCode>(code),
        },
        r is Err ==> r.unwrap_err() != ErrorCode::Success,
{
    let nvidia_devices = match nvidia {
        Ok(probes) => get_nvidia_devices(probes),
        Err(e) => Err(e),
    };
    let (first, done) = match after_nvidia(nvidia_devices) {
        Ok(pair) => pair,
        Err(code) => {
            return Err(code);
        },
    };
    let vaapi_devices = match vaapi {
        Ok(probes) => Ok(get_vaapi_devices(done, probes)),
        Err(e) => Err(e),
    };
    let second = match after_vaapi(vaapi_devices) {
        Ok(devices) => devices,
        Err(code) => {
            return Err(code);
        },
    };
    Ok(merge_devices(first, second))
}

/// Whether the NVIDIA driver said the same about a GPU twice.
pub open spec fn same_probe(a: DeviceProbe, b: DeviceProbe) -> bool {
    &&& a.device.handle == b.device.handle
    &&& a.device.name@ == b.device.name@
    &&& a.decoder_answers@ == b.decoder_answers@
    &&& same_caps_list(a.encoder_caps@, b.encoder_caps@)
}

/// Whether the VA-API driver said the same about a device node twice.
pub open spec fn same_display(a: DisplayProbe, b: DisplayProbe) -> bool {
    &&& a.path@ == b.path@
    &&& a.vendor@ == b.vendor@
    &&& same_reports(a.profiles@, b.profiles@)
}

/// Whether the NVIDIA driver said the same twice, GPU by GPU.
pub open spec fn same_probes(a: Seq<DeviceProbe>, b: Seq<DeviceProbe>) -> bool {
    &&& a.len() == b.len()
    &&& forall|i: int| 0 <= i < a.len() ==> same_probe(#[trigger] a[i], b[i])
}

/// Whether the VA-API driver said the same twice, device node by device
/// node.
pub open spec fn same_displays(a: Seq<DisplayProbe>, b: Seq<DisplayProbe>) -> bool {
    &&& a.len() == b.len()
    &&& forall|i: int| 0 <= i < a.len() ==> same_display(#[trigger] a[i], b[i])
}

proof fn lemma_same_probe_same_device(a: DeviceProbe, b: DeviceProbe)
    requires
        same_probe(a, b),
    ensures
        nvidia_device(a) == nvidia_device(b),
        probe_failure(a) == probe_failure(b),
{
    lemma_same_caps_same_lists(a.encoder_caps@, b.encoder_caps@);
}

proof fn lemma_same_probes_same_failure(a: Seq<DeviceProbe>, b: Seq<DeviceProbe>)
    requires
        same_probes(a, b),
    ensures
        first_probe_failure(a) == first_probe_failure(b),
    decreases a.len(),
{
    if a.len() > 0 {
        lemma_same_probe_same_device(a[0], b[0]);
        assert forall|i: int| 0 <= i < a.skip(1).len() implies same_probe(
            #[trigger] a.skip(1)[i],
            b.skip(1)[i],
        ) by {
            assert(same_probe(a[i + 1], b[i + 1]));
        }
        lemma_same_probes_same_failure(a.skip(1), b.skip(1));
    }
}

proof fn lemma_same_displays_same_devices(
    nvidia_done: bool,
    a: Seq<DisplayProbe>,
    b: Seq<DisplayProbe>,
)
    requires
        same_displays(a, b),
    ensures
        vaapi_devices(nvidia_done, a) == vaapi_devices(nvidia_done, b),
    decreases a.len(),
{
    if a.len() > 0 {
        assert(same_display(a[a.len() - 1], b[b.len() - 1]));
        lemma_same_reports_same_lists(a.last().profiles@, b.last().profiles@);
        assert forall|i: int| 0 <= i < a.drop_last().len() implies same_display(
            #[trigger] a.drop_last()[i],
            b.drop_last()[i],
        ) by {
            assert(same_display(a[i], b[i]));
        }
        lemma_same_displays_same_devices(nvidia_done, a.drop_last(), b.drop_last());
    }
}

/// A scan is a function of what the drivers said. Two scans in which the
/// drivers say the same, GPU by GPU and device node by device node, come
/// to the same failure or to the same devices in the same order, each with
/// the same codecs in the same order and the same formats in the same
/// order.
pub proof fn lemma_same_words_same_report(
    nvidia_a: Seq<DeviceProbe>,
    nvidia_b: Seq<DeviceProbe>,
    vaapi_a: Seq<DisplayProbe>,
    vaapi_b: Seq<DisplayProbe>,
    nvidia_done: bool,
)
    requires
        same_probes(nvidia_a, nvidia_b),
        same_displays(vaapi_a, vaapi_b),
    ensures
        first_probe_failure(nvidia_a) == first_probe_failure(nvidia_b),
        nvidia_devices(nvidia_a) == nvidia_devices(nvidia_b),
        vaapi_devices(nvidia_done, vaapi_a) == vaapi_devices(nvidia_done, vaapi_b),
{
    lemma_same_probes_same_failure(nvidia_a, nvidia_b);
    assert forall|i: int| 0 <= i < nvidia_a.len() implies #[trigger] nvidia_devices(nvidia_a)[i]
        == nvidia_devices(nvidia_b)[i] by {
        assert(same_probe(nvidia_a[i], nvidia_b[i]));
        lemma_same_probe_same_device(nvidia_a[i], nvidia_b[i]);
    }
    assert(nvidia_devices(nvidia_a) =~= nvidia_devices(nvidia_b));
    lemma_same_displays_same_devices(nvidia_done, vaapi_a, vaapi_b);
}

/// Every device of a report lists its codecs in report order, each codec
/// at most once, and lists a codec exactly if the device decodes or
/// encodes at least one format of it.
pub proof fn lemma_devices_list_codecs_in_order(gpu: DeviceProbe, display: DisplayProbe, codec: Codec)
    ensures
        in_report_order(nvidia_device(gpu).codecs),
        in_report_order(vaapi_device(display).codecs),
        lists_codec(nvidia_device(gpu).codecs, codec) <==> (answered_decoding(
            gpu.decoder_answers@,
            codec,
        ).len() > 0 || encoded_list(gpu.encoder_caps@, codec).len() > 0),
        lists_codec(vaapi_device(display).codecs, codec) <==> (decoding_list(
            display.profiles@,
            codec,
        ).len() > 0 || encoding_list(display.profiles@, codec).len() > 0),
{
    crate::model::lemma_codec_order_is_a_bijection();
    lemma_codec_listed_iff_supported(
        answered_decoding_lists(gpu.decoder_answers@),
        encoded_lists(gpu.encoder_caps@),
        codec,
    );
    lemma_codec_listed_iff_supported(
        decoding_lists(display.profiles@),
        encoding_lists(display.profiles@),
        codec,
    );
}

/// In a report every device of the NVIDIA backend stands before every
/// device of the VA-API backend.
pub proof fn lemma_nvidia_devices_come_first(
    nvidia: Result<Vec<DeviceProbe>, NvidiaError>,
    vaapi: Result<Vec<DisplayProbe>, VaError>,
)
    ensures
        match scan_result(nvidia, vaapi) {
            Ok(devices) => forall|i: int, j: int|
                0 <= i < j < devices.len() && (#[trigger] devices[j]).driver == Driver::Nvidia ==> (
                #[trigger] devices[i]).driver == Driver::Nvidia,
            Err(_) => true,
        },
{
    if let Ok((first, done)) = nvidia_stage(nvidia_outcome(nvidia)) {
        if let Ok(second) = vaapi_stage(vaapi_outcome(done, vaapi)) {
            let devices = first + second;
            assert forall|j: int| 0 <= j < second.len() implies (#[trigger] second[j]).driver
                == Driver::Vaapi by {
                if let Ok(probes) = vaapi {
                    lemma_duplicates_dropped(done, probes@);
                    assert(was_probed(probes@, second[j]));
                }
            }
            assert forall|i: int| 0 <= i < first.len() implies (#[trigger] first[i]).driver
                == Driver::Nvidia by {
                if let Ok(probes) = nvidia {
                    assert(first[i] == nvidia_device(probes@[i]));
                }
            }
            assert forall|i: int, j: int|
                0 <= i < j < devices.len() && (#[trigger] devices[j]).driver
                    == Driver::Nvidia implies (#[trigger] devices[i]).driver == Driver::Nvidia by {
                if j >= first.len() {
                    assert(devices[j] == second[j - first.len()]);
                }
                assert(devices[i] == first[i]);
            }
        }
    }
}

} // verus!
