//! The report's data model: drivers, codecs, pixel formats and the
//! per-device capability records.
use vstd::prelude::*;

verus! {

/// The backend through which a device was found.
#[derive(Clone, Copy, Debug, PartialEq, Eq, Structural, Hash)]
pub enum Driver {
    Vaapi,
    Nvidia,
}

/// A video codec. The set is closed.
#[derive(Clone, Copy, Debug, PartialEq, Eq, Structural, Hash)]
pub enum Codec {
    Mpeg1,
    Mpeg2,
    Mpeg4,
    Vc1,
    H264,
    Hevc,
    Vp8,
    Vp9,
    Av1,
}

/// Chroma subsampling of a picture format.
#[derive(Clone, Copy, Debug, PartialEq, Eq, Structural, Hash)]
pub enum Chroma {
    Monochrome,
    Yuv420,
    Yuv422,
    Yuv444,
}

/// Bits per colour sample.
#[derive(Clone, Copy, Debug, PartialEq, Eq, Structural, Hash)]
pub enum ColorDepth {
    Bit8,
    Bit10,
    Bit12,
}

/// The profile an encoder can produce.
#[derive(Clone, Copy, Debug, PartialEq, Eq, Structural, Hash)]
pub enum EncodeProfile {
    Baseline,
    Main,
    Main10,
    High,
    High10,
    High12,
    High444,
}

/// A boolean with a third state for a capability that a driver path cannot
/// report.
#[derive(Clone, Copy, Debug, PartialEq, Eq, Structural, Hash)]
pub enum ThreeValue {
    False,
    True,
    Unknown,
}

impl Driver {
    /// The number that stands for this driver in a flattened report.
    pub open spec fn spec_code(self) -> int {
        match self {
            Driver::Vaapi => 0,
            Driver::Nvidia => 1,
        }
    }

    /// The number that stands for this driver in a flattened report.
    pub fn code(self) -> (r: u32)
        ensures
            r == self.spec_code(),
    {
        match self {
            Driver::Vaapi => 0,
            Driver::Nvidia => 1,
        }
    }
}

impl Codec {
    /// The number that stands for this codec in a flattened report.
    pub open spec fn spec_code(self) -> int {
        match self {
            Codec::Mpeg1 => 1,
            Codec::Mpeg2 => 2,
            Codec::Mpeg4 => 4,
            Codec::Vc1 => 7,
            Codec::H264 => 264,
            Codec::Hevc => 265,
            Codec::Vp8 => 8,
            Codec::Vp9 => 9,
            Codec::Av1 => 10,
        }
    }

    /// The number that stands for this codec in a flattened report.
    pub fn code(self) -> (r: u32)
        ensures
            r == self.spec_code(),
    {
        match self {
            Codec::Mpeg1 => 1,
            Codec::Mpeg2 => 2,
            Codec::Mpeg4 => 4,
            Codec::Vc1 => 7,
            Codec::H264 => 264,
            Codec::Hevc => 265,
            Codec::Vp8 => 8,
            Codec::Vp9 => 9,
            Codec::Av1 => 10,
        }
    }
}

/// How many codecs there are.
pub const CODEC_COUNT: usize = 9;

/// The codecs in the order in which every report lists them.
pub open spec fn codec_order() -> Seq<Codec> {
    seq![
        Codec::Mpeg1,
        Codec::Mpeg2,
        Codec::Mpeg4,
        Codec::Vc1,
        Codec::H264,
        Codec::Hevc,
        Codec::Vp8,
        Codec::Vp9,
        Codec::Av1,
    ]
}

impl Codec {
    /// The codec's place in [`codec_order`].
    pub open spec fn spec_rank(self) -> int {
        match self {
            Codec::Mpeg1 => 0,
            Codec::Mpeg2 => 1,
            Codec::Mpeg4 => 2,
            Codec::Vc1 => 3,
            Codec::H264 => 4,
            Codec::Hevc => 5,
            Codec::Vp8 => 6,
            Codec::Vp9 => 7,
            Codec::Av1 => 8,
        }
    }

    /// The codec's place in the report order, counted from 0.
    pub fn rank(self) -> (r: usize)
        ensures
            r == self.spec_rank(),
            r < CODEC_COUNT,
            codec_order()[r as int] == self,
    {
        match self {
            Codec::Mpeg1 => 0,
            Codec::Mpeg2 => 1,
            Codec::Mpeg4 => 2,
            Codec::Vc1 => 3,
            Codec::H264 => 4,
            Codec::Hevc => 5,
            Codec::Vp8 => 6,
            Codec::Vp9 => 7,
            Codec::Av1 => 8,
        }
    }

    /// The codec at the given place of the report order.
    pub(crate) fn from_rank(rank: usize) -> (r: Codec)
        requires
            rank < CODEC_COUNT,
        ensures
            r == codec_order()[rank as int],
            r.spec_rank() == rank,
    {
        if rank == 0 {
            Codec::Mpeg1
        } else if rank == 1 {
            Codec::Mpeg2
        } else if rank == 2 {
            Codec::Mpeg4
        } else if rank == 3 {
            Codec::Vc1
        } else if rank == 4 {
            Codec::H264
        } else if rank == 5 {
            Codec::Hevc
        } else if rank == 6 {
            Codec::Vp8
        } else if rank == 7 {
            Codec::Vp9
        } else {
            Codec::Av1
        }
    }

    /// Every codec, in report order.
    pub fn all() -> (r: Vec<Codec>)
        ensures
            r@ == codec_order(),
    {
        let r = vec![
            Codec::Mpeg1,
            Codec::Mpeg2,
            Codec::Mpeg4,
            Codec::Vc1,
            Codec::H264,
            Codec::Hevc,
            Codec::Vp8,
            Codec::Vp9,
            Codec::Av1,
        ];
        assert(r@ =~= codec_order());
        r
    }
}

/// The report order holds every codec exactly once: a codec stands at the
/// place its rank gives, and the codec at a place has that place as rank.
pub proof fn lemma_codec_order_is_a_bijection()
    ensures
        codec_order().len() == CODEC_COUNT,
        forall|c: Codec| 0 <= #[trigger] c.spec_rank() < CODEC_COUNT,
        forall|c: Codec| codec_order()[#[trigger] c.spec_rank()] == c,
        forall|k: int| 0 <= k < CODEC_COUNT ==> (#[trigger] codec_order()[k]).spec_rank() == k,
{
}

impl Chroma {
    /// The number that stands for this subsampling in a flattened report.
    pub open spec fn spec_code(self) -> int {
        match self {
            Chroma::Monochrome => 0,
            Chroma::Yuv420 => 420,
            Chroma::Yuv422 => 422,
            Chroma::Yuv444 => 444,
        }
    }

    /// The number that stands for this subsampling in a flattened report.
    pub fn code(self) -> (r: u32)
        ensures
            r == self.spec_code(),
    {
        match self {
            Chroma::Monochrome => 0,
            Chroma::Yuv420 => 420,
            Chroma::Yuv422 => 422,
            Chroma::Yuv444 => 444,
        }
    }
}

impl ColorDepth {
    /// The number of bits per sample.
    pub open spec fn spec_bits(self) -> int {
        match self {
            ColorDepth::Bit8 => 8,
            ColorDepth::Bit10 => 10,
            ColorDepth::Bit12 => 12,
        }
    }

    /// The number of bits per sample, which also stands for this depth in a
    /// flattened report.
    pub fn code(self) -> (r: u32)
        ensures
            r == self.spec_bits(),
    {
        match self {
            ColorDepth::Bit8 => 8,
            ColorDepth::Bit10 => 10,
            ColorDepth::Bit12 => 12,
        }
    }
}

impl EncodeProfile {
    /// The number that stands for this profile in a flattened report.
    pub open spec fn spec_code(self) -> int {
        match self {
            EncodeProfile::Baseline => 1,
            EncodeProfile::Main => 10,
            EncodeProfile::Main10 => 11,
            EncodeProfile::High => 100,
            EncodeProfile::High10 => 110,
            EncodeProfile::High12 => 112,
            EncodeProfile::High444 => 140,
        }
    }

    /// The number that stands for this profile in a flattened report.
    pub fn code(self) -> (r: u32)
        ensures
            r == self.spec_code(),
    {
        match self {
            EncodeProfile::Baseline => 1,
            EncodeProfile::Main => 10,
            EncodeProfile::Main10 => 11,
            EncodeProfile::High => 100,
            EncodeProfile::High10 => 110,
            EncodeProfile::High12 => 112,
            EncodeProfile::High444 => 140,
        }
    }
}

impl ThreeValue {
    /// The definite value that a boolean stands for.
    pub open spec fn of_bool(value: bool) -> ThreeValue {
        if value {
            ThreeValue::True
        } else {
            ThreeValue::False
        }
    }

    /// The number that stands for this value in a flattened report.
    pub open spec fn spec_code(self) -> int {
        match self {
            ThreeValue::False => 0,
            ThreeValue::True => 1,
            ThreeValue::Unknown => 2,
        }
    }

    /// The number that stands for this value in a flattened report.
    pub fn code(self) -> (r: u32)
        ensures
            r == self.spec_code(),
    {
        match self {
            ThreeValue::False => 0,
            ThreeValue::True => 1,
            ThreeValue::Unknown => 2,
        }
    }
}

impl From<bool> for ThreeValue {
    /// A boolean becomes one of the two definite values, never `Unknown`.
    fn from(value: bool) -> (r: ThreeValue)
        ensures
            r == ThreeValue::of_bool(value),
    {
        if value {
            ThreeValue::True
        } else {
            ThreeValue::False
        }
    }
}

impl vstd::std_specs::convert::FromSpecImpl<bool> for ThreeValue {
    open spec fn obeys_from_spec() -> bool {
        true
    }

    open spec fn from_spec(value: bool) -> ThreeValue {
        ThreeValue::of_bool(value)
    }
}

/// One picture format that a device can decode, with the largest picture
/// it accepts in that format.
#[derive(Clone, Copy, Debug, PartialEq, Eq, Structural)]
pub struct DecodingSpec {
    pub chroma: Chroma,
    pub color_depth: ColorDepth,
    pub max_width: u32,
    pub max_height: u32,
}

/// One picture format and profile that a device can encode, with the
/// largest picture it accepts in that format.
#[derive(Clone, Copy, Debug, PartialEq, Eq, Structural)]
pub struct EncodingSpec {
    pub chroma: Chroma,
    pub color_depth: ColorDepth,
    pub profile: EncodeProfile,
    pub max_width: u32,
    pub max_height: u32,
    pub b_frames_supported: ThreeValue,
}

/// What a [`CodecDetails`] holds, as mathematical values.
pub struct CodecDetailsView {
    pub codec: Codec,
    pub decoding_specs: Seq<DecodingSpec>,
    pub encoding_specs: Seq<EncodingSpec>,
}

/// Everything one device can do with one codec: the formats it decodes and
/// the formats it encodes. Either list may be empty.
#[derive(Clone, Debug, PartialEq, Eq)]
pub struct CodecDetails {
    codec: Codec,
    decoding_specs: Vec<DecodingSpec>,
    encoding_specs: Vec<EncodingSpec>,
}

impl View for CodecDetails {
    type V = CodecDetailsView;

    closed spec fn view(&self) -> CodecDetailsView {
        CodecDetailsView {
            codec: self.codec,
            decoding_specs: self.decoding_specs@,
            encoding_specs: self.encoding_specs@,
        }
    }
}

impl CodecDetailsView {
    /// Whether the record lists no format at all.
    pub open spec fn is_empty(self) -> bool {
        self.decoding_specs.len() == 0 && self.encoding_specs.len() == 0
    }
}

/// The decode side of an optional record, empty where there is none.
pub open spec fn decoding_side(details: Option<CodecDetails>) -> Seq<DecodingSpec> {
    match details {
        Some(d) => d@.decoding_specs,
        None => Seq::empty(),
    }
}

/// The encode side of an optional record, empty where there is none.
pub open spec fn encoding_side(details: Option<CodecDetails>) -> Seq<EncodingSpec> {
    match details {
        Some(d) => d@.encoding_specs,
        None => Seq::empty(),
    }
}

impl CodecDetails {
    /// A record for `codec` that owns both lists as given.
    pub fn new(codec: Codec, decoding: Vec<DecodingSpec>, encoding: Vec<EncodingSpec>) -> (r: Self)
        ensures
            r@ == (CodecDetailsView {
                codec,
                decoding_specs: decoding@,
                encoding_specs: encoding@,
            }),
    {
        CodecDetails { codec, decoding_specs: decoding, encoding_specs: encoding }
    }

    /// A record for `codec` with the decode list of `decoding` and the encode
    /// list of `encoding`. The other list of each argument is discarded, and
    /// so is the codec it was filed under; a missing argument gives an empty
    /// list.
    pub fn combine(
        codec: Codec,
        decoding: Option<CodecDetails>,
        encoding: Option<CodecDetails>,
    ) -> (r: Self)
        ensures
            r@ == (CodecDetailsView {
                codec,
                decoding_specs: decoding_side(decoding),
                encoding_specs: encoding_side(encoding),
            }),
    {
        let decoding_specs = match decoding {
            Some(d) => {
                let CodecDetails { decoding_specs, .. } = d;
                decoding_specs
            },
            None => Vec::new(),
        };
        let encoding_specs = match encoding {
            Some(e) => {
                let CodecDetails { encoding_specs, .. } = e;
                encoding_specs
            },
            None => Vec::new(),
        };
        CodecDetails { codec, decoding_specs, encoding_specs }
    }

    /// The codec this record is about.
    pub fn codec(&self) -> (r: Codec)
        ensures
            r == self@.codec,
    {
        self.codec
    }

    /// The formats the device decodes, in the order they were found.
    pub fn decoding_specs(&self) -> (r: &Vec<DecodingSpec>)
        ensures
            r@ == self@.decoding_specs,
    {
        &self.decoding_specs
    }

    /// The formats the device encodes, in the order they were found.
    pub fn encoding_specs(&self) -> (r: &Vec<EncodingSpec>)
        ensures
            r@ == self@.encoding_specs,
    {
        &self.encoding_specs
    }
}

/// The views of a list of records.
pub open spec fn details_views(list: Seq<CodecDetails>) -> Seq<CodecDetailsView> {
    Seq::new(list.len(), |i: int| list[i]@)
}

/// The characters of an optional string.
pub open spec fn text_view(text: Option<String>) -> Option<Seq<char>> {
    match text {
        Some(s) => Some(s@),
        None => None,
    }
}

/// What a [`Device`] holds, as mathematical values.
pub struct DeviceView {
    pub driver: Driver,
    pub ordinal: u8,
    pub path: Option<Seq<char>>,
    pub name: Option<Seq<char>>,
    pub codecs: Seq<CodecDetailsView>,
}

/// One device of the report. A device found by ordinal has no path; a
/// device found by path has ordinal 0 and may lack a name.
#[derive(Clone, Debug, PartialEq, Eq)]
pub struct Device {
    driver: Driver,
    ordinal: u8,
    path: Option<String>,
    name: Option<String>,
    codecs: Vec<CodecDetails>,
}

impl View for Device {
    type V = DeviceView;

    closed spec fn view(&self) -> DeviceView {
        DeviceView {
            driver: self.driver,
            ordinal: self.ordinal,
            path: text_view(self.path),
            name: text_view(self.name),
            codecs: details_views(self.codecs@),
        }
    }
}

impl Device {
    /// A device that is identified by its ordinal.
    pub fn new_with_ordinal(
        driver: Driver,
        ordinal: u8,
        name: String,
        codecs: Vec<CodecDetails>,
    ) -> (r: Self)
        ensures
            r@ == (DeviceView {
                driver,
                ordinal,
                path: None,
                name: Some(name@),
                codecs: details_views(codecs@),
            }),
    {
        Device { driver, ordinal, path: None, name: Some(name), codecs }
    }

    /// A device that is identified by the path of its device node.
    pub fn new_with_path(
        driver: Driver,
        path: String,
        name: Option<String>,
        codecs: Vec<CodecDetails>,
    ) -> (r: Self)
        ensures
            r@ == (DeviceView {
                driver,
                ordinal: 0,
                path: Some(path@),
                name: text_view(name),
                codecs: details_views(codecs@),
            }),
    {
        Device { driver, ordinal: 0, path: Some(path), name, codecs }
    }

    /// The backend through which the device was found.
    pub fn driver(&self) -> (r: Driver)
        ensures
            r == self@.driver,
    {
        self.driver
    }

    /// The device's ordinal, 0 for a device found by path.
    pub fn ordinal(&self) -> (r: u8)
        ensures
            r == self@.ordinal,
    {
        self.ordinal
    }

    /// The path of the device node, if the device was found by path.
    pub fn path(&self) -> (r: &Option<String>)
        ensures
            text_view(*r) == self@.path,
    {
        &self.path
    }

    /// The device's name, if one is known.
    pub fn name(&self) -> (r: &Option<String>)
        ensures
            text_view(*r) == self@.name,
    {
        &self.name
    }

    /// The device's codecs.
    pub fn codecs(&self) -> (r: &Vec<CodecDetails>)
        ensures
            details_views(r@) == self@.codecs,
    {
        &self.codecs
    }
}

/// The views of a list of devices.
pub open spec fn device_views(list: Seq<Device>) -> Seq<DeviceView> {
    Seq::new(list.len(), |i: int| list[i]@)
}

/// The result of one scan: every device that was found, in report order.
#[derive(Clone, Debug, PartialEq, Eq)]
pub struct EncDecDevices {
    devices: Vec<Device>,
}

impl View for EncDecDevices {
    type V = Seq<DeviceView>;

    closed spec fn view(&self) -> Seq<DeviceView> {
        device_views(self.devices@)
    }
}

impl EncDecDevices {
    /// A report of the given devices, in the given order.
    pub fn new(devices: Vec<Device>) -> (r: Self)
        ensures
            r@ == device_views(devices@),
    {
        EncDecDevices { devices }
    }

    /// The devices of the report.
    pub fn devices(&self) -> (r: &Vec<Device>)
        ensures
            device_views(r@) == self@,
    {
        &self.devices
    }

    /// Gives the devices back and ends the report.
    pub fn into_devices(self) -> (r: Vec<Device>)
        ensures
            device_views(r@) == self@,
    {
        self.devices
    }
}

} // verus!
