//! A flat summary of what a device supports: per codec the picture sizes,
//! chroma formats and sample depths, without saying which go together.
use vstd::prelude::*;
use crate::model::{Chroma, Codec, ColorDepth};

verus! {

/// The backend through which a device of the summary was found.
#[derive(Clone, Copy, Debug, PartialEq, Eq, Structural, Hash)]
pub enum Driver {
    Reserved,
    Nvidia,
    Vaapi,
}

impl Driver {
    /// The number that stands for this driver in a flattened summary.
    pub open spec fn spec_code(self) -> int {
        match self {
            Driver::Reserved => 0,
            Driver::Nvidia => 1,
            Driver::Vaapi => 2,
        }
    }

    /// The number that stands for this driver in a flattened summary.
    pub fn code(self) -> (r: u32)
        ensures
            r == self.spec_code(),
    {
        match self {
            Driver::Reserved => 0,
            Driver::Nvidia => 1,
            Driver::Vaapi => 2,
        }
    }
}

/// What a [`CodecSupport`] holds, as mathematical values.
pub struct CodecSupportView {
    pub codec: Codec,
    pub resolutions: Seq<u32>,
    pub chromas: Seq<Chroma>,
    pub color_depths: Seq<ColorDepth>,
}

/// What a device supports of one codec.
#[derive(Clone, Debug, PartialEq, Eq)]
pub struct CodecSupport {
    codec: Codec,
    resolutions: Vec<u32>,
    chromas: Vec<Chroma>,
    color_depths: Vec<ColorDepth>,
}

impl View for CodecSupport {
    type V = CodecSupportView;

    closed spec fn view(&self) -> CodecSupportView {
        CodecSupportView {
            codec: self.codec,
            resolutions: self.resolutions@,
            chromas: self.chromas@,
            color_depths: self.color_depths@,
        }
    }
}

impl CodecSupport {
    /// The support of `codec`, with the three lists as given.
    pub fn new(
        codec: Codec,
        resolutions: Vec<u32>,
        chromas: Vec<Chroma>,
        color_depths: Vec<ColorDepth>,
    ) -> (r: CodecSupport)
        ensures
            r@ == (CodecSupportView {
                codec,
                resolutions: resolutions@,
                chromas: chromas@,
                color_depths: color_depths@,
            }),
    {
        CodecSupport { codec, resolutions, chromas, color_depths }
    }

    /// The codec.
    pub fn codec(&self) -> (r: Codec)
        ensures
            r == self@.codec,
    {
        self.codec
    }

    /// The supported picture sizes.
    pub fn resolutions(&self) -> (r: &Vec<u32>)
        ensures
            r@ == self@.resolutions,
    {
        &self.resolutions
    }

    /// The supported chroma formats.
    pub fn chromas(&self) -> (r: &Vec<Chroma>)
        ensures
            r@ == self@.chromas,
    {
        &self.chromas
    }

    /// The supported sample depths.
    pub fn color_depths(&self) -> (r: &Vec<ColorDepth>)
        ensures
            r@ == self@.color_depths,
    {
        &self.color_depths
    }
}

/// The views of a list of codec supports.
pub open spec fn support_views(list: Seq<CodecSupport>) -> Seq<CodecSupportView> {
    Seq::new(list.len(), |i: int| list[i]@)
}

/// What a [`Device`] of the summary holds, as mathematical values.
pub struct DeviceView {
    pub driver: Driver,
    pub ordinal: u32,
    pub name: Seq<char>,
    pub path: Seq<char>,
    pub decoders: Seq<CodecSupportView>,
    pub encoders: Seq<CodecSupportView>,
}

/// One device of the summary.
#[derive(Clone, Debug, PartialEq, Eq)]
pub struct Device {
    driver: Driver,
    ordinal: u32,
    name: String,
    path: String,
    decoders: Vec<CodecSupport>,
    encoders: Vec<CodecSupport>,
}

impl View for Device {
    type V = DeviceView;

    closed spec fn view(&self) -> DeviceView {
        DeviceView {
            driver: self.driver,
            ordinal: self.ordinal,
            name: self.name@,
            path: self.path@,
            decoders: support_views(self.decoders@),
            encoders: support_views(self.encoders@),
        }
    }
}

impl Device {
    /// A device of the summary, with everything as given.
    pub fn new(
        driver: Driver,
        ordinal: u32,
        name: String,
        path: String,
        decoders: Vec<CodecSupport>,
        encoders: Vec<CodecSupport>,
    ) -> (r: Device)
        ensures
            r@ == (DeviceView {
                driver,
                ordinal,
                name: name@,
                path: path@,
                decoders: support_views(decoders@),
                encoders: support_views(encoders@),
            }),
    {
        Device { driver, ordinal, name, path, decoders, encoders }
    }

    /// What the device decodes.
    pub fn decoders(&self) -> (r: &Vec<CodecSupport>)
        ensures
            support_views(r@) == self@.decoders,
    {
        &self.decoders
    }

    /// What the device encodes.
    pub fn encoders(&self) -> (r: &Vec<CodecSupport>)
        ensures
            support_views(r@) == self@.encoders,
    {
        &self.encoders
    }
}

/// The views of a list of devices of the summary.
pub open spec fn device_views(list: Seq<Device>) -> Seq<DeviceView> {
    Seq::new(list.len(), |i: int| list[i]@)
}

/// The summary of one scan.
#[derive(Clone, Debug, PartialEq, Eq)]
pub struct SupportInfo {
    devices: Vec<Device>,
}

impl View for SupportInfo {
    type V = Seq<DeviceView>;

    closed spec fn view(&self) -> Seq<DeviceView> {
        device_views(self.devices@)
    }
}

impl SupportInfo {
    /// A summary of the given devices, in the given order.
    pub fn new(devices: Vec<Device>) -> (r: SupportInfo)
        ensures
            r@ == device_views(devices@),
    {
        SupportInfo { devices }
    }

    /// The devices of the summary.
    pub fn devices(&self) -> (r: &Vec<Device>)
        ensures
            device_views(r@) == self@,
    {
        &self.devices
    }
}

} // verus!
