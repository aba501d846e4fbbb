//! Encoder configuration: codec and container subtypes and the builders
//! that collect the values handed to a backend when a session is set up.

use vstd::prelude::*;

verus! {

/// `windows::core::HSTRING`, the immutable, reference-counted UTF-16
/// string of the Windows Runtime. Nothing is said of what is inside one.
#[verifier::external_type_specification]
#[verifier::external_body]
pub struct ExHstring(windows::core::HSTRING);

/// The string that `HSTRING::from` makes of a string slice with the
/// characters `text`.
pub uninterp spec fn hstring_of(text: Seq<char>) -> windows::core::HSTRING;

/// `HSTRING::from` on a string slice. It copies the slice, as UTF-16, into
/// a new reference-counted string on the process heap, so equal slices
/// give equal strings. The length is kept in 32 bits, which the bound on
/// `s` respects; beyond that the call gives up only when the heap does.
#[verifier::external_body]
fn hstring_from(s: &str) -> (h: windows::core::HSTRING)
    requires
        4 * s@.len() <= u32::MAX,
    ensures
        h == hstring_of(s@),
{
    windows::core::HSTRING::from(s)
}

/// Marks a value (typically a native surface or device handle) as handed
/// over to exactly one new owner.
pub struct SendDirectX<T>(pub T);

impl<T> SendDirectX<T> {
    /// Wraps `device` for the hand-over.
    #[must_use]
    #[inline]
    pub fn new(device: T) -> (r: Self)
        ensures
            r.0 == device,
    {
        Self(device)
    }
}

/// Video stream subtypes a backend may be asked to produce.
#[derive(Eq, PartialEq, Clone, Copy, Debug, Structural)]
pub enum VideoSettingsSubType {
    ARGB32,
    BGRA8,
    D16,
    H263,
    H264,
    H264ES,
    HEVC,
    HEVCES,
    IYUV,
    L8,
    L16,
    MJPG,
    NV12,
    MPEG1,
    MPEG2,
    RGB24,
    RGB32,
    WMV3,
    WVC1,
    VP9,
    YUY2,
    YV12,
}

impl VideoSettingsSubType {
    /// The subtype's name as the media framework spells it.
    pub open spec fn name(self) -> Seq<char> {
        match self {
            Self::ARGB32 => "ARGB32"@,
            Self::BGRA8 => "BGRA8"@,
            Self::D16 => "D16"@,
            Self::H263 => "H263"@,
            Self::H264 => "H264"@,
            Self::H264ES => "H264ES"@,
            Self::HEVC => "HEVC"@,
            Self::HEVCES => "HEVCES"@,
            Self::IYUV => "IYUV"@,
            Self::L8 => "L8"@,
            Self::L16 => "L16"@,
            Self::MJPG => "MJPG"@,
            Self::NV12 => "NV12"@,
            Self::MPEG1 => "MPEG1"@,
            Self::MPEG2 => "MPEG2"@,
            Self::RGB24 => "RGB24"@,
            Self::RGB32 => "RGB32"@,
            Self::WMV3 => "WMV3"@,
            Self::WVC1 => "WVC1"@,
            Self::VP9 => "VP9"@,
            Self::YUY2 => "YUY2"@,
            Self::YV12 => "YV12"@,
        }
    }

    /// No name is longer than six characters.
    pub proof fn lemma_name_is_short(self)
        ensures
            self.name().len() <= 6,
    {
        reveal_strlit("ARGB32");
        reveal_strlit("BGRA8");
        reveal_strlit("D16");
        reveal_strlit("H263");
        reveal_strlit("H264");
        reveal_strlit("H264ES");
        reveal_strlit("HEVC");
        reveal_strlit("HEVCES");
        reveal_strlit("IYUV");
        reveal_strlit("L8");
        reveal_strlit("L16");
        reveal_strlit("MJPG");
        reveal_strlit("NV12");
        reveal_strlit("MPEG1");
        reveal_strlit("MPEG2");
        reveal_strlit("RGB24");
        reveal_strlit("RGB32");
        reveal_strlit("WMV3");
        reveal_strlit("WVC1");
        reveal_strlit("VP9");
        reveal_strlit("YUY2");
        reveal_strlit("YV12");
    }

    /// The subtype's name as a Windows Runtime string.
    pub fn to_hstring(&self) -> (h: windows::core::HSTRING)
        ensures
            h == hstring_of(self.name()),
    {
        proof {
            self.lemma_name_is_short();
        }
        hstring_from(self.as_str())
    }

    /// The subtype's name as a string slice.
    pub fn as_str(&self) -> (s: &'static str)
        ensures
            s@ == self.name(),
    {
        match self {
            Self::ARGB32 => "ARGB32",
            Self::BGRA8 => "BGRA8",
            Self::D16 => "D16",
            Self::H263 => "H263",
            Self::H264 => "H264",
            Self::H264ES => "H264ES",
            Self::HEVC => "HEVC",
            Self::HEVCES => "HEVCES",
            Self::IYUV => "IYUV",
            Self::L8 => "L8",
            Self::L16 => "L16",
            Self::MJPG => "MJPG",
            Self::NV12 => "NV12",
            Self::MPEG1 => "MPEG1",
            Self::MPEG2 => "MPEG2",
            Self::RGB24 => "RGB24",
            Self::RGB32 => "RGB32",
            Self::WMV3 => "WMV3",
            Self::WVC1 => "WVC1",
            Self::VP9 => "VP9",
            Self::YUY2 => "YUY2",
            Self::YV12 => "YV12",
        }
    }
}

/// Container subtypes a backend may be asked to write.
#[derive(Eq, PartialEq, Clone, Copy, Debug, Structural)]
pub enum ContainerSettingsSubType {
    ASF,
    MP3,
    MPEG4,
    AVI,
    MPEG2,
    WAVE,
    AACADTS,
    ADTS,
    GP3,
    AMR,
    FLAC,
}

impl ContainerSettingsSubType {
    /// The subtype's name as the media framework spells it.
    pub open spec fn name(self) -> Seq<char> {
        match self {
            Self::ASF => "ASF"@,
            Self::MP3 => "MP3"@,
            Self::MPEG4 => "MPEG4"@,
            Self::AVI => "AVI"@,
            Self::MPEG2 => "MPEG2"@,
            Self::WAVE => "WAVE"@,
            Self::AACADTS => "AACADTS"@,
            Self::ADTS => "ADTS"@,
            Self::GP3 => "3GP"@,
            Self::AMR => "AMR"@,
            Self::FLAC => "FLAC"@,
        }
    }

    /// No name is longer than seven characters.
    pub proof fn lemma_name_is_short(self)
        ensures
            self.name().len() <= 7,
    {
        reveal_strlit("ASF");
        reveal_strlit("MP3");
        reveal_strlit("MPEG4");
        reveal_strlit("AVI");
        reveal_strlit("MPEG2");
        reveal_strlit("WAVE");
        reveal_strlit("AACADTS");
        reveal_strlit("ADTS");
        reveal_strlit("3GP");
        reveal_strlit("AMR");
        reveal_strlit("FLAC");
    }

    /// The subtype's name as a Windows Runtime string.
    pub fn to_hstring(&self) -> (h: windows::core::HSTRING)
        ensures
            h == hstring_of(self.name()),
    {
        proof {
            self.lemma_name_is_short();
        }
        hstring_from(self.as_str())
    }

    /// The subtype's name as a string slice.
    pub fn as_str(&self) -> (s: &'static str)
        ensures
            s@ == self.name(),
    {
        match self {
            Self::ASF => "ASF",
            Self::MP3 => "MP3",
            Self::MPEG4 => "MPEG4",
            Self::AVI => "AVI",
            Self::MPEG2 => "MPEG2",
            Self::WAVE => "WAVE",
            Self::AACADTS => "AACADTS",
            Self::ADTS => "ADTS",
            Self::GP3 => "3GP",
            Self::AMR => "AMR",
            Self::FLAC => "FLAC",
        }
    }
}

/// What a container builder has collected.
pub struct ContainerSettings {
    pub sub_type: ContainerSettingsSubType,
}

/// Collects the container settings of a recording.
pub struct ContainerSettingsBuilder {
    sub_type: ContainerSettingsSubType,
}

impl View for ContainerSettingsBuilder {
    type V = ContainerSettings;

    closed spec fn view(&self) -> ContainerSettings {
        ContainerSettings { sub_type: self.sub_type }
    }
}

impl ContainerSettingsBuilder {
    /// A builder for an MPEG-4 container.
    pub fn new() -> (r: Self)
        ensures
            r@ == (ContainerSettings { sub_type: ContainerSettingsSubType::MPEG4 }),
    {
        Self { sub_type: ContainerSettingsSubType::MPEG4 }
    }

    /// Replaces the container subtype.
    pub fn sub_type(self, sub_type: ContainerSettingsSubType) -> (r: Self)
        ensures
            r@ == (ContainerSettings { sub_type }),
    {
        let mut this = self;
        this.sub_type = sub_type;
        this
    }

    /// The collected settings.
    pub fn build(self) -> (r: ContainerSettings)
        ensures
            r == self@,
    {
        ContainerSettings { sub_type: self.sub_type }
    }
}

impl Default for ContainerSettingsBuilder {
    fn default() -> (r: Self)
        ensures
            r@ == (ContainerSettings { sub_type: ContainerSettingsSubType::MPEG4 }),
    {
        Self::new()
    }
}

/// What a video builder has collected. The frame rate is in frames per
/// second; the pixel aspect ratio is numerator over denominator.
pub struct VideoSettings {
    pub sub_type: VideoSettingsSubType,
    pub bitrate: u32,
    pub width: u32,
    pub height: u32,
    pub frame_rate: u32,
    pub pixel_aspect_ratio: (u32, u32),
    pub disabled: bool,
}

/// Collects the video settings of a recording.
pub struct VideoSettingsBuilder {
    sub_type: VideoSettingsSubType,
    bitrate: u32,
    width: u32,
    height: u32,
    frame_rate: u32,
    pixel_aspect_ratio: (u32, u32),
    disabled: bool,
}

impl View for VideoSettingsBuilder {
    type V = VideoSettings;

    closed spec fn view(&self) -> VideoSettings {
        VideoSettings {
            sub_type: self.sub_type,
            bitrate: self.bitrate,
            width: self.width,
            height: self.height,
            frame_rate: self.frame_rate,
            pixel_aspect_ratio: self.pixel_aspect_ratio,
            disabled: self.disabled,
        }
    }
}

impl VideoSettingsBuilder {
    /// The settings a new builder starts from for a picture of the given
    /// size: HEVC at 15 Mbit/s and 60 frames per second, square pixels.
    pub open spec fn defaults(width: u32, height: u32) -> VideoSettings {
        VideoSettings {
            sub_type: VideoSettingsSubType::HEVC,
            bitrate: 15000000,
            width,
            height,
            frame_rate: 60,
            pixel_aspect_ratio: (1, 1),
            disabled: false,
        }
    }

    /// A builder for a picture of the given size, with the default codec
    /// settings.
    pub fn new(width: u32, height: u32) -> (r: Self)
        ensures
            r@ == Self::defaults(width, height),
    {
        Self {
            bitrate: 15000000,
            frame_rate: 60,
            pixel_aspect_ratio: (1, 1),
            sub_type: VideoSettingsSubType::HEVC,
            width,
            height,
            disabled: false,
        }
    }

    /// Replaces the video subtype.
    pub fn sub_type(self, sub_type: VideoSettingsSubType) -> (r: Self)
        ensures
            r@ == (VideoSettings { sub_type, ..self@ }),
    {
        let mut this = self;
        this.sub_type = sub_type;
        this
    }

    /// Replaces the bitrate, in bits per second.
    pub fn bitrate(self, bitrate: u32) -> (r: Self)
        ensures
            r@ == (VideoSettings { bitrate, ..self@ }),
    {
        let mut this = self;
        this.bitrate = bitrate;
        this
    }

    /// Replaces the picture width, in pixels.
    pub fn width(self, width: u32) -> (r: Self)
        ensures
            r@ == (VideoSettings { width, ..self@ }),
    {
        let mut this = self;
        this.width = width;
        this
    }

    /// Replaces the picture height, in pixels.
    pub fn height(self, height: u32) -> (r: Self)
        ensures
            r@ == (VideoSettings { height, ..self@ }),
    {
        let mut this = self;
        this.height = height;
        this
    }

    /// Replaces the frame rate, in frames per second.
    pub fn frame_rate(self, frame_rate: u32) -> (r: Self)
        ensures
            r@ == (VideoSettings { frame_rate, ..self@ }),
    {
        let mut this = self;
        this.frame_rate = frame_rate;
        this
    }

    /// Replaces the pixel aspect ratio, numerator first.
    pub fn pixel_aspect_ratio(self, pixel_aspect_ratio: (u32, u32)) -> (r: Self)
        ensures
            r@ == (VideoSettings { pixel_aspect_ratio, ..self@ }),
    {
        let mut this = self;
        this.pixel_aspect_ratio = pixel_aspect_ratio;
        this
    }

    /// Switches the video track off or on.
    pub fn disabled(self, disabled: bool) -> (r: Self)
        ensures
            r@ == (VideoSettings { disabled, ..self@ }),
    {
        let mut this = self;
        this.disabled = disabled;
        this
    }

    /// The collected settings.
    pub fn build(self) -> (r: VideoSettings)
        ensures
            r == self@,
    {
        VideoSettings {
            sub_type: self.sub_type,
            bitrate: self.bitrate,
            width: self.width,
            height: self.height,
            frame_rate: self.frame_rate,
            pixel_aspect_ratio: self.pixel_aspect_ratio,
            disabled: self.disabled,
        }
    }
}

} // verus!
