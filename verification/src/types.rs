use vstd::prelude::*;

verus! {

/// Presentation timestamp in microseconds.
pub type Pts = i64;

/// One audio sample: the bit pattern of an IEEE-754 single-precision value.
/// Silence is `0` (the bits of `+0.0`).
pub type SampleBits = u32;

/// Microseconds in one second.
pub const MICROS_PER_SECOND: i64 = 1_000_000;

/// The bits of a silent sample (`+0.0`).
pub const SILENCE: SampleBits = 0;

/// Pixel format for video frames
#[derive(Debug, Clone, Copy, PartialEq, Eq, Structural)]
pub enum PixelFormat {
    Rgb24,
    Rgba,
    Bgr24,
    Bgra,
}

impl PixelFormat {
    /// Bytes per pixel of this format.
    pub open spec fn spec_bytes_per_pixel(self) -> nat {
        match self {
            PixelFormat::Rgb24 | PixelFormat::Bgr24 => 3,
            PixelFormat::Rgba | PixelFormat::Bgra => 4,
        }
    }

    pub fn bytes_per_pixel(&self) -> (r: usize)
        ensures
            r == self.spec_bytes_per_pixel(),
    {
        match self {
            PixelFormat::Rgb24 | PixelFormat::Bgr24 => 3,
            PixelFormat::Rgba | PixelFormat::Bgra => 4,
        }
    }
}

/// Frame data held in CPU memory.
pub enum FrameData {
    /// Software-decoded frame
    Software { data: Vec<u8>, format: PixelFormat },
}

/// What a frame's data is, as plain values.
pub ghost struct FrameDataView {
    pub data: Seq<u8>,
    pub format: PixelFormat,
}

impl View for FrameData {
    type V = FrameDataView;

    open spec fn view(&self) -> FrameDataView {
        match self {
            FrameData::Software { data, format } => FrameDataView { data: data@, format: *format },
        }
    }
}

impl Clone for FrameData {
    fn clone(&self) -> (r: Self)
        ensures
            r@ == self@,
    {
        match self {
            FrameData::Software { data, format } => {
                let copy = data.clone();
                assert(copy@ =~= data@);
                FrameData::Software { data: copy, format: *format }
            },
        }
    }
}

impl FrameData {
    /// Returns true if this is a hardware-decoded frame (never, on this platform).
    pub fn is_hardware(&self) -> (r: bool)
        ensures
            r == false,
    {
        false
    }

    /// Returns true if this is a software-decoded frame.
    pub fn is_software(&self) -> (r: bool)
        ensures
            r == true,
    {
        true
    }
}

/// A decoded video frame with presentation timestamp
pub struct VideoFrame {
    /// Presentation timestamp in microseconds
    pub pts: Pts,
    /// Frame data
    pub data: FrameData,
    /// Frame width in pixels
    pub width: u32,
    /// Frame height in pixels
    pub height: u32,
}

/// What a frame is, as plain values.
pub ghost struct FrameView {
    pub pts: Pts,
    pub data: FrameDataView,
    pub width: u32,
    pub height: u32,
}

impl View for VideoFrame {
    type V = FrameView;

    open spec fn view(&self) -> FrameView {
        FrameView { pts: self.pts, data: self.data@, width: self.width, height: self.height }
    }
}

impl Clone for VideoFrame {
    fn clone(&self) -> (r: Self)
        ensures
            r@ == self@,
    {
        VideoFrame { pts: self.pts, data: self.data.clone(), width: self.width, height: self.height }
    }
}

impl VideoFrame {
    /// Creates a software-decoded video frame.
    pub fn new_software(pts: Pts, data: Vec<u8>, width: u32, height: u32, format: PixelFormat) -> (r:
        Self)
        ensures
            r.pts == pts,
            r.width == width,
            r.height == height,
            r.data@ == (FrameDataView { data: data@, format }),
    {
        VideoFrame { pts, data: FrameData::Software { data, format }, width, height }
    }

    /// Creates a software-decoded video frame.
    pub fn new(pts: Pts, data: Vec<u8>, width: u32, height: u32, format: PixelFormat) -> (r: Self)
        ensures
            r.pts == pts,
            r.width == width,
            r.height == height,
            r.data@ == (FrameDataView { data: data@, format }),
    {
        Self::new_software(pts, data, width, height, format)
    }

    /// Returns the expected size in bytes for software frames.
    ///
    /// The pixel count is a `u32` product, so it must fit in `u32`.
    pub fn expected_size(&self) -> (r: Option<usize>)
        requires
            self.width * self.height <= u32::MAX,
            self.width * self.height * self.data@.format.spec_bytes_per_pixel() <= usize::MAX,
        ensures
            r == Some((self.width * self.height * self.data@.format.spec_bytes_per_pixel()) as usize),
    {
        match &self.data {
            FrameData::Software { format, .. } => {
                let pixels = self.width * self.height;
                let bpp = format.bytes_per_pixel();
                Some(pixels as usize * bpp)
            },
        }
    }
}

/// A chunk of decoded audio samples
pub struct AudioSample {
    /// Presentation timestamp in microseconds
    pub pts: Pts,
    /// Interleaved stereo samples (L, R, L, R, ...)
    pub data: Vec<SampleBits>,
    /// Sample rate in Hz
    pub sample_rate: u32,
}

/// Duration in microseconds of `frames` stereo frames at `rate` Hz, rounded down.
pub open spec fn spec_frames_to_micros(frames: nat, rate: nat) -> nat {
    if rate == 0 {
        0
    } else {
        (frames * 1_000_000) / rate
    }
}

/// Duration in microseconds of `frames` frames at `rate` Hz, rounded down and
/// saturated at `i64::MAX`.
pub fn frames_to_micros(frames: usize, rate: u32) -> (r: i64)
    requires
        rate > 0,
    ensures
        r == if spec_frames_to_micros(frames as nat, rate as nat) <= i64::MAX {
            spec_frames_to_micros(frames as nat, rate as nat) as int
        } else {
            i64::MAX as int
        },
{
    let total: u128 = frames as u128 * 1_000_000u128;
    let q: u128 = total / rate as u128;
    if q <= i64::MAX as u128 {
        q as i64
    } else {
        i64::MAX
    }
}

impl AudioSample {
    pub fn new(pts: Pts, data: Vec<SampleBits>, sample_rate: u32) -> (r: Self)
        ensures
            r.pts == pts,
            r.data@ == data@,
            r.sample_rate == sample_rate,
    {
        AudioSample { pts, data, sample_rate }
    }

    /// Returns the duration of this audio sample in microseconds (stereo frames
    /// over the sample rate, rounded down).
    pub fn duration(&self) -> (r: i64)
        requires
            self.sample_rate > 0,
        ensures
            r == if spec_frames_to_micros((self.data.len() / 2) as nat, self.sample_rate as nat)
                <= i64::MAX {
                spec_frames_to_micros((self.data.len() / 2) as nat, self.sample_rate as nat) as int
            } else {
                i64::MAX as int
            },
    {
        let num_frames = self.data.len() / 2;
        frames_to_micros(num_frames, self.sample_rate)
    }
}

/// Playback state
#[derive(Debug, Clone, Copy, PartialEq, Eq, Structural)]
pub enum PlaybackState {
    Stopped,
    Playing,
    Paused,
}

impl PlaybackState {
    pub fn is_playing(&self) -> (r: bool)
        ensures
            r == (*self == PlaybackState::Playing),
    {
        matches!(self, PlaybackState::Playing)
    }

    pub fn is_stopped(&self) -> (r: bool)
        ensures
            r == (*self == PlaybackState::Stopped),
    {
        matches!(self, PlaybackState::Stopped)
    }

    pub fn is_paused(&self) -> (r: bool)
        ensures
            r == (*self == PlaybackState::Paused),
    {
        matches!(self, PlaybackState::Paused)
    }

    /// The state as it is listed: "playing", "paused" or "stopped".
    pub open spec fn spec_name(self) -> Seq<char> {
        match self {
            PlaybackState::Playing => "playing"@,
            PlaybackState::Paused => "paused"@,
            PlaybackState::Stopped => "stopped"@,
        }
    }

    pub fn name(&self) -> (r: &'static str)
        ensures
            r@ == self.spec_name(),
    {
        match self {
            PlaybackState::Playing => "playing",
            PlaybackState::Paused => "paused",
            PlaybackState::Stopped => "stopped",
        }
    }
}

} // verus!
