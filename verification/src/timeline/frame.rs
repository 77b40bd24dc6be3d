//! Frames and timestamps of the microsecond timeline.

use vstd::prelude::*;

use crate::types::SampleBits;

verus! {

/// Microseconds per second: the time base of `Microseconds`.
pub const AV_TIME_BASE: i64 = 1_000_000;

/// A timestamp in the units of a stream's time base.
#[derive(Debug, Clone, Copy, PartialEq, Eq, Structural, PartialOrd, Ord, Hash)]
pub struct TimebaseUnits(pub i64);

/// A timestamp in microseconds.
#[derive(Debug, Clone, Copy, PartialEq, Eq, Structural, PartialOrd, Ord, Hash)]
pub struct Microseconds(pub i64);

impl Microseconds {
    pub fn new(value: i64) -> (r: Self)
        ensures
            r.0 == value,
    {
        Microseconds(value)
    }
}

/// Pixel data of a decoded frame.
pub enum FrameData {
    YUV {
        y: Vec<u8>,
        u: Vec<u8>,
        v: Vec<u8>,
        stride_y: usize,
        stride_u: usize,
        stride_v: usize,
    },
    /// interleaved RGBA
    RGBA { bytes: Vec<u8> },
    /// interleaved BGRA
    BGRA { bytes: Vec<u8> },
    /// bi-planar YUV
    NV12 { y: Vec<u8>, uv: Vec<u8>, stride_y: usize, stride_uv: usize },
}

/// Pixel data as plain values.
pub ghost enum FrameDataView {
    YUV {
        y: Seq<u8>,
        u: Seq<u8>,
        v: Seq<u8>,
        stride_y: usize,
        stride_u: usize,
        stride_v: usize,
    },
    RGBA { bytes: Seq<u8> },
    BGRA { bytes: Seq<u8> },
    NV12 { y: Seq<u8>, uv: Seq<u8>, stride_y: usize, stride_uv: usize },
}

impl View for FrameData {
    type V = FrameDataView;

    open spec fn view(&self) -> FrameDataView {
        match self {
            FrameData::YUV { y, u, v, stride_y, stride_u, stride_v } => FrameDataView::YUV {
                y: y@,
                u: u@,
                v: v@,
                stride_y: *stride_y,
                stride_u: *stride_u,
                stride_v: *stride_v,
            },
            FrameData::RGBA { bytes } => FrameDataView::RGBA { bytes: bytes@ },
            FrameData::BGRA { bytes } => FrameDataView::BGRA { bytes: bytes@ },
            FrameData::NV12 { y, uv, stride_y, stride_uv } => FrameDataView::NV12 {
                y: y@,
                uv: uv@,
                stride_y: *stride_y,
                stride_uv: *stride_uv,
            },
        }
    }
}

fn copy_bytes(v: &Vec<u8>) -> (r: Vec<u8>)
    ensures
        r@ == v@,
{
    let r = v.clone();
    assert(r@ =~= v@);
    r
}

impl Clone for FrameData {
    fn clone(&self) -> (r: Self)
        ensures
            r@ == self@,
    {
        match self {
            FrameData::YUV { y, u, v, stride_y, stride_u, stride_v } => FrameData::YUV {
                y: copy_bytes(y),
                u: copy_bytes(u),
                v: copy_bytes(v),
                stride_y: *stride_y,
                stride_u: *stride_u,
                stride_v: *stride_v,
            },
            FrameData::RGBA { bytes } => FrameData::RGBA { bytes: copy_bytes(bytes) },
            FrameData::BGRA { bytes } => FrameData::BGRA { bytes: copy_bytes(bytes) },
            FrameData::NV12 { y, uv, stride_y, stride_uv } => FrameData::NV12 {
                y: copy_bytes(y),
                uv: copy_bytes(uv),
                stride_y: *stride_y,
                stride_uv: *stride_uv,
            },
        }
    }
}

impl FrameData {
    pub fn new_yuv(
        y: Vec<u8>,
        u: Vec<u8>,
        v: Vec<u8>,
        stride_y: usize,
        stride_u: usize,
        stride_v: usize,
    ) -> (r: Self)
        ensures
            r@ == (FrameDataView::YUV { y: y@, u: u@, v: v@, stride_y, stride_u, stride_v }),
    {
        FrameData::YUV { y, u, v, stride_y, stride_u, stride_v }
    }

    pub fn new_rgba(bytes: Vec<u8>) -> (r: Self)
        ensures
            r@ == (FrameDataView::RGBA { bytes: bytes@ }),
    {
        FrameData::RGBA { bytes }
    }

    pub fn new_bgra(bytes: Vec<u8>) -> (r: Self)
        ensures
            r@ == (FrameDataView::BGRA { bytes: bytes@ }),
    {
        FrameData::BGRA { bytes }
    }

    pub fn new_nv12(y: Vec<u8>, uv: Vec<u8>, stride_y: usize, stride_uv: usize) -> (r: Self)
        ensures
            r@ == (FrameDataView::NV12 { y: y@, uv: uv@, stride_y, stride_uv }),
    {
        FrameData::NV12 { y, uv, stride_y, stride_uv }
    }

    /// Whether this frame data is held by the GPU (never, on this platform).
    pub fn is_cvpixelbuffer(&self) -> (r: bool)
        ensures
            !r,
    {
        false
    }

    /// The pixel format name for this frame data
    pub fn format_name(&self) -> (r: &'static str)
        ensures
            r@ == match self@ {
                FrameDataView::YUV { .. } => "YUV420p"@,
                FrameDataView::RGBA { .. } => "RGBA"@,
                FrameDataView::BGRA { .. } => "BGRA"@,
                FrameDataView::NV12 { .. } => "NV12"@,
            },
    {
        match self {
            FrameData::YUV { .. } => "YUV420p",
            FrameData::RGBA { .. } => "RGBA",
            FrameData::BGRA { .. } => "BGRA",
            FrameData::NV12 { .. } => "NV12",
        }
    }
}

/// A frame as it comes out of a decoder, stamped in stream time-base units.
pub struct ExtractedFrame {
    pub pts: TimebaseUnits,
    pub width: u32,
    pub height: u32,
    pub data: FrameData,
}

/// An extracted frame as plain values.
pub ghost struct ExtractedFrameView {
    pub pts: TimebaseUnits,
    pub width: u32,
    pub height: u32,
    pub data: FrameDataView,
}

impl View for ExtractedFrame {
    type V = ExtractedFrameView;

    open spec fn view(&self) -> ExtractedFrameView {
        ExtractedFrameView {
            pts: self.pts,
            width: self.width,
            height: self.height,
            data: self.data@,
        }
    }
}

impl Clone for ExtractedFrame {
    fn clone(&self) -> (r: Self)
        ensures
            r@ == self@,
    {
        ExtractedFrame {
            pts: self.pts,
            width: self.width,
            height: self.height,
            data: self.data.clone(),
        }
    }
}

impl ExtractedFrame {
    pub fn new(pts: TimebaseUnits, width: u32, height: u32, data: FrameData) -> (r: Self)
        ensures
            r@ == (ExtractedFrameView { pts, width, height, data: data@ }),
    {
        ExtractedFrame { pts, width, height, data }
    }
}

/// Decoded audio, stamped in stream time-base units.
pub struct ExtractedAudioFrame {
    pub pts: TimebaseUnits,
    pub samples: Vec<SampleBits>,
    pub sample_rate: u32,
    pub channels: u16,
}

/// A decoded frame on the microsecond timeline.
pub struct VideoFrame {
    /// PTS in microseconds
    pub pts: Microseconds,
    pub extracted_frame: ExtractedFrame,
}

/// A frame on the timeline as plain values.
pub ghost struct VideoFrameView {
    pub pts: Microseconds,
    pub extracted_frame: ExtractedFrameView,
}

impl View for VideoFrame {
    type V = VideoFrameView;

    open spec fn view(&self) -> VideoFrameView {
        VideoFrameView { pts: self.pts, extracted_frame: self.extracted_frame@ }
    }
}

impl Clone for VideoFrame {
    fn clone(&self) -> (r: Self)
        ensures
            r@ == self@,
    {
        VideoFrame { pts: self.pts, extracted_frame: self.extracted_frame.clone() }
    }
}

impl VideoFrame {
    pub fn pts(&self) -> (r: Microseconds)
        ensures
            r == self.pts,
    {
        self.pts
    }

    pub fn width(&self) -> (r: u32)
        ensures
            r == self.extracted_frame.width,
    {
        self.extracted_frame.width
    }

    pub fn height(&self) -> (r: u32)
        ensures
            r == self.extracted_frame.height,
    {
        self.extracted_frame.height
    }

    pub fn data(&self) -> (r: &FrameData)
        ensures
            r@ == self.extracted_frame.data@,
    {
        &self.extracted_frame.data
    }
}

} // verus!
