//! Frames of raw RGB pixels, the dimensions of a stream of them, and the
//! errors of playback.
use vstd::prelude::*;

verus! {

/// Why playback stopped short of the end of the stream.
#[derive(Debug)]
pub enum PlaybackError {
    /// The width and height of the video could not be resolved.
    MetadataUnavailable,
    /// The stream ended in the middle of a frame.
    TruncatedFrame,
    /// The resolution divisor leaves no pixel in one of the dimensions.
    DegenerateResize,
    /// Reading the stream failed; the message of the failure.
    IoFailure(String),
}

proof fn lemma_frame_size_fits(width: u32, height: u32)
    ensures
        width * height * 3 <= u128::MAX,
{
    assert(width * height <= u32::MAX * u32::MAX) by (nonlinear_arith)
        requires width <= u32::MAX, height <= u32::MAX, 0 <= width, 0 <= height;
}

/// The dimensions of every frame of a video stream.
#[derive(Debug, Clone, Copy, PartialEq, Eq, Structural)]
pub struct StreamInfo {
    pub width: u32,
    pub height: u32,
}

impl StreamInfo {
    /// Both dimensions are positive and a frame's byte count fits in `usize`.
    pub open spec fn wf(&self) -> bool {
        &&& self.width > 0
        &&& self.height > 0
        &&& self.width * self.height * 3 <= usize::MAX
    }

    /// Number of bytes of one frame: three a pixel.
    pub open spec fn frame_len(&self) -> nat {
        (self.width * self.height * 3) as nat
    }

    /// Dimensions of a stream, if both are positive and a frame of them fits
    /// in memory.
    pub fn new(width: u32, height: u32) -> (r: Option<StreamInfo>)
        ensures
            r is Some <==> (width > 0 && height > 0 && width * height * 3 <= usize::MAX),
            r matches Some(info) ==> info.width == width && info.height == height && info.wf(),
    {
        proof { lemma_frame_size_fits(width, height); }
        let size: u128 = (width as u128) * (height as u128) * 3;
        if width == 0 || height == 0 || size > usize::MAX as u128 {
            None
        } else {
            Some(StreamInfo { width, height })
        }
    }

    /// Number of bytes of one frame.
    pub fn frame_byte_size(&self) -> (n: usize)
        requires
            self.wf(),
        ensures
            n == self.frame_len(),
    {
        (self.width as usize) * (self.height as usize) * 3
    }
}

/// One frame: `width * height` pixels, row-major, three bytes (R, G, B) each.
pub struct RawFrame {
    width: u32,
    height: u32,
    bytes: Vec<u8>,
}

/// What a frame holds.
pub struct FrameView {
    pub width: nat,
    pub height: nat,
    pub bytes: Seq<u8>,
}

impl View for RawFrame {
    type V = FrameView;

    closed spec fn view(&self) -> FrameView {
        FrameView { width: self.width as nat, height: self.height as nat, bytes: self.bytes@ }
    }
}

impl RawFrame {
    /// Both dimensions are positive and the buffer holds exactly three bytes
    /// a pixel.
    pub open spec fn wf(&self) -> bool {
        &&& self@.width > 0
        &&& self@.height > 0
        &&& self@.width <= u32::MAX
        &&& self@.height <= u32::MAX
        &&& self@.bytes.len() == self@.width * self@.height * 3
    }

    /// A frame over `bytes`, if their number is exactly three a pixel.
    pub fn from_raw(width: u32, height: u32, bytes: Vec<u8>) -> (r: Option<RawFrame>)
        ensures
            r is Some <==> (width > 0 && height > 0 && bytes@.len() == width * height * 3),
            r matches Some(f) ==> f.wf() && f@.width == width && f@.height == height
                && f@.bytes == bytes@,
    {
        proof { lemma_frame_size_fits(width, height); }
        let size: u128 = (width as u128) * (height as u128) * 3;
        if width == 0 || height == 0 || bytes.len() as u128 != size {
            None
        } else {
            Some(RawFrame { width, height, bytes })
        }
    }

    pub fn width(&self) -> (w: u32)
        ensures
            w == self@.width,
    {
        self.width
    }

    pub fn height(&self) -> (h: u32)
        ensures
            h == self@.height,
    {
        self.height
    }

    pub fn bytes(&self) -> (b: &Vec<u8>)
        ensures
            b@ == self@.bytes,
    {
        &self.bytes
    }
}

} // verus!
