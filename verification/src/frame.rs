//! One decoded video frame.

use vstd::prelude::*;

verus! {

/// A frame awaiting presentation. It owns its two planes until they are handed
/// on or go back to the pool.
pub struct VideoFrame {
    /// Luma plane, one element per pixel.
    pub y_data: Vec<u32>,
    /// Chroma plane, one element per block of two by two pixels.
    pub uv_data: Vec<u32>,
    /// Presentation time in microseconds.
    pub timestamp_us: u128,
}

/// What a frame holds, as plain values.
pub struct FrameView {
    pub y_data: Seq<u32>,
    pub uv_data: Seq<u32>,
    pub timestamp_us: u128,
}

impl View for VideoFrame {
    type V = FrameView;

    open spec fn view(&self) -> FrameView {
        FrameView { y_data: self.y_data@, uv_data: self.uv_data@, timestamp_us: self.timestamp_us }
    }
}

/// The frames of a sequence, each as plain values.
pub open spec fn frame_views(frames: Seq<VideoFrame>) -> Seq<FrameView> {
    Seq::new(frames.len(), |i: int| frames[i]@)
}

} // verus!
