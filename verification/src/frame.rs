use vstd::prelude::*;

verus! {

/// One access unit's worth of coded video data: the contained NAL units,
/// each re-prefixed with the canonical four-byte start code, plus a
/// presentation and a decode timestamp.  The demuxer assigns both
/// timestamps the sequential output index of the frame.
#[derive(Debug)]
pub struct Frame {
    pub data: Vec<u8>,
    pub pts: u64,
    pub dts: u64,
}

/// An application-defined failure carried in-band through the frame queue,
/// so that a producer-side error is observed by the consumer at the exact
/// position in the stream where it occurred.  The queue never interprets it.
#[derive(Debug)]
pub struct StreamError {
    pub message: String,
}

/// The element type flowing through the frame queue: a frame, or an
/// in-band error at its position in the stream.
pub type FrameResult = Result<Frame, StreamError>;

/// The fatal error of a demux run: the access-unit boundary detector could
/// not classify the NAL unit at `nalu_index` (in split order), so the whole
/// run aborts and no frames are produced.
#[derive(Debug)]
pub struct DemuxError {
    pub nalu_index: usize,
}

} // verus!
