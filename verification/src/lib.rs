//! A synchronization and framing layer for feeding coded video to a
//! pull-based decoding stage: a bounded, blocking single-producer /
//! single-consumer frame queue, and a demuxer that turns a raw Annex-B
//! byte stream into access-unit-aligned frames.

pub mod demux;
pub mod frame;
pub mod queue;

pub use demux::read_frames;
pub use frame::{DemuxError, Frame, FrameResult, StreamError};
pub use queue::{fifo_round_trip, push_under_pressure, DecoderInputQueue, DecoderInputQueueProducer};
