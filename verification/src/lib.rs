//! Core of a video playback pipeline: plane buffer recycling, demultiplexing of
//! decoded frame groups, the queue of frames awaiting presentation, and the
//! session that schedules decode requests and paces presentation.

pub mod demux;
pub mod frame;
pub mod nv12;
pub mod pool;
pub mod ring;
pub mod session;
