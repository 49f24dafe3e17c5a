//! One playback session: when to ask the decoder for more, and when the head
//! of the queue is due.
//!
//! The session performs no outside work. Its host feeds it four events (a
//! timer wake-up with a clock reading, the decoder's metadata, the decoder's
//! notice that a chunk is decoded, and a stream of frame groups) and carries
//! out what each call hands back: a request to the decoder, a timer to start,
//! a frame to present.

use crate::demux::{demux_frame_groups, frames_from, skipped_from};
use crate::frame::{FrameView, VideoFrame};
use crate::pool::{after_acquires, VecPool};
use crate::ring::{after_pop, next_pop, RingBuffer};
use vstd::prelude::*;

verus! {

/// Below this many queued frames a session whose last chunk is decoded asks
/// for the next.
pub const LOW_WATERMARK: usize = 10;

/// While a chunk is being decoded, frames are presented only with more than
/// this many queued.
pub const SAFETY_MARGIN: usize = 5;

/// Frames asked for with the first chunk.
pub const FIRST_CHUNK_FRAMES: usize = 45;

/// Frames asked for with each later chunk, and with each fetch.
pub const CHUNK_FRAMES: usize = 30;

/// Where the session stands with the decoder.
#[derive(Debug, Clone, Copy, PartialEq, Eq, Structural)]
pub enum DecodingState {
    /// No metadata has arrived yet.
    NotStarted,
    /// Nothing asked for, nothing decoded.
    Idle,
    /// A chunk was asked for and is not decoded yet.
    Decoding,
    /// The chunk asked for last is decoded.
    Finished,
}

impl Default for DecodingState {
    fn default() -> (state: Self)
        ensures
            state == DecodingState::NotStarted,
    {
        DecodingState::NotStarted
    }
}

/// Pixel layout that the decoder reports.
#[derive(Debug, Clone, Copy, PartialEq, Eq, Structural)]
pub enum VideoColorFormat {
    YUV420Planar,
    YUV420SemiPlanar,
    YUV420Flexible,
    Unknown,
}

/// What the host is to ask of the decoder.
#[derive(Debug, Clone, Copy, PartialEq, Eq, Structural)]
pub enum VideoAction {
    /// Nothing.
    NoAction,
    /// Decode the next chunk of at most `max_frames` frames.
    DecodeNextChunk { max_frames: usize },
    /// Send the frames that are ready, at most `max_frames` of them.
    FetchNextFrames { max_frames: usize },
}

/// Why metadata was refused.
#[derive(Debug, Clone, Copy, PartialEq, Eq, Structural)]
pub enum InitError {
    /// The session has its metadata already.
    AlreadyStarted,
    /// A frame rate of zero gives no frame interval.
    ZeroFrameRate,
}

/// The scalar state of a session.
#[derive(Debug, Clone, Copy, PartialEq, Eq, Structural)]
pub struct SessionState {
    /// Frame width in pixels.
    pub width: usize,
    /// Frame height in pixels.
    pub height: usize,
    /// Length of the video in microseconds.
    pub total_duration: u128,
    /// Frames per second.
    pub frame_rate: usize,
    pub color_format: VideoColorFormat,
    /// Whether playback starts over at the end.
    pub is_looping: bool,
    /// Target presentation timestamp in microseconds.
    pub current_frame_ts: u128,
    /// Microseconds per frame, rounded up.
    pub frame_ts_interval: u128,
    /// Microseconds between two timer wake-ups: half a frame's time.
    pub tick_interval: u64,
    /// Clock reading of the last wake-up that found a frame queued.
    pub last_update: u128,
    /// Playback time in microseconds that has passed.
    pub accumulated_time: u128,
    /// Set when playback has ended; nothing changes afterwards.
    pub playback_finished: bool,
    pub decoding_state: DecodingState,
}

/// What a timer wake-up asks of the host.
pub struct TickOutcome {
    /// Start the timer again with this interval in microseconds; `None` where
    /// the session does not run.
    pub timer_us: Option<u64>,
    /// The frame to present now. Its planes go back through `recycle`.
    pub frame: Option<VideoFrame>,
    /// A frame was to be presented and none was queued.
    pub underrun: bool,
    /// Playback ended with this wake-up.
    pub finished: bool,
    /// The request to pass on to the decoder.
    pub action: VideoAction,
}

/// What accepted metadata asks of the host.
#[derive(Debug, Clone, Copy, PartialEq, Eq, Structural)]
pub struct Started {
    /// Start the timer with this interval in microseconds.
    pub timer_us: u64,
    /// The request to pass on to the decoder.
    pub action: VideoAction,
}

/// An event that the host passes to the session.
pub enum VideoEvent {
    /// The timer has fired; `now_us` is the clock's reading in microseconds.
    Timer { now_us: u128 },
    /// The decoder has read the video's metadata.
    VideoDecodingInitialized {
        video_width: u32,
        video_height: u32,
        frame_rate: usize,
        duration: u128,
        color_format: VideoColorFormat,
    },
    /// The decoder has decoded the chunk asked for.
    VideoChunkDecoded,
    /// The decoder has sent frame groups.
    VideoStream { frame_group: Vec<u8> },
}

/// What an event asks of the host, by the kind of event.
pub enum VideoOutcome {
    Tick(TickOutcome),
    Initialized(Result<Started, InitError>),
    ChunkDecoded(VideoAction),
    Stream { skipped: usize },
}

/// A session as plain values.
pub struct SessionView {
    pub state: SessionState,
    /// The queued frames, head first.
    pub queue: Seq<FrameView>,
    /// The queue's capacity target.
    pub capacity: usize,
    /// The pooled buffers, oldest first.
    pub pool: Seq<Seq<u32>>,
}

/// A playback session: its scalar state, the queue of frames awaiting
/// presentation and the pool their planes come from.
pub struct Video {
    state: SessionState,
    frames_buffer: RingBuffer,
    vec_pool: VecPool,
}

/// `a + b`, held at the largest value.
pub open spec fn saturating_sum(a: u128, b: u128) -> u128 {
    if a + b > u128::MAX {
        u128::MAX
    } else {
        (a + b) as u128
    }
}

/// Microseconds from the clock reading `last` to `now`; zero where the clock
/// went back.
pub open spec fn elapsed_between(last: u128, now: u128) -> u128 {
    if now >= last {
        (now - last) as u128
    } else {
        0
    }
}

/// Microseconds per frame at `frame_rate` frames a second, rounded up.
pub open spec fn frame_interval(frame_rate: usize) -> u128
    recommends
        frame_rate > 0,
{
    if 1_000_000int % (frame_rate as int) == 0 {
        (1_000_000int / (frame_rate as int)) as u128
    } else {
        (1_000_000int / (frame_rate as int) + 1) as u128
    }
}

/// Half of a frame's time in whole microseconds.
pub open spec fn tick_interval(frame_rate: usize) -> u64
    recommends
        frame_rate > 0,
{
    (500_000int / (frame_rate as int)) as u64
}

/// The capacity target: the frames of one chunk of half a second and a fifth
/// more, rounded up.
pub open spec fn capacity_target(frame_rate: usize) -> usize {
    ((frame_rate * 3 + 4) / 5) as usize
}

/// The timestamp of the head of a queue.
pub open spec fn head_timestamp(queue: Seq<FrameView>) -> Option<u128> {
    match next_pop(queue) {
        Some(f) => Some(f.timestamp_us),
        None => None,
    }
}

impl SessionState {
    /// The state of a session that has no metadata yet.
    pub open spec fn initial(is_looping: bool, now_us: u128) -> SessionState {
        SessionState {
            width: 0,
            height: 0,
            total_duration: 0,
            frame_rate: 0,
            color_format: VideoColorFormat::Unknown,
            is_looping,
            current_frame_ts: 0,
            frame_ts_interval: 0,
            tick_interval: 0,
            last_update: now_us,
            accumulated_time: 0,
            playback_finished: false,
            decoding_state: DecodingState::NotStarted,
        }
    }

    /// The session reacts to wake-ups: it has its metadata, and playback has
    /// not ended.
    pub open spec fn running(self) -> bool {
        !self.playback_finished && (self.decoding_state == DecodingState::Decoding
            || self.decoding_state == DecodingState::Finished)
    }

    /// A wake-up with `occupancy` frames queued tries to present one.
    pub open spec fn presents(self, occupancy: nat) -> bool {
        self.decoding_state == DecodingState::Finished || (self.decoding_state
            == DecodingState::Decoding && occupancy > SAFETY_MARGIN)
    }

    /// Playback time after a wake-up at `now` that tries to present.
    pub open spec fn time_at(self, now: u128) -> u128 {
        saturating_sum(self.accumulated_time, elapsed_between(self.last_update, now))
    }

    /// A wake-up at `now` that tries to present finds the head frame, of
    /// timestamp `head`, due.
    pub open spec fn due(self, head: Option<u128>, now: u128) -> bool {
        match head {
            Some(ts) => self.time_at(now) >= ts,
            None => false,
        }
    }

    /// The state after a wake-up at `now` has tried to present, with `head`
    /// the timestamp of the head frame.
    pub open spec fn after_presentation(self, head: Option<u128>, now: u128) -> SessionState {
        let time = self.time_at(now);
        match head {
            None => SessionState { accumulated_time: time, ..self },
            Some(ts) => if time < ts {
                SessionState { accumulated_time: time, last_update: now, ..self }
            } else if self.current_frame_ts < self.total_duration {
                SessionState {
                    accumulated_time: time,
                    last_update: now,
                    current_frame_ts: saturating_sum(self.current_frame_ts, self.frame_ts_interval),
                    ..self
                }
            } else if self.is_looping {
                SessionState {
                    accumulated_time: (time - ts) as u128,
                    last_update: now,
                    current_frame_ts: 0,
                    ..self
                }
            } else {
                SessionState {
                    accumulated_time: (time - ts) as u128,
                    last_update: now,
                    playback_finished: true,
                    ..self
                }
            },
        }
    }

    /// With `occupancy` frames queued, the next chunk is to be asked for: the
    /// last one is decoded, and fewer frames are queued than the low
    /// watermark.
    pub open spec fn wants_chunk(self, occupancy: nat) -> bool {
        self.decoding_state == DecodingState::Finished && occupancy < LOW_WATERMARK
    }
}

/// A wake-up at `now` hands the head of `queue` out for presentation.
pub open spec fn tick_presents(s: SessionState, queue: Seq<FrameView>, now: u128) -> bool {
    s.running() && s.presents(queue.len()) && s.due(head_timestamp(queue), now)
}

/// The queue after a wake-up at `now`.
pub open spec fn queue_after_tick(s: SessionState, queue: Seq<FrameView>, now: u128) -> Seq<
    FrameView,
> {
    if tick_presents(s, queue, now) {
        after_pop(queue)
    } else {
        queue
    }
}

/// The state after a wake-up at `now` and before the scheduler's decision.
pub open spec fn state_after_clock(s: SessionState, queue: Seq<FrameView>, now: u128)
    -> SessionState {
    if s.running() && s.presents(queue.len()) {
        s.after_presentation(head_timestamp(queue), now)
    } else {
        s
    }
}

/// A wake-up at `now` asks for the next chunk: the session still runs after
/// the presentation step and then wants one.
pub open spec fn tick_requests(s: SessionState, queue: Seq<FrameView>, now: u128) -> bool {
    let c = state_after_clock(s, queue, now);
    c.running() && c.wants_chunk(queue_after_tick(s, queue, now).len())
}

/// The state after a wake-up at `now`.
pub open spec fn state_after_tick(s: SessionState, queue: Seq<FrameView>, now: u128)
    -> SessionState {
    let c = state_after_clock(s, queue, now);
    if tick_requests(s, queue, now) {
        SessionState { decoding_state: DecodingState::Decoding, ..c }
    } else {
        c
    }
}

/// The metadata is accepted: the session has none yet, and the frame rate is
/// not zero.
pub open spec fn init_outcome(s: SessionState, frame_rate: usize) -> Result<(), InitError> {
    if s.decoding_state != DecodingState::NotStarted {
        Err(InitError::AlreadyStarted)
    } else if frame_rate == 0 {
        Err(InitError::ZeroFrameRate)
    } else {
        Ok(())
    }
}

/// The state after metadata was accepted.
pub open spec fn state_after_init(
    s: SessionState,
    width: u32,
    height: u32,
    frame_rate: usize,
    duration: u128,
    color_format: VideoColorFormat,
) -> SessionState {
    SessionState {
        width: width as usize,
        height: height as usize,
        total_duration: duration,
        frame_rate,
        color_format,
        frame_ts_interval: frame_interval(frame_rate),
        tick_interval: tick_interval(frame_rate),
        decoding_state: DecodingState::Decoding,
        ..s
    }
}

/// What a wake-up at `now_us` owes: the session `pre` has become `post`, and
/// `out` is handed back.
pub open spec fn tick_post(pre: SessionView, now_us: u128, post: SessionView, out: TickOutcome)
    -> bool {
    &&& post.state == state_after_tick(pre.state, pre.queue, now_us)
    &&& post.queue == queue_after_tick(pre.state, pre.queue, now_us)
    &&& post.capacity == pre.capacity
    &&& post.pool == pre.pool
    &&& match out.frame {
        Some(f) => tick_presents(pre.state, pre.queue, now_us) && Some(f@) == next_pop(pre.queue),
        None => !tick_presents(pre.state, pre.queue, now_us),
    }
    &&& out.underrun == (pre.state.running() && pre.state.presents(pre.queue.len())
        && pre.queue.len() == 0)
    &&& out.finished == (!pre.state.playback_finished && post.state.playback_finished)
    &&& out.timer_us == (if post.state.running() {
        Some(pre.state.tick_interval)
    } else {
        None
    })
    &&& out.action == (if tick_requests(pre.state, pre.queue, now_us) {
        VideoAction::DecodeNextChunk { max_frames: CHUNK_FRAMES }
    } else {
        VideoAction::NoAction
    })
}

/// What the arrival of metadata owes.
pub open spec fn init_post(
    pre: SessionView,
    width: u32,
    height: u32,
    frame_rate: usize,
    duration: u128,
    color_format: VideoColorFormat,
    post: SessionView,
    res: Result<Started, InitError>,
) -> bool {
    &&& match res {
        Ok(started) => {
            &&& init_outcome(pre.state, frame_rate) is Ok
            &&& started == (Started {
                timer_us: tick_interval(frame_rate),
                action: VideoAction::DecodeNextChunk { max_frames: FIRST_CHUNK_FRAMES },
            })
            &&& post.state == state_after_init(
                pre.state,
                width,
                height,
                frame_rate,
                duration,
                color_format,
            )
            &&& post.capacity == capacity_target(frame_rate)
        },
        Err(e) => {
            &&& init_outcome(pre.state, frame_rate) == Err::<(), InitError>(e)
            &&& post.state == pre.state
            &&& post.capacity == pre.capacity
        },
    }
    &&& post.queue == pre.queue
    &&& post.pool == pre.pool
}

/// What the notice of a decoded chunk owes.
pub open spec fn chunk_post(pre: SessionView, post: SessionView, action: VideoAction) -> bool {
    &&& pre.state.running() ==> action == (VideoAction::FetchNextFrames {
        max_frames: CHUNK_FRAMES,
    }) && post.state == (SessionState { decoding_state: DecodingState::Finished, ..pre.state })
    &&& !pre.state.running() ==> action == VideoAction::NoAction && post.state == pre.state
    &&& post.queue == pre.queue
    &&& post.capacity == pre.capacity
    &&& post.pool == pre.pool
}

/// What the arrival of a stream of frame groups owes.
pub open spec fn stream_post(pre: SessionView, stream: Seq<u8>, post: SessionView, skipped: usize)
    -> bool {
    &&& post.state == pre.state
    &&& post.capacity == pre.capacity
    &&& pre.state.running() ==> {
        let frames = frames_from(stream, 0, pre.state.width, pre.state.height);
        &&& post.queue == pre.queue + frames
        &&& post.pool == after_acquires(pre.pool, 2 * frames.len())
        &&& skipped == skipped_from(stream, 0, pre.state.width, pre.state.height)
    }
    &&& !pre.state.running() ==> {
        &&& post.queue == pre.queue
        &&& post.pool == pre.pool
        &&& skipped == 0
    }
}

/// What an event owes: what its kind owes, handed back under that kind.
pub open spec fn event_post(pre: SessionView, event: VideoEvent, post: SessionView, out: VideoOutcome)
    -> bool {
    match event {
        VideoEvent::Timer { now_us } => out matches VideoOutcome::Tick(t) && tick_post(
            pre,
            now_us,
            post,
            t,
        ),
        VideoEvent::VideoDecodingInitialized {
            video_width,
            video_height,
            frame_rate,
            duration,
            color_format,
        } => out matches VideoOutcome::Initialized(res) && init_post(
            pre,
            video_width,
            video_height,
            frame_rate,
            duration,
            color_format,
            post,
            res,
        ),
        VideoEvent::VideoChunkDecoded => out matches VideoOutcome::ChunkDecoded(action)
            && chunk_post(pre, post, action),
        VideoEvent::VideoStream { frame_group } => out matches VideoOutcome::Stream { skipped }
            && stream_post(pre, frame_group@, post, skipped),
    }
}

fn add_saturating(a: u128, b: u128) -> (sum: u128)
    ensures
        sum == saturating_sum(a, b),
{
    if a > u128::MAX - b {
        u128::MAX
    } else {
        a + b
    }
}

impl View for Video {
    type V = SessionView;

    closed spec fn view(&self) -> SessionView {
        SessionView {
            state: self.state,
            queue: self.frames_buffer@,
            capacity: self.frames_buffer.spec_capacity(),
            pool: self.vec_pool@,
        }
    }
}

impl Video {
    /// A session without metadata, with an empty queue and an empty pool.
    /// `now_us` is the clock's reading in microseconds.
    pub fn new(is_looping: bool, now_us: u128) -> (session: Self)
        ensures
            session@.state == SessionState::initial(is_looping, now_us),
            session@.queue == Seq::<FrameView>::empty(),
            session@.capacity == 0,
            session@.pool == Seq::<Seq<u32>>::empty(),
    {
        Video {
            state: SessionState {
                width: 0,
                height: 0,
                total_duration: 0,
                frame_rate: 0,
                color_format: VideoColorFormat::Unknown,
                is_looping,
                current_frame_ts: 0,
                frame_ts_interval: 0,
                tick_interval: 0,
                last_update: now_us,
                accumulated_time: 0,
                playback_finished: false,
                decoding_state: DecodingState::NotStarted,
            },
            frames_buffer: RingBuffer::new(),
            vec_pool: VecPool::new(),
        }
    }

    /// The scalar state.
    pub fn state(&self) -> (s: SessionState)
        ensures
            s == self@.state,
    {
        self.state
    }

    /// Number of queued frames.
    pub fn buffered(&self) -> (n: usize)
        ensures
            n == self@.queue.len(),
    {
        self.frames_buffer.len()
    }

    /// The queue's capacity target.
    pub fn capacity(&self) -> (c: usize)
        ensures
            c == self@.capacity,
    {
        self.frames_buffer.capacity()
    }

    /// Number of pooled buffers.
    pub fn pooled(&self) -> (n: usize)
        ensures
            n == self@.pool.len(),
    {
        self.vec_pool.len()
    }

    /// Whether the session reacts to wake-ups.
    pub fn is_running(&self) -> (r: bool)
        ensures
            r == self@.state.running(),
    {
        !self.state.playback_finished && (self.state.decoding_state == DecodingState::Decoding
            || self.state.decoding_state == DecodingState::Finished)
    }

    /// Whether the next chunk is to be asked for. In no state is that an
    /// error: a session that waits for a chunk, or has no metadata, wants none.
    pub fn should_request_decoding(&self) -> (want: bool)
        ensures
            want == self@.state.wants_chunk(self@.queue.len()),
    {
        match self.state.decoding_state {
            DecodingState::Finished => self.frames_buffer.len() < LOW_WATERMARK,
            DecodingState::Decoding => false,
            DecodingState::NotStarted => false,
            DecodingState::Idle => false,
        }
    }

    /// Sets the queue's capacity target from the frame rate.
    fn resize_frames_buffer(&mut self)
        ensures
            final(self)@.capacity == capacity_target(old(self)@.state.frame_rate),
            final(self)@.state == old(self)@.state,
            final(self)@.queue == old(self)@.queue,
            final(self)@.pool == old(self)@.pool,
    {
        let rate: usize = self.state.frame_rate;
        let target: usize = rate / 5 * 3 + (rate % 5 * 3 + 4) / 5;
        self.frames_buffer.set_capacity(target);
    }

    /// The decoder's metadata has arrived. Where the session has none yet and
    /// the frame rate is not zero, it is taken, the capacity target is set, and
    /// the host is told to ask for the first chunk and to start the timer.
    /// Otherwise the session stays as it is.
    pub fn on_decoding_initialized(
        &mut self,
        width: u32,
        height: u32,
        frame_rate: usize,
        duration: u128,
        color_format: VideoColorFormat,
    ) -> (res: Result<Started, InitError>)
        ensures
            init_post(
                old(self)@,
                width,
                height,
                frame_rate,
                duration,
                color_format,
                final(self)@,
                res,
            ),
    {
        if self.state.decoding_state != DecodingState::NotStarted {
            return Err(InitError::AlreadyStarted);
        }
        if frame_rate == 0 {
            return Err(InitError::ZeroFrameRate);
        }
        let whole: usize = 1_000_000 / frame_rate;
        let interval: u128 = if 1_000_000 % frame_rate == 0 {
            whole as u128
        } else {
            whole as u128 + 1
        };
        let timer_us: u64 = (500_000 / frame_rate) as u64;
        self.state.width = width as usize;
        self.state.height = height as usize;
        self.state.frame_rate = frame_rate;
        self.state.total_duration = duration;
        self.state.color_format = color_format;
        self.state.frame_ts_interval = interval;
        self.state.tick_interval = timer_us;
        self.resize_frames_buffer();
        self.state.decoding_state = DecodingState::Decoding;
        Ok(
            Started {
                timer_us,
                action: VideoAction::DecodeNextChunk { max_frames: FIRST_CHUNK_FRAMES },
            },
        )
    }

    /// The decoder has decoded the chunk asked for. A running session notes it
    /// and has the host fetch the frames; any other session ignores the notice.
    pub fn on_chunk_decoded(&mut self) -> (action: VideoAction)
        ensures
            chunk_post(old(self)@, final(self)@, action),
    {
        if !self.is_running() {
            return VideoAction::NoAction;
        }
        self.state.decoding_state = DecodingState::Finished;
        VideoAction::FetchNextFrames { max_frames: CHUNK_FRAMES }
    }

    /// A stream of frame groups has arrived. A running session appends the
    /// frames of its complete groups to the queue, with planes from the pool,
    /// and returns how many groups it passed over; any other session ignores
    /// the stream.
    pub fn on_video_stream(&mut self, stream: &[u8]) -> (skipped: usize)
        ensures
            stream_post(old(self)@, stream@, final(self)@, skipped),
    {
        if !self.is_running() {
            return 0;
        }
        demux_frame_groups(
            stream,
            self.state.width,
            self.state.height,
            &mut self.vec_pool,
            &mut self.frames_buffer,
        )
    }

    /// The presentation step of a wake-up at `now_us`: adds the time since the
    /// last update to the playback time and, where the head frame is due, takes
    /// it from the queue and moves the target timestamp on, starts over or ends
    /// playback. Returns the frame, and whether the queue was empty.
    fn process_tick(&mut self, now_us: u128) -> (out: (Option<VideoFrame>, bool))
        ensures
            final(self)@.state == old(self)@.state.after_presentation(
                head_timestamp(old(self)@.queue),
                now_us,
            ),
            final(self)@.queue == (if old(self)@.state.due(
                head_timestamp(old(self)@.queue),
                now_us,
            ) {
                after_pop(old(self)@.queue)
            } else {
                old(self)@.queue
            }),
            match out.0 {
                Some(f) => old(self)@.state.due(head_timestamp(old(self)@.queue), now_us)
                    && Some(f@) == next_pop(old(self)@.queue),
                None => !old(self)@.state.due(head_timestamp(old(self)@.queue), now_us),
            },
            out.1 == (old(self)@.queue.len() == 0),
            final(self)@.capacity == old(self)@.capacity,
            final(self)@.pool == old(self)@.pool,
    {
        let elapsed: u128 = if now_us >= self.state.last_update {
            now_us - self.state.last_update
        } else {
            0
        };
        let time: u128 = add_saturating(self.state.accumulated_time, elapsed);
        self.state.accumulated_time = time;
        match self.frames_buffer.head_timestamp() {
            None => (None, true),
            Some(ts) => {
                self.state.last_update = now_us;
                if time < ts {
                    return (None, false);
                }
                let frame = self.frames_buffer.get();
                if self.state.current_frame_ts < self.state.total_duration {
                    self.state.current_frame_ts = add_saturating(
                        self.state.current_frame_ts,
                        self.state.frame_ts_interval,
                    );
                } else {
                    if self.state.is_looping {
                        self.state.current_frame_ts = 0;
                    } else {
                        self.state.playback_finished = true;
                    }
                    self.state.accumulated_time = time - ts;
                }
                (frame, false)
            },
        }
    }

    /// A timer wake-up at the clock reading `now_us`. A running session first
    /// tries to present (where the last chunk is decoded, or more frames are
    /// queued than the safety margin), then asks for the next chunk where it
    /// wants one, and has the timer started again unless playback just ended.
    /// Any other session ignores the wake-up.
    pub fn on_tick(&mut self, now_us: u128) -> (out: TickOutcome)
        ensures
            tick_post(old(self)@, now_us, final(self)@, out),
    {
        if !self.is_running() {
            return TickOutcome {
                timer_us: None,
                frame: None,
                underrun: false,
                finished: false,
                action: VideoAction::NoAction,
            };
        }
        let mut frame: Option<VideoFrame> = None;
        let mut underrun: bool = false;
        if self.state.decoding_state == DecodingState::Finished || (self.state.decoding_state
            == DecodingState::Decoding && self.frames_buffer.len() > SAFETY_MARGIN) {
            let (presented, empty) = self.process_tick(now_us);
            frame = presented;
            underrun = empty;
        }
        if self.state.playback_finished {
            return TickOutcome {
                timer_us: None,
                frame,
                underrun,
                finished: true,
                action: VideoAction::NoAction,
            };
        }
        let mut action = VideoAction::NoAction;
        if self.should_request_decoding() {
            self.state.decoding_state = DecodingState::Decoding;
            action = VideoAction::DecodeNextChunk { max_frames: CHUNK_FRAMES };
        }
        TickOutcome {
            timer_us: Some(self.state.tick_interval),
            frame,
            underrun,
            finished: false,
            action,
        }
    }

    /// Handles one event to completion, by its kind, and hands back what the
    /// host is to do.
    pub fn handle_event_with(&mut self, event: &VideoEvent) -> (out: VideoOutcome)
        ensures
            event_post(old(self)@, *event, final(self)@, out),
    {
        match event {
            VideoEvent::Timer { now_us } => VideoOutcome::Tick(self.on_tick(*now_us)),
            VideoEvent::VideoDecodingInitialized {
                video_width,
                video_height,
                frame_rate,
                duration,
                color_format,
            } => VideoOutcome::Initialized(
                self.on_decoding_initialized(
                    *video_width,
                    *video_height,
                    *frame_rate,
                    *duration,
                    *color_format,
                ),
            ),
            VideoEvent::VideoChunkDecoded => VideoOutcome::ChunkDecoded(self.on_chunk_decoded()),
            VideoEvent::VideoStream { frame_group } => VideoOutcome::Stream {
                skipped: self.on_video_stream(frame_group.as_slice()),
            },
        }
    }

    /// Takes the planes of a presented frame back into the pool: the luma
    /// plane first, then the chroma plane.
    pub fn recycle(&mut self, frame: VideoFrame)
        ensures
            final(self)@.pool == old(self)@.pool.push(frame@.y_data).push(frame@.uv_data),
            final(self)@.state == old(self)@.state,
            final(self)@.queue == old(self)@.queue,
            final(self)@.capacity == old(self)@.capacity,
    {
        self.vec_pool.release(frame.y_data);
        self.vec_pool.release(frame.uv_data);
    }
}

/// Watermark scheduling. A wake-up that finds a running session with its
/// last chunk decoded and fewer frames queued than the low watermark, and
/// that does not end playback, asks for the next chunk and leaves the session
/// waiting for it. While the session waits, no wake-up asks again, whatever is
/// queued and whenever it comes.
pub proof fn lemma_watermark_scheduling(
    s: SessionState,
    queue: Seq<FrameView>,
    now: u128,
    waiting: SessionState,
    later_queue: Seq<FrameView>,
    later: u128,
)
    requires
        s.running(),
        s.decoding_state == DecodingState::Finished,
        queue.len() < LOW_WATERMARK,
        !state_after_clock(s, queue, now).playback_finished,
        waiting.decoding_state == DecodingState::Decoding,
    ensures
        tick_requests(s, queue, now),
        state_after_tick(s, queue, now).decoding_state == DecodingState::Decoding,
        !tick_requests(waiting, later_queue, later),
        state_after_tick(waiting, later_queue, later).decoding_state == DecodingState::Decoding,
{
}

/// The end of the video. A wake-up of a running session that presents a frame
/// while the target timestamp has reached the total duration either starts
/// over, where the session loops (the frame is handed out, the target
/// timestamp is zero again, and the session still runs), or ends playback.
pub proof fn lemma_looping_boundary(s: SessionState, queue: Seq<FrameView>, now: u128)
    requires
        tick_presents(s, queue, now),
        s.current_frame_ts >= s.total_duration,
    ensures
        s.is_looping ==> state_after_tick(s, queue, now).current_frame_ts == 0
            && state_after_tick(s, queue, now).running(),
        !s.is_looping ==> state_after_tick(s, queue, now).playback_finished,
        queue_after_tick(s, queue, now) == queue.drop_first(),
{
}

/// Once playback has ended, a wake-up changes nothing: no frame is handed
/// out, no chunk asked for, and playback stays ended.
pub proof fn lemma_finished_is_final(s: SessionState, queue: Seq<FrameView>, now: u128)
    requires
        s.playback_finished,
    ensures
        state_after_tick(s, queue, now) == s,
        queue_after_tick(s, queue, now) == queue,
        !tick_presents(s, queue, now),
        !tick_requests(s, queue, now),
{
}

/// Playback time never goes back except at the end of the video: a wake-up
/// of a session whose target timestamp has not reached the total duration
/// leaves the playback time where it was or later.
pub proof fn lemma_time_advances(s: SessionState, queue: Seq<FrameView>, now: u128)
    requires
        s.current_frame_ts < s.total_duration,
    ensures
        state_after_tick(s, queue, now).accumulated_time >= s.accumulated_time,
        state_after_tick(s, queue, now).playback_finished == s.playback_finished,
{
}

} // verus!
