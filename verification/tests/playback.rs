use video_playback::session::{
    DecodingState, InitError, Started, Video, VideoAction, VideoColorFormat, VideoEvent,
    VideoOutcome, CHUNK_FRAMES, FIRST_CHUNK_FRAMES, LOW_WATERMARK, SAFETY_MARGIN,
};

const START: u128 = 1_000;

fn frames(stamps: &[u64]) -> Vec<u8> {
    let mut bytes = Vec::new();
    for (i, ts) in stamps.iter().enumerate() {
        bytes.extend_from_slice(&ts.to_be_bytes());
        bytes.extend_from_slice(&2u32.to_be_bytes());
        bytes.extend_from_slice(&2u32.to_be_bytes());
        bytes.extend_from_slice(&6u32.to_be_bytes());
        bytes.extend_from_slice(&[i as u8, 1, 2, 3, 4, 5]);
    }
    bytes
}

fn started(is_looping: bool, frame_rate: usize, duration: u128) -> Video {
    let mut session = Video::new(is_looping, START);
    let res = session.on_decoding_initialized(
        2,
        2,
        frame_rate,
        duration,
        VideoColorFormat::YUV420SemiPlanar,
    );
    assert!(res.is_ok());
    session
}

fn decoded_with(is_looping: bool, duration: u128, stamps: &[u64]) -> Video {
    let mut session = started(is_looping, 30, duration);
    assert_eq!(
        session.on_chunk_decoded(),
        VideoAction::FetchNextFrames { max_frames: 30 }
    );
    assert_eq!(session.on_video_stream(&frames(stamps)), 0);
    assert_eq!(session.buffered(), stamps.len());
    session
}

#[test]
fn new_session_waits_for_metadata() {
    let mut session = Video::new(true, START);
    let state = session.state();
    assert_eq!(state.decoding_state, DecodingState::NotStarted);
    assert!(state.is_looping);
    assert!(!state.playback_finished);
    assert_eq!(state.last_update, START);
    assert_eq!(state.accumulated_time, 0);
    assert_eq!(state.current_frame_ts, 0);
    assert!(!session.is_running());
    assert!(!session.should_request_decoding());
    assert_eq!(session.buffered(), 0);
    assert_eq!(session.pooled(), 0);
    assert_eq!(session.capacity(), 0);
    let out = session.on_tick(START + 5);
    assert_eq!(out.timer_us, None);
    assert!(out.frame.is_none());
    assert!(!out.underrun);
    assert!(!out.finished);
    assert_eq!(out.action, VideoAction::NoAction);
    assert_eq!(session.state(), state);
}

#[test]
fn events_before_metadata_are_ignored() {
    let mut session = Video::new(false, START);
    let before = session.state();
    assert_eq!(session.on_chunk_decoded(), VideoAction::NoAction);
    assert_eq!(session.on_video_stream(&frames(&[0, 1])), 0);
    assert_eq!(session.buffered(), 0);
    assert_eq!(session.state(), before);
}

#[test]
fn metadata_starts_decoding() {
    let mut session = Video::new(false, START);
    let res =
        session.on_decoding_initialized(640, 480, 30, 5_000_000, VideoColorFormat::YUV420Planar);
    assert_eq!(
        res,
        Ok(Started { timer_us: 16_666, action: VideoAction::DecodeNextChunk { max_frames: 45 } })
    );
    assert_eq!(FIRST_CHUNK_FRAMES, 45);
    let state = session.state();
    assert_eq!(state.width, 640);
    assert_eq!(state.height, 480);
    assert_eq!(state.frame_rate, 30);
    assert_eq!(state.total_duration, 5_000_000);
    assert_eq!(state.color_format, VideoColorFormat::YUV420Planar);
    assert_eq!(state.frame_ts_interval, 33_334);
    assert_eq!(state.tick_interval, 16_666);
    assert_eq!(state.decoding_state, DecodingState::Decoding);
    assert_eq!(session.capacity(), 18);
    assert!(session.is_running());
}

#[test]
fn zero_frame_rate_is_refused() {
    let mut session = Video::new(false, START);
    let before = session.state();
    let res = session.on_decoding_initialized(2, 2, 0, 10, VideoColorFormat::Unknown);
    assert_eq!(res, Err(InitError::ZeroFrameRate));
    assert_eq!(session.state(), before);
    assert_eq!(session.capacity(), 0);
    assert!(session
        .on_decoding_initialized(2, 2, 24, 10, VideoColorFormat::Unknown)
        .is_ok());
}

#[test]
fn metadata_is_taken_once() {
    let mut session = started(false, 30, 1_000_000);
    let before = session.state();
    let res = session.on_decoding_initialized(8, 8, 60, 77, VideoColorFormat::YUV420Flexible);
    assert_eq!(res, Err(InitError::AlreadyStarted));
    let again = session.on_decoding_initialized(8, 8, 0, 77, VideoColorFormat::YUV420Flexible);
    assert_eq!(again, Err(InitError::AlreadyStarted));
    assert_eq!(session.state(), before);
    assert_eq!(session.capacity(), 18);
}

#[test]
fn capacity_target_by_frame_rate() {
    for (rate, want) in [(1usize, 1usize), (5, 3), (24, 15), (25, 15), (30, 18), (60, 36), (61, 37)]
    {
        assert_eq!(started(false, rate, 1).capacity(), want);
    }
    let huge = started(false, usize::MAX, 1);
    assert_eq!(huge.capacity(), usize::MAX / 5 * 3 + ((usize::MAX % 5) * 3 + 4) / 5);
}

#[test]
fn intervals_by_frame_rate() {
    for (rate, frame, tick) in [
        (1usize, 1_000_000u128, 500_000u64),
        (7, 142_858, 71_428),
        (25, 40_000, 20_000),
        (30, 33_334, 16_666),
        (60, 16_667, 8_333),
        (1_000_000, 1, 0),
        (3_000_000, 1, 0),
    ] {
        let state = started(false, rate, 1).state();
        assert_eq!(state.frame_ts_interval, frame);
        assert_eq!(state.tick_interval, tick);
    }
}

#[test]
fn chunk_decoded_asks_for_frames() {
    let mut session = started(false, 30, 1_000_000);
    assert_eq!(
        session.on_chunk_decoded(),
        VideoAction::FetchNextFrames { max_frames: CHUNK_FRAMES }
    );
    assert_eq!(session.state().decoding_state, DecodingState::Finished);
    assert_eq!(
        session.on_chunk_decoded(),
        VideoAction::FetchNextFrames { max_frames: 30 }
    );
    assert_eq!(session.state().decoding_state, DecodingState::Finished);
}

#[test]
fn stream_fills_the_queue() {
    let mut session = started(false, 30, 1_000_000);
    let mut bytes = frames(&[0, 33_334]);
    bytes.extend_from_slice(&7u64.to_be_bytes());
    bytes.extend_from_slice(&[0, 0, 0, 2, 0, 0, 0, 2, 0, 0, 0, 1, 9]);
    bytes.extend_from_slice(&frames(&[66_668]));
    assert_eq!(session.on_video_stream(&bytes), 1);
    assert_eq!(session.buffered(), 3);
    assert_eq!(session.state().decoding_state, DecodingState::Decoding);
}

#[test]
fn low_occupancy_requests_one_chunk() {
    let mut session = decoded_with(false, 1_000_000, &[900_000, 900_001, 900_002]);
    assert!(session.should_request_decoding());
    let out = session.on_tick(START + 10);
    assert_eq!(out.action, VideoAction::DecodeNextChunk { max_frames: 30 });
    assert_eq!(out.timer_us, Some(16_666));
    assert!(out.frame.is_none());
    assert_eq!(session.state().decoding_state, DecodingState::Decoding);
    assert!(!session.should_request_decoding());
    for step in 2..6u128 {
        let out = session.on_tick(START + 10 * step);
        assert_eq!(out.action, VideoAction::NoAction);
        assert_eq!(session.state().decoding_state, DecodingState::Decoding);
    }
}

#[test]
fn healthy_occupancy_requests_nothing() {
    let stamps: Vec<u64> = (0..10).map(|i| 900_000 + i).collect();
    assert_eq!(LOW_WATERMARK, 10);
    let mut session = decoded_with(false, 1_000_000, &stamps);
    assert!(!session.should_request_decoding());
    let out = session.on_tick(START + 10);
    assert_eq!(out.action, VideoAction::NoAction);
    assert_eq!(session.state().decoding_state, DecodingState::Finished);
    assert_eq!(out.timer_us, Some(16_666));
}

#[test]
fn occupancy_is_judged_after_the_pop() {
    let stamps: Vec<u64> = (0..10).collect();
    let mut session = decoded_with(false, 1_000_000, &stamps);
    let out = session.on_tick(START + 5);
    assert_eq!(out.frame.unwrap().timestamp_us, 0);
    assert_eq!(session.buffered(), 9);
    assert_eq!(out.action, VideoAction::DecodeNextChunk { max_frames: 30 });
    assert_eq!(session.state().decoding_state, DecodingState::Decoding);
}

#[test]
fn no_presentation_within_the_safety_margin() {
    assert_eq!(SAFETY_MARGIN, 5);
    let mut session = started(false, 30, 1_000_000);
    assert_eq!(session.on_video_stream(&frames(&[0, 1, 2, 3, 4])), 0);
    let before = session.state();
    let out = session.on_tick(START + 100);
    assert!(out.frame.is_none());
    assert!(!out.underrun);
    assert_eq!(session.buffered(), 5);
    assert_eq!(session.state(), before);
    assert_eq!(session.on_video_stream(&frames(&[5])), 0);
    let out = session.on_tick(START + 100);
    assert_eq!(out.frame.unwrap().timestamp_us, 0);
    assert_eq!(session.buffered(), 5);
    assert_eq!(session.state().accumulated_time, 100);
    assert_eq!(session.state().last_update, START + 100);
}

#[test]
fn frame_waits_until_it_is_due() {
    let mut session = decoded_with(false, 1_000_000, &[500, 600]);
    let out = session.on_tick(START + 499);
    assert!(out.frame.is_none());
    assert!(!out.underrun);
    assert_eq!(session.buffered(), 2);
    assert_eq!(session.state().accumulated_time, 499);
    assert_eq!(session.state().last_update, START + 499);
    assert_eq!(session.state().current_frame_ts, 0);
    let _ = session.on_chunk_decoded();
    let out = session.on_tick(START + 500);
    let frame = out.frame.unwrap();
    assert_eq!(frame.timestamp_us, 500);
    assert_eq!(frame.y_data.len(), 4);
    assert_eq!(frame.uv_data.len(), 1);
    assert_eq!(session.buffered(), 1);
    assert_eq!(session.state().accumulated_time, 500);
    assert_eq!(session.state().current_frame_ts, 33_334);
    let _ = session.on_chunk_decoded();
    let out = session.on_tick(START + 600);
    assert_eq!(out.frame.unwrap().timestamp_us, 600);
    assert_eq!(session.state().current_frame_ts, 66_668);
}

#[test]
fn empty_queue_is_an_underrun() {
    let mut session = decoded_with(false, 1_000_000, &[]);
    let out = session.on_tick(START + 100);
    assert!(out.underrun);
    assert!(out.frame.is_none());
    assert!(!out.finished);
    assert_eq!(out.action, VideoAction::DecodeNextChunk { max_frames: 30 });
    assert_eq!(session.state().accumulated_time, 100);
    assert_eq!(session.state().last_update, START);
    let _ = session.on_chunk_decoded();
    let out = session.on_tick(START + 150);
    assert!(out.underrun);
    assert_eq!(session.state().accumulated_time, 250);
}

#[test]
fn clock_that_goes_back_adds_nothing() {
    let mut session = decoded_with(false, 1_000_000, &[0]);
    let out = session.on_tick(START - 1);
    assert_eq!(out.frame.unwrap().timestamp_us, 0);
    assert_eq!(session.state().accumulated_time, 0);
    assert_eq!(session.state().last_update, START - 1);
}

#[test]
fn playback_time_saturates() {
    let mut session = decoded_with(false, 1_000_000, &[]);
    let _ = session.on_tick(u128::MAX);
    assert_eq!(session.state().accumulated_time, u128::MAX - START);
    let _ = session.on_chunk_decoded();
    let _ = session.on_tick(u128::MAX);
    assert_eq!(session.state().accumulated_time, u128::MAX);
}

#[test]
fn looping_starts_over_at_the_end() {
    let mut session = decoded_with(true, 66_668, &[0, 33_334, 66_668, 100_002]);
    let mut now = START;
    for (ts, target) in [(0u128, 33_334u128), (33_334, 66_668)] {
        now = START + ts;
        let out = session.on_tick(now);
        assert_eq!(out.frame.unwrap().timestamp_us, ts);
        assert_eq!(session.state().current_frame_ts, target);
        let _ = session.on_chunk_decoded();
    }
    assert_eq!(now, START + 33_334);
    let out = session.on_tick(START + 70_000);
    assert_eq!(out.frame.unwrap().timestamp_us, 66_668);
    assert!(!out.finished);
    assert_eq!(out.timer_us, Some(16_666));
    let state = session.state();
    assert_eq!(state.current_frame_ts, 0);
    assert_eq!(state.accumulated_time, 70_000 - 66_668);
    assert!(!state.playback_finished);
    assert!(session.is_running());
    let _ = session.on_chunk_decoded();
    let out = session.on_tick(START + 70_000 + 100_002);
    assert_eq!(out.frame.unwrap().timestamp_us, 100_002);
    assert_eq!(session.state().current_frame_ts, 33_334);
}

#[test]
fn playback_ends_once_without_looping() {
    let mut session = decoded_with(false, 0, &[10, 20, 30]);
    let out = session.on_tick(START + 15);
    assert_eq!(out.frame.unwrap().timestamp_us, 10);
    assert!(out.finished);
    assert_eq!(out.timer_us, None);
    assert_eq!(out.action, VideoAction::NoAction);
    let ended = session.state();
    assert!(ended.playback_finished);
    assert_eq!(ended.accumulated_time, 5);
    assert_eq!(ended.current_frame_ts, 0);
    assert!(!session.is_running());
    for step in 1..4u128 {
        let out = session.on_tick(START + 1_000 * step);
        assert!(out.frame.is_none());
        assert!(!out.finished);
        assert!(!out.underrun);
        assert_eq!(out.timer_us, None);
        assert_eq!(out.action, VideoAction::NoAction);
        assert_eq!(session.state(), ended);
        assert_eq!(session.buffered(), 2);
    }
    assert_eq!(session.on_chunk_decoded(), VideoAction::NoAction);
    assert_eq!(session.on_video_stream(&frames(&[40])), 0);
    assert_eq!(session.buffered(), 2);
    assert_eq!(session.state(), ended);
}

#[test]
fn presented_planes_go_back_to_the_pool() {
    let mut session = decoded_with(true, 1_000_000, &[0, 1]);
    assert_eq!(session.pooled(), 0);
    let frame = session.on_tick(START + 1).frame.unwrap();
    session.recycle(frame);
    assert_eq!(session.pooled(), 2);
    assert_eq!(session.buffered(), 1);
    assert_eq!(session.on_video_stream(&frames(&[2])), 0);
    assert_eq!(session.pooled(), 0);
    let _ = session.on_chunk_decoded();
    let _ = session.on_tick(START + 2).frame.unwrap();
    let _ = session.on_chunk_decoded();
    let reused = session.on_tick(START + 3).frame.unwrap();
    assert_eq!(reused.timestamp_us, 2);
    assert_eq!(reused.y_data.len(), 4);
    assert_eq!(reused.uv_data.len(), 1);
}

#[test]
fn decoding_state_starts_not_started() {
    assert_eq!(DecodingState::default(), DecodingState::NotStarted);
}

#[test]
fn events_are_handled_by_kind() {
    let mut session = Video::new(true, START);
    let out = session.handle_event_with(&VideoEvent::Timer { now_us: START + 1 });
    match out {
        VideoOutcome::Tick(t) => {
            assert_eq!(t.timer_us, None);
            assert_eq!(t.action, VideoAction::NoAction);
        }
        _ => panic!("a wake-up gives a tick outcome"),
    }
    let out = session.handle_event_with(&VideoEvent::VideoDecodingInitialized {
        video_width: 2,
        video_height: 2,
        frame_rate: 25,
        duration: 80_000,
        color_format: VideoColorFormat::YUV420Planar,
    });
    match out {
        VideoOutcome::Initialized(res) => assert_eq!(
            res,
            Ok(Started {
                timer_us: 20_000,
                action: VideoAction::DecodeNextChunk { max_frames: 45 }
            })
        ),
        _ => panic!("metadata gives an initialisation outcome"),
    }
    assert_eq!(session.state().width, 2);
    assert_eq!(session.capacity(), 15);
    let out = session.handle_event_with(&VideoEvent::VideoChunkDecoded);
    match out {
        VideoOutcome::ChunkDecoded(action) => {
            assert_eq!(action, VideoAction::FetchNextFrames { max_frames: 30 })
        }
        _ => panic!("a decoded chunk gives a fetch"),
    }
    let mut bytes = frames(&[0, 40_000]);
    bytes.extend_from_slice(&frames(&[80_000])[..25]);
    let out = session.handle_event_with(&VideoEvent::VideoStream { frame_group: bytes });
    match out {
        VideoOutcome::Stream { skipped } => assert_eq!(skipped, 0),
        _ => panic!("a stream gives a count"),
    }
    assert_eq!(session.buffered(), 2);
    let out = session.handle_event_with(&VideoEvent::Timer { now_us: START + 7 });
    match out {
        VideoOutcome::Tick(t) => {
            assert_eq!(t.frame.unwrap().timestamp_us, 0);
            assert_eq!(t.timer_us, Some(20_000));
            assert_eq!(t.action, VideoAction::DecodeNextChunk { max_frames: 30 });
            assert!(!t.finished);
        }
        _ => panic!("a wake-up gives a tick outcome"),
    }
    assert_eq!(session.state().current_frame_ts, 40_000);
    assert_eq!(session.state().accumulated_time, 7);
}
