use video_playback::demux::{
    demux_frame_groups, parse_header, plane_sizes, read_be_u32, read_be_u64, GroupHeader,
    HEADER_LEN,
};
use video_playback::frame::VideoFrame;
use video_playback::pool::VecPool;
use video_playback::ring::RingBuffer;

fn group(timestamp: u64, y_stride: u32, uv_stride: u32, payload: &[u8]) -> Vec<u8> {
    let mut bytes = Vec::new();
    bytes.extend_from_slice(&timestamp.to_be_bytes());
    bytes.extend_from_slice(&y_stride.to_be_bytes());
    bytes.extend_from_slice(&uv_stride.to_be_bytes());
    bytes.extend_from_slice(&(payload.len() as u32).to_be_bytes());
    bytes.extend_from_slice(payload);
    bytes
}

fn frame(timestamp_us: u128) -> VideoFrame {
    VideoFrame { y_data: Vec::new(), uv_data: Vec::new(), timestamp_us }
}

#[test]
fn big_endian_fields() {
    let bytes: Vec<u8> = vec![0x01, 0x02, 0x03, 0x04, 0x05, 0x06, 0x07, 0x08, 0xFF];
    assert_eq!(read_be_u32(&bytes, 0), 0x0102_0304);
    assert_eq!(read_be_u32(&bytes, 5), 0x0607_08FF);
    assert_eq!(read_be_u64(&bytes, 0), 0x0102_0304_0506_0708);
    assert_eq!(read_be_u64(&bytes, 1), 0x0203_0405_0607_08FF);
    let ones: Vec<u8> = vec![0xFF; 8];
    assert_eq!(read_be_u32(&ones, 4), u32::MAX);
    assert_eq!(read_be_u64(&ones, 0), u64::MAX);
}

#[test]
fn header_fields_in_order() {
    let bytes = group(1_000_000, 4, 6, &[0; 3]);
    assert_eq!(HEADER_LEN, 20);
    assert_eq!(
        parse_header(&bytes, 0),
        Some(GroupHeader { timestamp_us: 1_000_000, y_stride: 4, uv_stride: 6, payload_len: 3 })
    );
    assert_eq!(&bytes[..8], &[0, 0, 0, 0, 0, 0x0F, 0x42, 0x40]);
}

#[test]
fn header_needs_twenty_bytes() {
    let bytes = group(7, 1, 2, &[]);
    assert!(parse_header(&bytes, 0).is_some());
    assert_eq!(parse_header(&bytes, 1), None);
    assert_eq!(parse_header(&bytes[..19], 0), None);
    assert_eq!(parse_header(&bytes, usize::MAX), None);
}

#[test]
fn plane_sizes_of_a_frame() {
    assert_eq!(plane_sizes(4, 2), Some((8, 2)));
    assert_eq!(plane_sizes(7, 5), Some((35, 6)));
    assert_eq!(plane_sizes(0, 5), Some((0, 0)));
    assert_eq!(plane_sizes(usize::MAX, 2), None);
}

#[test]
fn byte_exact_single_group() {
    let (width, height) = (4usize, 2usize);
    let payload: Vec<u8> = vec![16, 32, 48, 64, 80, 96, 112, 128, 0x11, 0x22, 0x33, 0x44];
    assert_eq!(payload.len(), width * height + width * height / 2);
    let stream = group(1_000_000, width as u32, width as u32, &payload);
    let mut pool = VecPool::new();
    let mut queue = RingBuffer::new();
    let skipped = demux_frame_groups(&stream, width, height, &mut pool, &mut queue);
    assert_eq!(skipped, 0);
    assert_eq!(queue.len(), 1);
    let got = queue.get().unwrap();
    assert_eq!(got.timestamp_us, 1_000_000);
    assert_eq!(got.y_data.len(), 8);
    for i in 0..8 {
        assert_eq!(got.y_data[i], 0xFFFF_FF00 | payload[i] as u32);
        assert_eq!(got.y_data[i] & 0xFF, payload[i] as u32);
    }
    assert_eq!(got.uv_data, vec![0xFF11_2200u32, 0xFF33_4400u32]);
    assert!(queue.get().is_none());
}

#[test]
fn groups_come_out_in_stream_order() {
    let mut stream = Vec::new();
    for ts in [5u64, 6, 6, 900] {
        stream.extend_from_slice(&group(ts, 2, 2, &[ts as u8, 1, 2, 3, 4, 5]));
    }
    let mut pool = VecPool::new();
    let mut queue = RingBuffer::new();
    queue.push(frame(1));
    assert_eq!(demux_frame_groups(&stream, 2, 2, &mut pool, &mut queue), 0);
    assert_eq!(queue.len(), 5);
    assert_eq!(queue.get().unwrap().timestamp_us, 1);
    for ts in [5u128, 6, 6, 900] {
        let f = queue.get().unwrap();
        assert_eq!(f.timestamp_us, ts);
        assert_eq!(f.y_data[0], 0xFFFF_FF00 | ts as u8 as u32);
        assert_eq!(f.uv_data, vec![0xFF04_0500u32]);
    }
}

#[test]
fn malformed_group_is_passed_over() {
    let mut stream = group(1, 2, 2, &[1, 2, 3, 4, 5, 6]);
    stream.extend_from_slice(&group(2, 2, 2, &[1, 2, 3, 4, 5]));
    stream.extend_from_slice(&group(3, 2, 2, &[9, 9, 9, 9, 7, 8]));
    let mut pool = VecPool::new();
    pool.release(vec![1; 4]);
    pool.release(vec![1; 4]);
    pool.release(vec![1; 4]);
    pool.release(vec![1; 4]);
    pool.release(vec![1; 4]);
    let mut queue = RingBuffer::new();
    assert_eq!(demux_frame_groups(&stream, 2, 2, &mut pool, &mut queue), 1);
    assert_eq!(queue.len(), 2);
    assert_eq!(pool.len(), 1);
    assert_eq!(queue.get().unwrap().timestamp_us, 1);
    let last = queue.get().unwrap();
    assert_eq!(last.timestamp_us, 3);
    assert_eq!(last.uv_data, vec![0xFF07_0800u32]);
}

#[test]
fn incomplete_group_ends_parsing() {
    let mut stream = group(1, 2, 2, &[1, 2, 3, 4, 5, 6]);
    let whole = group(2, 2, 2, &[1, 2, 3, 4, 5, 6]);
    stream.extend_from_slice(&whole[..whole.len() - 1]);
    let mut pool = VecPool::new();
    let mut queue = RingBuffer::new();
    assert_eq!(demux_frame_groups(&stream, 2, 2, &mut pool, &mut queue), 0);
    assert_eq!(queue.len(), 1);
    let mut short = group(1, 2, 2, &[1, 2, 3, 4, 5, 6]);
    short.extend_from_slice(&[0; 19]);
    assert_eq!(demux_frame_groups(&short, 2, 2, &mut pool, &mut queue), 0);
    assert_eq!(queue.len(), 2);
}

#[test]
fn empty_stream_gives_nothing() {
    let mut pool = VecPool::new();
    pool.release(Vec::new());
    let mut queue = RingBuffer::new();
    assert_eq!(demux_frame_groups(&[], 4, 2, &mut pool, &mut queue), 0);
    assert_eq!(queue.len(), 0);
    assert_eq!(pool.len(), 1);
}

#[test]
fn longer_payload_is_read_from_its_start() {
    let stream = group(4, 3, 2, &[1, 2, 0, 3, 4, 0, 5, 6, 77, 78, 79]);
    let mut pool = VecPool::new();
    let mut queue = RingBuffer::new();
    assert_eq!(demux_frame_groups(&stream, 2, 2, &mut pool, &mut queue), 0);
    let f = queue.get().unwrap();
    assert_eq!(f.y_data, vec![0xFFFF_FF01u32, 0xFFFF_FF02, 0xFFFF_FF03, 0xFFFF_FF04]);
    assert_eq!(f.uv_data, vec![0xFF05_0600u32]);
}

#[test]
fn unrepresentable_frame_size_skips_every_group() {
    let mut stream = group(1, 2, 2, &[1, 2, 3, 4, 5, 6]);
    stream.extend_from_slice(&group(2, 2, 2, &[]));
    let mut pool = VecPool::new();
    let mut queue = RingBuffer::new();
    assert_eq!(demux_frame_groups(&stream, usize::MAX, 2, &mut pool, &mut queue), 2);
    assert_eq!(queue.len(), 0);
}

#[test]
fn queue_is_first_in_first_out() {
    let mut queue = RingBuffer::new();
    assert_eq!(queue.len(), 0);
    assert_eq!(queue.head_timestamp(), None);
    assert!(queue.get().is_none());
    let stamps = [0u128, 10, 10, 25, 40, 40, 41];
    for ts in stamps {
        queue.push(frame(ts));
    }
    assert_eq!(queue.len(), 7);
    let mut last = 0u128;
    for ts in stamps {
        assert_eq!(queue.head_timestamp(), Some(ts));
        let f = queue.get().unwrap();
        assert_eq!(f.timestamp_us, ts);
        assert!(f.timestamp_us >= last);
        last = f.timestamp_us;
    }
    assert!(queue.get().is_none());
    assert_eq!(queue.len(), 0);
}

#[test]
fn push_beyond_capacity_is_kept() {
    let mut queue = RingBuffer::default();
    assert_eq!(queue.capacity(), 0);
    queue.set_capacity(2);
    for ts in 0..5u128 {
        queue.push(frame(ts));
    }
    assert_eq!(queue.capacity(), 2);
    assert_eq!(queue.len(), 5);
    assert_eq!(queue.get().unwrap().timestamp_us, 0);
}

#[test]
fn interleaved_push_and_pop() {
    let mut queue = RingBuffer::new();
    queue.push(frame(1));
    queue.push(frame(2));
    assert_eq!(queue.get().unwrap().timestamp_us, 1);
    queue.push(frame(3));
    assert_eq!(queue.get().unwrap().timestamp_us, 2);
    assert_eq!(queue.get().unwrap().timestamp_us, 3);
    assert!(queue.get().is_none());
}
