//! Parsing a stream of frame groups into frames.
//!
//! A frame group is a header of twenty bytes, all fields big-endian, followed
//! by the payload:
//!
//! | bytes  | field                         |
//! |--------|-------------------------------|
//! | 0..8   | timestamp in microseconds     |
//! | 8..12  | luma row stride               |
//! | 12..16 | chroma row stride             |
//! | 16..20 | payload length                |

use crate::frame::{FrameView, VideoFrame};
use crate::nv12::{
    check_planes, chroma_len, chroma_plane, fill_planes, luma_len, luma_plane, payload_covers,
};
use crate::pool::{after_acquires, lemma_acquires_add, VecPool};
use crate::ring::RingBuffer;
use vstd::prelude::*;

verus! {

/// Bytes in a frame group's header.
pub const HEADER_LEN: usize = 20;

/// The header of one frame group.
#[derive(Debug, Clone, Copy, PartialEq, Eq, Structural)]
pub struct GroupHeader {
    pub timestamp_us: u64,
    pub y_stride: u32,
    pub uv_stride: u32,
    pub payload_len: u32,
}

/// The four bytes from `at` on, read as a big-endian number.
pub open spec fn be_u32(s: Seq<u8>, at: int) -> int {
    s[at] * 0x100_0000 + s[at + 1] * 0x1_0000 + s[at + 2] * 0x100 + s[at + 3]
}

/// The eight bytes from `at` on, read as a big-endian number.
pub open spec fn be_u64(s: Seq<u8>, at: int) -> int {
    be_u32(s, at) * 0x1_0000_0000 + be_u32(s, at + 4)
}

/// The header that starts at `cursor`.
pub open spec fn header_at(stream: Seq<u8>, cursor: int) -> GroupHeader {
    GroupHeader {
        timestamp_us: be_u64(stream, cursor) as u64,
        y_stride: be_u32(stream, cursor + 8) as u32,
        uv_stride: be_u32(stream, cursor + 12) as u32,
        payload_len: be_u32(stream, cursor + 16) as u32,
    }
}

/// Where the group that starts at `cursor` ends.
pub open spec fn group_end(stream: Seq<u8>, cursor: int) -> int {
    cursor + HEADER_LEN + header_at(stream, cursor).payload_len
}

/// The stream holds a whole group from `cursor` on: header and payload.
pub open spec fn group_complete(stream: Seq<u8>, cursor: int) -> bool {
    0 <= cursor && cursor + HEADER_LEN <= stream.len() && group_end(stream, cursor) <= stream.len()
}

/// The payload of the group that starts at `cursor`.
pub open spec fn group_payload(stream: Seq<u8>, cursor: int) -> Seq<u8> {
    stream.subrange(cursor + HEADER_LEN, group_end(stream, cursor))
}

/// The group at `cursor` yields a frame: the luma plane's size is one that a
/// buffer can have, and the payload covers both planes.
pub open spec fn group_decodes(stream: Seq<u8>, cursor: int, width: usize, height: usize) -> bool {
    let header = header_at(stream, cursor);
    luma_len(width as int, height as int) <= usize::MAX && payload_covers(
        header.payload_len as int,
        width as int,
        height as int,
        header.y_stride as int,
        header.uv_stride as int,
    )
}

/// The frame that the group at `cursor` holds: the header's timestamp as it
/// stands, and the two planes of the payload.
pub open spec fn group_frame(stream: Seq<u8>, cursor: int, width: usize, height: usize) -> FrameView {
    let header = header_at(stream, cursor);
    let payload = group_payload(stream, cursor);
    FrameView {
        y_data: luma_plane(payload, width as int, height as int, header.y_stride as int),
        uv_data: chroma_plane(
            payload,
            width as int,
            height as int,
            header.y_stride as int,
            header.uv_stride as int,
        ),
        timestamp_us: header.timestamp_us as u128,
    }
}

/// The frames of the complete groups from `cursor` on, in stream order. A
/// group that does not decode is passed over; parsing ends at the first
/// incomplete group.
pub open spec fn frames_from(stream: Seq<u8>, cursor: int, width: usize, height: usize) -> Seq<
    FrameView,
>
    decreases stream.len() - cursor,
{
    if !group_complete(stream, cursor) {
        Seq::empty()
    } else {
        let rest = frames_from(stream, group_end(stream, cursor), width, height);
        if group_decodes(stream, cursor, width, height) {
            seq![group_frame(stream, cursor, width, height)] + rest
        } else {
            rest
        }
    }
}

/// How many complete groups from `cursor` on do not decode.
pub open spec fn skipped_from(stream: Seq<u8>, cursor: int, width: usize, height: usize) -> nat
    decreases stream.len() - cursor,
{
    if !group_complete(stream, cursor) {
        0
    } else {
        let rest = skipped_from(stream, group_end(stream, cursor), width, height);
        if group_decodes(stream, cursor, width, height) {
            rest
        } else {
            rest + 1
        }
    }
}

/// Reads four bytes as a big-endian number.
pub fn read_be_u32(data: &[u8], at: usize) -> (v: u32)
    requires
        at + 4 <= data@.len(),
    ensures
        v == be_u32(data@, at as int),
{
    let len: usize = data.len();
    assert(at + 4 <= len);
    let b0: u32 = data[at] as u32;
    let b1: u32 = data[at + 1] as u32;
    let b2: u32 = data[at + 2] as u32;
    let b3: u32 = data[at + 3] as u32;
    b0 * 0x100_0000 + b1 * 0x1_0000 + b2 * 0x100 + b3
}

/// Reads eight bytes as a big-endian number.
pub fn read_be_u64(data: &[u8], at: usize) -> (v: u64)
    requires
        at + 8 <= data@.len(),
    ensures
        v == be_u64(data@, at as int),
{
    let len: usize = data.len();
    assert(at + 8 <= len);
    let hi: u64 = read_be_u32(data, at) as u64;
    let lo: u64 = read_be_u32(data, at + 4) as u64;
    hi * 0x1_0000_0000 + lo
}

/// Reads the header that starts at `cursor`, if all of it is there.
pub fn parse_header(stream: &[u8], cursor: usize) -> (header: Option<GroupHeader>)
    ensures
        header == if cursor + HEADER_LEN <= stream@.len() {
            Some(header_at(stream@, cursor as int))
        } else {
            None
        },
{
    if stream.len() < HEADER_LEN || cursor > stream.len() - HEADER_LEN {
        return None;
    }
    Some(
        GroupHeader {
            timestamp_us: read_be_u64(stream, cursor),
            y_stride: read_be_u32(stream, cursor + 8),
            uv_stride: read_be_u32(stream, cursor + 12),
            payload_len: read_be_u32(stream, cursor + 16),
        },
    )
}

/// Elements of the luma and of the chroma plane of a frame of `width` by
/// `height` pixels, or `None` where the luma plane's size is no `usize`.
pub fn plane_sizes(width: usize, height: usize) -> (sizes: Option<(usize, usize)>)
    ensures
        match sizes {
            Some((luma_n, chroma_n)) => luma_n == luma_len(width as int, height as int)
                && chroma_n == chroma_len(width as int, height as int),
            None => luma_len(width as int, height as int) > usize::MAX,
        },
{
    match width.checked_mul(height) {
        Some(luma_n) => {
            assert((width / 2) * (height / 2) <= width * height) by (nonlinear_arith);
            Some((luma_n, (width / 2) * (height / 2)))
        },
        None => None,
    }
}

/// Parses every complete frame group of `stream` into a frame of `width` by
/// `height` pixels and appends the frames to `queue` in stream order. The
/// planes are taken from `pool`: two buffers for each frame, none for a group
/// that is passed over. Returns the number of groups passed over.
pub fn demux_frame_groups(
    stream: &[u8],
    width: usize,
    height: usize,
    pool: &mut VecPool,
    queue: &mut RingBuffer,
) -> (skipped: usize)
    ensures
        final(queue)@ == old(queue)@ + frames_from(stream@, 0, width, height),
        final(queue).spec_capacity() == old(queue).spec_capacity(),
        skipped == skipped_from(stream@, 0, width, height),
        final(pool)@ == after_acquires(
            old(pool)@,
            2 * frames_from(stream@, 0, width, height).len(),
        ),
{
    let ghost all = frames_from(stream@, 0, width, height);
    let ghost mut parsed: Seq<FrameView> = Seq::empty();
    let mut skipped: usize = 0;
    let mut cursor: usize = 0;
    let total: usize = stream.len();
    let plane_sizes: Option<(usize, usize)> = plane_sizes(width, height);
    proof {
        assert(queue@ =~= old(queue)@ + parsed);
        assert(parsed + all =~= all);
        assert(pool@ =~= after_acquires(old(pool)@, 0));
    }
    loop
        invariant
            cursor <= stream@.len(),
            skipped * HEADER_LEN <= cursor,
            all == frames_from(stream@, 0, width, height),
            parsed + frames_from(stream@, cursor as int, width, height) == all,
            queue@ == old(queue)@ + parsed,
            queue.spec_capacity() == old(queue).spec_capacity(),
            skipped + skipped_from(stream@, cursor as int, width, height) == skipped_from(
                stream@,
                0,
                width,
                height,
            ),
            pool@ == after_acquires(old(pool)@, 2 * parsed.len()),
            total == stream@.len(),
            match plane_sizes {
                Some((luma_n, chroma_n)) => luma_n == luma_len(width as int, height as int)
                    && chroma_n == chroma_len(width as int, height as int),
                None => luma_len(width as int, height as int) > usize::MAX,
            },
        ensures
            !group_complete(stream@, cursor as int),
        decreases stream@.len() - cursor,
    {
        let header = match parse_header(stream, cursor) {
            Some(h) => h,
            None => { break ; },
        };
        let start: usize = cursor + HEADER_LEN;
        if header.payload_len as usize > stream.len() - start {
            break ;
        }
        let end: usize = start + header.payload_len as usize;
        let payload = &stream[start..end];
        assert(payload@ == group_payload(stream@, cursor as int));
        let sizes: Option<(usize, usize)> = match plane_sizes {
            Some((luma_n, chroma_n)) => {
                if check_planes(
                    payload.len(),
                    width,
                    height,
                    header.y_stride as usize,
                    header.uv_stride as usize,
                    luma_n,
                    chroma_n,
                ).is_ok() {
                    Some((luma_n, chroma_n))
                } else {
                    None
                }
            },
            None => None,
        };
        assert(sizes is Some == group_decodes(stream@, cursor as int, width, height));
        if let Some((luma_n, chroma_n)) = sizes {
            let ghost taken = pool@;
            let mut y_data = pool.acquire(luma_n);
            let mut uv_data = pool.acquire(chroma_n);
            fill_planes(
                payload,
                width,
                height,
                header.y_stride as usize,
                header.uv_stride as usize,
                &mut y_data,
                &mut uv_data,
            );
            let frame = VideoFrame { y_data, uv_data, timestamp_us: header.timestamp_us as u128 };
            proof {
                let rest = frames_from(stream@, end as int, width, height);
                assert(frame@.y_data =~= group_frame(stream@, cursor as int, width, height).y_data);
                assert(frame@.uv_data =~= group_frame(
                    stream@,
                    cursor as int,
                    width,
                    height,
                ).uv_data);
                assert(frame@ == group_frame(stream@, cursor as int, width, height));
                lemma_acquires_add(taken, 1, 1);
                lemma_acquires_add(old(pool)@, 2 * parsed.len(), 2);
                assert(parsed.push(frame@) + rest =~= parsed + (seq![frame@] + rest));
                assert((old(queue)@ + parsed).push(frame@) =~= old(queue)@ + parsed.push(frame@));
                parsed = parsed.push(frame@);
            }
            queue.push(frame);
        } else {
            skipped += 1;
        }
        cursor = end;
    }
    proof {
        assert(parsed + Seq::<FrameView>::empty() =~= parsed);
    }
    skipped
}

/// Plane sizes. Every frame parsed from a stream has a luma plane of `width`
/// times `height` elements and a chroma plane of a quarter of that, each
/// dimension halved and rounded down.
pub proof fn lemma_frame_plane_sizes(stream: Seq<u8>, cursor: int, width: usize, height: usize)
    ensures
        forall|i: int|
            0 <= i < frames_from(stream, cursor, width, height).len() ==> {
                let frame = #[trigger] frames_from(stream, cursor, width, height)[i];
                &&& frame.y_data.len() == luma_len(width as int, height as int)
                &&& frame.uv_data.len() == chroma_len(width as int, height as int)
            },
    decreases stream.len() - cursor,
{
    if group_complete(stream, cursor) {
        let frames = frames_from(stream, cursor, width, height);
        let rest = frames_from(stream, group_end(stream, cursor), width, height);
        lemma_frame_plane_sizes(stream, group_end(stream, cursor), width, height);
        assert(0 <= luma_len(width as int, height as int) && 0 <= chroma_len(
            width as int,
            height as int,
        )) by (nonlinear_arith);
        assert forall|i: int| 0 <= i < frames.len() implies {
            let frame = #[trigger] frames[i];
            &&& frame.y_data.len() == luma_len(width as int, height as int)
            &&& frame.uv_data.len() == chroma_len(width as int, height as int)
        } by {
            if group_decodes(stream, cursor, width, height) {
                if i > 0 {
                    assert(frames[i] == rest[i - 1]);
                }
            } else {
                assert(frames[i] == rest[i]);
            }
        }
    }
}

} // verus!
