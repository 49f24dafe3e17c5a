//! Splitting one frame's packed pixel payload into its luma and chroma planes.
//!
//! The payload holds `height` luma rows, `y_stride` bytes apart and `width`
//! pixels wide, and from byte `y_stride * height` on `height / 2` chroma rows,
//! `uv_stride` bytes apart, each made of `width / 2` pairs of a U and a V byte.

use vstd::arithmetic::div_mod::lemma_fundamental_div_mod_converse;
use vstd::prelude::*;

verus! {

/// Why a payload was not split.
#[derive(Debug, Clone, Copy, PartialEq, Eq, Structural)]
pub enum SplitError {
    /// An output buffer has fewer elements than its plane.
    PlaneTooSmall,
    /// The payload ends before the last row that the strides place in it.
    PayloadTooShort,
}

/// Elements of a luma plane: one per pixel.
pub open spec fn luma_len(width: int, height: int) -> int {
    width * height
}

/// Elements of a chroma plane: one per block of two by two pixels.
pub open spec fn chroma_len(width: int, height: int) -> int {
    (width / 2) * (height / 2)
}

/// The packed element for one luma byte: the byte in the low eight bits, every
/// other bit set.
pub open spec fn luma_element(y: u8) -> u32 {
    0xFFFFFF00u32 | (y as u32)
}

/// The packed element for one chroma pair: U in bits 16 to 23, V in bits 8 to
/// 15, the top eight bits set and the low eight clear.
pub open spec fn chroma_element(u: u8, v: u8) -> u32 {
    (u as u32) << 16 | (v as u32) << 8 | 0xFF000000u32
}

/// Where in the payload the byte of luma element `i` lies.
pub open spec fn luma_offset(i: int, width: int, y_stride: int) -> int {
    (i / width) * y_stride + i % width
}

/// Where in the payload the U byte of chroma element `k` lies; its V byte
/// follows it.
pub open spec fn chroma_offset(k: int, width: int, height: int, y_stride: int, uv_stride: int) -> int {
    y_stride * height + (k / (width / 2)) * uv_stride + 2 * (k % (width / 2))
}

/// The luma plane that a payload holds.
pub open spec fn luma_plane(data: Seq<u8>, width: int, height: int, y_stride: int) -> Seq<u32> {
    Seq::new(
        luma_len(width, height) as nat,
        |i: int| luma_element(data[luma_offset(i, width, y_stride)]),
    )
}

/// The chroma plane that a payload holds.
pub open spec fn chroma_plane(
    data: Seq<u8>,
    width: int,
    height: int,
    y_stride: int,
    uv_stride: int,
) -> Seq<u32> {
    Seq::new(
        chroma_len(width, height) as nat,
        |k: int|
            chroma_element(
                data[chroma_offset(k, width, height, y_stride, uv_stride)],
                data[chroma_offset(k, width, height, y_stride, uv_stride) + 1],
            ),
    )
}

/// The last luma row ends within a payload of `len` bytes. Rows lie at
/// offsets that do not decrease, so every row then does.
pub open spec fn luma_rows_fit(len: int, width: int, height: int, y_stride: int) -> bool {
    luma_len(width, height) > 0 ==> (height - 1) * y_stride + width <= len
}

/// The last chroma row ends within a payload of `len` bytes.
pub open spec fn chroma_rows_fit(
    len: int,
    width: int,
    height: int,
    y_stride: int,
    uv_stride: int,
) -> bool {
    chroma_len(width, height) > 0 ==> y_stride * height + (height / 2 - 1) * uv_stride + 2
        * (width / 2) <= len
}

/// Both planes can be read from a payload of `len` bytes.
pub open spec fn payload_covers(
    len: int,
    width: int,
    height: int,
    y_stride: int,
    uv_stride: int,
) -> bool {
    luma_rows_fit(len, width, height, y_stride) && chroma_rows_fit(
        len,
        width,
        height,
        y_stride,
        uv_stride,
    )
}

/// Whether a payload of `len` bytes is split into buffers of `y_len` and
/// `uv_len` elements, and the error if not. Buffer sizes are judged first.
pub open spec fn split_outcome(
    len: int,
    width: int,
    height: int,
    y_stride: int,
    uv_stride: int,
    y_len: int,
    uv_len: int,
) -> Result<(), SplitError> {
    if y_len < luma_len(width, height) || uv_len < chroma_len(width, height) {
        Err(SplitError::PlaneTooSmall)
    } else if !payload_covers(len, width, height, y_stride, uv_stride) {
        Err(SplitError::PayloadTooShort)
    } else {
        Ok(())
    }
}

proof fn lemma_mul_le(a: int, b: int, c: int)
    requires
        0 <= a <= b,
        0 <= c,
    ensures
        a * c <= b * c,
        c * a <= c * b,
        0 <= a * c,
{
    assert(a * c <= b * c && c * a <= c * b && 0 <= a * c) by (nonlinear_arith)
        requires
            0 <= a <= b,
            0 <= c,
    ;
}

proof fn lemma_mul_pos(a: int, b: int)
    requires
        0 <= a,
        0 <= b,
    ensures
        (a * b > 0) == (a > 0 && b > 0),
{
    assert((a * b > 0) == (a > 0 && b > 0)) by (nonlinear_arith)
        requires
            0 <= a,
            0 <= b,
    ;
}

/// Every byte that the planes are read from lies within the payload.
pub open spec fn offsets_in_payload(
    len: int,
    width: int,
    height: int,
    y_stride: int,
    uv_stride: int,
) -> bool {
    &&& forall|i: int|
        0 <= i < luma_len(width, height) ==> 0 <= #[trigger] luma_offset(i, width, y_stride) < len
    &&& forall|k: int|
        0 <= k < chroma_len(width, height) ==> 0 <= #[trigger] chroma_offset(
            k,
            width,
            height,
            y_stride,
            uv_stride,
        ) && chroma_offset(k, width, height, y_stride, uv_stride) + 1 < len
}

/// A payload covers the planes exactly when every byte that they are read
/// from lies within it.
pub proof fn lemma_payload_covers(len: int, width: int, height: int, y_stride: int, uv_stride: int)
    requires
        0 <= width,
        0 <= height,
        0 <= y_stride,
        0 <= uv_stride,
    ensures
        payload_covers(len, width, height, y_stride, uv_stride) == offsets_in_payload(
            len,
            width,
            height,
            y_stride,
            uv_stride,
        ),
{
    let half_w = width / 2;
    let half_h = height / 2;
    lemma_mul_pos(width, height);
    lemma_mul_pos(half_w, half_h);
    lemma_mul_le(0, y_stride, height);
    if payload_covers(len, width, height, y_stride, uv_stride) {
        assert forall|i: int| 0 <= i < luma_len(width, height) implies 0 <= #[trigger] luma_offset(
            i,
            width,
            y_stride,
        ) < len by {
            lemma_cell(i, width, height);
            lemma_mul_le(i / width, height - 1, y_stride);
        }
        assert forall|k: int| 0 <= k < chroma_len(width, height) implies 0
            <= #[trigger] chroma_offset(k, width, height, y_stride, uv_stride) && chroma_offset(
            k,
            width,
            height,
            y_stride,
            uv_stride,
        ) + 1 < len by {
            lemma_cell(k, half_w, half_h);
            lemma_mul_le(k / half_w, half_h - 1, uv_stride);
        }
    }
    if offsets_in_payload(len, width, height, y_stride, uv_stride) {
        if luma_len(width, height) > 0 {
            let last = luma_len(width, height) - 1;
            lemma_row(height - 1, width, height, y_stride);
            lemma_fundamental_div_mod_converse(last, width, height - 1, width - 1);
            assert(luma_offset(last, width, y_stride) == (height - 1) * y_stride + width - 1);
        }
        if chroma_len(width, height) > 0 {
            let last = chroma_len(width, height) - 1;
            lemma_row(half_h - 1, half_w, half_h, uv_stride);
            lemma_fundamental_div_mod_converse(last, half_w, half_h - 1, half_w - 1);
            assert(chroma_offset(last, width, height, y_stride, uv_stride) == y_stride * height
                + (half_h - 1) * uv_stride + 2 * (half_w - 1));
        }
    }
}

/// Facts on row `row` of a plane of `w` by `h` elements whose rows lie `s` apart.
proof fn lemma_row(row: int, w: int, h: int, s: int)
    requires
        0 <= row < h,
        0 <= w,
        0 <= s,
    ensures
        (row + 1) * w == row * w + w,
        row * w + w <= w * h,
        0 <= row * w,
        0 <= row * s <= (h - 1) * s,
        h * w == w * h,
{
    assert((row + 1) * w == row * w + w && row * w + w <= w * h && 0 <= row * w && 0 <= row * s
        <= (h - 1) * s && h * w == w * h) by (nonlinear_arith)
        requires
            0 <= row < h,
            0 <= w,
            0 <= s,
    ;
}

/// Element `i` of a plane of `w` by `h` elements stands in row `i / w`, column
/// `i % w`.
proof fn lemma_cell(i: int, w: int, h: int)
    requires
        0 <= i < w * h,
        0 <= w,
        0 <= h,
    ensures
        0 <= i / w < h,
        0 <= i % w < w,
{
    assert(0 <= i / w < h && 0 <= i % w < w) by (nonlinear_arith)
        requires
            0 <= i < w * h,
            0 <= w,
            0 <= h,
    ;
}

/// Judges, without touching any buffer, whether a payload of `data_len` bytes
/// can be split into buffers of `y_len` and `uv_len` elements.
pub fn check_planes(
    data_len: usize,
    width: usize,
    height: usize,
    y_stride: usize,
    uv_stride: usize,
    y_len: usize,
    uv_len: usize,
) -> (res: Result<(), SplitError>)
    ensures
        res == split_outcome(
            data_len as int,
            width as int,
            height as int,
            y_stride as int,
            uv_stride as int,
            y_len as int,
            uv_len as int,
        ),
{
    let half_w: usize = width / 2;
    let half_h: usize = height / 2;
    let luma_n: usize = match width.checked_mul(height) {
        Some(n) => n,
        None => { return Err(SplitError::PlaneTooSmall); },
    };
    proof {
        lemma_mul_le(half_w as int, width as int, half_h as int);
        lemma_mul_le(half_h as int, height as int, width as int);
        lemma_mul_pos(width as int, height as int);
        lemma_mul_pos(half_w as int, half_h as int);
    }
    let chroma_n: usize = half_w * half_h;
    if y_len < luma_n || uv_len < chroma_n {
        return Err(SplitError::PlaneTooSmall);
    }
    if luma_n > 0 {
        let rows: usize = match (height - 1).checked_mul(y_stride) {
            Some(r) => r,
            None => { return Err(SplitError::PayloadTooShort); },
        };
        match rows.checked_add(width) {
            Some(end) => {
                if end > data_len {
                    return Err(SplitError::PayloadTooShort);
                }
            },
            None => { return Err(SplitError::PayloadTooShort); },
        }
    }
    if chroma_n > 0 {
        proof {
            lemma_mul_le(0, (half_h - 1) as int, uv_stride as int);
            lemma_mul_le(0, y_stride as int, height as int);
        }
        let uv_start: usize = match y_stride.checked_mul(height) {
            Some(s) => s,
            None => { return Err(SplitError::PayloadTooShort); },
        };
        let rows: usize = match (half_h - 1).checked_mul(uv_stride) {
            Some(r) => r,
            None => { return Err(SplitError::PayloadTooShort); },
        };
        let last: usize = match uv_start.checked_add(rows) {
            Some(l) => l,
            None => { return Err(SplitError::PayloadTooShort); },
        };
        match last.checked_add(2 * half_w) {
            Some(end) => {
                if end > data_len {
                    return Err(SplitError::PayloadTooShort);
                }
            },
            None => { return Err(SplitError::PayloadTooShort); },
        }
    }
    Ok(())
}

/// Writes the luma plane of `data` over the first elements of `y_data`.
fn fill_luma(data: &[u8], width: usize, height: usize, y_stride: usize, y_data: &mut Vec<u32>)
    requires
        luma_len(width as int, height as int) <= old(y_data)@.len(),
        luma_rows_fit(data@.len() as int, width as int, height as int, y_stride as int),
    ensures
        final(y_data)@ == luma_plane(data@, width as int, height as int, y_stride as int) + old(
            y_data,
        )@.skip(luma_len(width as int, height as int)),
{
    let ghost w = width as int;
    let ghost h = height as int;
    let ghost ys = y_stride as int;
    let ghost before = y_data@;
    let data_len: usize = data.len();
    let plane_cap: usize = y_data.len();
    if width == 0 || height == 0 {
        proof {
            lemma_mul_pos(w, h);
        }
        assert(y_data@ =~= luma_plane(data@, w, h, ys) + before.skip(luma_len(w, h)));
        return ;
    }
    proof {
        lemma_mul_pos(w, h);
    }
    let mut y_idx: usize = 0;
    let mut row: usize = 0;
    while row < height
        invariant
            0 <= row <= height,
            w == width,
            h == height,
            ys == y_stride,
            data_len == data@.len(),
            plane_cap == before.len(),
            before.len() == old(y_data)@.len(),
            y_idx == row * w,
            w * h <= before.len(),
            y_data@.len() == before.len(),
            (h - 1) * ys + w <= data@.len(),
            forall|i: int|
                0 <= i < y_idx ==> y_data@[i] == luma_element(
                    data@[luma_offset(i, w, ys)],
                ),
            forall|i: int| y_idx <= i < before.len() ==> y_data@[i] == before[i],
        decreases height - row,
    {
        proof {
            lemma_row(row as int, w, h, ys);
        }
        let start: usize = row * y_stride;
        let mut col: usize = 0;
        while col < width
            invariant
                0 <= row < height,
                0 <= col <= width,
                w == width,
                h == height,
                ys == y_stride,
                data_len == data@.len(),
                plane_cap == before.len(),
                y_idx == row * w + col,
                row * w + w <= w * h,
                (row + 1) * w == row * w + w,
                w * h <= before.len(),
                y_data@.len() == before.len(),
                start == row * ys,
                start + w <= data@.len(),
                forall|i: int|
                    0 <= i < y_idx ==> y_data@[i] == luma_element(
                        data@[luma_offset(i, w, ys)],
                    ),
                forall|i: int| y_idx <= i < before.len() ==> y_data@[i] == before[i],
            decreases width - col,
        {
            let y: u8 = data[start + col];
            proof {
                lemma_fundamental_div_mod_converse(y_idx as int, w, row as int, col as int);
            }
            y_data.set(y_idx, 0xFFFFFF00u32 | (y as u32));
            y_idx += 1;
            col += 1;
        }
        row += 1;
    }
    proof {
        lemma_row(0, w, h, ys);
    }
    assert(y_data@ =~= luma_plane(data@, w, h, ys) + before.skip(luma_len(w, h)));
}

/// Writes the chroma plane of `data` over the first elements of `uv_data`.
fn fill_chroma(
    data: &[u8],
    width: usize,
    height: usize,
    y_stride: usize,
    uv_stride: usize,
    uv_data: &mut Vec<u32>,
)
    requires
        chroma_len(width as int, height as int) <= old(uv_data)@.len(),
        chroma_rows_fit(
            data@.len() as int,
            width as int,
            height as int,
            y_stride as int,
            uv_stride as int,
        ),
    ensures
        final(uv_data)@ == chroma_plane(
            data@,
            width as int,
            height as int,
            y_stride as int,
            uv_stride as int,
        ) + old(uv_data)@.skip(chroma_len(width as int, height as int)),
{
    let ghost w = width as int;
    let ghost h = height as int;
    let ghost ys = y_stride as int;
    let ghost uvs = uv_stride as int;
    let ghost before = uv_data@;
    let data_len: usize = data.len();
    let plane_cap: usize = uv_data.len();
    let half_w: usize = width / 2;
    let half_h: usize = height / 2;
    if half_w == 0 || half_h == 0 {
        proof {
            lemma_mul_pos(half_w as int, half_h as int);
        }
        assert(uv_data@ =~= chroma_plane(data@, w, h, ys, uvs) + before.skip(chroma_len(w, h)));
        return ;
    }
    proof {
        lemma_mul_pos(half_w as int, half_h as int);
        lemma_mul_le(0, half_h as int - 1, uvs);
        lemma_mul_le(0, ys, h);
    }
    let uv_start: usize = y_stride * height;
    let mut uv_idx: usize = 0;
    let mut row: usize = 0;
    while row < half_h
        invariant
            0 <= row <= half_h,
            w == width,
            h == height,
            ys == y_stride,
            data_len == data@.len(),
            plane_cap == before.len(),
            uvs == uv_stride,
            half_w == w / 2,
            half_h == h / 2,
            half_w > 0,
            uv_idx == row * (w / 2),
            uv_start == ys * h,
            (w / 2) * (h / 2) <= before.len(),
            uv_data@.len() == before.len(),
            uv_start + (h / 2 - 1) * uvs + 2 * (w / 2) <= data@.len(),
            0 <= (h / 2 - 1) * uvs,
            forall|k: int|
                0 <= k < uv_idx ==> uv_data@[k] == chroma_element(
                    data@[chroma_offset(k, w, h, ys, uvs)],
                    data@[chroma_offset(k, w, h, ys, uvs) + 1],
                ),
            forall|k: int| uv_idx <= k < before.len() ==> uv_data@[k] == before[k],
        decreases half_h - row,
    {
        proof {
            lemma_row(row as int, w / 2, h / 2, uvs);
        }
        let start: usize = uv_start + row * uv_stride;
        let mut col: usize = 0;
        while col < half_w
            invariant
                0 <= row < half_h,
                0 <= col <= half_w,
                w == width,
                h == height,
                ys == y_stride,
                data_len == data@.len(),
                plane_cap == before.len(),
                uvs == uv_stride,
                half_w == w / 2,
                half_h == h / 2,
                half_w > 0,
                uv_idx == row * (w / 2) + col,
                row * (w / 2) + w / 2 <= (w / 2) * (h / 2),
                (row + 1) * (w / 2) == row * (w / 2) + w / 2,
                (w / 2) * (h / 2) <= before.len(),
                uv_data@.len() == before.len(),
                start == ys * h + row * uvs,
                start + 2 * half_w <= data@.len(),
                forall|k: int|
                    0 <= k < uv_idx ==> uv_data@[k] == chroma_element(
                        data@[chroma_offset(k, w, h, ys, uvs)],
                        data@[chroma_offset(k, w, h, ys, uvs) + 1],
                    ),
                forall|k: int| uv_idx <= k < before.len() ==> uv_data@[k] == before[k],
            decreases half_w - col,
        {
            let u: u8 = data[start + 2 * col];
            let v: u8 = data[start + 2 * col + 1];
            proof {
                lemma_fundamental_div_mod_converse(
                    uv_idx as int,
                    half_w as int,
                    row as int,
                    col as int,
                );
            }
            uv_data.set(uv_idx, (u as u32) << 16 | (v as u32) << 8 | 0xFF000000u32);
            uv_idx += 1;
            col += 1;
        }
        row += 1;
    }
    proof {
        lemma_row(0, w / 2, h / 2, uvs);
    }
    assert(uv_data@ =~= chroma_plane(data@, w, h, ys, uvs) + before.skip(chroma_len(w, h)));
}

/// Writes both planes of a payload whose size was judged before.
pub fn fill_planes(
    data: &[u8],
    width: usize,
    height: usize,
    y_stride: usize,
    uv_stride: usize,
    y_data: &mut Vec<u32>,
    uv_data: &mut Vec<u32>,
)
    requires
        split_outcome(
            data@.len() as int,
            width as int,
            height as int,
            y_stride as int,
            uv_stride as int,
            old(y_data)@.len() as int,
            old(uv_data)@.len() as int,
        ) is Ok,
    ensures
        final(y_data)@ == luma_plane(data@, width as int, height as int, y_stride as int) + old(
            y_data,
        )@.skip(luma_len(width as int, height as int)),
        final(uv_data)@ == chroma_plane(
            data@,
            width as int,
            height as int,
            y_stride as int,
            uv_stride as int,
        ) + old(uv_data)@.skip(chroma_len(width as int, height as int)),
{
    fill_luma(data, width, height, y_stride, y_data);
    fill_chroma(data, width, height, y_stride, uv_stride, uv_data);
}

/// Splits a payload into its planes, written over the first elements of
/// `y_data` and `uv_data`; what lies behind a plane in its buffer is kept.
/// Nothing is written where a buffer is too small or the payload too short.
pub fn split_nv12_data(
    data: &[u8],
    width: usize,
    height: usize,
    y_stride: usize,
    uv_stride: usize,
    y_data: &mut Vec<u32>,
    uv_data: &mut Vec<u32>,
) -> (res: Result<(), SplitError>)
    ensures
        res == split_outcome(
            data@.len() as int,
            width as int,
            height as int,
            y_stride as int,
            uv_stride as int,
            old(y_data)@.len() as int,
            old(uv_data)@.len() as int,
        ),
        res is Err ==> final(y_data)@ == old(y_data)@ && final(uv_data)@ == old(uv_data)@,
        res is Ok ==> final(y_data)@ == luma_plane(
            data@,
            width as int,
            height as int,
            y_stride as int,
        ) + old(y_data)@.skip(luma_len(width as int, height as int)),
        res is Ok ==> final(uv_data)@ == chroma_plane(
            data@,
            width as int,
            height as int,
            y_stride as int,
            uv_stride as int,
        ) + old(uv_data)@.skip(chroma_len(width as int, height as int)),
{
    match check_planes(
        data.len(),
        width,
        height,
        y_stride,
        uv_stride,
        y_data.len(),
        uv_data.len(),
    ) {
        Err(e) => Err(e),
        Ok(()) => {
            fill_planes(data, width, height, y_stride, uv_stride, y_data, uv_data);
            Ok(())
        },
    }
}

/// A luma element holds its byte in the low eight bits and ones above.
pub proof fn lemma_luma_element_bits(y: u8)
    ensures
        luma_element(y) & 0xFF == y,
        luma_element(y) >> 8 == 0xFF_FFFF,
{
    assert((0xFFFFFF00u32 | (y as u32)) & 0xFF == y) by (bit_vector);
    assert((0xFFFFFF00u32 | (y as u32)) >> 8 == 0xFF_FFFF) by (bit_vector);
}

/// A chroma element holds U in bits 16 to 23 and V in bits 8 to 15, ones above
/// and zeros below.
pub proof fn lemma_chroma_element_bits(u: u8, v: u8)
    ensures
        (chroma_element(u, v) >> 16) & 0xFF == u,
        (chroma_element(u, v) >> 8) & 0xFF == v,
        chroma_element(u, v) >> 24 == 0xFF,
        chroma_element(u, v) & 0xFF == 0,
{
    assert((((u as u32) << 16 | (v as u32) << 8 | 0xFF000000u32) >> 16) & 0xFF == u)
        by (bit_vector);
    assert((((u as u32) << 16 | (v as u32) << 8 | 0xFF000000u32) >> 8) & 0xFF == v)
        by (bit_vector);
    assert(((u as u32) << 16 | (v as u32) << 8 | 0xFF000000u32) >> 24 == 0xFF) by (bit_vector);
    assert(((u as u32) << 16 | (v as u32) << 8 | 0xFF000000u32) & 0xFF == 0) by (bit_vector);
}

} // verus!
