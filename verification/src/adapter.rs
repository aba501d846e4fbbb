//! Turns a frame's pixel layout and size into what the encoder asks for.
//!
//! A target picture is written plane by plane and row by row. Every target
//! sample is taken from the nearest source sample towards the top left
//! corner, so a picture that keeps its size keeps its samples, and one that
//! changes size is stretched or squeezed from the corner at (0, 0) with no
//! regard for its aspect ratio. Bytes between the end of a row and the
//! next row's start are zero.

use crate::error::ErrorKind;
use crate::frame::{
    chroma_height, chroma_width, half_up, layout_fits, layout_fits_width, payload_len,
    payload_len_of, Frame, FrameView, Payload, PayloadView, PixelLayout,
};
use vstd::arithmetic::div_mod::lemma_fundamental_div_mod_converse;
use vstd::prelude::*;
use vstd::std_specs::vec::axiom_spec_len;

verus! {

/// The source coordinate that target coordinate `d` is taken from when
/// `src_len` samples are spread over `dst_len`.
pub open spec fn source_coord(d: int, dst_len: int, src_len: int) -> int {
    d * src_len / dst_len
}

/// Full-range luma of a red, green, blue triple.
pub open spec fn luma_of(r: u8, g: u8, b: u8) -> u8 {
    ((77 * r + 150 * g + 29 * b + 128) / 256) as u8
}

/// Full-range blue-difference chroma of a red, green, blue triple.
pub open spec fn cb_of(r: u8, g: u8, b: u8) -> u8 {
    let v = (32896 + 128 * b - 43 * r - 85 * g) / 256;
    if v > 255 {
        255u8
    } else {
        v as u8
    }
}

/// Full-range red-difference chroma of a red, green, blue triple.
pub open spec fn cr_of(r: u8, g: u8, b: u8) -> u8 {
    let v = (32896 + 128 * r - 107 * g - 21 * b) / 256;
    if v > 255 {
        255u8
    } else {
        v as u8
    }
}

/// Bytes from one row's start to the next in plane `plane` of a picture
/// `tw` pixels wide stored as `target`.
pub open spec fn plane_stride(target: PixelLayout, tw: int, plane: int) -> int {
    match target {
        PixelLayout::PackedBGRA8 => if plane == 0 {
            tw * 4
        } else {
            0
        },
        PixelLayout::PlanarYCbCr { luma, chroma } => if plane == 0 {
            luma as int
        } else {
            chroma as int
        },
        PixelLayout::OpaqueSurfaceHandle => 0,
    }
}

/// Rows in plane `plane` of a picture `th` pixels high stored as `target`.
pub open spec fn plane_rows(target: PixelLayout, th: int, plane: int) -> int {
    match target {
        PixelLayout::PackedBGRA8 => if plane == 0 {
            th
        } else {
            0
        },
        PixelLayout::PlanarYCbCr { luma, chroma } => if plane == 0 {
            th
        } else {
            chroma_height(th)
        },
        PixelLayout::OpaqueSurfaceHandle => 0,
    }
}

/// Bytes of a row of plane `plane` that hold samples; the rest of the
/// stride is padding.
pub open spec fn plane_row_bytes(target: PixelLayout, tw: int, plane: int) -> int {
    match target {
        PixelLayout::PackedBGRA8 => if plane == 0 {
            tw * 4
        } else {
            0
        },
        PixelLayout::PlanarYCbCr { luma, chroma } => if plane == 0 {
            tw
        } else {
            2 * chroma_width(tw)
        },
        PixelLayout::OpaqueSurfaceHandle => 0,
    }
}

/// Byte `xb` of row `y` of plane `plane` of the `tw` by `th` picture in
/// layout `target` made from `src`.
pub open spec fn sample(
    src: FrameView,
    target: PixelLayout,
    tw: int,
    th: int,
    plane: int,
    y: int,
    xb: int,
) -> u8 {
    if xb >= plane_row_bytes(target, tw, plane) {
        0
    } else {
        match target {
            PixelLayout::PackedBGRA8 => src.bgra(
                source_coord(xb / 4, tw, src.width),
                source_coord(y, th, src.height),
                xb % 4,
            ),
            PixelLayout::PlanarYCbCr { luma, chroma } => if plane == 0 {
                let sx = source_coord(xb, tw, src.width);
                let sy = source_coord(y, th, src.height);
                if src.layout == PixelLayout::PackedBGRA8 {
                    luma_of(src.bgra(sx, sy, 2), src.bgra(sx, sy, 1), src.bgra(sx, sy, 0))
                } else {
                    src.luma(sx, sy)
                }
            } else {
                if src.layout == PixelLayout::PackedBGRA8 {
                    let sx = source_coord(2 * (xb / 2), tw, src.width);
                    let sy = source_coord(2 * y, th, src.height);
                    if xb % 2 == 0 {
                        cb_of(src.bgra(sx, sy, 2), src.bgra(sx, sy, 1), src.bgra(sx, sy, 0))
                    } else {
                        cr_of(src.bgra(sx, sy, 2), src.bgra(sx, sy, 1), src.bgra(sx, sy, 0))
                    }
                } else {
                    src.chroma(
                        source_coord(xb / 2, chroma_width(tw), chroma_width(src.width)),
                        source_coord(y, chroma_height(th), chroma_height(src.height)),
                        xb % 2,
                    )
                }
            },
            PixelLayout::OpaqueSurfaceHandle => 0,
        }
    }
}

/// Byte `j` of plane `plane` of the picture made from `src`, counting
/// row after row.
pub open spec fn plane_byte(
    src: FrameView,
    target: PixelLayout,
    tw: int,
    th: int,
    plane: int,
    j: int,
) -> u8 {
    let stride = plane_stride(target, tw, plane);
    sample(src, target, tw, th, plane, j / stride, j % stride)
}

/// The bytes of plane `plane` of the picture made from `src`, row after
/// row.
pub open spec fn plane_bytes(src: FrameView, target: PixelLayout, tw: int, th: int, plane: int) -> Seq<
    u8,
> {
    Seq::new(
        (plane_rows(target, th, plane) * plane_stride(target, tw, plane)) as nat,
        |j: int| plane_byte(src, target, tw, th, plane, j),
    )
}

/// The frame goes through as it is: it already has the layout and the size
/// asked for.
pub open spec fn passes_through(src: FrameView, target: PixelLayout, tw: int, th: int) -> bool {
    src.layout == target && src.width == tw && src.height == th
}

/// A new picture can be made from the frame: both layouts hold readable
/// bytes, the direction is not from planar to packed, the source has
/// pixels, rows of the target width fit the target's strides, and the
/// target's bytes can be addressed.
pub open spec fn convertible(src: FrameView, target: PixelLayout, tw: int, th: int) -> bool {
    &&& src.layout != PixelLayout::OpaqueSurfaceHandle
    &&& target != PixelLayout::OpaqueSurfaceHandle
    &&& !(src.layout is PlanarYCbCr && target == PixelLayout::PackedBGRA8)
    &&& src.width > 0
    &&& src.height > 0
    &&& layout_fits(target, tw)
    &&& payload_len(target, tw, th) <= usize::MAX
}

/// The frame that adapting `src` gives, where it gives one.
pub open spec fn adapted(src: FrameView, target: PixelLayout, tw: int, th: int) -> FrameView {
    if passes_through(src, target, tw, th) {
        src
    } else {
        FrameView {
            width: tw,
            height: th,
            layout: target,
            capture_time: src.capture_time,
            payload: PayloadView::Bytes(
                plane_bytes(src, target, tw, th, 0) + plane_bytes(src, target, tw, th, 1),
            ),
        }
    }
}

proof fn lemma_source_coord_in_range(d: int, dst_len: int, src_len: int)
    requires
        0 <= d < dst_len,
        0 < src_len,
    ensures
        0 <= source_coord(d, dst_len, src_len) < src_len,
{
    assert(0 <= d * src_len / dst_len < src_len) by (nonlinear_arith)
        requires
            0 <= d < dst_len,
            0 < src_len,
    ;
}

proof fn lemma_cell_in_range(row: int, col: int, rows: int, cols: int)
    requires
        0 <= row < rows,
        0 <= col < cols,
    ensures
        0 <= row * cols <= row * cols + col < rows * cols,
        rows * cols == cols * rows,
{
    assert(0 <= row * cols <= row * cols + col < rows * cols && rows * cols == cols * rows)
        by (nonlinear_arith)
        requires
            0 <= row < rows,
            0 <= col < cols,
    ;
}

/// Computes `source_coord`.
fn scale(d: u64, dst_len: u32, src_len: u32) -> (r: u64)
    requires
        d < dst_len,
        src_len > 0,
    ensures
        r == source_coord(d as int, dst_len as int, src_len as int),
        r < src_len,
{
    proof {
        lemma_source_coord_in_range(d as int, dst_len as int, src_len as int);
        lemma_cell_in_range(d as int, 0, dst_len as int, src_len as int);
        crate::frame::lemma_product_bound(dst_len as int, src_len as int);
    }
    d * (src_len as u64) / (dst_len as u64)
}

/// Computes `luma_of`.
pub fn luma_from_rgb(r: u8, g: u8, b: u8) -> (y: u8)
    ensures
        y == luma_of(r, g, b),
{
    ((77 * (r as u32) + 150 * (g as u32) + 29 * (b as u32) + 128) / 256) as u8
}

/// Computes `cb_of`.
pub fn cb_from_rgb(r: u8, g: u8, b: u8) -> (cb: u8)
    ensures
        cb == cb_of(r, g, b),
{
    let v: u32 = (32896 + 128 * (b as u32) - 43 * (r as u32) - 85 * (g as u32)) / 256;
    if v > 255 {
        255
    } else {
        v as u8
    }
}

/// Computes `cr_of`.
pub fn cr_from_rgb(r: u8, g: u8, b: u8) -> (cr: u8)
    ensures
        cr == cr_of(r, g, b),
{
    let v: u32 = (32896 + 128 * (r as u32) - 107 * (g as u32) - 21 * (b as u32)) / 256;
    if v > 255 {
        255
    } else {
        v as u8
    }
}

/// What `sample_byte` and `fill_plane` ask of a source and a target.
spec fn ready(
    src: Seq<u8>,
    v: FrameView,
    layout: PixelLayout,
    w: u32,
    h: u32,
    target: PixelLayout,
    tw: u32,
    th: u32,
    plane: u32,
) -> bool {
    &&& v.wf()
    &&& v.layout == layout
    &&& v.width == w
    &&& v.height == h
    &&& v.bytes() == src
    &&& convertible(v, target, tw as int, th as int)
    &&& plane < 2
}

/// Computes `sample`.
fn sample_byte(
    src: &Vec<u8>,
    Ghost(v): Ghost<FrameView>,
    layout: PixelLayout,
    w: u32,
    h: u32,
    target: PixelLayout,
    tw: u32,
    th: u32,
    plane: u32,
    y: u64,
    xb: u64,
) -> (r: u8)
    requires
        ready(src@, v, layout, w, h, target, tw, th, plane),
        y < plane_rows(target, th as int, plane as int),
        xb < plane_stride(target, tw as int, plane as int),
    ensures
        r == sample(v, target, tw as int, th as int, plane as int, y as int, xb as int),
{
    proof {
        axiom_spec_len(src);
    }
    match target {
        PixelLayout::PackedBGRA8 => {
            // every byte of a packed row belongs to a pixel
            let x: u64 = xb / 4;
            let c: u64 = xb % 4;
            let sx: u64 = scale(x, tw, w);
            let sy: u64 = scale(y, th, h);
            proof {
                lemma_cell_in_range(sy as int, sx as int, h as int, w as int);
                assert(v.bytes().len() == w * h * 4);
                crate::frame::lemma_product_bound(h as int, w as int);
            }
            src[((sy * (w as u64) + sx) * 4 + c) as usize]
        },
        PixelLayout::PlanarYCbCr { luma: _, chroma: _ } => {
            if plane == 0 {
                if xb >= tw as u64 {
                    return 0;
                }
                let sx: u64 = scale(xb, tw, w);
                let sy: u64 = scale(y, th, h);
                match layout {
                    PixelLayout::PackedBGRA8 => {
                        proof {
                            lemma_cell_in_range(sy as int, sx as int, h as int, w as int);
                            assert(v.bytes().len() == w * h * 4);
                            crate::frame::lemma_product_bound(h as int, w as int);
                        }
                        let i: usize = ((sy * (w as u64) + sx) * 4) as usize;
                        luma_from_rgb(src[i + 2], src[i + 1], src[i])
                    },
                    PixelLayout::PlanarYCbCr { luma: sl, chroma: sc } => {
                        proof {
                            lemma_cell_in_range(sy as int, sx as int, h as int, sl as int);
                            crate::frame::lemma_product_bound(h as int, sl as int);
                            assert(sc * chroma_height(h as int) >= 0) by (nonlinear_arith)
                                requires
                                    sc >= 0,
                                    chroma_height(h as int) >= 0,
                            ;
                        }
                        src[(sy * (sl as u64) + sx) as usize]
                    },
                    PixelLayout::OpaqueSurfaceHandle => 0,
                }
            } else {
                let cw: u32 = half_up(tw);
                if xb >= 2 * (cw as u64) {
                    return 0;
                }
                let cx: u64 = xb / 2;
                let k: u64 = xb % 2;
                match layout {
                    PixelLayout::PackedBGRA8 => {
                        let sx: u64 = scale(2 * cx, tw, w);
                        let sy: u64 = scale(2 * y, th, h);
                        proof {
                            lemma_cell_in_range(sy as int, sx as int, h as int, w as int);
                            assert(v.bytes().len() == w * h * 4);
                            crate::frame::lemma_product_bound(h as int, w as int);
                        }
                        let i: usize = ((sy * (w as u64) + sx) * 4) as usize;
                        if k == 0 {
                            cb_from_rgb(src[i + 2], src[i + 1], src[i])
                        } else {
                            cr_from_rgb(src[i + 2], src[i + 1], src[i])
                        }
                    },
                    PixelLayout::PlanarYCbCr { luma: sl, chroma: sc } => {
                        let scw: u32 = half_up(w);
                        let sch: u32 = half_up(h);
                        let scx: u64 = scale(cx, cw, scw);
                        let scy: u64 = scale(y, half_up(th), sch);
                        proof {
                            lemma_cell_in_range(scy as int, 2 * scx + k, sch as int, sc as int);
                            crate::frame::lemma_product_bound(sch as int, sc as int);
                            crate::frame::lemma_product_bound(sl as int, h as int);
                        }
                        src[((sl as u64) * (h as u64) + scy * (sc as u64) + 2 * scx + k) as usize]
                    },
                    PixelLayout::OpaqueSurfaceHandle => 0,
                }
            }
        },
        PixelLayout::OpaqueSurfaceHandle => 0,
    }
}

/// Bytes in plane `plane` of a `tw` by `th` picture stored as `target`.
pub open spec fn plane_len(target: PixelLayout, tw: int, th: int, plane: int) -> int {
    plane_rows(target, th, plane) * plane_stride(target, tw, plane)
}

/// The two planes together are the whole payload.
pub proof fn lemma_planes_make_payload(target: PixelLayout, tw: int, th: int)
    requires
        0 <= tw,
        0 <= th,
    ensures
        plane_len(target, tw, th, 0) >= 0,
        plane_len(target, tw, th, 1) >= 0,
        plane_len(target, tw, th, 0) + plane_len(target, tw, th, 1) == payload_len(target, tw, th),
{
    match target {
        PixelLayout::PackedBGRA8 => {
            assert(th * (tw * 4) == tw * th * 4 && th * (tw * 4) >= 0) by (nonlinear_arith)
                requires
                    0 <= tw,
                    0 <= th,
            ;
        },
        PixelLayout::PlanarYCbCr { luma, chroma } => {
            let ch = chroma_height(th);
            assert(th * luma == luma * th && th * luma >= 0 && ch * chroma == chroma * ch && ch
                * chroma >= 0) by (nonlinear_arith)
                requires
                    0 <= th,
                    0 <= ch,
                    0 <= luma,
                    0 <= chroma,
            ;
        },
        PixelLayout::OpaqueSurfaceHandle => {},
    }
}

/// Appends one plane of the target picture to `out`.
fn fill_plane(
    out: &mut Vec<u8>,
    src: &Vec<u8>,
    Ghost(v): Ghost<FrameView>,
    layout: PixelLayout,
    w: u32,
    h: u32,
    target: PixelLayout,
    tw: u32,
    th: u32,
    plane: u32,
)
    requires
        ready(src@, v, layout, w, h, target, tw, th, plane),
    ensures
        final(out)@ == old(out)@ + plane_bytes(v, target, tw as int, th as int, plane as int),
{
    let (rows, stride): (u64, u64) = match target {
        PixelLayout::PackedBGRA8 => if plane == 0 {
            (th as u64, (tw as u64) * 4)
        } else {
            (0, 0)
        },
        PixelLayout::PlanarYCbCr { luma, chroma } => if plane == 0 {
            (th as u64, luma as u64)
        } else {
            (half_up(th) as u64, chroma as u64)
        },
        PixelLayout::OpaqueSurfaceHandle => (0, 0),
    };
    let ghost base = out@;
    let mut y: u64 = 0;
    while y < rows
        invariant
            ready(src@, v, layout, w, h, target, tw, th, plane),
            rows == plane_rows(target, th as int, plane as int),
            stride == plane_stride(target, tw as int, plane as int),
            y <= rows,
            out@.len() == base.len() + y * stride,
            forall|k: int| 0 <= k < base.len() ==> out@[k] == base[k],
            forall|k: int|
                base.len() <= k < out@.len() ==> #[trigger] out@[k] == plane_byte(
                    v,
                    target,
                    tw as int,
                    th as int,
                    plane as int,
                    k - base.len(),
                ),
        decreases rows - y,
    {
        let mut xb: u64 = 0;
        while xb < stride
            invariant
                ready(src@, v, layout, w, h, target, tw, th, plane),
                rows == plane_rows(target, th as int, plane as int),
                stride == plane_stride(target, tw as int, plane as int),
                y < rows,
                xb <= stride,
                out@.len() == base.len() + y * stride + xb,
                forall|k: int| 0 <= k < base.len() ==> out@[k] == base[k],
                forall|k: int|
                    base.len() <= k < out@.len() ==> #[trigger] out@[k] == plane_byte(
                        v,
                        target,
                        tw as int,
                        th as int,
                        plane as int,
                        k - base.len(),
                    ),
            decreases stride - xb,
        {
            let byte = sample_byte(src, Ghost(v), layout, w, h, target, tw, th, plane, y, xb);
            proof {
                lemma_fundamental_div_mod_converse(
                    y * stride + xb,
                    stride as int,
                    y as int,
                    xb as int,
                );
            }
            out.push(byte);
            xb += 1;
        }
        proof {
            assert((y + 1) * stride == y * stride + stride) by (nonlinear_arith);
        }
        y += 1;
    }
    proof {
        assert(out@ =~= base + plane_bytes(v, target, tw as int, th as int, plane as int));
    }
}

/// Gives the frame the layout `target` and the size `target_w` by
/// `target_h`.
///
/// A frame that already has both is handed back untouched. Otherwise a
/// new picture is made if `convertible` allows it: packed to packed and
/// planar to planar keep the samples they take, packed to planar turns
/// each pixel taken into luma and the top left pixel of each block of two
/// by two into chroma. The capture time stays. Everything else fails with
/// `UnsupportedPixelFormat`.
pub fn adapt(frame: Frame, target: PixelLayout, target_w: u32, target_h: u32) -> (r: Result<
    Frame,
    ErrorKind,
>)
    ensures
        r is Ok <==> passes_through(frame@, target, target_w as int, target_h as int)
            || convertible(frame@, target, target_w as int, target_h as int),
        r matches Ok(f) ==> f@ == adapted(frame@, target, target_w as int, target_h as int),
        r matches Err(e) ==> e == ErrorKind::UnsupportedPixelFormat,
{
    let layout = frame.layout();
    let w = frame.width();
    let h = frame.height();
    if layout == target && w == target_w && h == target_h {
        return Ok(frame);
    }
    if matches!(layout, PixelLayout::OpaqueSurfaceHandle) || matches!(
        target,
        PixelLayout::OpaqueSurfaceHandle,
    ) {
        return Err(ErrorKind::UnsupportedPixelFormat);
    }
    if matches!(target, PixelLayout::PackedBGRA8) && !matches!(layout, PixelLayout::PackedBGRA8) {
        return Err(ErrorKind::UnsupportedPixelFormat);
    }
    if w == 0 || h == 0 || !layout_fits_width(target, target_w) {
        return Err(ErrorKind::UnsupportedPixelFormat);
    }
    if payload_len_of(target, target_w, target_h) > usize::MAX as u128 {
        return Err(ErrorKind::UnsupportedPixelFormat);
    }
    let capture_time = frame.capture_time();
    let mut out: Vec<u8> = Vec::new();
    match frame.payload() {
        Payload::Bytes(src) => {
            fill_plane(&mut out, src, Ghost(frame@), layout, w, h, target, target_w, target_h, 0);
            fill_plane(&mut out, src, Ghost(frame@), layout, w, h, target, target_w, target_h, 1);
        },
        Payload::Surface(_) => {},
    }
    proof {
        lemma_planes_make_payload(target, target_w as int, target_h as int);
    }
    match Frame::new(target_w, target_h, target, capture_time, Payload::Bytes(out)) {
        Some(f) => Ok(f),
        None => Err(ErrorKind::UnsupportedPixelFormat),
    }
}

/// Whether `rows` rows of `row_bytes` bytes can be taken from a buffer of
/// `src_len` bytes whose rows start `src_stride` bytes apart and be laid
/// out `dst_stride` bytes apart: a row fits either stride, the source
/// holds the last row in full, and the result can be addressed.
pub open spec fn repackable(
    src_len: int,
    row_bytes: int,
    rows: int,
    src_stride: int,
    dst_stride: int,
) -> bool {
    &&& row_bytes <= src_stride
    &&& row_bytes <= dst_stride
    &&& rows > 0 ==> (rows - 1) * src_stride + row_bytes <= src_len
    &&& rows * dst_stride <= usize::MAX
}

/// The rows of `src` laid out `dst_stride` bytes apart, the bytes after
/// each row zero.
pub open spec fn repacked(
    src: Seq<u8>,
    row_bytes: int,
    rows: int,
    src_stride: int,
    dst_stride: int,
) -> Seq<u8> {
    Seq::new(
        (rows * dst_stride) as nat,
        |i: int|
            if i % dst_stride < row_bytes {
                src[(i / dst_stride) * src_stride + i % dst_stride]
            } else {
                0u8
            },
    )
}

/// Copies a picture row by row from one stride to another: `rows` rows of
/// `row_bytes` bytes each, found `src_stride` bytes apart in `src`, are
/// laid out `dst_stride` bytes apart. Neither stride is taken to equal the
/// row length or the other stride. Fails with `UnsupportedPixelFormat`
/// exactly if the rows are not `repackable`.
pub fn repack_rows(
    src: &Vec<u8>,
    row_bytes: usize,
    rows: usize,
    src_stride: usize,
    dst_stride: usize,
) -> (r: Result<Vec<u8>, ErrorKind>)
    ensures
        r is Ok <==> repackable(
            src@.len() as int,
            row_bytes as int,
            rows as int,
            src_stride as int,
            dst_stride as int,
        ),
        r matches Ok(out) ==> out@ == repacked(
            src@,
            row_bytes as int,
            rows as int,
            src_stride as int,
            dst_stride as int,
        ),
        r matches Err(e) ==> e == ErrorKind::UnsupportedPixelFormat,
{
    if row_bytes > src_stride || row_bytes > dst_stride {
        return Err(ErrorKind::UnsupportedPixelFormat);
    }
    proof {
        lemma_wide_product_bound(rows as int, dst_stride as int);
        lemma_wide_product_bound(rows as int, src_stride as int);
    }
    if (rows as u128) * (dst_stride as u128) > usize::MAX as u128 {
        return Err(ErrorKind::UnsupportedPixelFormat);
    }
    if rows > 0 {
        proof {
            lemma_wide_product_bound(rows - 1, src_stride as int);
        }
        if ((rows - 1) as u128) * (src_stride as u128) + (row_bytes as u128) > src.len() as u128 {
            return Err(ErrorKind::UnsupportedPixelFormat);
        }
    }
    let len: usize = src.len();
    let mut out: Vec<u8> = Vec::new();
    let mut y: usize = 0;
    while y < rows
        invariant
            y <= rows,
            len == src@.len(),
            row_bytes <= src_stride,
            row_bytes <= dst_stride,
            rows > 0 ==> (rows - 1) * src_stride + row_bytes <= src@.len(),
            rows * dst_stride <= usize::MAX,
            out@.len() == y * dst_stride,
            forall|i: int|
                0 <= i < out@.len() ==> #[trigger] out@[i] == repacked(
                    src@,
                    row_bytes as int,
                    rows as int,
                    src_stride as int,
                    dst_stride as int,
                )[i],
        decreases rows - y,
    {
        let mut x: usize = 0;
        proof {
            lemma_cell_in_range(y as int, 0, rows as int, src_stride as int + 1);
            assert(0 <= y * src_stride <= (rows - 1) * src_stride) by (nonlinear_arith)
                requires
                    0 <= y <= rows - 1,
                    0 <= src_stride,
            ;
            assert((y + 1) * dst_stride <= rows * dst_stride) by (nonlinear_arith)
                requires
                    0 <= y + 1 <= rows,
                    0 <= dst_stride,
            ;
            assert((y + 1) * dst_stride == y * dst_stride + dst_stride) by (nonlinear_arith);
        }
        while x < dst_stride
            invariant
                y < rows,
                x <= dst_stride,
                row_bytes <= src_stride,
                row_bytes <= dst_stride,
                len == src@.len(),
                0 <= y * src_stride,
                y * src_stride + row_bytes <= src@.len(),
                y * dst_stride + dst_stride <= rows * dst_stride,
                rows * dst_stride <= usize::MAX,
                out@.len() == y * dst_stride + x,
                forall|i: int|
                    0 <= i < out@.len() ==> #[trigger] out@[i] == repacked(
                        src@,
                        row_bytes as int,
                        rows as int,
                        src_stride as int,
                        dst_stride as int,
                    )[i],
            decreases dst_stride - x,
        {
            proof {
                lemma_fundamental_div_mod_converse(
                    y * dst_stride + x,
                    dst_stride as int,
                    y as int,
                    x as int,
                );
            }
            let byte = if x < row_bytes {
                src[y * src_stride + x]
            } else {
                0
            };
            out.push(byte);
            x = x + 1;
        }
        y = y + 1;
    }
    proof {
        assert(out@ =~= repacked(
            src@,
            row_bytes as int,
            rows as int,
            src_stride as int,
            dst_stride as int,
        ));
    }
    Ok(out)
}

/// The product of two machine lengths stays below 2^128.
proof fn lemma_wide_product_bound(a: int, b: int)
    requires
        0 <= a <= usize::MAX,
        0 <= b <= usize::MAX,
    ensures
        0 <= a * b <= 0xffff_ffff_ffff_fffe_0000_0000_0000_0001,
{
    assert(0 <= a * b <= 0xffff_ffff_ffff_fffe_0000_0000_0000_0001) by (nonlinear_arith)
        requires
            0 <= a <= 0xffff_ffff_ffff_ffff,
            0 <= b <= 0xffff_ffff_ffff_ffff,
    ;
}

/// Repacking keeps every byte of every row, in its row and column, and
/// fills the rest with zero.
pub proof fn lemma_repack_keeps_rows(
    src: Seq<u8>,
    row_bytes: int,
    rows: int,
    src_stride: int,
    dst_stride: int,
    y: int,
    x: int,
)
    requires
        0 <= y < rows,
        0 <= x < dst_stride,
        0 <= row_bytes <= dst_stride,
    ensures
        0 <= y * dst_stride + x < repacked(src, row_bytes, rows, src_stride, dst_stride).len(),
        repacked(src, row_bytes, rows, src_stride, dst_stride)[y * dst_stride + x] == if x
            < row_bytes {
            src[y * src_stride + x]
        } else {
            0u8
        },
{
    lemma_cell_in_range(y, x, rows, dst_stride);
    lemma_fundamental_div_mod_converse(y * dst_stride + x, dst_stride, y, x);
}

/// A picture that keeps its length along an axis keeps its coordinates
/// along that axis.
pub proof fn lemma_same_size_keeps_coordinates(d: int, len: int)
    requires
        0 <= d,
        0 < len,
    ensures
        source_coord(d, len, len) == d,
{
    assert(d * len / len == d) by (nonlinear_arith)
        requires
            0 <= d,
            0 < len,
    ;
}

/// A planar frame that is given other strides and keeps its size keeps
/// every luma and chroma sample where it was.
pub proof fn lemma_restride_keeps_samples(
    src: FrameView,
    target: PixelLayout,
    plane: int,
    y: int,
    xb: int,
)
    requires
        src.layout is PlanarYCbCr,
        target is PlanarYCbCr,
        0 <= plane < 2,
        0 <= y < plane_rows(target, src.height, plane),
        0 <= xb < plane_row_bytes(target, src.width, plane),
    ensures
        sample(src, target, src.width, src.height, plane, y, xb) == if plane == 0 {
            src.luma(xb, y)
        } else {
            src.chroma(xb / 2, y, xb % 2)
        },
{
    if plane == 0 {
        lemma_same_size_keeps_coordinates(xb, src.width);
        lemma_same_size_keeps_coordinates(y, src.height);
    } else {
        lemma_same_size_keeps_coordinates(xb / 2, chroma_width(src.width));
        lemma_same_size_keeps_coordinates(y, chroma_height(src.height));
    }
}

/// Adapting a frame to the layout and size it already has gives the same
/// frame, bytes and all.
pub proof fn lemma_adapt_to_itself(src: FrameView)
    ensures
        passes_through(src, src.layout, src.width, src.height),
        adapted(src, src.layout, src.width, src.height) == src,
{
}

} // verus!
