//! Captured frames: dimensions, pixel layout, capture time and payload.

use crate::time::MonotonicInstant;
use vstd::prelude::*;

verus! {

/// How the pixels of a frame are stored.
#[derive(Clone, Copy, Debug, PartialEq, Eq, Structural)]
pub enum PixelLayout {
    /// One plane of rows of `width` pixels, four bytes each in the order
    /// blue, green, red, alpha, with no padding between rows.
    PackedBGRA8,
    /// A luma plane of `height` rows followed by a chroma plane of
    /// `(height + 1) / 2` rows of interleaved Cb, Cr pairs, one pair for
    /// each block of two by two pixels. `luma` and `chroma` are the bytes
    /// from the start of one row to the start of the next in each plane.
    PlanarYCbCr { luma: u32, chroma: u32 },
    /// The pixels live in a native surface that only the platform can read.
    OpaqueSurfaceHandle,
}

/// What a frame carries: its bytes, or the number of a native surface.
#[derive(Clone, Debug, PartialEq, Eq)]
pub enum Payload {
    Bytes(Vec<u8>),
    Surface(u64),
}

/// A payload as a mathematical value.
pub enum PayloadView {
    Bytes(Seq<u8>),
    Surface(u64),
}

impl View for Payload {
    type V = PayloadView;

    open spec fn view(&self) -> PayloadView {
        match self {
            Payload::Bytes(b) => PayloadView::Bytes(b@),
            Payload::Surface(id) => PayloadView::Surface(*id),
        }
    }
}

/// Columns of the chroma plane of a picture `width` pixels wide, in pairs.
pub open spec fn chroma_width(width: int) -> int {
    (width + 1) / 2
}

/// Rows of the chroma plane of a picture `height` pixels high.
pub open spec fn chroma_height(height: int) -> int {
    (height + 1) / 2
}

/// Whether rows of a picture `width` pixels wide fit the strides of
/// `layout`.
pub open spec fn layout_fits(layout: PixelLayout, width: int) -> bool {
    match layout {
        PixelLayout::PlanarYCbCr { luma, chroma } => luma >= width && chroma >= 2 * chroma_width(
            width,
        ),
        _ => true,
    }
}

/// The number of payload bytes of a `width` by `height` picture stored as
/// `layout`; zero for a surface.
pub open spec fn payload_len(layout: PixelLayout, width: int, height: int) -> int {
    match layout {
        PixelLayout::PackedBGRA8 => width * height * 4,
        PixelLayout::PlanarYCbCr { luma, chroma } => luma * height + chroma * chroma_height(
            height,
        ),
        PixelLayout::OpaqueSurfaceHandle => 0,
    }
}

/// A frame as a mathematical value.
pub struct FrameView {
    pub width: int,
    pub height: int,
    pub layout: PixelLayout,
    pub capture_time: int,
    pub payload: PayloadView,
}

impl FrameView {
    /// The payload agrees with the dimensions and the layout: a surface
    /// number for an opaque layout, and otherwise bytes, rows that fit the
    /// strides, and exactly as many bytes as the layout asks for.
    pub open spec fn wf(self) -> bool {
        &&& 0 <= self.width <= u32::MAX
        &&& 0 <= self.height <= u32::MAX
        &&& match self.layout {
            PixelLayout::OpaqueSurfaceHandle => self.payload is Surface,
            _ => {
                &&& self.payload matches PayloadView::Bytes(b)
                &&& layout_fits(self.layout, self.width)
                &&& b.len() == payload_len(self.layout, self.width, self.height)
            },
        }
    }

    /// The payload bytes; empty for a surface.
    pub open spec fn bytes(self) -> Seq<u8> {
        match self.payload {
            PayloadView::Bytes(b) => b,
            PayloadView::Surface(_) => Seq::empty(),
        }
    }

    /// Byte `c` (0 blue, 1 green, 2 red, 3 alpha) of the pixel in column
    /// `x` of row `y` of a packed frame.
    pub open spec fn bgra(self, x: int, y: int, c: int) -> u8 {
        self.bytes()[(y * self.width + x) * 4 + c]
    }

    /// The luma sample in column `x` of row `y` of a planar frame.
    pub open spec fn luma(self, x: int, y: int) -> u8 {
        match self.layout {
            PixelLayout::PlanarYCbCr { luma, chroma } => self.bytes()[y * luma + x],
            _ => 0,
        }
    }

    /// Byte `k` (0 Cb, 1 Cr) of the chroma pair in column `cx` of row `cy`
    /// of the chroma plane of a planar frame.
    pub open spec fn chroma(self, cx: int, cy: int, k: int) -> u8 {
        match self.layout {
            PixelLayout::PlanarYCbCr { luma, chroma } => self.bytes()[luma * self.height + cy
                * chroma + 2 * cx + k],
            _ => 0,
        }
    }
}

/// One captured image. A frame is never changed after it was made, and it
/// is handed on rather than copied.
#[derive(Debug, PartialEq, Eq)]
pub struct Frame {
    width: u32,
    height: u32,
    layout: PixelLayout,
    capture_time: MonotonicInstant,
    payload: Payload,
}

impl View for Frame {
    type V = FrameView;

    closed spec fn view(&self) -> FrameView {
        FrameView {
            width: self.width as int,
            height: self.height as int,
            layout: self.layout,
            capture_time: self.capture_time@,
            payload: self.payload@,
        }
    }
}

/// `(width + 1) / 2` without overflow.
pub fn half_up(n: u32) -> (r: u32)
    ensures
        r == chroma_width(n as int),
        r == chroma_height(n as int),
{
    n / 2 + n % 2
}

/// Computes `payload_len`, in a type wide enough for every layout.
pub fn payload_len_of(layout: PixelLayout, width: u32, height: u32) -> (r: u128)
    ensures
        r == payload_len(layout, width as int, height as int),
{
    match layout {
        PixelLayout::PackedBGRA8 => {
            proof {
                lemma_product_bound(width as int, height as int);
            }
            (width as u128) * (height as u128) * 4
        },
        PixelLayout::PlanarYCbCr { luma, chroma } => {
            let rows: u32 = half_up(height);
            proof {
                lemma_product_bound(luma as int, height as int);
                lemma_product_bound(chroma as int, rows as int);
            }
            (luma as u128) * (height as u128) + (chroma as u128) * (rows as u128)
        },
        PixelLayout::OpaqueSurfaceHandle => 0,
    }
}

/// Decides `layout_fits`.
pub fn layout_fits_width(layout: PixelLayout, width: u32) -> (r: bool)
    ensures
        r == layout_fits(layout, width as int),
{
    match layout {
        PixelLayout::PlanarYCbCr { luma, chroma } => {
            luma >= width && (chroma as u64) >= 2 * (half_up(width) as u64)
        },
        _ => true,
    }
}

/// The product of two 32-bit numbers stays below 2^64.
pub proof fn lemma_product_bound(a: int, b: int)
    requires
        0 <= a <= u32::MAX,
        0 <= b <= u32::MAX,
    ensures
        0 <= a * b <= 0xffff_fffe_0000_0001,
{
    assert(0 <= a * b <= 0xffff_fffe_0000_0001) by (nonlinear_arith)
        requires
            0 <= a <= 0xffff_ffff,
            0 <= b <= 0xffff_ffff,
    ;
}

impl Frame {
    #[verifier::type_invariant]
    pub closed spec fn inv(&self) -> bool {
        self@.wf()
    }

    /// A frame of the given size, layout, capture time and payload, if the
    /// payload agrees with the rest.
    pub fn new(
        width: u32,
        height: u32,
        layout: PixelLayout,
        capture_time: MonotonicInstant,
        payload: Payload,
    ) -> (r: Option<Frame>)
        ensures
            r is Some <==> (FrameView {
                width: width as int,
                height: height as int,
                layout,
                capture_time: capture_time@,
                payload: payload@,
            }).wf(),
            r matches Some(f) ==> f@ == (FrameView {
                width: width as int,
                height: height as int,
                layout,
                capture_time: capture_time@,
                payload: payload@,
            }),
    {
        let ok = match &payload {
            Payload::Surface(_) => matches!(layout, PixelLayout::OpaqueSurfaceHandle),
            Payload::Bytes(b) => {
                !matches!(layout, PixelLayout::OpaqueSurfaceHandle) && layout_fits_width(
                    layout,
                    width,
                ) && (b.len() as u128) == payload_len_of(layout, width, height)
            },
        };
        if ok {
            Some(Frame { width, height, layout, capture_time, payload })
        } else {
            None
        }
    }

    /// Width in pixels.
    pub fn width(&self) -> (r: u32)
        ensures
            r == self@.width,
    {
        self.width
    }

    /// Height in pixels.
    pub fn height(&self) -> (r: u32)
        ensures
            r == self@.height,
    {
        self.height
    }

    /// How the pixels are stored.
    pub fn layout(&self) -> (r: PixelLayout)
        ensures
            r == self@.layout,
    {
        self.layout
    }

    /// When the frame was captured.
    pub fn capture_time(&self) -> (r: MonotonicInstant)
        ensures
            r@ == self@.capture_time,
    {
        self.capture_time
    }

    /// What the frame carries. It always agrees with the frame's size and
    /// layout.
    pub fn payload(&self) -> (r: &Payload)
        ensures
            r@ == self@.payload,
            self@.wf(),
    {
        proof {
            use_type_invariant(self);
        }
        &self.payload
    }

}

} // verus!
