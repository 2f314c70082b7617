//! Single-channel image buffers and the per-pixel stages of the detection
//! pipeline: absolute difference, binarization at a fixed intensity
//! threshold, and dilation with a 3x3 all-ones structuring element.

use vstd::prelude::*;

verus! {

/// Pixel intensity difference (0-255 scale) above which a pixel counts as
/// changed.
pub const DIFF_THRESHOLD: u8 = 25;

/// The value given to pixels of a binary mask that are set.
pub const MASK_ON: u8 = 255;

/// A single-channel 8-bit image: `height` rows of `width` pixels each,
/// stored row-major in `pixels`.
#[derive(Debug)]
pub struct Frame {
    pub width: usize,
    pub height: usize,
    pub pixels: Vec<u8>,
}

/// The mathematical model of a `Frame`: its dimensions and the row-major
/// sequence of its pixel values.
pub struct FrameView {
    pub width: int,
    pub height: int,
    pub data: Seq<u8>,
}

impl FrameView {
    /// The buffer holds exactly one byte per pixel.
    pub open spec fn wf(self) -> bool {
        &&& self.data.len() == self.width * self.height
        &&& self.width >= 0
        &&& self.height >= 0
    }

    /// The pixel at row `r`, column `c`.
    pub open spec fn pix(self, r: int, c: int) -> u8 {
        self.data[r * self.width + c]
    }

    /// `r`, `c` lie inside the image.
    pub open spec fn in_bounds(self, r: int, c: int) -> bool {
        0 <= r < self.height && 0 <= c < self.width
    }

    /// Two images have the same dimensions.
    pub open spec fn same_dims(self, other: FrameView) -> bool {
        self.width == other.width && self.height == other.height
    }

    /// The mask pixel at row `r`, column `c` is set.
    pub open spec fn on(self, r: int, c: int) -> bool {
        self.in_bounds(r, c) && self.pix(r, c) != 0
    }

    /// No pixel of the mask is set.
    pub open spec fn all_off(self) -> bool {
        forall|r: int, c: int| !self.on(r, c)
    }

    /// The image has no pixels at all.
    pub open spec fn is_empty(self) -> bool {
        self.width == 0 || self.height == 0
    }
}

impl View for Frame {
    type V = FrameView;

    open spec fn view(&self) -> FrameView {
        FrameView { width: self.width as int, height: self.height as int, data: self.pixels@ }
    }
}

impl Frame {
    /// The buffer holds exactly one byte per pixel.
    pub open spec fn wf(self) -> bool {
        self@.wf()
    }

    pub fn width(&self) -> (w: usize)
        ensures
            w == self@.width,
    {
        self.width
    }

    pub fn height(&self) -> (h: usize)
        ensures
            h == self@.height,
    {
        self.height
    }

    /// Builds a frame from a raw pixel buffer, refusing a buffer whose
    /// length does not match the dimensions.
    pub fn from_pixels(width: usize, height: usize, pixels: Vec<u8>) -> (r: Option<Frame>)
        ensures
            match r {
                Some(f) => {
                    &&& pixels@.len() == width * height
                    &&& f.wf()
                    &&& f@ == (FrameView {
                        width: width as int,
                        height: height as int,
                        data: pixels@,
                    })
                },
                None => pixels@.len() != width * height,
            },
    {
        let n: usize = pixels.len();
        if height == 0 || width == 0 {
            proof {
                assert(width * height == 0) by (nonlinear_arith)
                    requires
                        width == 0 || height == 0,
                ;
            }
            if n == 0 {
                Some(Frame { width, height, pixels })
            } else {
                None
            }
        } else if n % height == 0 && n / height == width {
            proof {
                vstd::arithmetic::div_mod::lemma_fundamental_div_mod(n as int, height as int);
                assert(height * width == width * height) by (nonlinear_arith);
            }
            Some(Frame { width, height, pixels })
        } else {
            proof {
                if n == width * height {
                    vstd::arithmetic::div_mod::lemma_fundamental_div_mod_converse(
                        n as int,
                        height as int,
                        width as int,
                        0,
                    );
                }
            }
            None
        }
    }

    /// Reads the pixel at row `r`, column `c`.
    pub fn at(&self, r: usize, c: usize) -> (v: u8)
        requires
            self.wf(),
            r < self@.height,
            c < self@.width,
        ensures
            v == self@.pix(r as int, c as int),
    {
        let n: usize = self.pixels.len();
        proof {
            lemma_flat_index_bounds(self@.width, self@.height, r as int, c as int);
            assert(r * self.width + c < n);
        }
        self.pixels[r * self.width + c]
    }
}

/// A row-major flat index stays inside the buffer of a `width * height`
/// image.
pub proof fn lemma_flat_index_bounds(w: int, h: int, r: int, c: int)
    requires
        0 <= r < h,
        0 <= c < w,
    ensures
        0 <= r * w + c < w * h,
{
    assert(r * w + c < w * h) by (nonlinear_arith)
        requires
            0 <= r < h,
            0 <= c < w,
    ;
    assert(r * w >= 0) by (nonlinear_arith)
        requires
            r >= 0,
            w >= 0,
    ;
}

/// Row and column can be recovered from a row-major flat index.
pub proof fn lemma_flat_index_roundtrip(w: int, r: int, c: int)
    requires
        0 <= c < w,
        0 <= r,
    ensures
        (r * w + c) / w == r,
        (r * w + c) % w == c,
{
    vstd::arithmetic::div_mod::lemma_fundamental_div_mod_converse(r * w + c, w, r, c);
}

/// Distinct cells of the grid have distinct row-major flat indices.
pub proof fn lemma_flat_index_injective(w: int, h: int, r1: int, c1: int, r2: int, c2: int)
    requires
        0 <= r1 < h,
        0 <= c1 < w,
        0 <= r2 < h,
        0 <= c2 < w,
        (r1, c1) != (r2, c2),
    ensures
        r1 * w + c1 != r2 * w + c2,
{
    if r1 != r2 {
        assert(r1 * w + c1 != r2 * w + c2) by (nonlinear_arith)
            requires
                0 <= c1 < w,
                0 <= c2 < w,
                r1 != r2,
        ;
    }
}

/// The absolute difference of two pixel values.
pub open spec fn absdiff_val(a: u8, b: u8) -> u8 {
    if a >= b {
        (a - b) as u8
    } else {
        (b - a) as u8
    }
}

/// The image of per-pixel absolute differences of two same-sized images.
pub open spec fn absdiff_view(a: FrameView, b: FrameView) -> FrameView {
    FrameView {
        width: a.width,
        height: a.height,
        data: Seq::new(a.data.len(), |i: int| absdiff_val(a.data[i], b.data[i])),
    }
}

/// The binary mask that keeps exactly the pixels whose value exceeds
/// `DIFF_THRESHOLD`, set to `MASK_ON`.
pub open spec fn threshold_view(d: FrameView) -> FrameView {
    FrameView {
        width: d.width,
        height: d.height,
        data: Seq::new(
            d.data.len(),
            |i: int| if d.data[i] > DIFF_THRESHOLD { MASK_ON } else { 0 },
        ),
    }
}

/// Some cell of the 3x3 window centred on `(r, c)` is set in `m`.
pub open spec fn window_on(m: FrameView, r: int, c: int) -> bool {
    exists|rr: int, cc: int|
        {
            &&& r - 1 <= rr <= r + 1
            &&& c - 1 <= cc <= c + 1
            &&& #[trigger] m.on(rr, cc)
        }
}

/// The value dilation gives the cell at `(r, c)`.
pub open spec fn dilate_val(m: FrameView, r: int, c: int) -> u8 {
    if window_on(m, r, c) {
        MASK_ON
    } else {
        0
    }
}

/// One dilation of the mask `m` by a 3x3 all-ones structuring element.
pub open spec fn dilate_view(m: FrameView) -> FrameView {
    FrameView {
        width: m.width,
        height: m.height,
        data: Seq::new(m.data.len(), |i: int| dilate_val(m, i / m.width, i % m.width)),
    }
}

/// The pixels of `dilate_view(m)`, addressed by row and column.
pub proof fn lemma_dilate_view_pix(m: FrameView, r: int, c: int)
    requires
        m.wf(),
        m.in_bounds(r, c),
    ensures
        dilate_view(m).pix(r, c) == dilate_val(m, r, c),
{
    lemma_flat_index_bounds(m.width, m.height, r, c);
    lemma_flat_index_roundtrip(m.width, r, c);
}

/// Computes the per-pixel absolute difference of two same-sized frames.
pub fn absdiff(a: &Frame, b: &Frame) -> (d: Frame)
    requires
        a.wf(),
        b.wf(),
        a@.same_dims(b@),
    ensures
        d.wf(),
        d@ == absdiff_view(a@, b@),
{
    let n: usize = a.pixels.len();
    let mut data: Vec<u8> = Vec::new();
    let mut i: usize = 0;
    while i < n
        invariant
            i <= n,
            n == a@.data.len(),
            n == b@.data.len(),
            data@.len() == i,
            forall|k: int| 0 <= k < i ==> data@[k] == absdiff_val(a@.data[k], b@.data[k]),
        decreases n - i,
    {
        let pa = a.pixels[i];
        let pb = b.pixels[i];
        let v = if pa >= pb {
            pa - pb
        } else {
            pb - pa
        };
        data.push(v);
        i += 1;
    }
    let d = Frame { width: a.width, height: a.height, pixels: data };
    proof {
        assert(d@.data =~= absdiff_view(a@, b@).data);
    }
    d
}

/// Binarizes a difference image: pixels strictly above `DIFF_THRESHOLD`
/// become `MASK_ON`, all others 0.
pub fn threshold(d: &Frame) -> (m: Frame)
    requires
        d.wf(),
    ensures
        m.wf(),
        m@ == threshold_view(d@),
{
    let n: usize = d.pixels.len();
    let mut data: Vec<u8> = Vec::new();
    let mut i: usize = 0;
    while i < n
        invariant
            i <= n,
            n == d@.data.len(),
            data@.len() == i,
            forall|k: int|
                0 <= k < i ==> data@[k] == (if d@.data[k] > DIFF_THRESHOLD {
                    MASK_ON
                } else {
                    0u8
                }),
        decreases n - i,
    {
        let v = if d.pixels[i] > DIFF_THRESHOLD {
            MASK_ON
        } else {
            0
        };
        data.push(v);
        i += 1;
    }
    let m = Frame { width: d.width, height: d.height, pixels: data };
    proof {
        assert(m@.data =~= threshold_view(d@).data);
    }
    m
}

/// Whether any cell of the 3x3 window centred on `(r, c)` is set.
fn window_on_at(m: &Frame, r: usize, c: usize) -> (b: bool)
    requires
        m.wf(),
        r < m@.height,
        c < m@.width,
    ensures
        b == window_on(m@, r as int, c as int),
{
    let r_lo: usize = if r > 0 {
        r - 1
    } else {
        0
    };
    let r_hi: usize = if r + 1 < m.height {
        r + 1
    } else {
        m.height - 1
    };
    let c_lo: usize = if c > 0 {
        c - 1
    } else {
        0
    };
    let c_hi: usize = if c + 1 < m.width {
        c + 1
    } else {
        m.width - 1
    };
    let mut rr: usize = r_lo;
    while rr <= r_hi
        invariant
            m.wf(),
            r < m@.height,
            c < m@.width,
            r_lo <= rr,
            r_lo == if r > 0 { r - 1 } else { 0 },
            r_hi == if r + 1 < m@.height { r + 1 as int } else { m@.height - 1 },
            c_lo == if c > 0 { c - 1 } else { 0 },
            c_hi == if c + 1 < m@.width { c + 1 as int } else { m@.width - 1 },
            forall|r2: int, c2: int|
                r - 1 <= r2 <= r + 1 && c - 1 <= c2 <= c + 1 && r2 < rr ==> !#[trigger] m@.on(
                    r2,
                    c2,
                ),
        decreases r_hi + 1 - rr,
    {
        let mut cc: usize = c_lo;
        while cc <= c_hi
            invariant
                m.wf(),
                r < m@.height,
                c < m@.width,
                r_lo <= rr <= r_hi,
                r_lo == if r > 0 { r - 1 } else { 0 },
                r_hi == if r + 1 < m@.height { r + 1 as int } else { m@.height - 1 },
                c_lo == if c > 0 { c - 1 } else { 0 },
                c_hi == if c + 1 < m@.width { c + 1 as int } else { m@.width - 1 },
                c_lo <= cc,
                forall|r2: int, c2: int|
                    r - 1 <= r2 <= r + 1 && c - 1 <= c2 <= c + 1 && r2 < rr ==> !#[trigger] m@.on(
                        r2,
                        c2,
                    ),
                forall|c2: int|
                    c - 1 <= c2 <= c + 1 && c2 < cc ==> !#[trigger] m@.on(rr as int, c2),
            decreases c_hi + 1 - cc,
        {
            if m.at(rr, cc) != 0 {
                proof {
                    assert(m@.on(rr as int, cc as int));
                }
                return true;
            }
            cc += 1;
        }
        rr += 1;
    }
    proof {
        assert forall|rr2: int, cc2: int|
            r - 1 <= rr2 <= r + 1 && c - 1 <= cc2 <= c + 1 implies !m@.on(rr2, cc2) by {
            if m@.in_bounds(rr2, cc2) {
                assert(rr2 < rr);
            } else {
                assert(!m@.on(rr2, cc2));
            }
        }
    }
    false
}

/// Dilates a binary mask once with a 3x3 all-ones structuring element: a
/// pixel of the result is set exactly when any pixel of the corresponding
/// 3x3 window of the input is set.
pub fn dilate(m: &Frame) -> (out: Frame)
    requires
        m.wf(),
    ensures
        out.wf(),
        out@ == dilate_view(m@),
{
    let h: usize = m.height;
    let w: usize = m.width;
    let mut data: Vec<u8> = Vec::new();
    let mut r: usize = 0;
    while r < h
        invariant
            m.wf(),
            h == m@.height,
            w == m@.width,
            r <= h,
            data@.len() == r * w,
            forall|r2: int, c2: int|
                0 <= r2 < r && 0 <= c2 < w ==> data@[r2 * w + c2] == #[trigger] dilate_val(
                    m@,
                    r2,
                    c2,
                ),
        decreases h - r,
    {
        let mut c: usize = 0;
        while c < w
            invariant
                m.wf(),
                h == m@.height,
                w == m@.width,
                r < h,
                c <= w,
                data@.len() == r * w + c,
                forall|r2: int, c2: int|
                    0 <= r2 < r && 0 <= c2 < w ==> data@[r2 * w + c2] == #[trigger] dilate_val(
                        m@,
                        r2,
                        c2,
                    ),
                forall|c2: int|
                    0 <= c2 < c ==> data@[r * w + c2] == #[trigger] dilate_val(m@, r as int, c2),
            decreases w - c,
        {
            proof {
                lemma_flat_index_bounds(w as int, h as int, r as int, c as int);
            }
            let v = if window_on_at(m, r, c) {
                MASK_ON
            } else {
                0
            };
            data.push(v);
            proof {
                assert forall|r2: int, c2: int|
                    0 <= r2 < r && 0 <= c2 < w implies data@[r2 * w + c2] == #[trigger] dilate_val(
                    m@,
                    r2,
                    c2,
                ) by {
                    lemma_flat_index_bounds(w as int, h as int, r2, c2);
                    assert(r2 * w + c2 < r * w + c) by (nonlinear_arith)
                        requires
                            0 <= r2 < r,
                            0 <= c2 < w,
                            0 <= c,
                    ;
                }
            }
            c += 1;
        }
        r += 1;
        proof {
            assert(r * w == (r - 1) * w + w) by (nonlinear_arith);
        }
    }
    let out = Frame { width: m.width, height: m.height, pixels: data };
    proof {
        assert(out@.data.len() == dilate_view(m@).data.len()) by {
            assert((h as int) * (w as int) == (w as int) * (h as int)) by (nonlinear_arith);
        }
        assert forall|i: int| 0 <= i < out@.data.len() implies out@.data[i] == dilate_view(
            m@,
        ).data[i] by {
            let r2 = i / (w as int);
            let c2 = i % (w as int);
            vstd::arithmetic::div_mod::lemma_fundamental_div_mod(i, w as int);
            vstd::arithmetic::div_mod::lemma_mod_bound(i, w as int);
            assert(0 <= r2 < h) by (nonlinear_arith)
                requires
                    i == r2 * w + c2,
                    0 <= i < w * h,
                    0 <= c2 < w,
                    w > 0,
            ;
            assert(out@.data[r2 * w + c2] == dilate_val(m@, r2, c2));
        }
        assert(out@.data =~= dilate_view(m@).data);
    }
    out
}

} // verus!
