//! The framebuffer pixel sink: an owned byte region plus immutable geometry,
//! with a bounds-checked writer and a batch draw.
//!
//! Policy, fixed here once: construction never fails and validates nothing;
//! the raw firmware format tag is kept as reported. A draw call on a sink
//! whose tag is unrecognized reports `Unsupported`, as does a pixel whose
//! byte offset does not fit the address width or falls past the end of the
//! owned region. A pixel outside the reported resolution is silently
//! skipped, never an error, so one off-screen pixel cannot fail a batch.

use vstd::prelude::*;

use crate::addr::{checked_offset, offset_spec};
use crate::pixel::{convert, encode_tag, recognized_tag, Color, PixelFormat, Point};

verus! {

/// The sink's single error: the pixel format is not one of the two supported
/// layouts, or offset arithmetic does not fit the addressable region.
#[derive(Clone, Copy, PartialEq, Eq, Structural, Debug)]
pub struct Unsupported;

/// Mathematical model of a sink: the frame bytes and the geometry the
/// firmware reported. The geometry never changes after construction; only
/// the bytes do.
pub ghost struct DisplayModel {
    pub fb: Seq<u8>,
    /// Raw firmware pixel-format tag, kept as reported.
    pub pixel: u32,
    /// Row stride in pixels; at least `width` by firmware contract.
    pub stride: u32,
    pub width: u32,
    pub height: u32,
}

impl DisplayModel {
    /// The firmware contract on geometry: the stride covers the width, and
    /// the region holds `height * stride` four-byte cells.
    pub open spec fn wf(self) -> bool {
        self.width <= self.stride
            && (self.height as int) * (self.stride as int) * 4 <= self.fb.len()
    }

    /// Whether a point lies inside the reported resolution.
    pub open spec fn in_bounds(self, p: Point) -> bool {
        0 <= p.x && 0 <= p.y && (p.x as int) < self.width && (p.y as int) < self.height
    }

    /// Byte offset of a point's cell under this geometry.
    pub open spec fn offset_of(self, p: Point) -> int {
        offset_spec(p.x as int, p.y as int, self.stride as int)
    }

    /// The three bytes of a point's cell lie inside the owned region (and so
    /// inside the address width, since the region is addressable).
    pub open spec fn fits(self, p: Point) -> bool {
        self.offset_of(p) + 3 <= self.fb.len()
    }

    /// Two models agree on everything but the frame bytes.
    pub open spec fn same_geometry(self, other: DisplayModel) -> bool {
        self.pixel == other.pixel && self.stride == other.stride
            && self.width == other.width && self.height == other.height
    }

    /// Whether drawing this point reports `Unsupported`: the format tag is
    /// unrecognized, or the point is on screen but its cell is not
    /// addressable within the region.
    pub open spec fn pixel_fails(self, p: Point) -> bool {
        !recognized_tag(self.pixel) || (self.in_bounds(p) && !self.fits(p))
    }

    /// The model after one successful draw of (p, c): the three color bytes
    /// replace the first three bytes of p's cell when p is on screen and its
    /// cell addressable; otherwise nothing changes.
    pub open spec fn apply_pixel(self, p: Point, c: Color) -> DisplayModel {
        if recognized_tag(self.pixel) && self.in_bounds(p) && self.fits(p) {
            let off: int = self.offset_of(p);
            let bytes: Seq<u8> = encode_tag(c, self.pixel);
            DisplayModel {
                fb: self.fb.update(off, bytes[0]).update(off + 1, bytes[1]).update(
                    off + 2,
                    bytes[2],
                ),
                pixel: self.pixel,
                stride: self.stride,
                width: self.width,
                height: self.height,
            }
        } else {
            self
        }
    }

    /// The model after a whole batch, first element first.
    pub open spec fn apply_seq(self, ps: Seq<(Point, Color)>) -> DisplayModel
        decreases ps.len(),
    {
        if ps.len() == 0 {
            self
        } else {
            self.apply_pixel(ps[0].0, ps[0].1).apply_seq(ps.skip(1))
        }
    }
}

/// One draw neither resizes the region nor touches the geometry.
pub proof fn lemma_apply_pixel_shape(m: DisplayModel, p: Point, c: Color)
    ensures
        m.same_geometry(m.apply_pixel(p, c)),
        m.apply_pixel(p, c).fb.len() == m.fb.len(),
{
}

/// A batch neither resizes the region nor touches the geometry.
pub proof fn lemma_apply_seq_shape(m: DisplayModel, ps: Seq<(Point, Color)>)
    ensures
        m.same_geometry(m.apply_seq(ps)),
        m.apply_seq(ps).fb.len() == m.fb.len(),
    decreases ps.len(),
{
    if ps.len() != 0 {
        lemma_apply_pixel_shape(m, ps[0].0, ps[0].1);
        lemma_apply_seq_shape(m.apply_pixel(ps[0].0, ps[0].1), ps.skip(1));
    }
}

/// Whether a pixel is in bounds or fails depends only on the geometry and the
/// region's length, so drawing cannot change it.
pub proof fn lemma_fails_same_shape(m1: DisplayModel, m2: DisplayModel, p: Point)
    requires
        m1.same_geometry(m2),
        m1.fb.len() == m2.fb.len(),
    ensures
        m1.in_bounds(p) == m2.in_bounds(p),
        m1.fits(p) == m2.fits(p),
        m1.pixel_fails(p) == m2.pixel_fails(p),
{
}

/// On a well-formed geometry, every on-screen point's cell fits the region.
pub proof fn lemma_wf_fits(m: DisplayModel, p: Point)
    requires
        m.wf(),
        m.in_bounds(p),
    ensures
        m.fits(p),
{
    assert((p.y as int) * (m.stride as int) + (p.x as int)
        <= (m.height as int) * (m.stride as int) - 1) by (nonlinear_arith)
        requires
            0 <= (p.x as int) < (m.width as int),
            0 <= (p.y as int) < (m.height as int),
            (m.width as int) <= (m.stride as int),
    ;
}

/// Batches compose: drawing `a` then `b` is drawing `a + b`.
pub proof fn lemma_apply_seq_append(m: DisplayModel, a: Seq<(Point, Color)>, b: Seq<(Point, Color)>)
    ensures
        m.apply_seq(a + b) == m.apply_seq(a).apply_seq(b),
    decreases a.len(),
{
    if a.len() == 0 {
        assert(a + b =~= b);
    } else {
        assert((a + b).skip(1) =~= a.skip(1) + b);
        lemma_apply_seq_append(m.apply_pixel(a[0].0, a[0].1), a.skip(1), b);
    }
}

/// A batch of one pixel is one draw.
pub proof fn lemma_apply_seq_singleton(m: DisplayModel, p: Point, c: Color)
    ensures
        m.apply_seq(seq![(p, c)]) == m.apply_pixel(p, c),
{
    let s = seq![(p, c)];
    assert(s.skip(1) =~= Seq::<(Point, Color)>::empty());
    assert(m.apply_seq(s) == m.apply_pixel(p, c).apply_seq(s.skip(1)));
    assert(m.apply_pixel(p, c).apply_seq(Seq::<(Point, Color)>::empty())
        == m.apply_pixel(p, c));
}

/// One more pixel at the end of a batch is one more draw after it.
pub proof fn lemma_apply_seq_snoc(m: DisplayModel, ps: Seq<(Point, Color)>, p: Point, c: Color)
    ensures
        m.apply_seq(ps.push((p, c))) == m.apply_seq(ps).apply_pixel(p, c),
{
    assert(ps.push((p, c)) =~= ps + seq![(p, c)]);
    lemma_apply_seq_append(m, ps, seq![(p, c)]);
    lemma_apply_seq_singleton(m.apply_seq(ps), p, c);
}

/// Writing a color then reading the cell back gives exactly the encoded
/// bytes, in the declared channel order, and no byte outside the cell's
/// first three bytes moves.
pub proof fn lemma_write_then_read(m: DisplayModel, p: Point, c: Color)
    requires
        recognized_tag(m.pixel),
        m.in_bounds(p),
        m.fits(p),
    ensures
        ({
            let m2 = m.apply_pixel(p, c);
            let off: int = m.offset_of(p);
            m2.fb.subrange(off, off + 3) == encode_tag(c, m.pixel)
                && forall|i: int|
                    0 <= i < m.fb.len() && !(off <= i < off + 3) ==> m2.fb[i] == m.fb[i]
        }),
{
    let off: int = m.offset_of(p);
    assert(0 <= (p.y as int) * (m.stride as int)) by (nonlinear_arith)
        requires
            0 <= p.y as int,
            0 <= m.stride as int,
    ;
    assert(m.apply_pixel(p, c).fb.subrange(off, off + 3) =~= encode_tag(c, m.pixel));
}

/// A batch skips an off-screen pixel as if it were not in the batch at all:
/// the pixels before and after it still land.
pub proof fn lemma_oob_pixel_skipped(m: DisplayModel, ps: Seq<(Point, Color)>, k: int)
    requires
        0 <= k < ps.len(),
        !m.in_bounds(ps[k].0),
    ensures
        m.apply_seq(ps) == m.apply_seq(ps.take(k) + ps.skip(k + 1)),
{
    let mid = seq![ps[k]];
    assert(ps =~= ps.take(k) + (mid + ps.skip(k + 1)));
    lemma_apply_seq_append(m, ps.take(k), mid + ps.skip(k + 1));
    let m1 = m.apply_seq(ps.take(k));
    lemma_apply_seq_append(m1, mid, ps.skip(k + 1));
    lemma_apply_seq_shape(m, ps.take(k));
    lemma_fails_same_shape(m, m1, ps[k].0);
    lemma_apply_seq_singleton(m1, ps[k].0, ps[k].1);
    assert(mid =~= seq![(ps[k].0, ps[k].1)]);
    assert(m1.apply_seq(mid) == m1);
    lemma_apply_seq_append(m, ps.take(k), ps.skip(k + 1));
}

/// The framebuffer pixel sink.
///
/// It owns the byte region standing for the firmware-mapped framebuffer and
/// the geometry reported at boot. The geometry is immutable for the sink's
/// lifetime; every draw is a pure function of its inputs and that fixed
/// state.
pub struct UefiDisplay {
    fb: Vec<u8>,
    pixel: u32,
    stride: u32,
    size: (u32, u32),
}

impl View for UefiDisplay {
    type V = DisplayModel;

    closed spec fn view(&self) -> DisplayModel {
        DisplayModel {
            fb: self.fb@,
            pixel: self.pixel,
            stride: self.stride,
            width: self.size.0,
            height: self.size.1,
        }
    }
}

impl UefiDisplay {
    /// Create a new sink. `fb` is the owned framebuffer region, `pixel` the
    /// raw firmware format tag, `stride` the row stride in pixels, and
    /// `size` the horizontal and vertical resolution, respectively.
    ///
    /// The values are stored as reported and nothing is rejected here: a
    /// sink whose tag is unrecognized, or whose region cannot hold its
    /// geometry, reports `Unsupported` from the draw calls instead.
    pub fn new(fb: Vec<u8>, pixel: u32, stride: u32, size: (u32, u32)) -> (d: UefiDisplay)
        ensures
            d@ == (DisplayModel {
                fb: fb@,
                pixel,
                stride,
                width: size.0,
                height: size.1,
            }),
    {
        UefiDisplay { fb, pixel, stride, size }
    }

    /// The reported resolution: width and height, in pixels.
    pub fn size(&self) -> (s: (u32, u32))
        ensures
            s == (self@.width, self@.height),
    {
        self.size
    }

    /// Length of the owned framebuffer region, in bytes.
    pub fn fb_len(&self) -> (n: usize)
        ensures
            n == self@.fb.len(),
    {
        self.fb.len()
    }

    /// One byte of the framebuffer region, for read-back.
    pub fn byte_at(&self, i: usize) -> (b: u8)
        requires
            i < self@.fb.len(),
        ensures
            b == self@.fb[i as int],
    {
        self.fb[i]
    }

    /// The bounds-checked writer. Converts the color, computes the offset,
    /// and commits the three bytes when the point is on screen; skips
    /// silently when it is not; reports `Unsupported` when the format tag is
    /// unrecognized or the cell is not addressable inside the region.
    pub fn draw_pixel(&mut self, p: Point, c: Color) -> (r: Result<(), Unsupported>)
        ensures
            old(self)@.same_geometry(final(self)@),
            final(self)@.fb.len() == old(self)@.fb.len(),
            r is Err <==> old(self)@.pixel_fails(p),
            r is Ok ==> final(self)@ == old(self)@.apply_pixel(p, c),
            r is Err ==> final(self)@ == old(self)@,
            recognized_tag(old(self)@.pixel) && !old(self)@.in_bounds(p) ==> r is Ok
                && final(self)@ == old(self)@,
            !recognized_tag(old(self)@.pixel) ==> r is Err && final(self)@ == old(self)@,
            old(self)@.wf() && recognized_tag(old(self)@.pixel) ==> r is Ok,
    {
        let ghost m0 = self@;
        let region_len: usize = self.fb.len();
        let f = match PixelFormat::from_tag(self.pixel) {
            Some(f) => f,
            None => {
                return Err(Unsupported);
            },
        };
        if p.x < 0 || p.y < 0 {
            return Ok(());
        }
        let xu: u32 = p.x as u32;
        let yu: u32 = p.y as u32;
        if xu >= self.size.0 || yu >= self.size.1 {
            return Ok(());
        }
        let bytes = convert(c, f);
        let off: usize = match checked_offset(xu, yu, self.stride) {
            Some(off) => off,
            None => {
                proof {
                    if m0.wf() {
                        lemma_wf_fits(m0, p);
                    }
                }
                return Err(Unsupported);
            },
        };
        if !(off + 3 <= region_len) {
            proof {
                if m0.wf() {
                    lemma_wf_fits(m0, p);
                }
            }
            return Err(Unsupported);
        }
        self.fb.set(off, bytes.0);
        self.fb.set(off + 1, bytes.1);
        self.fb.set(off + 2, bytes.2);
        Ok(())
    }

    /// Batch draw: applies the writer to each pair in sequence order. An
    /// off-screen pixel is skipped and the batch goes on; an `Unsupported`
    /// pixel aborts the batch there, leaving the earlier pixels applied.
    pub fn draw(&mut self, pixels: &Vec<(Point, Color)>) -> (r: Result<(), Unsupported>)
        ensures
            old(self)@.same_geometry(final(self)@),
            r is Ok ==> final(self)@ == old(self)@.apply_seq(pixels@) && forall|k: int|
                0 <= k < pixels@.len() ==> !old(self)@.pixel_fails(#[trigger] pixels@[k].0),
            r is Err ==> exists|k: int|
                #![auto]
                {
                    &&& 0 <= k < pixels@.len()
                    &&& old(self)@.pixel_fails(pixels@[k].0)
                    &&& forall|j: int| 0 <= j < k ==> !old(self)@.pixel_fails(pixels@[j].0)
                    &&& final(self)@ == old(self)@.apply_seq(pixels@.take(k))
                },
            !recognized_tag(old(self)@.pixel) && pixels@.len() > 0 ==> r is Err && final(self)@
                == old(self)@,
            old(self)@.wf() && recognized_tag(old(self)@.pixel) ==> r is Ok,
    {
        let ghost m0 = self@;
        let n = pixels.len();
        let mut i: usize = 0;
        while i < n
            invariant
                m0 == old(self)@,
                n == pixels@.len(),
                i <= n,
                m0.same_geometry(self@),
                self@.fb.len() == m0.fb.len(),
                self@ == m0.apply_seq(pixels@.take(i as int)),
                forall|j: int| 0 <= j < i ==> !m0.pixel_fails(#[trigger] pixels@[j].0),
            decreases n - i,
        {
            let (p, c) = pixels[i];
            let ghost mcur = self@;
            let r = self.draw_pixel(p, c);
            proof {
                lemma_fails_same_shape(m0, mcur, p);
            }
            match r {
                Ok(()) => {
                    proof {
                        lemma_apply_seq_snoc(m0, pixels@.take(i as int), p, c);
                        assert(pixels@.take(i as int).push((p, c)) =~= pixels@.take(
                            i as int + 1,
                        ));
                    }
                },
                Err(e) => {
                    proof {
                        assert(m0.pixel_fails(pixels@[i as int].0));
                        assert(self@ == m0.apply_seq(pixels@.take(i as int)));
                        if m0.wf() && recognized_tag(m0.pixel) {
                            lemma_wf_fits(m0, p);
                        }
                        if !recognized_tag(m0.pixel) {
                            if i > 0 {
                                assert(!m0.pixel_fails(pixels@[0].0));
                                assert(false);
                            }
                            assert(pixels@.take(0) =~= Seq::<(Point, Color)>::empty());
                        }
                    }
                    return Err(e);
                },
            }
            i += 1;
        }
        proof {
            assert(pixels@.take(n as int) =~= pixels@);
        }
        Ok(())
    }
}

} // verus!
