//! Outlines that show where the viewports of other outputs sit on the canvas.

use crate::geometry::{Point, Rect, Size};
use crate::scalar::Scalar;
use crate::state::output::Output;
use crate::state::wm::DriftWm;
use vstd::prelude::*;

verus! {

/// The largest double that becomes zero in single precision: two to the power of
/// -150 lies half way to the smallest single, and ties go to zero.
pub const VANISHING_BITS: u64 = 0x3690_0000_0000_0000;

/// An opacity that leaves nothing to see once it is rounded to single precision.
pub open spec fn invisible(opacity: Scalar) -> bool {
    !opacity.nan() && opacity.rank() <= VANISHING_BITS
}

/// Whether an opacity leaves nothing to see once it is rounded to single
/// precision.
pub fn is_invisible(opacity: Scalar) -> (b: bool)
    ensures
        b == invisible(opacity),
{
    !opacity.is_nan() && !(Scalar { bits: VANISHING_BITS }).less_than(opacity)
}

/// A rectangle cut off at the edges of a viewport at the origin; `None` when
/// nothing is left.
pub open spec fn clipped(x: int, y: int, w: int, h: int, viewport: Size) -> Option<Rect> {
    let x0 = crate::geometry::larger(x, 0);
    let y0 = crate::geometry::larger(y, 0);
    let x1 = crate::geometry::smaller(x + w, viewport.w as int);
    let y1 = crate::geometry::smaller(y + h, viewport.h as int);
    if x1 <= x0 || y1 <= y0 {
        None
    } else {
        Some(
            Rect {
                loc: Point { x: x0 as i32, y: y0 as i32 },
                size: Size { w: (x1 - x0) as i32, h: (y1 - y0) as i32 },
            },
        )
    }
}

/// The rectangle, where there is one.
pub open spec fn listed(part: Option<Rect>) -> Seq<Rect> {
    match part {
        Some(rect) => seq![rect],
        None => Seq::empty(),
    }
}

/// The visible parts of the four edges of an outline: top, bottom, left, right.
pub open spec fn edges_of(outline: Rect, thickness: int, viewport: Size) -> Seq<Rect> {
    let x = outline.loc.x as int;
    let y = outline.loc.y as int;
    let w = outline.size.w as int;
    let h = outline.size.h as int;
    listed(clipped(x, y, w, thickness, viewport)) + listed(
        clipped(x, y + h - thickness, w, thickness, viewport),
    ) + listed(clipped(x, y, thickness, h, viewport)) + listed(
        clipped(x + w - thickness, y, thickness, h, viewport),
    )
}

/// The edges of the outlines of the first `n` outputs, without the output itself
/// and without those outside of the viewport.
pub open spec fn outlines(
    outputs: Seq<Output>,
    on_screen: Seq<Rect>,
    output: u64,
    thickness: int,
    viewport: Size,
    n: int,
) -> Seq<Rect>
    decreases n,
{
    if n <= 0 {
        Seq::empty()
    } else {
        let before = outlines(outputs, on_screen, output, thickness, viewport, n - 1);
        let other = outputs[n - 1];
        let screen = Rect { loc: Point { x: 0, y: 0 }, size: viewport };
        if other.location is Some && other.id != output && screen.meets(on_screen[n - 1]) {
            before + edges_of(on_screen[n - 1], thickness, viewport)
        } else {
            before
        }
    }
}

/// A rectangle cut off at the edges of a viewport at the origin.
fn clip(x: i64, y: i64, w: i64, h: i64, viewport: Size) -> (r: Option<Rect>)
    requires
        -0x2_0000_0000 <= x <= 0x2_0000_0000,
        -0x2_0000_0000 <= y <= 0x2_0000_0000,
        -0x1_0000_0000 <= w <= 0x1_0000_0000,
        -0x1_0000_0000 <= h <= 0x1_0000_0000,
    ensures
        r == clipped(x as int, y as int, w as int, h as int, viewport),
{
    let x0: i64 = if x > 0 {
        x
    } else {
        0
    };
    let y0: i64 = if y > 0 {
        y
    } else {
        0
    };
    let x1: i64 = if x + w < viewport.w as i64 {
        x + w
    } else {
        viewport.w as i64
    };
    let y1: i64 = if y + h < viewport.h as i64 {
        y + h
    } else {
        viewport.h as i64
    };
    if x1 <= x0 || y1 <= y0 {
        None
    } else {
        Some(
            Rect {
                loc: Point { x: x0 as i32, y: y0 as i32 },
                size: Size { w: (x1 - x0) as i32, h: (y1 - y0) as i32 },
            },
        )
    }
}

/// Adds the visible parts of an outline's edges to a list.
fn push_edges(edges: &mut Vec<Rect>, outline: Rect, thickness: i32, viewport: Size)
    ensures
        final(edges)@ == old(edges)@ + edges_of(outline, thickness as int, viewport),
{
    let x: i64 = outline.loc.x as i64;
    let y: i64 = outline.loc.y as i64;
    let w: i64 = outline.size.w as i64;
    let h: i64 = outline.size.h as i64;
    let t: i64 = thickness as i64;
    let top: Option<Rect> = clip(x, y, w, t, viewport);
    let bottom: Option<Rect> = clip(x, y + h - t, w, t, viewport);
    let left: Option<Rect> = clip(x, y, t, h, viewport);
    let right: Option<Rect> = clip(x + w - t, y, t, h, viewport);
    if let Some(rect) = top {
        edges.push(rect);
    }
    if let Some(rect) = bottom {
        edges.push(rect);
    }
    if let Some(rect) = left {
        edges.push(rect);
    }
    if let Some(rect) = right {
        edges.push(rect);
    }
    assert(edges@ =~= old(edges)@ + edges_of(outline, thickness as int, viewport));
}

/// Which byte of a color stands at a place in a filled buffer.
pub open spec fn fill_byte(color: Seq<u8>, at: int) -> u8 {
    color[at % 4]
}

/// The bytes of a buffer of `w` times `h` pixels that is filled with one color.
pub fn outline_pixels(color: [u8; 4], w: i32, h: i32) -> (pixels: Vec<u8>)
    requires
        w >= 0,
        h >= 0,
        w * h <= i32::MAX,
        w * h * 4 <= usize::MAX,
    ensures
        pixels.len() == w * h * 4,
        forall|i: int| 0 <= i < pixels.len() ==> #[trigger] pixels@[i] == fill_byte(color@, i),
{
    assert(w * h >= 0) by (nonlinear_arith)
        requires
            w >= 0,
            h >= 0,
    ;
    let count: usize = (w * h) as usize;
    let mut pixels: Vec<u8> = Vec::new();
    let mut i: usize = 0;
    while i < count
        invariant
            i <= count,
            count * 4 <= usize::MAX,
            pixels.len() == i * 4,
            forall|j: int| 0 <= j < pixels.len() ==> #[trigger] pixels@[j] == fill_byte(color@, j),
        decreases count - i,
    {
        pixels.push(color[0]);
        pixels.push(color[1]);
        pixels.push(color[2]);
        pixels.push(color[3]);
        i += 1;
    }
    pixels
}

impl DriftWm {
    /// The outlines that a frame of an output shows.
    pub open spec fn outlines_on(
        self,
        output: u64,
        on_screen: Seq<Rect>,
        viewport: Size,
    ) -> Seq<Rect> {
        if self.config.output_outline.thickness <= 0 || invisible(
            self.config.output_outline.opacity,
        ) {
            Seq::empty()
        } else {
            outlines(
                self.outputs@,
                on_screen,
                output,
                self.config.output_outline.thickness as int,
                viewport,
                self.outputs.len() as int,
            )
        }
    }

    /// Draw thin outlines showing where other monitors' viewports sit on the
    /// canvas. `on_screen` is the visible part of the canvas of each output, in
    /// the screen coordinates of this output. Returns the rectangles to fill.
    pub fn build_output_outline_elements(
        &self,
        output: u64,
        on_screen: &Vec<Rect>,
        viewport: Size,
    ) -> (edges: Vec<Rect>)
        requires
            on_screen.len() == self.outputs.len(),
        ensures
            edges@ == self.outlines_on(output, on_screen@, viewport),
    {
        let thickness: i32 = self.config.output_outline.thickness;
        if thickness <= 0 {
            return Vec::new();
        }
        if is_invisible(self.config.output_outline.opacity) {
            return Vec::new();
        }
        let screen: Rect = Rect::from_size(viewport);
        let mut edges: Vec<Rect> = Vec::new();
        let mut i: usize = 0;
        while i < self.outputs.len()
            invariant
                i <= self.outputs.len(),
                on_screen.len() == self.outputs.len(),
                screen == (Rect { loc: Point { x: 0, y: 0 }, size: viewport }),
                edges@ == outlines(
                    self.outputs@,
                    on_screen@,
                    output,
                    thickness as int,
                    viewport,
                    i as int,
                ),
            decreases self.outputs.len() - i,
        {
            if self.outputs[i].location.is_some() && self.outputs[i].id != output
                && screen.overlaps(&on_screen[i]) {
                push_edges(&mut edges, on_screen[i], thickness, viewport);
            }
            i += 1;
        }
        edges
    }
}

/// What is left of a rectangle lies inside of the viewport and is not empty.
pub proof fn lemma_clipped_inside(x: int, y: int, w: int, h: int, viewport: Size)
    requires
        w <= i32::MAX,
        h <= i32::MAX,
        x <= i32::MAX,
        y <= i32::MAX,
    ensures
        clipped(x, y, w, h, viewport) matches Some(rect) ==> {
            &&& 0 <= rect.loc.x
            &&& 0 <= rect.loc.y
            &&& rect.size.w > 0
            &&& rect.size.h > 0
            &&& rect.loc.x + rect.size.w <= viewport.w
            &&& rect.loc.y + rect.size.h <= viewport.h
            &&& x <= rect.loc.x && rect.loc.x + rect.size.w <= x + w
            &&& y <= rect.loc.y && rect.loc.y + rect.size.h <= y + h
        },
{
}

/// Some rectangle of a list covers a pixel.
spec fn painted(rects: Seq<Rect>, x: int, y: int) -> bool {
    exists|k: int|
        {
            &&& 0 <= k < rects.len()
            &&& (#[trigger] rects[k]).loc.x <= x < rects[k].loc.x + rects[k].size.w
            &&& rects[k].loc.y <= y < rects[k].loc.y + rects[k].size.h
        }
}

/// What two lists cover together.
proof fn lemma_painted_by_either(a: Seq<Rect>, b: Seq<Rect>, x: int, y: int)
    ensures
        painted(a + b, x, y) <==> painted(a, x, y) || painted(b, x, y),
{
    let all = a + b;
    if painted(a, x, y) {
        let k = choose|k: int|
            {
                &&& 0 <= k < a.len()
                &&& (#[trigger] a[k]).loc.x <= x < a[k].loc.x + a[k].size.w
                &&& a[k].loc.y <= y < a[k].loc.y + a[k].size.h
            };
        assert(all[k] == a[k]);
    }
    if painted(b, x, y) {
        let k = choose|k: int|
            {
                &&& 0 <= k < b.len()
                &&& (#[trigger] b[k]).loc.x <= x < b[k].loc.x + b[k].size.w
                &&& b[k].loc.y <= y < b[k].loc.y + b[k].size.h
            };
        assert(all[a.len() + k] == b[k]);
    }
    if painted(all, x, y) {
        let k = choose|k: int|
            {
                &&& 0 <= k < all.len()
                &&& (#[trigger] all[k]).loc.x <= x < all[k].loc.x + all[k].size.w
                &&& all[k].loc.y <= y < all[k].loc.y + all[k].size.h
            };
        if k < a.len() {
            assert(all[k] == a[k]);
        } else {
            assert(all[k] == b[k - a.len()]);
        }
    }
}

/// What is left of a rectangle covers the pixels of the viewport that the
/// rectangle covers.
proof fn lemma_clipped_paints(x: int, y: int, w: int, h: int, viewport: Size, px: int, py: int)
    requires
        0 <= px < viewport.w,
        0 <= py < viewport.h,
    ensures
        painted(listed(clipped(x, y, w, h, viewport)), px, py) <==> x <= px < x + w && y <= py < y
            + h,
{
    let part = clipped(x, y, w, h, viewport);
    let rects = listed(part);
    if part is Some {
        assert(rects[0] == part->0);
    }
}

/// The four edges of an outline cover four bands along its sides.
proof fn lemma_edges_paint(outline: Rect, t: int, viewport: Size, px: int, py: int)
    requires
        0 <= px < viewport.w,
        0 <= py < viewport.h,
    ensures
        ({
            let x = outline.loc.x as int;
            let y = outline.loc.y as int;
            let w = outline.size.w as int;
            let h = outline.size.h as int;
            painted(edges_of(outline, t, viewport), px, py) <==> {
                ||| x <= px < x + w && y <= py < y + t
                ||| x <= px < x + w && y + h - t <= py < y + h
                ||| x <= px < x + t && y <= py < y + h
                ||| x + w - t <= px < x + w && y <= py < y + h
            }
        }),
{
    let x = outline.loc.x as int;
    let y = outline.loc.y as int;
    let w = outline.size.w as int;
    let h = outline.size.h as int;
    let top = listed(clipped(x, y, w, t, viewport));
    let bottom = listed(clipped(x, y + h - t, w, t, viewport));
    let left = listed(clipped(x, y, t, h, viewport));
    let right = listed(clipped(x + w - t, y, t, h, viewport));
    lemma_clipped_paints(x, y, w, t, viewport, px, py);
    lemma_clipped_paints(x, y + h - t, w, t, viewport, px, py);
    lemma_clipped_paints(x, y, t, h, viewport, px, py);
    lemma_clipped_paints(x + w - t, y, t, h, viewport, px, py);
    lemma_painted_by_either(top, bottom, px, py);
    lemma_painted_by_either(top + bottom, left, px, py);
    lemma_painted_by_either(top + bottom + left, right, px, py);
}

/// The outlines of the first outputs cover the bands along their sides.
proof fn lemma_outlines_paint(
    outputs: Seq<Output>,
    on_screen: Seq<Rect>,
    output: u64,
    t: int,
    viewport: Size,
    n: int,
    px: int,
    py: int,
)
    requires
        0 <= n <= outputs.len(),
        0 <= px < viewport.w,
        0 <= py < viewport.h,
    ensures
        painted(outlines(outputs, on_screen, output, t, viewport, n), px, py) <==> exists|i: int|
            {
                let x = on_screen[i].loc.x as int;
                let y = on_screen[i].loc.y as int;
                let w = on_screen[i].size.w as int;
                let h = on_screen[i].size.h as int;
                &&& 0 <= i < n
                &&& (#[trigger] outputs[i]).location is Some
                &&& outputs[i].id != output
                &&& x < viewport.w && 0 < x + w && y < viewport.h && 0 < y + h
                &&& {
                    ||| x <= px < x + w && y <= py < y + t
                    ||| x <= px < x + w && y + h - t <= py < y + h
                    ||| x <= px < x + t && y <= py < y + h
                    ||| x + w - t <= px < x + w && y <= py < y + h
                }
            },
    decreases n,
{
    if n > 0 {
        let before = outlines(outputs, on_screen, output, t, viewport, n - 1);
        lemma_outlines_paint(outputs, on_screen, output, t, viewport, n - 1, px, py);
        lemma_edges_paint(on_screen[n - 1], t, viewport, px, py);
        lemma_painted_by_either(before, edges_of(on_screen[n - 1], t, viewport), px, py);
        let other = outputs[n - 1];
        assert(outputs[n - 1] == other);
    }
}

/// A pixel of the screen is covered by the outlines exactly when it lies on the
/// border of another mapped output's rectangle that reaches into the screen:
/// within `thickness` pixels of its top, its bottom, its left or its right side.
pub proof fn lemma_outlines_cover_the_borders(
    wm: DriftWm,
    output: u64,
    on_screen: Seq<Rect>,
    viewport: Size,
    px: int,
    py: int,
)
    requires
        0 <= px < viewport.w,
        0 <= py < viewport.h,
        wm.config.output_outline.thickness > 0,
        !wm.config.output_outline.opacity.nan(),
        wm.config.output_outline.opacity.rank() > VANISHING_BITS,
    ensures
        ({
            let t = wm.config.output_outline.thickness as int;
            let rects = wm.outlines_on(output, on_screen, viewport);
            (exists|k: int|
                {
                    &&& 0 <= k < rects.len()
                    &&& (#[trigger] rects[k]).loc.x <= px < rects[k].loc.x + rects[k].size.w
                    &&& rects[k].loc.y <= py < rects[k].loc.y + rects[k].size.h
                }) <==> (exists|i: int|
                {
                    let x = on_screen[i].loc.x as int;
                    let y = on_screen[i].loc.y as int;
                    let w = on_screen[i].size.w as int;
                    let h = on_screen[i].size.h as int;
                    &&& 0 <= i < wm.outputs.len()
                    &&& (#[trigger] wm.outputs@[i]).location is Some
                    &&& wm.outputs@[i].id != output
                    &&& x < viewport.w && 0 < x + w && y < viewport.h && 0 < y + h
                    &&& {
                        ||| x <= px < x + w && y <= py < y + t
                        ||| x <= px < x + w && y + h - t <= py < y + h
                        ||| x <= px < x + t && y <= py < y + h
                        ||| x + w - t <= px < x + w && y <= py < y + h
                    }
                })
        }),
{
    let t = wm.config.output_outline.thickness as int;
    lemma_outlines_paint(
        wm.outputs@,
        on_screen,
        output,
        t,
        viewport,
        wm.outputs.len() as int,
        px,
        py,
    );
    let rects = wm.outlines_on(output, on_screen, viewport);
    assert(painted(rects, px, py) <==> exists|k: int|
        {
            &&& 0 <= k < rects.len()
            &&& (#[trigger] rects[k]).loc.x <= px < rects[k].loc.x + rects[k].size.w
            &&& rects[k].loc.y <= py < rects[k].loc.y + rects[k].size.h
        });
}

/// Every outline that is drawn lies on the screen and is not empty.
pub proof fn lemma_outlines_lie_on_the_screen(
    wm: DriftWm,
    output: u64,
    on_screen: Seq<Rect>,
    viewport: Size,
    k: int,
)
    requires
        0 <= k < wm.outlines_on(output, on_screen, viewport).len(),
    ensures
        ({
            let rect = wm.outlines_on(output, on_screen, viewport)[k];
            &&& 0 <= rect.loc.x
            &&& 0 <= rect.loc.y
            &&& 0 < rect.size.w
            &&& 0 < rect.size.h
            &&& rect.loc.x + rect.size.w <= viewport.w
            &&& rect.loc.y + rect.size.h <= viewport.h
        }),
{
    lemma_all_on_screen(
        wm.outputs@,
        on_screen,
        output,
        wm.config.output_outline.thickness as int,
        viewport,
        wm.outputs.len() as int,
        k,
    );
}

proof fn lemma_all_on_screen(
    outputs: Seq<Output>,
    on_screen: Seq<Rect>,
    output: u64,
    t: int,
    viewport: Size,
    n: int,
    k: int,
)
    requires
        0 <= k < outlines(outputs, on_screen, output, t, viewport, n).len(),
    ensures
        ({
            let rect = outlines(outputs, on_screen, output, t, viewport, n)[k];
            &&& 0 <= rect.loc.x
            &&& 0 <= rect.loc.y
            &&& 0 < rect.size.w
            &&& 0 < rect.size.h
            &&& rect.loc.x + rect.size.w <= viewport.w
            &&& rect.loc.y + rect.size.h <= viewport.h
        }),
    decreases n,
{
    let before = outlines(outputs, on_screen, output, t, viewport, n - 1);
    if k < before.len() {
        lemma_all_on_screen(outputs, on_screen, output, t, viewport, n - 1, k);
    }
}

/// Outlines that are too thin or too faint to see are not drawn: a thickness below
/// one pixel, or an opacity that is no more than two to the power of -150, such as
/// zero.
pub proof fn lemma_invisible_outlines_are_left_out(
    wm: DriftWm,
    output: u64,
    on_screen: Seq<Rect>,
    viewport: Size,
)
    ensures
        wm.config.output_outline.thickness < 1 ==> wm.outlines_on(
            output,
            on_screen,
            viewport,
        ).len() == 0,
        !wm.config.output_outline.opacity.nan() && !(Scalar { bits: VANISHING_BITS }).below(
            wm.config.output_outline.opacity,
        ) ==> wm.outlines_on(output, on_screen, viewport).len() == 0,
        wm.config.output_outline.opacity.same_number(Scalar { bits: 0 }) ==> wm.outlines_on(
            output,
            on_screen,
            viewport,
        ).len() == 0,
        (Scalar { bits: VANISHING_BITS }).numerator() * vstd::arithmetic::power2::pow2(150)
            == (Scalar { bits: VANISHING_BITS }).denominator(),
        !(Scalar { bits: VANISHING_BITS }).nan(),
{
    let limit = Scalar { bits: VANISHING_BITS };
    vstd::arithmetic::power2::lemma2_to64_rest();
    assert(limit.exponent() == 873);
    assert(limit.numerator() == vstd::arithmetic::power2::pow2(52));
    vstd::arithmetic::power2::lemma_pow2_adds(52, 150);
}

/// A filled buffer repeats its color: the first four bytes are the color, and
/// every pixel is the same as the one before it.
pub proof fn lemma_fill_repeats_the_color(color: Seq<u8>, at: int)
    requires
        0 <= at,
    ensures
        at < 4 ==> fill_byte(color, at) == color[at],
        fill_byte(color, at + 4) == fill_byte(color, at),
{
}

/// An outline that lies on the screen is drawn as exactly four rectangles, from corner
/// to corner: one along the top, one along the bottom, one along the left side and one
/// along the right.
pub proof fn lemma_whole_outline_has_four_edges(outline: Rect, t: int, viewport: Size)
    requires
        0 < t <= i32::MAX,
        0 <= outline.loc.x,
        0 <= outline.loc.y,
        t <= outline.size.w,
        t <= outline.size.h,
        outline.loc.x + outline.size.w <= viewport.w,
        outline.loc.y + outline.size.h <= viewport.h,
    ensures
        ({
            let edges = edges_of(outline, t, viewport);
            let right = outline.loc.x + outline.size.w;
            let bottom = outline.loc.y + outline.size.h;
            &&& edges.len() == 4
            &&& edges[0].loc == outline.loc && edges[0].size.w == outline.size.w && edges[0].size.h
                == t
            &&& edges[1].loc.x == outline.loc.x && edges[1].size.w == outline.size.w
                && edges[1].size.h == t && edges[1].loc.y + t == bottom
            &&& edges[2].loc == outline.loc && edges[2].size.w == t && edges[2].size.h
                == outline.size.h
            &&& edges[3].loc.y == outline.loc.y && edges[3].size.h == outline.size.h
                && edges[3].size.w == t && edges[3].loc.x + t == right
        }),
{
}

/// No side of an outline is drawn twice: an outline has at most four rectangles, and a
/// frame at most four for each output.
pub proof fn lemma_no_side_is_drawn_twice(
    outputs: Seq<Output>,
    on_screen: Seq<Rect>,
    output: u64,
    t: int,
    viewport: Size,
    n: int,
)
    requires
        0 <= n,
    ensures
        outlines(outputs, on_screen, output, t, viewport, n).len() <= 4 * n,
    decreases n,
{
    if n > 0 {
        lemma_no_side_is_drawn_twice(outputs, on_screen, output, t, viewport, n - 1);
        assert(edges_of(on_screen[n - 1], t, viewport).len() <= 4);
    }
}

} // verus!
