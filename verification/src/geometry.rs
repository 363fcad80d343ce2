//! Plain geometry and color values for the panel: points, rectangles and RGB
//! colors, with the clipping arithmetic the drawable surface needs.
//!
//! A rectangle is a top-left corner and a size, and covers the pixel columns
//! `x .. x + width` and rows `y .. y + height` (exclusive ends). Drawing
//! clips every request against the panel's extent before any bus traffic is
//! planned.
use vstd::prelude::*;

verus! {

/// An RGB color, one byte per channel, streamed to the panel in
/// red/green/blue order.
#[derive(Clone, Copy, PartialEq, Eq, Structural, Debug)]
pub struct Rgb {
    pub r: u8,
    pub g: u8,
    pub b: u8,
}

/// A single pixel to draw: its panel coordinates and its color.
#[derive(Clone, Copy, PartialEq, Eq, Structural, Debug)]
pub struct Pixel {
    pub x: i32,
    pub y: i32,
    pub color: Rgb,
}

/// An axis-aligned rectangle: top-left corner and size.
#[derive(Clone, Copy, PartialEq, Eq, Structural, Debug)]
pub struct Rect {
    pub x: i32,
    pub y: i32,
    pub width: u32,
    pub height: u32,
}

/// Whether the rectangle covers the pixel at column `px`, row `py`.
pub open spec fn spec_rect_contains(r: Rect, px: int, py: int) -> bool {
    &&& r.x <= px < r.x + r.width
    &&& r.y <= py < r.y + r.height
}

/// Whether a point lies on the panel.
pub open spec fn spec_on_panel(px: int, py: int, panel_width: int, panel_height: int) -> bool {
    0 <= px < panel_width && 0 <= py < panel_height
}

/// Whether the rectangle, clipped to a `panel_width` × `panel_height` panel,
/// still covers at least one pixel.
pub open spec fn spec_clip_nonempty(r: Rect, panel_width: int, panel_height: int) -> bool {
    &&& r.width > 0
    &&& r.height > 0
    &&& r.x < panel_width
    &&& r.y < panel_height
    &&& r.x + r.width > 0
    &&& r.y + r.height > 0
}

/// First column of the clipped rectangle.
pub open spec fn spec_clip_x1(r: Rect) -> int {
    if r.x > 0 {
        r.x as int
    } else {
        0
    }
}

/// Last column (inclusive) of the clipped rectangle.
pub open spec fn spec_clip_x2(r: Rect, panel_width: int) -> int {
    if r.x + r.width <= panel_width {
        r.x + r.width - 1
    } else {
        panel_width - 1
    }
}

/// First row of the clipped rectangle.
pub open spec fn spec_clip_y1(r: Rect) -> int {
    if r.y > 0 {
        r.y as int
    } else {
        0
    }
}

/// Last row (inclusive) of the clipped rectangle.
pub open spec fn spec_clip_y2(r: Rect, panel_height: int) -> int {
    if r.y + r.height <= panel_height {
        r.y + r.height - 1
    } else {
        panel_height - 1
    }
}

/// The clipped bounds describe exactly the pixels that lie both in the
/// rectangle and on the panel, and a nonempty clip is a real range.
pub proof fn lemma_clip_correct(r: Rect, pw: int, ph: int)
    requires
        pw > 0,
        ph > 0,
    ensures
        spec_clip_nonempty(r, pw, ph) ==> spec_clip_x1(r) <= spec_clip_x2(r, pw)
            && spec_clip_y1(r) <= spec_clip_y2(r, ph),
        forall|px: int, py: int|
            (spec_rect_contains(r, px, py) && spec_on_panel(px, py, pw, ph)) <==> (
            spec_clip_nonempty(r, pw, ph) && spec_clip_x1(r) <= px <= spec_clip_x2(r, pw)
                && spec_clip_y1(r) <= py <= spec_clip_y2(r, ph)),
{
}

/// The pixel colors of a fill, flattened to the byte stream the panel
/// receives: three bytes per color, red/green/blue order.
pub open spec fn spec_color_bytes(colors: Seq<Rgb>) -> Seq<u8>
    decreases colors.len(),
{
    if colors.len() == 0 {
        Seq::empty()
    } else {
        seq![colors[0].r, colors[0].g, colors[0].b] + spec_color_bytes(colors.skip(1))
    }
}

pub proof fn lemma_color_bytes_len(colors: Seq<Rgb>)
    ensures
        spec_color_bytes(colors).len() == 3 * colors.len(),
    decreases colors.len(),
{
    if colors.len() > 0 {
        lemma_color_bytes_len(colors.skip(1));
    }
}

/// Flatten `colors` into the panel's byte order.
#[verifier::loop_isolation(false)]
pub fn color_bytes(colors: &[Rgb]) -> (bytes: Vec<u8>)
    ensures
        bytes@ == spec_color_bytes(colors@),
{
    let mut bytes: Vec<u8> = Vec::new();
    let mut i: usize = 0;
    proof {
        assert(colors@.skip(0) =~= colors@);
    }
    while i < colors.len()
        invariant
            i <= colors@.len(),
            bytes@ + spec_color_bytes(colors@.skip(i as int)) == spec_color_bytes(colors@),
            bytes@.len() == 3 * i,
        decreases colors@.len() - i,
    {
        let c = colors[i];
        bytes.push(c.r);
        bytes.push(c.g);
        bytes.push(c.b);
        i = i + 1;
        proof {
            let rem = colors@.skip(i - 1);
            assert(rem[0] == colors@[i - 1]);
            assert(rem.skip(1) =~= colors@.skip(i as int));
            assert(bytes@ + spec_color_bytes(colors@.skip(i as int)) =~= spec_color_bytes(
                colors@,
            ));
        }
    }
    proof {
        assert(colors@.skip(i as int) =~= Seq::<Rgb>::empty());
        assert(bytes@ =~= spec_color_bytes(colors@));
    }
    bytes
}

} // verus!
