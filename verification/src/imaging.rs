//! The integer geometry of the pixel operations: target sizes, bounds
//! checks, orientation fixes, round-corner masks and watermark placement.
//! The pixel work itself is done by the image adapters.

use vstd::prelude::*;
use crate::error::{DomainError, fails_invalid};
use crate::numbers::{dec_string, fmt_u64, fmt_i64, signed_string};
use crate::ops::{ResizeMode, ResizeSpec};
use crate::text::join2;
use crate::value_objects::{Anchor, Color, Interpolation, Rect};

verus! {

// ─── Resize ──────────────────────────────────────────────────────────────────

/// The size a resize aims at: exact for `Exact` and `Fill`, a bounding box
/// for `Fit` (an absent edge leaves that direction unbounded).
#[derive(Debug, Clone, Copy, PartialEq, Eq, Structural)]
pub enum ResizeTarget {
    Exact { width: i32, height: i32 },
    Within { max_width: i32, max_height: i32 },
}

pub open spec fn resize_target_model(spec: ResizeSpec) -> Result<ResizeTarget, Seq<char>> {
    match spec.mode {
        ResizeMode::Exact => match (spec.width, spec.height) {
            (None, _) => Err("exact resize needs width"@),
            (Some(_), None) => Err("exact resize needs height"@),
            (Some(w), Some(h)) => Ok(ResizeTarget::Exact { width: w as i32, height: h as i32 }),
        },
        ResizeMode::Fill => match (spec.width, spec.height) {
            (None, _) => Err("fill resize needs width"@),
            (Some(_), None) => Err("fill resize needs height"@),
            (Some(w), Some(h)) => Ok(ResizeTarget::Exact { width: w as i32, height: h as i32 }),
        },
        ResizeMode::Fit => Ok(
            ResizeTarget::Within {
                max_width: match spec.width {
                    Some(w) => w as i32,
                    None => i32::MAX,
                },
                max_height: match spec.height {
                    Some(h) => h as i32,
                    None => i32::MAX,
                },
            },
        ),
    }
}

pub fn resize_target(spec: &ResizeSpec) -> (r: Result<ResizeTarget, DomainError>)
    ensures
        match resize_target_model(*spec) {
            Ok(t) => r == Ok::<ResizeTarget, DomainError>(t),
            Err(m) => fails_invalid(r, m),
        },
{
    match spec.mode {
        ResizeMode::Exact | ResizeMode::Fill => {
            let exact = spec.mode == ResizeMode::Exact;
            let w = match spec.width {
                Some(w) => w as i32,
                None => {
                    let m = if exact {
                        "exact resize needs width"
                    } else {
                        "fill resize needs width"
                    };
                    return Err(DomainError::invalid(String::from_str(m)));
                },
            };
            let h = match spec.height {
                Some(h) => h as i32,
                None => {
                    let m = if exact {
                        "exact resize needs height"
                    } else {
                        "fill resize needs height"
                    };
                    return Err(DomainError::invalid(String::from_str(m)));
                },
            };
            Ok(ResizeTarget::Exact { width: w, height: h })
        },
        ResizeMode::Fit => {
            let max_width = match spec.width {
                Some(w) => w as i32,
                None => i32::MAX,
            };
            let max_height = match spec.height {
                Some(h) => h as i32,
                None => i32::MAX,
            };
            Ok(ResizeTarget::Within { max_width, max_height })
        },
    }
}

/// A sampling kernel of the resampler.
#[derive(Debug, Clone, Copy, PartialEq, Eq, Structural)]
pub enum Kernel {
    Nearest,
    Linear,
    Cubic,
    Area,
    Lanczos4,
}

/// The kernel used for a resize: `Auto` takes `Area` when the image
/// shrinks (fewer output than input pixels) and `Linear` otherwise.
pub open spec fn kernel_for(i: Interpolation, in_pixels: int, out_pixels: int) -> Kernel {
    match i {
        Interpolation::Auto => if out_pixels < in_pixels {
            Kernel::Area
        } else {
            Kernel::Linear
        },
        Interpolation::Nearest => Kernel::Nearest,
        Interpolation::Linear => Kernel::Linear,
        Interpolation::Cubic => Kernel::Cubic,
        Interpolation::Area => Kernel::Area,
        Interpolation::Lanczos4 => Kernel::Lanczos4,
    }
}

pub fn resize_kernel(i: Interpolation, in_w: i32, in_h: i32, out_w: i32, out_h: i32) -> (k: Kernel)
    requires
        i32::MIN <= in_w * in_h <= i32::MAX,
        i32::MIN <= out_w * out_h <= i32::MAX,
    ensures
        k == kernel_for(i, in_w * in_h, out_w * out_h),
{
    match i {
        Interpolation::Auto => if out_w * out_h < in_w * in_h {
            Kernel::Area
        } else {
            Kernel::Linear
        },
        Interpolation::Nearest => Kernel::Nearest,
        Interpolation::Linear => Kernel::Linear,
        Interpolation::Cubic => Kernel::Cubic,
        Interpolation::Area => Kernel::Area,
        Interpolation::Lanczos4 => Kernel::Lanczos4,
    }
}

// ─── Crop ────────────────────────────────────────────────────────────────────

/// The rectangle lies inside a `width` × `height` image.
pub open spec fn rect_inside(r: Rect, width: u32, height: u32) -> bool {
    r.x + r.width <= width && r.y + r.height <= height
}

/// A crop must lie inside the image; otherwise the `crop` step fails.
pub fn check_crop(r: &Rect, img_w: u32, img_h: u32) -> (res: Result<(), DomainError>)
    ensures
        rect_inside(*r, img_w, img_h) ==> res is Ok,
        !rect_inside(*r, img_w, img_h) ==> (res matches Err(e) && e matches DomainError::OpFailed {
            op,
            message,
        } && op@ == "crop"@ && message@ == "rect out of bounds for "@ + dec_string(img_w as nat)
            + "x"@ + dec_string(img_h as nat)),
{
    let x_out = match r.x.checked_add(r.width) {
        Some(v) => v > img_w,
        None => true,
    };
    let y_out = match r.y.checked_add(r.height) {
        Some(v) => v > img_h,
        None => true,
    };
    if x_out || y_out {
        let w = fmt_u64(img_w as u64);
        let h = fmt_u64(img_h as u64);
        let a = join2("rect out of bounds for ", w.as_str());
        let b = join2(a.as_str(), "x");
        let msg = join2(b.as_str(), h.as_str());
        proof {
            assert(msg@ =~= "rect out of bounds for "@ + dec_string(img_w as nat) + "x"@
                + dec_string(img_h as nat));
        }
        return Err(DomainError::op("crop", msg));
    }
    Ok(())
}

// ─── Orientation ─────────────────────────────────────────────────────────────

/// One step of an orientation fix.
#[derive(Debug, Clone, Copy, PartialEq, Eq, Structural)]
pub enum OrientStep {
    /// Mirror left to right.
    FlipHorizontal,
    /// Mirror top to bottom.
    FlipVertical,
    Rotate90Clockwise,
    Rotate180,
    Rotate90CounterClockwise,
}

/// The steps that display an image stored with EXIF orientation `o`
/// upright; `None` for a value outside the EXIF range.
pub open spec fn orientation_steps(o: u16) -> Option<Seq<OrientStep>> {
    if o <= 1 {
        Some(Seq::empty())
    } else if o == 2 {
        Some(seq![OrientStep::FlipHorizontal])
    } else if o == 3 {
        Some(seq![OrientStep::Rotate180])
    } else if o == 4 {
        Some(seq![OrientStep::FlipVertical])
    } else if o == 5 {
        Some(seq![OrientStep::Rotate90Clockwise, OrientStep::FlipHorizontal])
    } else if o == 6 {
        Some(seq![OrientStep::Rotate90Clockwise])
    } else if o == 7 {
        Some(seq![OrientStep::Rotate90CounterClockwise, OrientStep::FlipHorizontal])
    } else if o == 8 {
        Some(seq![OrientStep::Rotate90CounterClockwise])
    } else {
        None
    }
}

pub fn orientation_plan(o: u16) -> (r: Result<Vec<OrientStep>, DomainError>)
    ensures
        orientation_steps(o) matches Some(s) ==> (r matches Ok(v) && v@ == s),
        orientation_steps(o) is None ==> (r matches Err(e) && e matches DomainError::OpFailed {
            op,
            message,
        } && op@ == "auto_orient"@ && message@ == "invalid orientation: "@ + dec_string(o as nat)),
{
    let mut v: Vec<OrientStep> = Vec::new();
    if o <= 1 {
    } else if o == 2 {
        v.push(OrientStep::FlipHorizontal);
    } else if o == 3 {
        v.push(OrientStep::Rotate180);
    } else if o == 4 {
        v.push(OrientStep::FlipVertical);
    } else if o == 5 {
        v.push(OrientStep::Rotate90Clockwise);
        v.push(OrientStep::FlipHorizontal);
    } else if o == 6 {
        v.push(OrientStep::Rotate90Clockwise);
    } else if o == 7 {
        v.push(OrientStep::Rotate90CounterClockwise);
        v.push(OrientStep::FlipHorizontal);
    } else if o == 8 {
        v.push(OrientStep::Rotate90CounterClockwise);
    } else {
        let n = fmt_u64(o as u64);
        return Err(DomainError::op("auto_orient", join2("invalid orientation: ", n.as_str())));
    }
    proof {
        assert(v@ =~= orientation_steps(o).unwrap());
    }
    Ok(v)
}

// ─── Round corners ───────────────────────────────────────────────────────────

/// The radius actually used: at most half of either side.
pub open spec fn clamped_radius(radius: u32, width: u32, height: u32) -> u32 {
    let a = if radius < width / 2 {
        radius
    } else {
        width / 2
    };
    if a < height / 2 {
        a
    } else {
        height / 2
    }
}

pub fn corner_radius(radius: u32, width: u32, height: u32) -> (r: u32)
    ensures
        r == clamped_radius(radius, width, height),
        r <= radius,
        2 * r <= width,
        2 * r <= height,
{
    let a = if radius < width / 2 {
        radius
    } else {
        width / 2
    };
    if a < height / 2 {
        a
    } else {
        height / 2
    }
}

/// An axis-aligned rectangle in signed pixel coordinates.
#[derive(Debug, Clone, Copy, PartialEq, Eq, Structural)]
pub struct PixelRect {
    pub x: i32,
    pub y: i32,
    pub width: i32,
    pub height: i32,
}

/// A filled circle of the mask.
#[derive(Debug, Clone, Copy, PartialEq, Eq, Structural)]
pub struct Disc {
    pub cx: i32,
    pub cy: i32,
    pub radius: i32,
}

/// The shapes painted opaque on a transparent `w` × `h` mask to round its
/// corners with radius `r`: a horizontal and a vertical band forming a
/// cross, and one disc at each corner.
#[derive(Debug, Clone, Copy)]
pub struct RoundMask {
    pub bands: [PixelRect; 2],
    pub discs: [Disc; 4],
}

pub open spec fn round_mask_model(w: int, h: int, r: int) -> (Seq<PixelRect>, Seq<Disc>) {
    (
        seq![
            PixelRect { x: r as i32, y: 0, width: (w - 2 * r) as i32, height: h as i32 },
            PixelRect { x: 0, y: r as i32, width: w as i32, height: (h - 2 * r) as i32 },
        ],
        seq![
            Disc { cx: r as i32, cy: r as i32, radius: r as i32 },
            Disc { cx: (w - r - 1) as i32, cy: r as i32, radius: r as i32 },
            Disc { cx: r as i32, cy: (h - r - 1) as i32, radius: r as i32 },
            Disc { cx: (w - r - 1) as i32, cy: (h - r - 1) as i32, radius: r as i32 },
        ],
    )
}

pub fn round_mask(w: u32, h: u32, r: u32) -> (m: RoundMask)
    requires
        w <= i32::MAX,
        h <= i32::MAX,
        1 <= r,
        2 * r <= w,
        2 * r <= h,
    ensures
        m.bands@ == round_mask_model(w as int, h as int, r as int).0,
        m.discs@ == round_mask_model(w as int, h as int, r as int).1,
{
    let w = w as i32;
    let h = h as i32;
    let r = r as i32;
    let bands = [
        PixelRect { x: r, y: 0, width: w - 2 * r, height: h },
        PixelRect { x: 0, y: r, width: w, height: h - 2 * r },
    ];
    let discs = [
        Disc { cx: r, cy: r, radius: r },
        Disc { cx: w - r - 1, cy: r, radius: r },
        Disc { cx: r, cy: h - r - 1, radius: r },
        Disc { cx: w - r - 1, cy: h - r - 1, radius: r },
    ];
    proof {
        assert(bands@ =~= round_mask_model(w as int, h as int, r as int).0);
        assert(discs@ =~= round_mask_model(w as int, h as int, r as int).1);
    }
    RoundMask { bands, discs }
}

// ─── Placement of watermarks ─────────────────────────────────────────────────

/// Where the top-left corner of a `w` × `h` overlay goes on an
/// `img_w` × `img_h` image for an anchor and margin.
pub open spec fn anchor_pos(anchor: Anchor, img_w: int, img_h: int, w: int, h: int, m: int) -> (
    int,
    int,
) {
    let cx = (img_w - w) / 2;
    let cy = (img_h - h) / 2;
    match anchor {
        Anchor::TopLeft => (m, m),
        Anchor::Top => (cx, m),
        Anchor::TopRight => (img_w - w - m, m),
        Anchor::Left => (m, cy),
        Anchor::Center => (cx, cy),
        Anchor::Right => (img_w - w - m, cy),
        Anchor::BottomLeft => (m, img_h - h - m),
        Anchor::Bottom => (cx, img_h - h - m),
        Anchor::BottomRight => (img_w - w - m, img_h - h - m),
    }
}

/// Halving that rounds toward zero, as `/ 2` does on `i32`.
pub open spec fn half(v: int) -> int {
    if v >= 0 {
        v / 2
    } else {
        -((-v) / 2)
    }
}

/// `anchor_pos` with the centring halves rounded toward zero.
pub open spec fn anchor_xy_model(anchor: Anchor, img_w: int, img_h: int, w: int, h: int, m: int) -> (
    int,
    int,
) {
    let cx = half(img_w - w);
    let cy = half(img_h - h);
    match anchor {
        Anchor::TopLeft => (m, m),
        Anchor::Top => (cx, m),
        Anchor::TopRight => (img_w - w - m, m),
        Anchor::Left => (m, cy),
        Anchor::Center => (cx, cy),
        Anchor::Right => (img_w - w - m, cy),
        Anchor::BottomLeft => (m, img_h - h - m),
        Anchor::Bottom => (cx, img_h - h - m),
        Anchor::BottomRight => (img_w - w - m, img_h - h - m),
    }
}

/// The sums `anchor_xy` computes fit in `i32`.
pub open spec fn anchor_fits(img_w: i32, img_h: i32, w: i32, h: i32, m: i32) -> bool {
    &&& i32::MIN <= img_w - w <= i32::MAX
    &&& i32::MIN <= img_h - h <= i32::MAX
    &&& i32::MIN <= img_w - w - m <= i32::MAX
    &&& i32::MIN <= img_h - h - m <= i32::MAX
}

pub fn anchor_xy(anchor: Anchor, img_w: i32, img_h: i32, w: i32, h: i32, margin: i32) -> (p: (
    i32,
    i32,
))
    requires
        anchor_fits(img_w, img_h, w, h, margin),
    ensures
        (p.0 as int, p.1 as int) == anchor_xy_model(
            anchor,
            img_w as int,
            img_h as int,
            w as int,
            h as int,
            margin as int,
        ),
{
    let m = margin;
    match anchor {
        Anchor::TopLeft => (m, m),
        Anchor::Top => ((img_w - w) / 2, m),
        Anchor::TopRight => (img_w - w - m, m),
        Anchor::Left => (m, (img_h - h) / 2),
        Anchor::Center => ((img_w - w) / 2, (img_h - h) / 2),
        Anchor::Right => (img_w - w - m, (img_h - h) / 2),
        Anchor::BottomLeft => (m, img_h - h - m),
        Anchor::Bottom => ((img_w - w) / 2, img_h - h - m),
        Anchor::BottomRight => (img_w - w - m, img_h - h - m),
    }
}

/// Where an overlay placed with its top-left corner at `(x, y)` is drawn:
/// the part of it that falls on the image, as a region of the image and
/// the matching region of the overlay; `None` when nothing falls on it.
pub open spec fn overlay_model(img_w: int, img_h: int, ov_w: int, ov_h: int, x: int, y: int) -> Option<
    (PixelRect, PixelRect),
> {
    let x0 = if x > 0 {
        x
    } else {
        0
    };
    let y0 = if y > 0 {
        y
    } else {
        0
    };
    let w = if ov_w < img_w - x0 {
        ov_w
    } else {
        img_w - x0
    };
    let h = if ov_h < img_h - y0 {
        ov_h
    } else {
        img_h - y0
    };
    if w <= 0 || h <= 0 {
        None
    } else {
        Some(
            (
                PixelRect { x: x0 as i32, y: y0 as i32, width: w as i32, height: h as i32 },
                PixelRect {
                    x: (x0 - x) as i32,
                    y: (y0 - y) as i32,
                    width: w as i32,
                    height: h as i32,
                },
            ),
        )
    }
}

/// The region to blend an overlay into, with the overlay clamped to the
/// image's bounds.
pub fn overlay_regions(img_w: i32, img_h: i32, ov_w: i32, ov_h: i32, x: i32, y: i32) -> (r: Option<
    (PixelRect, PixelRect),
>)
    requires
        0 <= img_w,
        0 <= img_h,
        i32::MIN <= img_w - x <= i32::MAX,
        i32::MIN <= img_h - y <= i32::MAX,
        i32::MIN <= 0 - x <= i32::MAX,
        i32::MIN <= 0 - y <= i32::MAX,
    ensures
        r == overlay_model(img_w as int, img_h as int, ov_w as int, ov_h as int, x as int, y as int),
{
    let x0 = if x > 0 {
        x
    } else {
        0
    };
    let y0 = if y > 0 {
        y
    } else {
        0
    };
    let w = if ov_w < img_w - x0 {
        ov_w
    } else {
        img_w - x0
    };
    let h = if ov_h < img_h - y0 {
        ov_h
    } else {
        img_h - y0
    };
    if w <= 0 || h <= 0 {
        return None;
    }
    Some(
        (
            PixelRect { x: x0, y: y0, width: w, height: h },
            PixelRect { x: x0 - x, y: y0 - y, width: w, height: h },
        ),
    )
}

/// The colour of a text's drop shadow: black, at 180/255 of the text's
/// alpha.
pub fn shadow_color(c: Color) -> (s: Color)
    ensures
        s == (Color { r: 0, g: 0, b: 0, a: ((c.a as int * 180) / 255) as u8 }),
{
    let a = (c.a as u16 * 180) / 255;
    Color::rgba(0, 0, 0, a as u8)
}

// ─── Diff ────────────────────────────────────────────────────────────────────

/// A diff compares images of the same size only.
pub fn check_same_size(before_w: i32, before_h: i32, after_w: i32, after_h: i32) -> (r: Result<
    (),
    DomainError,
>)
    ensures
        (before_w == after_w && before_h == after_h) ==> r is Ok,
        !(before_w == after_w && before_h == after_h) ==> fails_invalid(
            r,
            "diff requires same dimensions: before="@ + signed_string(before_w as int) + "x"@
                + signed_string(before_h as int) + ", after="@ + signed_string(after_w as int)
                + "x"@ + signed_string(after_h as int),
        ),
{
    if before_w != after_w || before_h != after_h {
        let bw = fmt_i64(before_w as i64);
        let bh = fmt_i64(before_h as i64);
        let aw = fmt_i64(after_w as i64);
        let ah = fmt_i64(after_h as i64);
        let s1 = join2("diff requires same dimensions: before=", bw.as_str());
        let s2 = join2(s1.as_str(), "x");
        let s3 = join2(s2.as_str(), bh.as_str());
        let s4 = join2(s3.as_str(), ", after=");
        let s5 = join2(s4.as_str(), aw.as_str());
        let s6 = join2(s5.as_str(), "x");
        let msg = join2(s6.as_str(), ah.as_str());
        proof {
            assert(msg@ =~= "diff requires same dimensions: before="@ + signed_string(
                before_w as int,
            ) + "x"@ + signed_string(before_h as int) + ", after="@ + signed_string(
                after_w as int,
            ) + "x"@ + signed_string(after_h as int));
        }
        return Err(DomainError::invalid(msg));
    }
    Ok(())
}

// ─── Laws ────────────────────────────────────────────────────────────────────

/// The bands of a round-corner mask lie inside the image, and the centre
/// of each corner disc is a pixel of the image.
pub proof fn round_mask_inside(w: int, h: int, r: int)
    requires
        0 <= w <= i32::MAX,
        0 <= h <= i32::MAX,
        1 <= r,
        2 * r <= w,
        2 * r <= h,
    ensures
        forall|k: int|
            0 <= k < 2 ==> {
                let b = #[trigger] round_mask_model(w, h, r).0[k];
                0 <= b.x && 0 <= b.y && 0 <= b.width && 0 <= b.height && b.x + b.width <= w && b.y
                    + b.height <= h
            },
        forall|k: int|
            0 <= k < 4 ==> {
                let d = #[trigger] round_mask_model(w, h, r).1[k];
                0 <= d.cx < w && 0 <= d.cy < h && d.radius == r
            },
{
}

/// The region an overlay is blended into lies inside the image; the
/// region read from the overlay starts inside it and, when the overlay is
/// placed at a non-negative position, lies inside it. (Placed further left
/// or up, as a watermark wider than the image is, the region read reaches
/// past the overlay's right or bottom edge.)
pub proof fn overlay_regions_inside(img_w: int, img_h: int, ov_w: int, ov_h: int, x: int, y: int)
    requires
        0 <= img_w <= i32::MAX,
        0 <= img_h <= i32::MAX,
        0 <= ov_w <= i32::MAX,
        0 <= ov_h <= i32::MAX,
        i32::MIN <= x <= i32::MAX,
        i32::MIN <= y <= i32::MAX,
        i32::MIN <= img_w - x <= i32::MAX,
        i32::MIN <= img_h - y <= i32::MAX,
        i32::MIN <= 0 - x <= i32::MAX,
        i32::MIN <= 0 - y <= i32::MAX,
    ensures
        overlay_model(img_w, img_h, ov_w, ov_h, x, y) matches Some((d, s)) ==> {
            &&& 0 <= d.x && 0 <= d.y && 0 < d.width && 0 < d.height
            &&& d.x + d.width <= img_w && d.y + d.height <= img_h
            &&& 0 <= s.x && 0 <= s.y && s.width == d.width && s.height == d.height
            &&& (x >= 0 && y >= 0) ==> (s.x == 0 && s.y == 0 && s.width <= ov_w && s.height
                <= ov_h)
        },
{
}


// ─── what the orientation steps do ───────────────────────────────────────────

/// Width and height of a `w` × `h` image after one step.
pub open spec fn step_dims(step: OrientStep, w: int, h: int) -> (int, int) {
    match step {
        OrientStep::Rotate90Clockwise | OrientStep::Rotate90CounterClockwise => (h, w),
        _ => (w, h),
    }
}

/// The pixel of a `w` × `h` image that one step moves to `(x, y)` (column,
/// row, from the top-left corner).
pub open spec fn step_source(step: OrientStep, w: int, h: int, x: int, y: int) -> (int, int) {
    match step {
        OrientStep::FlipHorizontal => (w - 1 - x, y),
        OrientStep::FlipVertical => (x, h - 1 - y),
        OrientStep::Rotate90Clockwise => (y, h - 1 - x),
        OrientStep::Rotate180 => (w - 1 - x, h - 1 - y),
        OrientStep::Rotate90CounterClockwise => (w - 1 - y, x),
    }
}

/// Width and height of a `w` × `h` image after the steps, applied in order.
pub open spec fn steps_dims(steps: Seq<OrientStep>, w: int, h: int) -> (int, int)
    decreases steps.len(),
{
    if steps.len() == 0 {
        (w, h)
    } else {
        let (w1, h1) = steps_dims(steps.drop_last(), w, h);
        step_dims(steps.last(), w1, h1)
    }
}

/// The pixel of a `w` × `h` image that the steps, applied in order, move to
/// `(x, y)`.
pub open spec fn steps_source(steps: Seq<OrientStep>, w: int, h: int, x: int, y: int) -> (int, int)
    decreases steps.len(),
{
    if steps.len() == 0 {
        (x, y)
    } else {
        let (w1, h1) = steps_dims(steps.drop_last(), w, h);
        let (x1, y1) = step_source(steps.last(), w1, h1, x, y);
        steps_source(steps.drop_last(), w, h, x1, y1)
    }
}

/// Width and height in which an image stored `w` × `h` with EXIF
/// orientation `o` is meant to be seen: orientations 5 to 8 store it on its
/// side.
pub open spec fn exif_upright_dims(o: int, w: int, h: int) -> (int, int) {
    if 5 <= o <= 8 {
        (h, w)
    } else {
        (w, h)
    }
}

/// The stored pixel seen at `(x, y)` of the upright image, for a `w` × `h`
/// image stored with EXIF orientation `o`. The EXIF tag says where the
/// stored first row and first column belong when seen: 1 top and left;
/// 2 top and right; 3 bottom and right; 4 bottom and left; 5 left and top;
/// 6 right and top; 7 right and bottom; 8 left and bottom.
pub open spec fn exif_source(o: int, w: int, h: int, x: int, y: int) -> (int, int) {
    if o == 2 {
        (w - 1 - x, y)
    } else if o == 3 {
        (w - 1 - x, h - 1 - y)
    } else if o == 4 {
        (x, h - 1 - y)
    } else if o == 5 {
        (y, x)
    } else if o == 6 {
        (y, h - 1 - x)
    } else if o == 7 {
        (w - 1 - y, h - 1 - x)
    } else if o == 8 {
        (w - 1 - y, x)
    } else {
        (x, y)
    }
}

/// The orientation fix of every EXIF orientation shows the image upright:
/// applying its steps to a `w` × `h` image stored with orientation `o`
/// gives the dimensions it is meant to be seen in, and puts at each place
/// the stored pixel that the EXIF tag says belongs there. (Orientation 6,
/// the usual one of a portrait phone photo, is turned a quarter clockwise;
/// 8 a quarter counter-clockwise; 0, which EXIF leaves undefined, is
/// taken as 1.)
pub proof fn orientation_fix_is_upright(o: u16, w: int, h: int, x: int, y: int)
    requires
        o <= 8,
    ensures
        orientation_steps(o) matches Some(s) && steps_dims(s, w, h) == exif_upright_dims(
            o as int,
            w,
            h,
        ) && steps_source(s, w, h, x, y) == exif_source(o as int, w, h, x, y),
{
    reveal_with_fuel(steps_dims, 3);
    reveal_with_fuel(steps_source, 3);
    let s = orientation_steps(o).unwrap();
    if s.len() == 1 {
        assert(s.drop_last() =~= Seq::<OrientStep>::empty());
    } else if s.len() == 2 {
        assert(s.drop_last() =~= seq![s[0]]);
        assert(s.drop_last().drop_last() =~= Seq::<OrientStep>::empty());
    }
}

// ─── what the anchors mean ───────────────────────────────────────────────────

/// Every anchor places an overlay at the spot it names: the left column at
/// the margin from the left edge, the right column at the margin from the
/// right edge, the middle column centred (the space left and right differ
/// by at most one, the halving rounded toward zero); rows likewise from
/// the top edge, the bottom edge, or centred.
pub proof fn anchors_place_by_name(
    anchor: Anchor,
    img_w: int,
    img_h: int,
    w: int,
    h: int,
    m: int,
)
    ensures
        ({
            let (x, y) = anchor_xy_model(anchor, img_w, img_h, w, h, m);
            &&& (anchor is TopLeft || anchor is Left || anchor is BottomLeft) ==> x == m
            &&& (anchor is TopRight || anchor is Right || anchor is BottomRight) ==> img_w - (x + w)
                == m
            &&& (anchor is Top || anchor is Center || anchor is Bottom) ==> {
                &&& -1 <= (img_w - (x + w)) - x <= 1
                &&& if img_w - w >= 0 {
                    0 <= 2 * x <= img_w - w
                } else {
                    img_w - w <= 2 * x <= 0
                }
            }
            &&& (anchor is TopLeft || anchor is Top || anchor is TopRight) ==> y == m
            &&& (anchor is BottomLeft || anchor is Bottom || anchor is BottomRight) ==> img_h - (y
                + h) == m
            &&& (anchor is Left || anchor is Center || anchor is Right) ==> {
                &&& -1 <= (img_h - (y + h)) - y <= 1
                &&& if img_h - h >= 0 {
                    0 <= 2 * y <= img_h - h
                } else {
                    img_h - h <= 2 * y <= 0
                }
            }
        }),
{
}

/// The rectangle holds the pixel `(px, py)`.
pub open spec fn rect_has(r: PixelRect, px: int, py: int) -> bool {
    r.x <= px < r.x + r.width && r.y <= py < r.y + r.height
}

/// An `ov_w` × `ov_h` overlay placed at `(x, y)` covers the pixel `(px, py)`.
pub open spec fn overlay_covers(ov_w: int, ov_h: int, x: int, y: int, px: int, py: int) -> bool {
    0 <= px - x < ov_w && 0 <= py - y < ov_h
}

/// Blending an overlay placed at `(x, y)` touches exactly the image pixels
/// it covers: each pixel of the region drawn into is matched with the
/// overlay pixel at the same offset from `(x, y)`, every image pixel that
/// the overlay covers lies in that region (and, for an overlay placed at a
/// non-negative position, no other), and when nothing is drawn the overlay
/// covers no pixel of the image.
pub proof fn overlay_regions_cover(img_w: int, img_h: int, ov_w: int, ov_h: int, x: int, y: int)
    requires
        0 <= img_w <= i32::MAX,
        0 <= img_h <= i32::MAX,
        0 <= ov_w <= i32::MAX,
        0 <= ov_h <= i32::MAX,
        i32::MIN <= x <= i32::MAX,
        i32::MIN <= y <= i32::MAX,
        i32::MIN <= img_w - x <= i32::MAX,
        i32::MIN <= img_h - y <= i32::MAX,
        i32::MIN <= 0 - x <= i32::MAX,
        i32::MIN <= 0 - y <= i32::MAX,
    ensures
        match overlay_model(img_w, img_h, ov_w, ov_h, x, y) {
            Some((d, s)) => {
                &&& d.x - s.x == x && d.y - s.y == y
                &&& s.width == d.width && s.height == d.height
                &&& forall|px: int, py: int|
                    #![trigger overlay_covers(ov_w, ov_h, x, y, px, py)]
                    overlay_covers(ov_w, ov_h, x, y, px, py) && 0 <= px < img_w && 0 <= py < img_h
                        ==> rect_has(d, px, py)
                &&& (x >= 0 && y >= 0) ==> forall|px: int, py: int|
                    #![trigger rect_has(d, px, py)]
                    rect_has(d, px, py) ==> overlay_covers(ov_w, ov_h, x, y, px, py) && 0 <= px
                        < img_w && 0 <= py < img_h
            },
            None => forall|px: int, py: int|
                #![trigger overlay_covers(ov_w, ov_h, x, y, px, py)]
                overlay_covers(ov_w, ov_h, x, y, px, py) ==> !(0 <= px < img_w && 0 <= py < img_h),
        },
{
}

/// `Exact` and `Fill` aim at exactly the width and height asked for, and
/// need both; `Fit` aims at a box bounded by the edges that were given,
/// an edge left out leaving that direction unbounded. With `Auto`
/// interpolation a shrinking resize samples by area and any other by
/// linear interpolation.
pub proof fn resize_targets_follow_mode(spec: ResizeSpec, in_pixels: int, out_pixels: int)
    requires
        spec.width matches Some(w) ==> w <= i32::MAX,
        spec.height matches Some(h) ==> h <= i32::MAX,
    ensures
        (spec.mode is Exact || spec.mode is Fill) ==> match (spec.width, spec.height) {
            (Some(w), Some(h)) => resize_target_model(spec) matches Ok(ResizeTarget::Exact {
                width,
                height,
            }) && width == w && height == h,
            _ => resize_target_model(spec) is Err,
        },
        spec.mode is Fit ==> (resize_target_model(spec) matches Ok(ResizeTarget::Within {
            max_width,
            max_height,
        }) && max_width == (match spec.width {
            Some(w) => w as int,
            None => i32::MAX as int,
        }) && max_height == (match spec.height {
            Some(h) => h as int,
            None => i32::MAX as int,
        })),
        out_pixels < in_pixels ==> kernel_for(Interpolation::Auto, in_pixels, out_pixels)
            == Kernel::Area,
        out_pixels >= in_pixels ==> kernel_for(Interpolation::Auto, in_pixels, out_pixels)
            == Kernel::Linear,
{
}
} // verus!
