//! Operation value objects.
//!
//! Each variant is a validated specification. Real-valued parameters (blur
//! sigma, rotation angle, …) are carried by the type parameters `S` (single
//! precision) and `D` (double precision): this crate never interprets them,
//! so the rules on their ranges are checked where they are given meaning.

use vstd::prelude::*;
use crate::error::{DomainError, fails_invalid};
use crate::value_objects::{Anchor, Color, Interpolation, Rect, MAX_EDGE};

verus! {

#[derive(Debug, Clone)]
pub enum Op<S, D> {
    // ── basic ──────────────────────────────────────────────────────────────
    Resize(ResizeSpec),
    Rotate(RotateSpec<D>),
    Crop(CropSpec),
    // ── effect ─────────────────────────────────────────────────────────────
    Blur(BlurSpec<S>),
    Sharpen(SharpenSpec<S>),
    RoundCorner(RoundCornerSpec),
    Brightness(BrightnessSpec),
    Contrast(ContrastSpec<S>),
    Saturation(SaturationSpec<S>),
    Temperature(TemperatureSpec),
    AutoOrient,
    // ── watermark ──────────────────────────────────────────────────────────
    WatermarkImage(WatermarkImageSpec<S>),
    WatermarkText(WatermarkTextSpec<S>),
}

#[derive(Debug, Clone, Copy, PartialEq, Eq, Structural)]
pub enum OpKind {
    Resize,
    Rotate,
    Crop,
    Blur,
    Sharpen,
    RoundCorner,
    Brightness,
    Contrast,
    Saturation,
    Temperature,
    AutoOrient,
    WatermarkImage,
    WatermarkText,
}

pub open spec fn op_kind<S, D>(op: Op<S, D>) -> OpKind {
    match op {
        Op::Resize(_) => OpKind::Resize,
        Op::Rotate(_) => OpKind::Rotate,
        Op::Crop(_) => OpKind::Crop,
        Op::Blur(_) => OpKind::Blur,
        Op::Sharpen(_) => OpKind::Sharpen,
        Op::RoundCorner(_) => OpKind::RoundCorner,
        Op::Brightness(_) => OpKind::Brightness,
        Op::Contrast(_) => OpKind::Contrast,
        Op::Saturation(_) => OpKind::Saturation,
        Op::Temperature(_) => OpKind::Temperature,
        Op::AutoOrient => OpKind::AutoOrient,
        Op::WatermarkImage(_) => OpKind::WatermarkImage,
        Op::WatermarkText(_) => OpKind::WatermarkText,
    }
}

impl<S, D> Op<S, D> {
    pub fn kind(&self) -> (k: OpKind)
        ensures
            k == op_kind(*self),
    {
        match self {
            Op::Resize(_) => OpKind::Resize,
            Op::Rotate(_) => OpKind::Rotate,
            Op::Crop(_) => OpKind::Crop,
            Op::Blur(_) => OpKind::Blur,
            Op::Sharpen(_) => OpKind::Sharpen,
            Op::RoundCorner(_) => OpKind::RoundCorner,
            Op::Brightness(_) => OpKind::Brightness,
            Op::Contrast(_) => OpKind::Contrast,
            Op::Saturation(_) => OpKind::Saturation,
            Op::Temperature(_) => OpKind::Temperature,
            Op::AutoOrient => OpKind::AutoOrient,
            Op::WatermarkImage(_) => OpKind::WatermarkImage,
            Op::WatermarkText(_) => OpKind::WatermarkText,
        }
    }
}

pub open spec fn op_kind_name(k: OpKind) -> Seq<char> {
    match k {
        OpKind::Resize => "resize"@,
        OpKind::Rotate => "rotate"@,
        OpKind::Crop => "crop"@,
        OpKind::Blur => "blur"@,
        OpKind::Sharpen => "sharpen"@,
        OpKind::RoundCorner => "round_corner"@,
        OpKind::Brightness => "brightness"@,
        OpKind::Contrast => "contrast"@,
        OpKind::Saturation => "saturation"@,
        OpKind::Temperature => "temperature"@,
        OpKind::AutoOrient => "auto_orient"@,
        OpKind::WatermarkImage => "watermark_image"@,
        OpKind::WatermarkText => "watermark_text"@,
    }
}

impl OpKind {
    pub fn as_str(self) -> (r: &'static str)
        ensures
            r@ == op_kind_name(self),
    {
        match self {
            OpKind::Resize => "resize",
            OpKind::Rotate => "rotate",
            OpKind::Crop => "crop",
            OpKind::Blur => "blur",
            OpKind::Sharpen => "sharpen",
            OpKind::RoundCorner => "round_corner",
            OpKind::Brightness => "brightness",
            OpKind::Contrast => "contrast",
            OpKind::Saturation => "saturation",
            OpKind::Temperature => "temperature",
            OpKind::AutoOrient => "auto_orient",
            OpKind::WatermarkImage => "watermark_image",
            OpKind::WatermarkText => "watermark_text",
        }
    }
}

// ─── Resize ──────────────────────────────────────────────────────────────────

#[derive(Debug, Clone, Copy, PartialEq, Eq, Structural)]
pub enum ResizeMode {
    /// Stretch to exact dimensions, ignoring aspect ratio.
    Exact,
    /// Fit inside the bounding box, preserving aspect ratio.
    Fit,
    /// Cover the bounding box, preserving aspect ratio (excess cropped).
    Fill,
}

#[derive(Debug, Clone, Copy, PartialEq, Eq, Structural)]
pub struct ResizeSpec {
    pub width: Option<u32>,
    pub height: Option<u32>,
    pub mode: ResizeMode,
    pub interpolation: Interpolation,
}

pub open spec fn edge_in_range(e: Option<u32>) -> bool {
    match e {
        Some(v) => 0 < v <= MAX_EDGE,
        None => true,
    }
}

/// What `ResizeSpec::with_interpolation` gives: the spec, or the message of
/// the `InvalidArgument` error.
pub open spec fn resize_outcome(
    width: Option<u32>,
    height: Option<u32>,
    mode: ResizeMode,
    interpolation: Interpolation,
) -> Result<ResizeSpec, Seq<char>> {
    if width is None && height is None {
        Err("resize requires width or height"@)
    } else if !edge_in_range(width) {
        Err("resize width out of range"@)
    } else if !edge_in_range(height) {
        Err("resize height out of range"@)
    } else {
        Ok(ResizeSpec { width, height, mode, interpolation })
    }
}

pub open spec fn resize_spec_result(
    r: Result<ResizeSpec, DomainError>,
    width: Option<u32>,
    height: Option<u32>,
    mode: ResizeMode,
    interpolation: Interpolation,
) -> bool {
    match resize_outcome(width, height, mode, interpolation) {
        Ok(s) => r == Ok::<ResizeSpec, DomainError>(s),
        Err(m) => fails_invalid(r, m),
    }
}

impl ResizeSpec {
    /// Constructor with the interpolation left at `Auto`.
    pub fn new(width: Option<u32>, height: Option<u32>, mode: ResizeMode) -> (r: Result<
        Self,
        DomainError,
    >)
        ensures
            resize_spec_result(r, width, height, mode, Interpolation::Auto),
    {
        Self::with_interpolation(width, height, mode, Interpolation::Auto)
    }

    pub fn with_interpolation(
        width: Option<u32>,
        height: Option<u32>,
        mode: ResizeMode,
        interpolation: Interpolation,
    ) -> (r: Result<Self, DomainError>)
        ensures
            resize_spec_result(r, width, height, mode, interpolation),
    {
        if width.is_none() && height.is_none() {
            return Err(DomainError::invalid(String::from_str("resize requires width or height")));
        }
        if let Some(w) = width {
            if w == 0 || w > 16384 {
                return Err(DomainError::invalid(String::from_str("resize width out of range")));
            }
        }
        if let Some(h) = height {
            if h == 0 || h > 16384 {
                return Err(DomainError::invalid(String::from_str("resize height out of range")));
            }
        }
        Ok(Self { width, height, mode, interpolation })
    }
}

// ─── Rotate ──────────────────────────────────────────────────────────────────

#[derive(Debug, Clone, Copy)]
pub struct RotateSpec<D> {
    pub angle: D,
    pub background: Color,
}

impl<D> RotateSpec<D> {
    pub fn new(angle: D, background: Color) -> (r: Self)
        ensures
            r == (RotateSpec { angle, background }),
    {
        Self { angle, background }
    }
}

// ─── Crop ────────────────────────────────────────────────────────────────────

#[derive(Debug, Clone, Copy, PartialEq, Eq, Structural)]
pub struct CropSpec {
    pub rect: Rect,
}

impl CropSpec {
    pub fn new(rect: Rect) -> (r: Self)
        ensures
            r == (CropSpec { rect }),
    {
        Self { rect }
    }
}

// ─── Blur / Sharpen ──────────────────────────────────────────────────────────

/// Gaussian blur; `sigma` must lie in `[0, 100]`.
#[derive(Debug, Clone, Copy)]
pub struct BlurSpec<S> {
    pub sigma: S,
}

/// Unsharp mask; `amount` in `[0, 5]`, `radius` in `[0, 10]`.
#[derive(Debug, Clone, Copy)]
pub struct SharpenSpec<S> {
    pub amount: S,
    pub radius: S,
}

// ─── RoundCorner ─────────────────────────────────────────────────────────────

#[derive(Debug, Clone, Copy, PartialEq, Eq, Structural)]
pub struct RoundCornerSpec {
    pub radius: u32,
}

impl RoundCornerSpec {
    pub fn new(radius: u32) -> (r: Result<Self, DomainError>)
        ensures
            (radius == 0 || radius > 4096) ==> fails_invalid(r, "round-corner radius out of range"@),
            (0 < radius <= 4096) ==> r == Ok::<Self, DomainError>(RoundCornerSpec { radius }),
    {
        if radius == 0 || radius > 4096 {
            return Err(DomainError::invalid(String::from_str("round-corner radius out of range")));
        }
        Ok(Self { radius })
    }
}

// ─── Brightness / Contrast ───────────────────────────────────────────────────

#[derive(Debug, Clone, Copy, PartialEq, Eq, Structural)]
pub struct BrightnessSpec {
    /// Additive offset in [-255, 255].
    pub value: i32,
}

impl BrightnessSpec {
    pub fn new(value: i32) -> (r: Result<Self, DomainError>)
        ensures
            !(-255 <= value <= 255) ==> fails_invalid(r, "brightness must be in [-255,255]"@),
            (-255 <= value <= 255) ==> r == Ok::<Self, DomainError>(BrightnessSpec { value }),
    {
        if !(-255 <= value && value <= 255) {
            return Err(DomainError::invalid(String::from_str("brightness must be in [-255,255]")));
        }
        Ok(Self { value })
    }
}

/// Multiplicative gain; `value` in `[0, 4]`, 1 is the identity.
#[derive(Debug, Clone, Copy)]
pub struct ContrastSpec<S> {
    pub value: S,
}

/// HSV saturation multiplier; `factor` in `[0, 4]`, 0 is greyscale.
#[derive(Debug, Clone, Copy)]
pub struct SaturationSpec<S> {
    pub factor: S,
}

// ─── Temperature ─────────────────────────────────────────────────────────────

#[derive(Debug, Clone, Copy, PartialEq, Eq, Structural)]
pub struct TemperatureSpec {
    /// Warm/cool shift in [-100, 100]. Positive warms, negative cools.
    pub value: i32,
}

impl TemperatureSpec {
    pub fn new(value: i32) -> (r: Result<Self, DomainError>)
        ensures
            !(-100 <= value <= 100) ==> fails_invalid(r, "temperature must be in [-100,100]"@),
            (-100 <= value <= 100) ==> r == Ok::<Self, DomainError>(TemperatureSpec { value }),
    {
        if !(-100 <= value && value <= 100) {
            return Err(DomainError::invalid(String::from_str("temperature must be in [-100,100]")));
        }
        Ok(Self { value })
    }
}

// ─── Watermarks ──────────────────────────────────────────────────────────────

/// Image watermark. `opacity` lies in `[0, 1]` and `scale` in `[0.05, 4]`.
#[derive(Debug, Clone)]
pub struct WatermarkImageSpec<S> {
    /// Logical name of the multipart asset that holds the watermark bytes.
    pub asset: String,
    pub position: Anchor,
    pub opacity: S,
    pub margin: u32,
    pub scale: S,
}

impl<S> WatermarkImageSpec<S> {
    /// Checks the rules that do not depend on the real-valued parameters: the
    /// asset name must not be empty. The range of `scale` is checked after
    /// this, by the code that gives `S` its meaning.
    pub fn new(asset: String, position: Anchor, opacity: S, margin: u32, scale: S) -> (r: Result<
        Self,
        DomainError,
    >)
        ensures
            asset@.len() == 0 ==> fails_invalid(r, "watermark asset name required"@),
            asset@.len() > 0 ==> (r matches Ok(w) && w.asset@ == asset@ && w.position == position
                && w.opacity == opacity && w.margin == margin && w.scale == scale),
    {
        if asset.as_str().unicode_len() == 0 {
            return Err(DomainError::invalid(String::from_str("watermark asset name required")));
        }
        Ok(Self { asset, position, opacity, margin, scale })
    }
}

/// Text watermark. `size` lies in `[4, 512]`.
#[derive(Debug, Clone)]
pub struct WatermarkTextSpec<S> {
    pub text: String,
    pub font: String,
    pub size: S,
    pub color: Color,
    pub position: Anchor,
    pub margin: u32,
    pub shadow: bool,
}

impl<S> WatermarkTextSpec<S> {
    /// Checks the rules that do not depend on the real-valued parameters: the
    /// text must not be empty. The range of `size` is checked after this, by
    /// the code that gives `S` its meaning.
    pub fn new(
        text: String,
        font: String,
        size: S,
        color: Color,
        position: Anchor,
        margin: u32,
        shadow: bool,
    ) -> (r: Result<Self, DomainError>)
        ensures
            text@.len() == 0 ==> fails_invalid(r, "watermark text must not be empty"@),
            text@.len() > 0 ==> (r matches Ok(w) && w.text@ == text@ && w.font@ == font@ && w.size
                == size && w.color == color && w.position == position && w.margin == margin
                && w.shadow == shadow),
    {
        if text.as_str().unicode_len() == 0 {
            return Err(DomainError::invalid(String::from_str("watermark text must not be empty")));
        }
        Ok(Self { text, font, size, color, position, margin, shadow })
    }
}

} // verus!
