//! Request shapes of the HTTP layer and their conversion into domain values.
//!
//! Real-valued fields are carried by the type parameters `S` and `D`, as in
//! [`Op`]: their ranges are checked by the code that gives them meaning. The
//! watermark opacity is checked before the conversion of its op, every other
//! real-valued field after it, which is the order in which the fields of a
//! request are examined.

use vstd::prelude::*;
use crate::error::{DomainError, fails_invalid};
use crate::ops::{
    Op, ResizeMode, ResizeSpec, RotateSpec, CropSpec, BlurSpec, SharpenSpec, RoundCornerSpec,
    BrightnessSpec, ContrastSpec, SaturationSpec, TemperatureSpec, WatermarkImageSpec,
    WatermarkTextSpec, resize_outcome,
};
use crate::get_image::GetImageCommand;
use crate::pipeline::{Compression, OutputSpec};
use crate::text::{ascii_lowercase, str_eq, join2, lower_seq};
use crate::value_objects::{
    Anchor, Color, DiffMode, DiffSpec, ImageFormat, Interpolation, Quality, Rect,
    DEFAULT_QUALITY, format_named, hex_body, hex_color_panics, hex_color_value,
    diff_mode_named, interpolation_named,
};

verus! {

/// The view of an optional string.
pub open spec fn opt_view(o: Option<String>) -> Option<Seq<char>> {
    match o {
        Some(s) => Some(s@),
        None => None,
    }
}

/// An optional flag, off when absent.
pub open spec fn flag(o: Option<bool>) -> bool {
    match o {
        Some(b) => b,
        None => false,
    }
}

pub open spec fn or_default<T>(o: Option<T>, d: T) -> T {
    match o {
        Some(v) => v,
        None => d,
    }
}

// ─── Output ──────────────────────────────────────────────────────────────────

/// What the output fields of a request convert to: the format is read
/// first, then the compression (the quality only matters when the output is
/// not lossless).
pub open spec fn output_fields_model(
    format: Option<Seq<char>>,
    quality: Option<u8>,
    lossless: Option<bool>,
    progressive: Option<bool>,
    r: Result<OutputSpec, DomainError>,
) -> bool {
    if format matches Some(s) && format_named(lower_seq(s)) is None {
        r matches Err(e) && e matches DomainError::UnsupportedFormat(m) && m@ == lower_seq(
            format.unwrap(),
        )
    } else {
        let f = match format {
            Some(s) => format_named(lower_seq(s)),
            None => None,
        };
        let p = flag(progressive);
        if flag(lossless) {
            r == Ok::<OutputSpec, DomainError>(
                OutputSpec { format: f, compression: Compression::Lossless, progressive: p },
            )
        } else if quality matches Some(q) && (q == 0 || q > 100) {
            fails_invalid(r, "quality must be in 1..=100"@)
        } else {
            r matches Ok(o) && o.format == f && o.progressive == p && (o.compression matches Compression::Lossy(
                k,
            ) && k@ == or_default(quality, DEFAULT_QUALITY))
        }
    }
}

fn output_from_fields(
    format: Option<String>,
    quality: Option<u8>,
    lossless: Option<bool>,
    progressive: Option<bool>,
) -> (r: Result<OutputSpec, DomainError>)
    ensures
        output_fields_model(opt_view(format), quality, lossless, progressive, r),
{
    let fmt = match format {
        Some(s) => match ImageFormat::parse(s.as_str()) {
            Ok(f) => Some(f),
            Err(e) => {
                return Err(e);
            },
        },
        None => None,
    };
    let is_lossless = match lossless {
        Some(b) => b,
        None => false,
    };
    let compression = if is_lossless {
        Compression::Lossless
    } else {
        let q = match quality {
            Some(q) => match Quality::new(q) {
                Ok(v) => v,
                Err(e) => {
                    return Err(e);
                },
            },
            None => Quality::default_quality(),
        };
        Compression::Lossy(q)
    };
    let is_progressive = match progressive {
        Some(b) => b,
        None => false,
    };
    Ok(OutputSpec::new(fmt, compression, is_progressive))
}

/// The `output` part of a `/v1/process` request.
#[derive(Debug, Default)]
pub struct OutputDto {
    pub format: Option<String>,
    pub quality: Option<u8>,
    /// When true the output is encoded losslessly: valid for PNG (always)
    /// and WebP; JPEG with lossless is rejected by `Pipeline::new`.
    pub lossless: Option<bool>,
    pub progressive: Option<bool>,
}

impl OutputDto {
    pub fn into_spec(self) -> (r: Result<OutputSpec, DomainError>)
        ensures
            output_fields_model(
                opt_view(self.format),
                self.quality,
                self.lossless,
                self.progressive,
                r,
            ),
    {
        output_from_fields(self.format, self.quality, self.lossless, self.progressive)
    }
}

/// The output parameters every per-op endpoint takes in its query string.
#[derive(Debug, Default)]
pub struct OutputQuery {
    pub format: Option<String>,
    pub quality: Option<u8>,
    /// Forces the WebP / PNG encoder into its lossless path; rejected for
    /// JPEG.
    pub lossless: Option<bool>,
    pub progressive: Option<bool>,
}

pub open spec fn output_query_model(q: OutputQuery, r: Result<OutputSpec, DomainError>) -> bool {
    output_fields_model(opt_view(q.format), q.quality, q.lossless, q.progressive, r)
}

impl OutputQuery {
    pub fn into_spec(self) -> (r: Result<OutputSpec, DomainError>)
        ensures
            output_query_model(self, r),
    {
        output_from_fields(self.format, self.quality, self.lossless, self.progressive)
    }

    /// The output of the format-conversion endpoint, which requires the
    /// format to be named.
    pub fn into_format_spec(self) -> (r: Result<OutputSpec, DomainError>)
        ensures
            self.format is None ==> fails_invalid(r, "format query parameter is required"@),
            self.format is Some ==> output_query_model(self, r),
    {
        if self.format.is_none() {
            return Err(
                DomainError::invalid(String::from_str("format query parameter is required")),
            );
        }
        self.into_spec()
    }

    /// The output of the progressive endpoint: as asked, but progressive.
    pub fn into_progressive_spec(self) -> (r: Result<OutputSpec, DomainError>)
        ensures
            output_fields_model(
                opt_view(self.format),
                self.quality,
                self.lossless,
                Some(true),
                r,
            ),
    {
        output_from_fields(self.format, self.quality, self.lossless, Some(true))
    }
}

// ─── Anchor / ResizeMode / Interpolation ─────────────────────────────────────

#[derive(Debug, Clone, Copy, PartialEq, Eq, Structural)]
pub enum AnchorDto {
    TopLeft,
    Top,
    TopRight,
    Left,
    Center,
    Right,
    BottomLeft,
    Bottom,
    BottomRight,
}

pub open spec fn anchor_of_dto(d: AnchorDto) -> Anchor {
    match d {
        AnchorDto::TopLeft => Anchor::TopLeft,
        AnchorDto::Top => Anchor::Top,
        AnchorDto::TopRight => Anchor::TopRight,
        AnchorDto::Left => Anchor::Left,
        AnchorDto::Center => Anchor::Center,
        AnchorDto::Right => Anchor::Right,
        AnchorDto::BottomLeft => Anchor::BottomLeft,
        AnchorDto::Bottom => Anchor::Bottom,
        AnchorDto::BottomRight => Anchor::BottomRight,
    }
}

impl From<AnchorDto> for Anchor {
    fn from(d: AnchorDto) -> (a: Anchor) {
        match d {
            AnchorDto::TopLeft => Anchor::TopLeft,
            AnchorDto::Top => Anchor::Top,
            AnchorDto::TopRight => Anchor::TopRight,
            AnchorDto::Left => Anchor::Left,
            AnchorDto::Center => Anchor::Center,
            AnchorDto::Right => Anchor::Right,
            AnchorDto::BottomLeft => Anchor::BottomLeft,
            AnchorDto::Bottom => Anchor::Bottom,
            AnchorDto::BottomRight => Anchor::BottomRight,
        }
    }
}

impl vstd::std_specs::convert::FromSpecImpl<AnchorDto> for Anchor {
    open spec fn obeys_from_spec() -> bool {
        true
    }

    open spec fn from_spec(v: AnchorDto) -> Anchor {
        anchor_of_dto(v)
    }
}

/// The anchor a lower-cased name, short or long, denotes.
pub open spec fn anchor_named(s: Seq<char>) -> Option<Anchor> {
    if s == "top_left"@ || s == "topleft"@ || s == "tl"@ {
        Some(Anchor::TopLeft)
    } else if s == "top"@ || s == "t"@ {
        Some(Anchor::Top)
    } else if s == "top_right"@ || s == "topright"@ || s == "tr"@ {
        Some(Anchor::TopRight)
    } else if s == "left"@ || s == "l"@ {
        Some(Anchor::Left)
    } else if s == "center"@ || s == "c"@ {
        Some(Anchor::Center)
    } else if s == "right"@ || s == "r"@ {
        Some(Anchor::Right)
    } else if s == "bottom_left"@ || s == "bottomleft"@ || s == "bl"@ {
        Some(Anchor::BottomLeft)
    } else if s == "bottom"@ || s == "b"@ {
        Some(Anchor::Bottom)
    } else if s == "bottom_right"@ || s == "bottomright"@ || s == "br"@ {
        Some(Anchor::BottomRight)
    } else {
        None
    }
}

/// Reads an anchor from a query parameter, case-insensitively.
pub fn parse_anchor(s: &str) -> (r: Result<Anchor, DomainError>)
    ensures
        anchor_named(lower_seq(s@)) matches Some(a) ==> r == Ok::<Anchor, DomainError>(a),
        anchor_named(lower_seq(s@)) is None ==> fails_invalid(
            r,
            "invalid anchor: "@ + lower_seq(s@),
        ),
{
    let l = ascii_lowercase(s);
    let t = l.as_str();
    if str_eq(t, "top_left") || str_eq(t, "topleft") || str_eq(t, "tl") {
        Ok(Anchor::TopLeft)
    } else if str_eq(t, "top") || str_eq(t, "t") {
        Ok(Anchor::Top)
    } else if str_eq(t, "top_right") || str_eq(t, "topright") || str_eq(t, "tr") {
        Ok(Anchor::TopRight)
    } else if str_eq(t, "left") || str_eq(t, "l") {
        Ok(Anchor::Left)
    } else if str_eq(t, "center") || str_eq(t, "c") {
        Ok(Anchor::Center)
    } else if str_eq(t, "right") || str_eq(t, "r") {
        Ok(Anchor::Right)
    } else if str_eq(t, "bottom_left") || str_eq(t, "bottomleft") || str_eq(t, "bl") {
        Ok(Anchor::BottomLeft)
    } else if str_eq(t, "bottom") || str_eq(t, "b") {
        Ok(Anchor::Bottom)
    } else if str_eq(t, "bottom_right") || str_eq(t, "bottomright") || str_eq(t, "br") {
        Ok(Anchor::BottomRight)
    } else {
        Err(DomainError::invalid(join2("invalid anchor: ", t)))
    }
}

#[derive(Debug, Clone, Copy, PartialEq, Eq, Structural)]
pub enum ResizeModeDto {
    Exact,
    Fit,
    Fill,
}

pub open spec fn resize_mode_of_dto(d: ResizeModeDto) -> ResizeMode {
    match d {
        ResizeModeDto::Exact => ResizeMode::Exact,
        ResizeModeDto::Fit => ResizeMode::Fit,
        ResizeModeDto::Fill => ResizeMode::Fill,
    }
}

impl From<ResizeModeDto> for ResizeMode {
    fn from(d: ResizeModeDto) -> (m: ResizeMode) {
        match d {
            ResizeModeDto::Exact => ResizeMode::Exact,
            ResizeModeDto::Fit => ResizeMode::Fit,
            ResizeModeDto::Fill => ResizeMode::Fill,
        }
    }
}

impl vstd::std_specs::convert::FromSpecImpl<ResizeModeDto> for ResizeMode {
    open spec fn obeys_from_spec() -> bool {
        true
    }

    open spec fn from_spec(v: ResizeModeDto) -> ResizeMode {
        resize_mode_of_dto(v)
    }
}

/// The resize mode a lower-cased name denotes.
pub open spec fn resize_mode_named(s: Seq<char>) -> Option<ResizeMode> {
    if s == "exact"@ {
        Some(ResizeMode::Exact)
    } else if s == "fit"@ {
        Some(ResizeMode::Fit)
    } else if s == "fill"@ {
        Some(ResizeMode::Fill)
    } else {
        None
    }
}

/// Reads a resize mode from a query parameter, case-insensitively.
pub fn parse_resize_mode(s: &str) -> (r: Result<ResizeMode, DomainError>)
    ensures
        resize_mode_named(lower_seq(s@)) matches Some(m) ==> r == Ok::<ResizeMode, DomainError>(m),
        resize_mode_named(lower_seq(s@)) is None ==> fails_invalid(
            r,
            "invalid mode: "@ + lower_seq(s@),
        ),
{
    let l = ascii_lowercase(s);
    let t = l.as_str();
    if str_eq(t, "exact") {
        Ok(ResizeMode::Exact)
    } else if str_eq(t, "fit") {
        Ok(ResizeMode::Fit)
    } else if str_eq(t, "fill") {
        Ok(ResizeMode::Fill)
    } else {
        Err(DomainError::invalid(join2("invalid mode: ", t)))
    }
}

#[derive(Debug, Clone, Copy, PartialEq, Eq, Structural)]
pub enum InterpolationDto {
    Auto,
    Nearest,
    Linear,
    Cubic,
    Area,
    Lanczos4,
}

pub open spec fn interpolation_of_dto(d: InterpolationDto) -> Interpolation {
    match d {
        InterpolationDto::Auto => Interpolation::Auto,
        InterpolationDto::Nearest => Interpolation::Nearest,
        InterpolationDto::Linear => Interpolation::Linear,
        InterpolationDto::Cubic => Interpolation::Cubic,
        InterpolationDto::Area => Interpolation::Area,
        InterpolationDto::Lanczos4 => Interpolation::Lanczos4,
    }
}

impl From<InterpolationDto> for Interpolation {
    fn from(d: InterpolationDto) -> (i: Interpolation) {
        match d {
            InterpolationDto::Auto => Interpolation::Auto,
            InterpolationDto::Nearest => Interpolation::Nearest,
            InterpolationDto::Linear => Interpolation::Linear,
            InterpolationDto::Cubic => Interpolation::Cubic,
            InterpolationDto::Area => Interpolation::Area,
            InterpolationDto::Lanczos4 => Interpolation::Lanczos4,
        }
    }
}

impl vstd::std_specs::convert::FromSpecImpl<InterpolationDto> for Interpolation {
    open spec fn obeys_from_spec() -> bool {
        true
    }

    open spec fn from_spec(v: InterpolationDto) -> Interpolation {
        interpolation_of_dto(v)
    }
}

// ─── Ops ─────────────────────────────────────────────────────────────────────

/// One op of a `/v1/process` request. Optional fields take their defaults
/// in the conversion; the defaults of the real-valued ones are handed to it
/// as a [`RealDefaults`].
#[derive(Debug)]
pub enum OpDto<S, D> {
    Resize {
        width: Option<u32>,
        height: Option<u32>,
        mode: Option<ResizeModeDto>,
        interpolation: Option<InterpolationDto>,
    },
    Rotate { angle: D, background: Option<String> },
    Crop { x: u32, y: u32, width: u32, height: u32 },
    Blur { sigma: S },
    Sharpen { amount: S, radius: Option<S> },
    RoundCorner { radius: u32 },
    Brightness { value: i32 },
    Contrast { value: S },
    Saturation { factor: S },
    Temperature { value: i32 },
    AutoOrient,
    WatermarkImage {
        asset: String,
        position: Option<AnchorDto>,
        opacity: Option<S>,
        margin: Option<u32>,
        scale: Option<S>,
    },
    WatermarkText {
        text: String,
        font: Option<String>,
        size: Option<S>,
        color: Option<String>,
        position: Option<AnchorDto>,
        margin: Option<u32>,
        shadow: Option<bool>,
    },
}

/// The values that absent real-valued fields take.
#[derive(Debug, Clone, Copy)]
pub struct RealDefaults<S> {
    pub sharpen_radius: S,
    pub opacity: S,
    pub scale: S,
    pub text_size: S,
}

/// The margin of a watermark when none is given.
pub const DEFAULT_MARGIN: u32 = 16u32;

pub open spec fn anchor_or_default(p: Option<AnchorDto>) -> Anchor {
    match p {
        Some(d) => anchor_of_dto(d),
        None => Anchor::BottomRight,
    }
}

/// The colour `#…` denotes, or the default when no colour is given; `None`
/// when the given text is not a colour.
pub open spec fn color_or(c: Option<String>, d: Color) -> Option<Color> {
    match c {
        Some(s) => hex_color_value(s@),
        None => Some(d),
    }
}

/// The conversion reads a colour field, and that read panics.
pub open spec fn op_dto_panics<S, D>(dto: OpDto<S, D>) -> bool {
    match dto {
        OpDto::Rotate { background: Some(s), .. } => hex_color_panics(s@),
        OpDto::WatermarkText { color: Some(s), .. } => hex_color_panics(s@),
        _ => false,
    }
}

/// What an op of a request converts to.
pub open spec fn op_dto_model<S, D>(
    dto: OpDto<S, D>,
    dflt: RealDefaults<S>,
    r: Result<Op<S, D>, DomainError>,
) -> bool {
    match dto {
        OpDto::Resize { width, height, mode, interpolation } => {
            let m = match mode {
                Some(d) => resize_mode_of_dto(d),
                None => ResizeMode::Fit,
            };
            let i = match interpolation {
                Some(d) => interpolation_of_dto(d),
                None => Interpolation::Auto,
            };
            match resize_outcome(width, height, m, i) {
                Ok(s) => r == Ok::<Op<S, D>, DomainError>(Op::Resize(s)),
                Err(msg) => fails_invalid(r, msg),
            }
        },
        OpDto::Rotate { angle, background } => match color_or(
            background,
            Color { r: 0, g: 0, b: 0, a: 0 },
        ) {
            Some(c) => r == Ok::<Op<S, D>, DomainError>(
                Op::Rotate(RotateSpec { angle, background: c }),
            ),
            None => fails_invalid(r, "invalid color hex: "@ + hex_body(background.unwrap()@)),
        },
        OpDto::Crop { x, y, width, height } => if width == 0 || height == 0 {
            fails_invalid(r, "rect dimensions must be > 0"@)
        } else {
            r == Ok::<Op<S, D>, DomainError>(
                Op::Crop(CropSpec { rect: Rect { x, y, width, height } }),
            )
        },
        OpDto::Blur { sigma } => r == Ok::<Op<S, D>, DomainError>(Op::Blur(BlurSpec { sigma })),
        OpDto::Sharpen { amount, radius } => r == Ok::<Op<S, D>, DomainError>(
            Op::Sharpen(SharpenSpec { amount, radius: or_default(radius, dflt.sharpen_radius) }),
        ),
        OpDto::RoundCorner { radius } => if radius == 0 || radius > 4096 {
            fails_invalid(r, "round-corner radius out of range"@)
        } else {
            r == Ok::<Op<S, D>, DomainError>(Op::RoundCorner(RoundCornerSpec { radius }))
        },
        OpDto::Brightness { value } => if !(-255 <= value <= 255) {
            fails_invalid(r, "brightness must be in [-255,255]"@)
        } else {
            r == Ok::<Op<S, D>, DomainError>(Op::Brightness(BrightnessSpec { value }))
        },
        OpDto::Contrast { value } => r == Ok::<Op<S, D>, DomainError>(
            Op::Contrast(ContrastSpec { value }),
        ),
        OpDto::Saturation { factor } => r == Ok::<Op<S, D>, DomainError>(
            Op::Saturation(SaturationSpec { factor }),
        ),
        OpDto::Temperature { value } => if !(-100 <= value <= 100) {
            fails_invalid(r, "temperature must be in [-100,100]"@)
        } else {
            r == Ok::<Op<S, D>, DomainError>(Op::Temperature(TemperatureSpec { value }))
        },
        OpDto::AutoOrient => r == Ok::<Op<S, D>, DomainError>(Op::AutoOrient),
        OpDto::WatermarkImage { asset, position, opacity, margin, scale } => if asset@.len()
            == 0 {
            fails_invalid(r, "watermark asset name required"@)
        } else {
            r matches Ok(Op::WatermarkImage(w)) && w.asset@ == asset@ && w.position
                == anchor_or_default(position) && w.opacity == or_default(opacity, dflt.opacity)
                && w.margin == or_default(margin, DEFAULT_MARGIN) && w.scale == or_default(
                scale,
                dflt.scale,
            )
        },
        OpDto::WatermarkText { text, font, size, color, position, margin, shadow } => match color_or(
            color,
            Color { r: 255, g: 255, b: 255, a: 255 },
        ) {
            None => fails_invalid(r, "invalid color hex: "@ + hex_body(color.unwrap()@)),
            Some(c) => if text@.len() == 0 {
                fails_invalid(r, "watermark text must not be empty"@)
            } else {
                r matches Ok(Op::WatermarkText(w)) && w.text@ == text@ && w.font@ == or_default(
                    opt_view(font),
                    "default"@,
                ) && w.size == or_default(size, dflt.text_size) && w.color == c && w.position
                    == anchor_or_default(position) && w.margin == or_default(
                    margin,
                    DEFAULT_MARGIN,
                ) && w.shadow == flag(shadow)
            },
        },
    }
}

fn anchor_or_bottom_right(p: Option<AnchorDto>) -> (a: Anchor)
    ensures
        a == anchor_or_default(p),
{
    match p {
        Some(d) => Anchor::from(d),
        None => Anchor::BottomRight,
    }
}

fn margin_or_default(m: Option<u32>) -> (v: u32)
    ensures
        v == or_default(m, DEFAULT_MARGIN),
{
    match m {
        Some(v) => v,
        None => DEFAULT_MARGIN,
    }
}

fn real_or<S>(o: Option<S>, d: S) -> (v: S)
    ensures
        v == or_default(o, d),
{
    match o {
        Some(v) => v,
        None => d,
    }
}

/// Converts one op of a request into a domain op, checking every rule that
/// does not depend on a real-valued field.
pub fn op_from_dto<S, D>(dto: OpDto<S, D>, dflt: RealDefaults<S>) -> (r: Result<
    Op<S, D>,
    DomainError,
>)
    requires
        !op_dto_panics(dto),
    ensures
        op_dto_model(dto, dflt, r),
{
    match dto {
        OpDto::Resize { width, height, mode, interpolation } => {
            let m = match mode {
                Some(d) => ResizeMode::from(d),
                None => ResizeMode::Fit,
            };
            let i = match interpolation {
                Some(d) => Interpolation::from(d),
                None => Interpolation::Auto,
            };
            match ResizeSpec::with_interpolation(width, height, m, i) {
                Ok(s) => Ok(Op::Resize(s)),
                Err(e) => Err(e),
            }
        },
        OpDto::Rotate { angle, background } => {
            let bg = match background {
                Some(s) => match Color::parse_hex(s.as_str()) {
                    Ok(c) => c,
                    Err(e) => {
                        return Err(e);
                    },
                },
                None => Color::rgba(0, 0, 0, 0),
            };
            Ok(Op::Rotate(RotateSpec::new(angle, bg)))
        },
        OpDto::Crop { x, y, width, height } => match Rect::new(x, y, width, height) {
            Ok(rect) => Ok(Op::Crop(CropSpec::new(rect))),
            Err(e) => Err(e),
        },
        OpDto::Blur { sigma } => Ok(Op::Blur(BlurSpec { sigma })),
        OpDto::Sharpen { amount, radius } => Ok(
            Op::Sharpen(SharpenSpec { amount, radius: real_or(radius, dflt.sharpen_radius) }),
        ),
        OpDto::RoundCorner { radius } => match RoundCornerSpec::new(radius) {
            Ok(s) => Ok(Op::RoundCorner(s)),
            Err(e) => Err(e),
        },
        OpDto::Brightness { value } => match BrightnessSpec::new(value) {
            Ok(s) => Ok(Op::Brightness(s)),
            Err(e) => Err(e),
        },
        OpDto::Contrast { value } => Ok(Op::Contrast(ContrastSpec { value })),
        OpDto::Saturation { factor } => Ok(Op::Saturation(SaturationSpec { factor })),
        OpDto::Temperature { value } => match TemperatureSpec::new(value) {
            Ok(s) => Ok(Op::Temperature(s)),
            Err(e) => Err(e),
        },
        OpDto::AutoOrient => Ok(Op::AutoOrient),
        OpDto::WatermarkImage { asset, position, opacity, margin, scale } => {
            match WatermarkImageSpec::new(
                asset,
                anchor_or_bottom_right(position),
                real_or(opacity, dflt.opacity),
                margin_or_default(margin),
                real_or(scale, dflt.scale),
            ) {
                Ok(w) => Ok(Op::WatermarkImage(w)),
                Err(e) => Err(e),
            }
        },
        OpDto::WatermarkText { text, font, size, color, position, margin, shadow } => {
            let c = match color {
                Some(s) => match Color::parse_hex(s.as_str()) {
                    Ok(c) => c,
                    Err(e) => {
                        return Err(e);
                    },
                },
                None => Color::white(),
            };
            let f = match font {
                Some(f) => f,
                None => String::from_str("default"),
            };
            let sh = match shadow {
                Some(b) => b,
                None => false,
            };
            match WatermarkTextSpec::new(
                text,
                f,
                real_or(size, dflt.text_size),
                c,
                anchor_or_bottom_right(position),
                margin_or_default(margin),
                sh,
            ) {
                Ok(w) => Ok(Op::WatermarkText(w)),
                Err(e) => Err(e),
            }
        },
    }
}

// ─── Query strings of the per-op endpoints ───────────────────────────────────

/// A query's own parameters converted to `a`, or failing with
/// `InvalidArgument(m)`; its output parameters are read after them.
pub open spec fn with_output<A>(
    first: Result<A, Seq<char>>,
    q: OutputQuery,
    r: Result<(A, OutputSpec), DomainError>,
) -> bool {
    match first {
        Err(m) => fails_invalid(r, m),
        Ok(a) => match r {
            Ok(p) => p.0 == a && output_query_model(q, Ok(p.1)),
            Err(e) => output_query_model(q, Err(e)),
        },
    }
}

fn then_output<A>(a: A, q: OutputQuery) -> (r: Result<(A, OutputSpec), DomainError>)
    ensures
        with_output(Ok(a), q, r),
{
    match q.into_spec() {
        Ok(o) => Ok((a, o)),
        Err(e) => Err(e),
    }
}

#[derive(Debug)]
pub struct ResizeQuery {
    pub width: Option<u32>,
    pub height: Option<u32>,
    pub mode: Option<String>,
    pub interpolation: Option<String>,
    pub output: OutputQuery,
}

/// The resize op a query asks for: mode, then interpolation, then the
/// dimensions are checked.
pub open spec fn resize_query_op<S, D>(q: ResizeQuery) -> Result<Op<S, D>, Seq<char>> {
    let mode_text = opt_view(q.mode);
    let interp_text = opt_view(q.interpolation);
    if mode_text matches Some(s) && resize_mode_named(lower_seq(s)) is None {
        Err("invalid mode: "@ + lower_seq(mode_text.unwrap()))
    } else if interp_text matches Some(s) && interpolation_named(lower_seq(s)) is None {
        Err("invalid interpolation: "@ + lower_seq(interp_text.unwrap()))
    } else {
        let m = match mode_text {
            Some(s) => resize_mode_named(lower_seq(s)).unwrap(),
            None => ResizeMode::Fit,
        };
        let i = match interp_text {
            Some(s) => interpolation_named(lower_seq(s)).unwrap(),
            None => Interpolation::Auto,
        };
        match resize_outcome(q.width, q.height, m, i) {
            Ok(spec) => Ok(Op::Resize(spec)),
            Err(msg) => Err(msg),
        }
    }
}

impl ResizeQuery {
    pub fn into_parts<S, D>(self) -> (r: Result<(Op<S, D>, OutputSpec), DomainError>)
        ensures
            with_output(resize_query_op(self), self.output, r),
    {
        let mode = match self.mode {
            Some(s) => match parse_resize_mode(s.as_str()) {
                Ok(m) => m,
                Err(e) => {
                    return Err(e);
                },
            },
            None => ResizeMode::Fit,
        };
        let interpolation = match self.interpolation {
            Some(s) => match Interpolation::parse(s.as_str()) {
                Ok(i) => i,
                Err(e) => {
                    return Err(e);
                },
            },
            None => Interpolation::Auto,
        };
        let spec = match ResizeSpec::with_interpolation(
            self.width,
            self.height,
            mode,
            interpolation,
        ) {
            Ok(s) => s,
            Err(e) => {
                return Err(e);
            },
        };
        then_output(Op::Resize(spec), self.output)
    }
}

#[derive(Debug)]
pub struct CropQuery {
    pub x: u32,
    pub y: u32,
    pub width: u32,
    pub height: u32,
    pub output: OutputQuery,
}

pub open spec fn crop_query_op<S, D>(q: CropQuery) -> Result<Op<S, D>, Seq<char>> {
    if q.width == 0 || q.height == 0 {
        Err("rect dimensions must be > 0"@)
    } else {
        Ok(Op::Crop(CropSpec { rect: Rect { x: q.x, y: q.y, width: q.width, height: q.height } }))
    }
}

impl CropQuery {
    pub fn into_parts<S, D>(self) -> (r: Result<(Op<S, D>, OutputSpec), DomainError>)
        ensures
            with_output(crop_query_op(self), self.output, r),
    {
        match Rect::new(self.x, self.y, self.width, self.height) {
            Ok(rect) => then_output(Op::Crop(CropSpec::new(rect)), self.output),
            Err(e) => Err(e),
        }
    }
}

#[derive(Debug)]
pub struct RoundCornerQuery {
    pub radius: u32,
    pub output: OutputQuery,
}

pub open spec fn round_corner_query_op<S, D>(q: RoundCornerQuery) -> Result<Op<S, D>, Seq<char>> {
    if q.radius == 0 || q.radius > 4096 {
        Err("round-corner radius out of range"@)
    } else {
        Ok(Op::RoundCorner(RoundCornerSpec { radius: q.radius }))
    }
}

impl RoundCornerQuery {
    pub fn into_parts<S, D>(self) -> (r: Result<(Op<S, D>, OutputSpec), DomainError>)
        ensures
            with_output(round_corner_query_op(self), self.output, r),
    {
        match RoundCornerSpec::new(self.radius) {
            Ok(s) => then_output(Op::RoundCorner(s), self.output),
            Err(e) => Err(e),
        }
    }
}

#[derive(Debug)]
pub struct BrightnessQuery {
    pub value: i32,
    pub output: OutputQuery,
}

pub open spec fn brightness_query_op<S, D>(q: BrightnessQuery) -> Result<Op<S, D>, Seq<char>> {
    if !(-255 <= q.value <= 255) {
        Err("brightness must be in [-255,255]"@)
    } else {
        Ok(Op::Brightness(BrightnessSpec { value: q.value }))
    }
}

impl BrightnessQuery {
    pub fn into_parts<S, D>(self) -> (r: Result<(Op<S, D>, OutputSpec), DomainError>)
        ensures
            with_output(brightness_query_op(self), self.output, r),
    {
        match BrightnessSpec::new(self.value) {
            Ok(s) => then_output(Op::Brightness(s), self.output),
            Err(e) => Err(e),
        }
    }
}

#[derive(Debug)]
pub struct TemperatureQuery {
    pub value: i32,
    pub output: OutputQuery,
}

pub open spec fn temperature_query_op<S, D>(q: TemperatureQuery) -> Result<Op<S, D>, Seq<char>> {
    if !(-100 <= q.value <= 100) {
        Err("temperature must be in [-100,100]"@)
    } else {
        Ok(Op::Temperature(TemperatureSpec { value: q.value }))
    }
}

impl TemperatureQuery {
    pub fn into_parts<S, D>(self) -> (r: Result<(Op<S, D>, OutputSpec), DomainError>)
        ensures
            with_output(temperature_query_op(self), self.output, r),
    {
        match TemperatureSpec::new(self.value) {
            Ok(s) => then_output(Op::Temperature(s), self.output),
            Err(e) => Err(e),
        }
    }
}

/// The threshold of a highlight diff when none is given.
pub const DEFAULT_DIFF_THRESHOLD: u8 = 10u8;

#[derive(Debug)]
pub struct DiffQuery {
    pub mode: Option<String>,
    pub threshold: Option<u8>,
    pub output: OutputQuery,
}

/// The diff a query asks for: the mode defaults to `Highlight`.
pub open spec fn diff_query_spec(q: DiffQuery) -> Result<DiffSpec, Seq<char>> {
    let t = or_default(q.threshold, DEFAULT_DIFF_THRESHOLD);
    match opt_view(q.mode) {
        None => Ok(DiffSpec { mode: DiffMode::Highlight, threshold: t }),
        Some(s) => match diff_mode_named(lower_seq(s)) {
            Some(m) => Ok(DiffSpec { mode: m, threshold: t }),
            None => Err("invalid diff mode: "@ + lower_seq(s)),
        },
    }
}

impl DiffQuery {
    pub fn into_parts(self) -> (r: Result<(DiffSpec, OutputSpec), DomainError>)
        ensures
            with_output(diff_query_spec(self), self.output, r),
    {
        let mode = match self.mode {
            Some(s) => match DiffMode::parse(s.as_str()) {
                Ok(m) => m,
                Err(e) => {
                    return Err(e);
                },
            },
            None => DiffMode::Highlight,
        };
        let threshold = match self.threshold {
            Some(t) => t,
            None => DEFAULT_DIFF_THRESHOLD,
        };
        then_output(DiffSpec::new(mode, threshold), self.output)
    }
}

/// The query of `GET /v1/img/{key}`: `p` holds the DSL, empty when absent.
#[derive(Debug, Default)]
pub struct GetImageQuery {
    pub p: String,
}

impl GetImageQuery {
    pub fn into_command(self, key: String) -> (c: GetImageCommand)
        ensures
            c.key@ == key@,
            c.dsl@ == self.p@,
    {
        GetImageCommand { key, dsl: self.p }
    }
}

// ─── Laws ────────────────────────────────────────────────────────────────────

/// When lossless output is asked for, the quality given (if any, valid or
/// not) makes no difference.
pub proof fn lossless_overrides_quality(
    format: Option<Seq<char>>,
    q1: Option<u8>,
    q2: Option<u8>,
    progressive: Option<bool>,
    r: Result<OutputSpec, DomainError>,
)
    ensures
        output_fields_model(format, q1, Some(true), progressive, r) == output_fields_model(
            format,
            q2,
            Some(true),
            progressive,
            r,
        ),
{
}

/// Every short anchor code of the URL DSL is also accepted by the query
/// parameter parser, and names the same anchor there.
pub proof fn short_anchor_codes_agree(s: Seq<char>)
    requires
        crate::url_dsl::anchor_short(s) is Some,
    ensures
        anchor_named(lower_seq(s)) == crate::url_dsl::anchor_short(s),
{
    reveal_strlit("tl");
    reveal_strlit("t");
    reveal_strlit("tr");
    reveal_strlit("l");
    reveal_strlit("c");
    reveal_strlit("r");
    reveal_strlit("bl");
    reveal_strlit("b");
    reveal_strlit("br");
    reveal_strlit("top_left");
    reveal_strlit("topleft");
    reveal_strlit("top");
    reveal_strlit("top_right");
    reveal_strlit("topright");
    reveal_strlit("left");
    reveal_strlit("center");
    reveal_strlit("right");
    reveal_strlit("bottom_left");
    reveal_strlit("bottomleft");
    reveal_strlit("bottom");
    reveal_strlit("bottom_right");
    reveal_strlit("bottomright");
    assert(lower_seq(s) =~= s);
}

} // verus!
