//! Domain value objects. Constructors enforce invariants; no setters.

use vstd::prelude::*;
use crate::error::{DomainError, fails_invalid};
use crate::text::{lower_seq, str_eq, ascii_lowercase, join2};
use vstd::utf8::{encode_utf8, is_char_boundary};

verus! {

/// The largest width or height the service accepts.
pub const MAX_EDGE: u32 = 16384u32;

// ─── Dimensions ──────────────────────────────────────────────────────────────

#[derive(Debug, Clone, Copy, PartialEq, Eq, Structural)]
pub struct Dimensions {
    pub width: u32,
    pub height: u32,
}

impl Dimensions {
    pub fn new(width: u32, height: u32) -> (r: Result<Self, DomainError>)
        ensures
            (width == 0 || height == 0) ==> fails_invalid(r, "dimensions must be > 0"@),
            (width != 0 && height != 0 && (width > MAX_EDGE || height > MAX_EDGE))
                ==> fails_invalid(r, "dimensions exceed 16384"@),
            (0 < width <= MAX_EDGE && 0 < height <= MAX_EDGE) ==> r == Ok::<Self, DomainError>(
                Dimensions { width, height },
            ),
    {
        if width == 0 || height == 0 {
            return Err(DomainError::invalid(String::from_str("dimensions must be > 0")));
        }
        if width > 16384 || height > 16384 {
            return Err(DomainError::invalid(String::from_str("dimensions exceed 16384")));
        }
        Ok(Self { width, height })
    }
}

// ─── Rect ────────────────────────────────────────────────────────────────────

#[derive(Debug, Clone, Copy, PartialEq, Eq, Structural)]
pub struct Rect {
    pub x: u32,
    pub y: u32,
    pub width: u32,
    pub height: u32,
}

impl Rect {
    pub fn new(x: u32, y: u32, width: u32, height: u32) -> (r: Result<Self, DomainError>)
        ensures
            (width == 0 || height == 0) ==> fails_invalid(r, "rect dimensions must be > 0"@),
            (width != 0 && height != 0) ==> r == Ok::<Self, DomainError>(
                Rect { x, y, width, height },
            ),
    {
        if width == 0 || height == 0 {
            return Err(DomainError::invalid(String::from_str("rect dimensions must be > 0")));
        }
        Ok(Self { x, y, width, height })
    }
}

// ─── Anchor ──────────────────────────────────────────────────────────────────

#[derive(Debug, Clone, Copy, PartialEq, Eq, Structural)]
pub enum Anchor {
    TopLeft,
    Top,
    TopRight,
    Left,
    Center,
    Right,
    BottomLeft,
    Bottom,
    BottomRight,
}

// ─── Color ───────────────────────────────────────────────────────────────────

#[derive(Debug, Clone, Copy, PartialEq, Eq, Structural)]
pub struct Color {
    pub r: u8,
    pub g: u8,
    pub b: u8,
    pub a: u8,
}

impl Color {
    pub fn rgba(r: u8, g: u8, b: u8, a: u8) -> (c: Self)
        ensures
            c == (Color { r, g, b, a }),
    {
        Self { r, g, b, a }
    }

    /// Opaque white.
    pub fn white() -> (c: Self)
        ensures
            c == (Color { r: 255, g: 255, b: 255, a: 255 }),
    {
        Self { r: 255, g: 255, b: 255, a: 255 }
    }

    /// Opaque black.
    pub fn black() -> (c: Self)
        ensures
            c == (Color { r: 0, g: 0, b: 0, a: 255 }),
    {
        Self { r: 0, g: 0, b: 0, a: 255 }
    }
}

// ─── Quality ─────────────────────────────────────────────────────────────────

/// Encoder quality factor, always in `1..=100`.
#[derive(Debug, Clone, Copy, PartialEq, Eq, Structural)]
pub struct Quality(u8);

impl View for Quality {
    type V = u8;

    closed spec fn view(&self) -> u8 {
        self.0
    }
}

/// The quality used when the caller names none.
pub const DEFAULT_QUALITY: u8 = 82u8;

impl Quality {
    #[verifier::type_invariant]
    spec fn in_range(self) -> bool {
        1 <= self.0 <= 100
    }

    pub fn new(q: u8) -> (r: Result<Self, DomainError>)
        ensures
            (q == 0 || q > 100) ==> fails_invalid(r, "quality must be in 1..=100"@),
            (1 <= q <= 100) ==> (r matches Ok(v) && v@ == q),
    {
        if q == 0 || q > 100 {
            return Err(DomainError::invalid(String::from_str("quality must be in 1..=100")));
        }
        Ok(Self(q))
    }

    pub fn value(self) -> (v: u8)
        ensures
            v == self@,
            1 <= v <= 100,
    {
        proof {
            use_type_invariant(&self);
        }
        self.0
    }

    /// The default quality, 82.
    pub fn default_quality() -> (q: Self)
        ensures
            q@ == DEFAULT_QUALITY,
    {
        Self(82)
    }
}

impl Default for Quality {
    fn default() -> (q: Self)
        ensures
            q@ == DEFAULT_QUALITY,
    {
        Self::default_quality()
    }
}

// ─── DiffMode ────────────────────────────────────────────────────────────────

/// How to render the difference between two images.
#[derive(Debug, Clone, Copy, PartialEq, Eq, Structural)]
pub enum DiffMode {
    /// Per-pixel `|before - after|`, returned as an RGB image.
    Abs,
    /// Same as `Abs` but flattened to grayscale (returned as 3-channel for
    /// consistent encoding).
    Grayscale,
    /// Overlay the changed regions in red on top of `before`.
    Highlight,
}

/// The diff mode a lower-cased name denotes.
pub open spec fn diff_mode_named(s: Seq<char>) -> Option<DiffMode> {
    if s == "abs"@ {
        Some(DiffMode::Abs)
    } else if s == "grayscale"@ || s == "gray"@ {
        Some(DiffMode::Grayscale)
    } else if s == "highlight"@ {
        Some(DiffMode::Highlight)
    } else {
        None
    }
}

impl DiffMode {
    pub fn parse(s: &str) -> (r: Result<Self, DomainError>)
        ensures
            diff_mode_named(lower_seq(s@)) matches Some(m) ==> r == Ok::<Self, DomainError>(m),
            diff_mode_named(lower_seq(s@)) is None ==> fails_invalid(r, "invalid diff mode: "@ + lower_seq(s@)),
    {
        let l = ascii_lowercase(s);
        let ls = l.as_str();
        if str_eq(ls, "abs") {
            Ok(DiffMode::Abs)
        } else if str_eq(ls, "grayscale") || str_eq(ls, "gray") {
            Ok(DiffMode::Grayscale)
        } else if str_eq(ls, "highlight") {
            Ok(DiffMode::Highlight)
        } else {
            Err(DomainError::invalid(join2("invalid diff mode: ", ls)))
        }
    }
}

#[derive(Debug, Clone, Copy, PartialEq, Eq, Structural)]
pub struct DiffSpec {
    pub mode: DiffMode,
    /// Per-channel threshold below which differences are ignored (Highlight
    /// mode only).
    pub threshold: u8,
}

impl DiffSpec {
    pub fn new(mode: DiffMode, threshold: u8) -> (d: Self)
        ensures
            d == (DiffSpec { mode, threshold }),
    {
        Self { mode, threshold }
    }
}

// ─── Interpolation ───────────────────────────────────────────────────────────

/// Sampling kernel for resize / warp.
#[derive(Debug, Clone, Copy, PartialEq, Eq, Structural)]
pub enum Interpolation {
    /// AREA when shrinking, LINEAR when enlarging.
    Auto,
    Nearest,
    Linear,
    Cubic,
    Area,
    Lanczos4,
}

impl Default for Interpolation {
    fn default() -> (i: Self)
        ensures
            i == Interpolation::Auto,
    {
        Interpolation::Auto
    }
}

/// The canonical name of each interpolation.
pub open spec fn interpolation_name(i: Interpolation) -> Seq<char> {
    match i {
        Interpolation::Auto => "auto"@,
        Interpolation::Nearest => "nearest"@,
        Interpolation::Linear => "linear"@,
        Interpolation::Cubic => "cubic"@,
        Interpolation::Area => "area"@,
        Interpolation::Lanczos4 => "lanczos4"@,
    }
}

/// The interpolation a lower-cased name (or alias) denotes.
pub open spec fn interpolation_named(s: Seq<char>) -> Option<Interpolation> {
    if s == "auto"@ {
        Some(Interpolation::Auto)
    } else if s == "nearest"@ || s == "nn"@ {
        Some(Interpolation::Nearest)
    } else if s == "linear"@ || s == "bilinear"@ {
        Some(Interpolation::Linear)
    } else if s == "cubic"@ || s == "bicubic"@ {
        Some(Interpolation::Cubic)
    } else if s == "area"@ {
        Some(Interpolation::Area)
    } else if s == "lanczos4"@ || s == "lanczos"@ {
        Some(Interpolation::Lanczos4)
    } else {
        None
    }
}

impl Interpolation {
    pub fn as_str(self) -> (r: &'static str)
        ensures
            r@ == interpolation_name(self),
    {
        match self {
            Interpolation::Auto => "auto",
            Interpolation::Nearest => "nearest",
            Interpolation::Linear => "linear",
            Interpolation::Cubic => "cubic",
            Interpolation::Area => "area",
            Interpolation::Lanczos4 => "lanczos4",
        }
    }

    pub fn parse(s: &str) -> (r: Result<Self, DomainError>)
        ensures
            interpolation_named(lower_seq(s@)) matches Some(i) ==> r == Ok::<Self, DomainError>(i),
            interpolation_named(lower_seq(s@)) is None ==> fails_invalid(
                r,
                "invalid interpolation: "@ + lower_seq(s@),
            ),
    {
        let l = ascii_lowercase(s);
        let ls = l.as_str();
        if str_eq(ls, "auto") {
            Ok(Interpolation::Auto)
        } else if str_eq(ls, "nearest") || str_eq(ls, "nn") {
            Ok(Interpolation::Nearest)
        } else if str_eq(ls, "linear") || str_eq(ls, "bilinear") {
            Ok(Interpolation::Linear)
        } else if str_eq(ls, "cubic") || str_eq(ls, "bicubic") {
            Ok(Interpolation::Cubic)
        } else if str_eq(ls, "area") {
            Ok(Interpolation::Area)
        } else if str_eq(ls, "lanczos4") || str_eq(ls, "lanczos") {
            Ok(Interpolation::Lanczos4)
        } else {
            Err(DomainError::invalid(join2("invalid interpolation: ", ls)))
        }
    }
}

// ─── ImageFormat ─────────────────────────────────────────────────────────────

#[derive(Debug, Clone, Copy, PartialEq, Eq, Structural)]
pub enum ImageFormat {
    Jpeg,
    Png,
    WebP,
}

pub open spec fn format_extension(f: ImageFormat) -> Seq<char> {
    match f {
        ImageFormat::Jpeg => ".jpg"@,
        ImageFormat::Png => ".png"@,
        ImageFormat::WebP => ".webp"@,
    }
}

pub open spec fn format_content_type(f: ImageFormat) -> Seq<char> {
    match f {
        ImageFormat::Jpeg => "image/jpeg"@,
        ImageFormat::Png => "image/png"@,
        ImageFormat::WebP => "image/webp"@,
    }
}

/// Whether the format can carry an alpha channel: all but JPEG.
pub open spec fn format_has_alpha(f: ImageFormat) -> bool {
    f != ImageFormat::Jpeg
}

/// The format a lower-cased name denotes.
pub open spec fn format_named(s: Seq<char>) -> Option<ImageFormat> {
    if s == "jpg"@ || s == "jpeg"@ {
        Some(ImageFormat::Jpeg)
    } else if s == "png"@ {
        Some(ImageFormat::Png)
    } else if s == "webp"@ {
        Some(ImageFormat::WebP)
    } else {
        None
    }
}

impl ImageFormat {
    pub fn extension(self) -> (r: &'static str)
        ensures
            r@ == format_extension(self),
    {
        match self {
            ImageFormat::Jpeg => ".jpg",
            ImageFormat::Png => ".png",
            ImageFormat::WebP => ".webp",
        }
    }

    pub fn content_type(self) -> (r: &'static str)
        ensures
            r@ == format_content_type(self),
    {
        match self {
            ImageFormat::Jpeg => "image/jpeg",
            ImageFormat::Png => "image/png",
            ImageFormat::WebP => "image/webp",
        }
    }

    pub fn supports_alpha(self) -> (r: bool)
        ensures
            r == format_has_alpha(self),
    {
        !matches!(self, ImageFormat::Jpeg)
    }

    pub fn parse(s: &str) -> (r: Result<Self, DomainError>)
        ensures
            format_named(lower_seq(s@)) matches Some(f) ==> r == Ok::<Self, DomainError>(f),
            format_named(lower_seq(s@)) is None ==> (r matches Err(e)
                && e matches DomainError::UnsupportedFormat(m) && m@ == lower_seq(s@)),
    {
        let l = ascii_lowercase(s);
        if str_eq(l.as_str(), "jpg") || str_eq(l.as_str(), "jpeg") {
            Ok(Self::Jpeg)
        } else if str_eq(l.as_str(), "png") {
            Ok(Self::Png)
        } else if str_eq(l.as_str(), "webp") {
            Ok(Self::WebP)
        } else {
            Err(DomainError::UnsupportedFormat(l))
        }
    }
}

// ─── Hex colours ─────────────────────────────────────────────────────────────

/// Value of one hexadecimal digit byte.
pub open spec fn hex_nibble(b: u8) -> Option<u8> {
    if 48 <= b <= 57 {
        Some((b - 48) as u8)
    } else if 97 <= b <= 102 {
        Some((b - 87) as u8)
    } else if 65 <= b <= 70 {
        Some((b - 55) as u8)
    } else {
        None
    }
}

/// The byte that the two hex digit bytes `b0 b1` write, if both are hex digits.
pub open spec fn radix16_two(b0: u8, b1: u8) -> Option<u8> {
    match (hex_nibble(b0), hex_nibble(b1)) {
        (Some(h), Some(l)) => Some((h * 16 + l) as u8),
        _ => None,
    }
}

/// The text after one optional leading `#`.
pub open spec fn hex_body(s: Seq<char>) -> Seq<char> {
    if s.len() > 0 && s[0] == '#' {
        s.drop_first()
    } else {
        s
    }
}

/// Start of the `k`-th component in a colour written with `w` bytes per component.
pub open spec fn comp_pos(k: int, w: int) -> int {
    if w == 1 {
        k
    } else {
        2 * k
    }
}

/// The `k`-th component: a single digit `c` is read as `cc`, a pair as itself.
pub open spec fn hex_comp(b: Seq<u8>, k: int, w: int) -> Option<u8> {
    let p = comp_pos(k, w);
    if w == 1 {
        radix16_two(b[p], b[p])
    } else {
        radix16_two(b[p], b[p + 1])
    }
}

/// Whether the `k`-th component's byte range starts and ends on character boundaries.
pub open spec fn comp_sliceable(b: Seq<u8>, k: int, w: int) -> bool {
    is_char_boundary(b, comp_pos(k, w)) && is_char_boundary(b, comp_pos(k, w) + w)
}

/// Reading components `k..n` in order reaches a byte range that does not lie
/// on character boundaries before any component fails to parse.
pub open spec fn comps_panic_from(b: Seq<u8>, k: int, n: int, w: int) -> bool
    decreases n - k,
{
    if k >= n || k < 0 {
        false
    } else if !comp_sliceable(b, k, w) {
        true
    } else if hex_comp(b, k, w) is None {
        false
    } else {
        comps_panic_from(b, k + 1, n, w)
    }
}

pub open spec fn comps_ok_from(b: Seq<u8>, k: int, n: int, w: int) -> bool
    decreases n - k,
{
    if k >= n || k < 0 {
        true
    } else {
        hex_comp(b, k, w) is Some && comps_ok_from(b, k + 1, n, w)
    }
}

/// Number of components and bytes per component for each accepted byte length.
pub open spec fn hex_layout(len: nat) -> Option<(int, int)> {
    if len == 3 {
        Some((3, 1))
    } else if len == 4 {
        Some((4, 1))
    } else if len == 6 {
        Some((3, 2))
    } else if len == 8 {
        Some((4, 2))
    } else {
        None
    }
}

/// `Color::parse_hex` slices its input at byte offsets that are not
/// character boundaries (possible only for non-ASCII text), which panics.
pub open spec fn hex_color_panics(s: Seq<char>) -> bool {
    let b = encode_utf8(hex_body(s));
    match hex_layout(b.len()) {
        Some((n, w)) => comps_panic_from(b, 0, n, w),
        None => false,
    }
}

/// The colour `#rgb` / `#rgba` / `#rrggbb` / `#rrggbbaa` denotes, if any.
pub open spec fn hex_color_value(s: Seq<char>) -> Option<Color> {
    let b = encode_utf8(hex_body(s));
    match hex_layout(b.len()) {
        Some((n, w)) => if comps_ok_from(b, 0, n, w) {
            Some(
                Color {
                    r: hex_comp(b, 0, w).unwrap(),
                    g: hex_comp(b, 1, w).unwrap(),
                    b: hex_comp(b, 2, w).unwrap(),
                    a: if n == 4 {
                        hex_comp(b, 3, w).unwrap()
                    } else {
                        255
                    },
                },
            )
        } else {
            None
        },
        None => None,
    }
}

/// The result of `Color::parse_hex` on an input it does not panic on.
pub open spec fn hex_color_result(r: Result<Color, DomainError>, s: Seq<char>) -> bool {
    match hex_color_value(s) {
        Some(c) => r == Ok::<Color, DomainError>(c),
        None => fails_invalid(r, "invalid color hex: "@ + hex_body(s)),
    }
}

/// An ASCII hexadecimal digit.
pub open spec fn is_hex_digit_char(c: char) -> bool {
    ('0' <= c && c <= '9') || ('a' <= c && c <= 'f') || ('A' <= c && c <= 'F')
}

/// `#rgb`, `#rgba`, `#rrggbb` or `#rrggbbaa`, the `#` optional: after it,
/// 3, 4, 6 or 8 hex digits and nothing else.
pub open spec fn is_hex_color_text(s: Seq<char>) -> bool {
    let t = hex_body(s);
    &&& (t.len() == 3 || t.len() == 4 || t.len() == 6 || t.len() == 8)
    &&& forall|i: int| 0 <= i < t.len() ==> is_hex_digit_char(#[trigger] t[i])
}

proof fn lemma_hex_digit_char(c: char)
    ensures
        is_hex_digit_char(c) <==> ((c as u32) < 128 && hex_nibble(c as u8) is Some),
{
}

proof fn lemma_char_ascii(c: char)
    requires
        (c as u32) < 128,
    ensures
        '\0' <= c <= '\u{7f}',
{
}

proof fn lemma_lead_byte_high(x: u8)
    ensures
        (0xC0u8 | x) >= 0x80u8,
        (0xE0u8 | x) >= 0x80u8,
        (0xF0u8 | x) >= 0x80u8,
{
    assert((0xC0u8 | x) >= 0x80u8) by (bit_vector);
    assert((0xE0u8 | x) >= 0x80u8) by (bit_vector);
    assert((0xF0u8 | x) >= 0x80u8) by (bit_vector);
}

/// A text whose UTF-8 bytes are all below 128 is ASCII.
proof fn lemma_ascii_from_bytes(t: Seq<char>)
    requires
        forall|j: int| 0 <= j < encode_utf8(t).len() ==> #[trigger] encode_utf8(t)[j] < 128,
    ensures
        vstd::utf8::is_ascii_chars(t),
    decreases t.len(),
{
    if t.len() > 0 {
        let rest = t.drop_first();
        let c = t[0] as u32;
        let e = vstd::utf8::encode_scalar(c);
        assert(encode_utf8(t) == e + encode_utf8(rest));
        vstd::utf8::char_is_scalar(t[0]);
        assert(e.len() >= 1);
        assert(encode_utf8(t)[0] == e[0]);
        if c >= 128 {
            if vstd::utf8::has_width_2_encoding(c) {
                lemma_lead_byte_high(((c >> 6) & 0x1F) as u8);
            } else if vstd::utf8::has_width_3_encoding(c) {
                lemma_lead_byte_high(((c >> 12) & 0x0F) as u8);
            } else {
                lemma_lead_byte_high(((c >> 18) & 0x7) as u8);
            }
            assert(false);
        }
        assert forall|j: int| 0 <= j < encode_utf8(rest).len() implies #[trigger] encode_utf8(
            rest,
        )[j] < 128 by {
            assert(encode_utf8(t)[e.len() + j] == encode_utf8(rest)[j]);
        }
        lemma_ascii_from_bytes(rest);
        assert forall|i: int| 0 <= i < t.len() implies '\0' <= #[trigger] t[i] <= '\u{7f}' by {
            if i > 0 {
                assert(t[i] == rest[i - 1]);
                assert('\0' <= rest[i - 1] <= '\u{7f}');
            } else {
                lemma_char_ascii(t[0]);
            }
        }
    }
}

/// Each component of a colour that parses is read from two hex digits.
proof fn lemma_comps_each(b: Seq<u8>, k: int, n: int, w: int)
    requires
        0 <= k,
        comps_ok_from(b, k, n, w),
    ensures
        forall|j: int| k <= j < n ==> #[trigger] hex_comp(b, j, w) is Some,
    decreases n - k,
{
    if k < n {
        lemma_comps_each(b, k + 1, n, w);
    }
}

/// Bytes that are all hex digits read as components, on character boundaries.
proof fn lemma_comps_from_bytes(b: Seq<u8>, k: int, n: int, w: int)
    requires
        0 <= k <= n,
        w == 1 || w == 2,
        n * w == b.len(),
        vstd::utf8::valid_utf8(b),
        forall|j: int| 0 <= j < b.len() ==> #[trigger] hex_nibble(b[j]) is Some,
    ensures
        comps_ok_from(b, k, n, w),
        !comps_panic_from(b, k, n, w),
    decreases n - k,
{
    if k < n {
        lemma_comps_from_bytes(b, k + 1, n, w);
        let p = comp_pos(k, w);
        assert(p + w <= b.len()) by (nonlinear_arith)
            requires
                p == (if w == 1 {
                    k
                } else {
                    2 * k
                }),
                n * w == b.len(),
                k < n,
                w == 1 || w == 2,
        ;
        assert(hex_nibble(b[p]) is Some);
        assert(hex_nibble(b[p + w - 1]) is Some);
        vstd::utf8::is_char_boundary_start_end_of_seq(b);
        vstd::utf8::is_char_boundary_iff_not_is_continuation_byte(b, p);
        if p + w < b.len() {
            assert(hex_nibble(b[p + w]) is Some);
            vstd::utf8::is_char_boundary_iff_not_is_continuation_byte(b, p + w);
        }
    }
}

/// A text reads as a colour exactly when it is written as `is_hex_color_text`
/// says, and such a text is never sliced inside a character.
proof fn lemma_hex_color_text(s: Seq<char>)
    ensures
        is_hex_color_text(s) ==> !hex_color_panics(s) && hex_color_value(s) is Some,
        hex_color_value(s) is Some ==> is_hex_color_text(s),
{
    let t = hex_body(s);
    let b = encode_utf8(t);
    vstd::utf8::encode_utf8_valid_utf8(t);
    if is_hex_color_text(s) {
        assert forall|i: int| 0 <= i < t.len() implies '\0' <= #[trigger] t[i] <= '\u{7f}' by {
            lemma_hex_digit_char(t[i]);
        }
        vstd::utf8::is_ascii_chars_encode_utf8(t);
        assert forall|j: int| 0 <= j < b.len() implies #[trigger] hex_nibble(b[j]) is Some by {
            lemma_hex_digit_char(t[j]);
        }
        let (n, w) = hex_layout(b.len()).unwrap();
        lemma_comps_from_bytes(b, 0, n, w);
    }
    if hex_color_value(s) is Some {
        let (n, w) = hex_layout(b.len()).unwrap();
        lemma_comps_each(b, 0, n, w);
        assert forall|j: int| 0 <= j < b.len() implies #[trigger] hex_nibble(b[j]) is Some by {
            if w == 1 {
                assert(hex_comp(b, j, w) is Some);
            } else {
                let k = j / 2;
                assert(hex_comp(b, k, w) is Some);
            }
        }
        assert forall|j: int| 0 <= j < b.len() implies #[trigger] b[j] < 128 by {
            assert(hex_nibble(b[j]) is Some);
        }
        lemma_ascii_from_bytes(t);
        vstd::utf8::is_ascii_chars_encode_utf8(t);
        assert forall|i: int| 0 <= i < t.len() implies is_hex_digit_char(#[trigger] t[i]) by {
            assert(hex_nibble(b[i]) is Some);
            lemma_hex_digit_char(t[i]);
        }
    }
}

fn nibble(b: u8) -> (r: Option<u8>)
    ensures
        r == hex_nibble(b),
{
    if 48 <= b && b <= 57 {
        Some(b - 48)
    } else if 97 <= b && b <= 102 {
        Some(b - 87)
    } else if 65 <= b && b <= 70 {
        Some(b - 55)
    } else {
        None
    }
}

fn radix16(b0: u8, b1: u8) -> (r: Option<u8>)
    ensures
        r == radix16_two(b0, b1),
{
    match (nibble(b0), nibble(b1)) {
        (Some(h), Some(l)) => Some(h * 16 + l),
        _ => None,
    }
}

impl Color {
    /// Parses `#rgb` / `#rgba` / `#rrggbb` / `#rrggbbaa`, the `#` optional.
    /// `None` stands for the inputs on which the byte slicing of the
    /// specification panics (see `hex_color_panics`).
    pub fn parse_hex_checked(s: &str) -> (r: Option<Result<Self, DomainError>>)
        ensures
            r is None <==> hex_color_panics(s@),
            r matches Some(res) ==> hex_color_result(res, s@),
            r matches Some(res) ==> (res is Ok <==> is_hex_color_text(s@)),
    {
        proof {
            lemma_hex_color_text(s@);
        }
        let n = s.unicode_len();
        let t = if n > 0 && s.get_char(0) == '#' {
            s.substring_char(1, n)
        } else {
            s.substring_char(0, n)
        };
        proof {
            assert(t@ =~= hex_body(s@));
            vstd::utf8::encode_utf8_valid_utf8(t@);
        }
        let bytes = t.as_bytes();
        let len = bytes.len();
        let (count, w): (usize, usize) = if len == 3 {
            (3, 1)
        } else if len == 4 {
            (4, 1)
        } else if len == 6 {
            (3, 2)
        } else if len == 8 {
            (4, 2)
        } else {
            return Some(Err(DomainError::invalid(join2("invalid color hex: ", t))));
        };
        let ghost b = bytes@;
        proof {
            if len == 3 {
                assert(count as int * w as int == 3);
            } else if len == 4 {
                assert(count as int * w as int == 4);
            } else if len == 6 {
                assert(count as int * w as int == 6);
            } else {
                assert(count as int * w as int == 8);
            }
        }
        let mut comps: Vec<u8> = Vec::new();
        let mut k: usize = 0;
        while k < count
            invariant
                b == bytes@,
                b == encode_utf8(t@),
                t@ == hex_body(s@),
                vstd::utf8::valid_utf8(b),
                hex_layout(b.len()) == Some((count as int, w as int)),
                count as int * w as int == b.len(),
                k <= count,
                comps@.len() == k,
                forall|j: int| 0 <= j < k ==> #[trigger] hex_comp(b, j, w as int) == Some(comps@[j]),
                comps_panic_from(b, 0, count as int, w as int) == comps_panic_from(
                    b,
                    k as int,
                    count as int,
                    w as int,
                ),
                comps_ok_from(b, 0, count as int, w as int) == comps_ok_from(
                    b,
                    k as int,
                    count as int,
                    w as int,
                ),
            decreases count - k,
        {
            let p = if w == 1 {
                k
            } else {
                2 * k
            };
            if !t.is_char_boundary(p) || !t.is_char_boundary(p + w) {
                return None;
            }
            let c = if w == 1 {
                radix16(bytes[p], bytes[p])
            } else {
                radix16(bytes[p], bytes[p + 1])
            };
            match c {
                Some(v) => {
                    comps.push(v);
                },
                None => {
                    proof {
                        assert(!comps_ok_from(b, k as int, count as int, w as int));
                        lemma_hex_color_text(s@);
                    }
                    return Some(Err(DomainError::invalid(join2("invalid color hex: ", t))));
                },
            }
            k = k + 1;
        }
        proof {
            assert(hex_comp(b, 0, w as int) == Some(comps@[0]));
            assert(hex_comp(b, 1, w as int) == Some(comps@[1]));
            assert(hex_comp(b, 2, w as int) == Some(comps@[2]));
            if count == 4 {
                assert(hex_comp(b, 3, w as int) == Some(comps@[3]));
            }
        }
        let a = if count == 4 {
            comps[3]
        } else {
            255
        };
        Some(Ok(Self::rgba(comps[0], comps[1], comps[2], a)))
    }

    /// Parses `#rgb` / `#rgba` / `#rrggbb` / `#rrggbbaa`, the `#` optional.
    pub fn parse_hex(s: &str) -> (r: Result<Self, DomainError>)
        requires
            !hex_color_panics(s@),
        ensures
            hex_color_result(r, s@),
            r is Ok <==> is_hex_color_text(s@),
    {
        match Self::parse_hex_checked(s) {
            Some(r) => r,
            None => Err(DomainError::Internal(String::new())),
        }
    }
}

/// The hex digit for `n` in `0..16`, in lower or upper case.
pub open spec fn hex_digit(n: int, upper: bool) -> char {
    if upper {
        seq!['0', '1', '2', '3', '4', '5', '6', '7', '8', '9', 'A', 'B', 'C', 'D', 'E', 'F'][n]
    } else {
        seq!['0', '1', '2', '3', '4', '5', '6', '7', '8', '9', 'a', 'b', 'c', 'd', 'e', 'f'][n]
    }
}

/// A byte as two hex digits, as `{:02x}` (or `{:02X}`) writes it.
pub open spec fn hex_pair(v: u8, upper: bool) -> Seq<char> {
    seq![hex_digit(v as int / 16, upper), hex_digit(v as int % 16, upper)]
}

/// A colour written in hex: `#` if `hash`, then `rrggbb`, then `aa` if
/// `alpha`, all digits in one case.
pub open spec fn hex_text(c: Color, upper: bool, hash: bool, alpha: bool) -> Seq<char> {
    (if hash {
        seq!['#']
    } else {
        Seq::<char>::empty()
    }) + hex_pair(c.r, upper) + hex_pair(c.g, upper) + hex_pair(c.b, upper) + (if alpha {
        hex_pair(c.a, upper)
    } else {
        Seq::<char>::empty()
    })
}

proof fn lemma_hex_digit(n: int, upper: bool)
    requires
        0 <= n < 16,
    ensures
        hex_nibble(hex_digit(n, upper) as u8) == Some(n as u8),
        (hex_digit(n, upper) as u32) < 128,
        hex_digit(n, upper) != '#',
{
    assert(n == 0 || n == 1 || n == 2 || n == 3 || n == 4 || n == 5 || n == 6 || n == 7 || n == 8
        || n == 9 || n == 10 || n == 11 || n == 12 || n == 13 || n == 14 || n == 15);
}

/// The `k`-th pair of digits in the bytes of an ASCII text reads as `v`,
/// and lies on character boundaries.
proof fn lemma_hex_pair_comp(body: Seq<char>, k: int, v: u8, upper: bool)
    requires
        0 <= k,
        2 * k + 2 <= body.len(),
        vstd::utf8::is_ascii_chars(body),
        body[2 * k] == hex_digit(v as int / 16, upper),
        body[2 * k + 1] == hex_digit(v as int % 16, upper),
    ensures
        hex_comp(encode_utf8(body), k, 2) == Some(v),
        comp_sliceable(encode_utf8(body), k, 2),
{
    let b = encode_utf8(body);
    vstd::utf8::is_ascii_chars_encode_utf8(body);
    vstd::utf8::encode_utf8_valid_utf8(body);
    vstd::utf8::is_char_boundary_start_end_of_seq(b);
    let hi = v as int / 16;
    let lo = v as int % 16;
    lemma_hex_digit(hi, upper);
    lemma_hex_digit(lo, upper);
    assert(b[2 * k] == body[2 * k] as u8);
    assert(b[2 * k + 1] == body[2 * k + 1] as u8);
    assert(comp_pos(k, 2) == 2 * k);
    assert((hi * 16 + lo) as u8 == v);
    vstd::utf8::is_char_boundary_iff_not_is_continuation_byte(b, 2 * k);
    if 2 * k + 2 < b.len() {
        assert(b[2 * k + 2] == body[2 * k + 2] as u8);
        vstd::utf8::is_char_boundary_iff_not_is_continuation_byte(b, 2 * k + 2);
    }
}

/// A colour written in hex, with or without `#`, in lower or upper case,
/// reads back as that colour; written without its alpha pair, as the same
/// colour made opaque. `Color::parse_hex` does not panic on such a text.
pub proof fn hex_color_roundtrip(c: Color, upper: bool, hash: bool, alpha: bool)
    ensures
        !hex_color_panics(hex_text(c, upper, hash, alpha)),
        hex_color_value(hex_text(c, upper, hash, alpha)) == Some(
            if alpha {
                c
            } else {
                (Color { r: c.r, g: c.g, b: c.b, a: 255 })
            },
        ),
{
    let s = hex_text(c, upper, hash, alpha);
    let body = hex_pair(c.r, upper) + hex_pair(c.g, upper) + hex_pair(c.b, upper) + (if alpha {
        hex_pair(c.a, upper)
    } else {
        Seq::<char>::empty()
    });
    lemma_hex_digit(c.r as int / 16, upper);
    lemma_hex_digit(c.r as int % 16, upper);
    lemma_hex_digit(c.g as int / 16, upper);
    lemma_hex_digit(c.g as int % 16, upper);
    lemma_hex_digit(c.b as int / 16, upper);
    lemma_hex_digit(c.b as int % 16, upper);
    lemma_hex_digit(c.a as int / 16, upper);
    lemma_hex_digit(c.a as int % 16, upper);
    if hash {
        assert(s =~= seq!['#'] + body);
        assert(s.drop_first() =~= body);
    } else {
        assert(s =~= body);
        assert(body[0] != '#');
    }
    assert(hex_body(s) == body);
    assert(vstd::utf8::is_ascii_chars(body));
    let b = encode_utf8(body);
    vstd::utf8::is_ascii_chars_encode_utf8(body);
    let n: int = if alpha {
        4
    } else {
        3
    };
    assert(hex_layout(b.len()) == Some((n, 2int)));
    lemma_hex_pair_comp(body, 0, c.r, upper);
    lemma_hex_pair_comp(body, 1, c.g, upper);
    lemma_hex_pair_comp(body, 2, c.b, upper);
    if alpha {
        lemma_hex_pair_comp(body, 3, c.a, upper);
    }
    assert(!comps_panic_from(b, n, n, 2));
    assert(!comps_panic_from(b, 3, n, 2));
    assert(!comps_panic_from(b, 2, n, 2));
    assert(!comps_panic_from(b, 1, n, 2));
    assert(!comps_panic_from(b, 0, n, 2));
    assert(comps_ok_from(b, n, n, 2));
    assert(comps_ok_from(b, 3, n, 2));
    assert(comps_ok_from(b, 2, n, 2));
    assert(comps_ok_from(b, 1, n, 2));
    assert(comps_ok_from(b, 0, n, 2));
}

/// Every interpolation's name reads back as that interpolation.
pub proof fn interpolation_name_roundtrip(i: Interpolation)
    ensures
        interpolation_named(lower_seq(interpolation_name(i))) == Some(i),
{
    reveal_strlit("auto");
    reveal_strlit("nearest");
    reveal_strlit("nn");
    reveal_strlit("linear");
    reveal_strlit("bilinear");
    reveal_strlit("cubic");
    reveal_strlit("bicubic");
    reveal_strlit("area");
    reveal_strlit("lanczos4");
    reveal_strlit("lanczos");
    let n = interpolation_name(i);
    assert(lower_seq(n) =~= n);
    match i {
        Interpolation::Auto => {},
        Interpolation::Nearest => {
            assert(n != "auto"@);
        },
        Interpolation::Linear => {
            assert(n != "auto"@ && n != "nearest"@ && n != "nn"@);
        },
        Interpolation::Cubic => {
            assert(n != "auto"@ && n != "nearest"@ && n != "nn"@ && n != "linear"@ && n
                != "bilinear"@);
        },
        Interpolation::Area => {
            assert(n[1] != "auto"@[1]);
            assert(n != "auto"@ && n != "nearest"@ && n != "nn"@ && n != "linear"@ && n
                != "bilinear"@ && n != "cubic"@ && n != "bicubic"@);
        },
        Interpolation::Lanczos4 => {
            assert(n[0] != "bilinear"@[0]);
            assert(n != "auto"@ && n != "nearest"@ && n != "nn"@ && n != "linear"@ && n
                != "bilinear"@ && n != "cubic"@ && n != "bicubic"@ && n != "area"@);
        },
    }
}

} // verus!
