//! The decisions of the image codec: which format a payload is in, the
//! checks made before any pixel is decoded, the colour conversions the
//! adapters need, and the parameters handed to the encoder.

use vstd::prelude::*;
use crate::error::DomainError;
use crate::numbers::{fmt_i64, signed_string};
use crate::ops::Op;
use crate::pipeline::{Compression, OutputSpec, pipeline_ok};
use crate::text::join2;
use crate::value_objects::{ImageFormat, format_has_alpha};

verus! {

// ─── Format sniffing ─────────────────────────────────────────────────────────

/// The format announced by a payload's leading magic bytes.
pub open spec fn sniffed_format(b: Seq<u8>) -> Option<ImageFormat> {
    if b.len() >= 3 && b[0] == 0xFF && b[1] == 0xD8 && b[2] == 0xFF {
        Some(ImageFormat::Jpeg)
    } else if b.len() >= 8 && b.subrange(0, 8) == seq![0x89u8, 0x50, 0x4E, 0x47, 0x0D, 0x0A, 0x1A, 0x0A] {
        Some(ImageFormat::Png)
    } else if b.len() >= 12 && b.subrange(0, 4) == seq![0x52u8, 0x49, 0x46, 0x46]
        && b.subrange(8, 12) == seq![0x57u8, 0x45, 0x42, 0x50] {
        Some(ImageFormat::WebP)
    } else {
        None
    }
}

/// The magic bytes decide the format, and nothing else does: a payload
/// that starts with `FF D8 FF` is JPEG whatever follows (JFIF, Exif or any
/// other marker); one that starts with the PNG signature is PNG; a `RIFF`
/// container whose form type (bytes 8 to 11) is `WEBP` is WebP; any other
/// payload has no format.
pub proof fn magic_bytes_decide_format(b: Seq<u8>)
    ensures
        b.len() >= 3 && b[0] == 0xFF && b[1] == 0xD8 && b[2] == 0xFF ==> sniffed_format(b) == Some(
            ImageFormat::Jpeg,
        ),
        b.len() >= 8 && b.subrange(0, 8) == seq![0x89u8, 0x50, 0x4E, 0x47, 0x0D, 0x0A, 0x1A, 0x0A]
            ==> sniffed_format(b) == Some(ImageFormat::Png),
        b.len() >= 12 && b.subrange(0, 4) == seq![0x52u8, 0x49, 0x46, 0x46] && b.subrange(8, 12)
            == seq![0x57u8, 0x45, 0x42, 0x50] ==> sniffed_format(b) == Some(ImageFormat::WebP),
        sniffed_format(b) == Some(ImageFormat::Jpeg) ==> b.len() >= 3 && b[0] == 0xFF && b[1]
            == 0xD8 && b[2] == 0xFF,
        sniffed_format(b) == Some(ImageFormat::Png) ==> b.len() >= 8 && b[0] == 0x89 && b[1]
            == 0x50 && b[2] == 0x4E && b[3] == 0x47 && b[4] == 0x0D && b[5] == 0x0A && b[6] == 0x1A
            && b[7] == 0x0A,
        sniffed_format(b) == Some(ImageFormat::WebP) ==> b.len() >= 12 && b[0] == 0x52 && b[1]
            == 0x49 && b[2] == 0x46 && b[3] == 0x46 && b[8] == 0x57 && b[9] == 0x45 && b[10] == 0x42
            && b[11] == 0x50,
{
    if b.len() >= 12 && b.subrange(0, 4) == seq![0x52u8, 0x49, 0x46, 0x46] {
        assert(b[0] == b.subrange(0, 4)[0]);
    }
    if sniffed_format(b) == Some(ImageFormat::Png) {
        let sig = b.subrange(0, 8);
        assert(b[0] == sig[0] && b[1] == sig[1] && b[2] == sig[2] && b[3] == sig[3]);
        assert(b[4] == sig[4] && b[5] == sig[5] && b[6] == sig[6] && b[7] == sig[7]);
    }
    if sniffed_format(b) == Some(ImageFormat::WebP) {
        let a = b.subrange(0, 4);
        let c = b.subrange(8, 12);
        assert(b[0] == a[0] && b[1] == a[1] && b[2] == a[2] && b[3] == a[3]);
        assert(b[8] == c[0] && b[9] == c[1] && b[10] == c[2] && b[11] == c[3]);
    }
}

/// Recognises JPEG (`FF D8 FF`), PNG (`89 50 4E 47 0D 0A 1A 0A`) and WebP
/// (`RIFF` … `WEBP`) by their magic bytes.
pub fn sniff_format(bytes: &[u8]) -> (r: Result<ImageFormat, DomainError>)
    ensures
        sniffed_format(bytes@) matches Some(f) ==> r == Ok::<ImageFormat, DomainError>(f),
        sniffed_format(bytes@) is None ==> (r matches Err(e) && e matches DomainError::UnsupportedFormat(
            m,
        ) && m@ == "unknown magic"@),
{
    let n = bytes.len();
    if n >= 3 && bytes[0] == 0xFF && bytes[1] == 0xD8 && bytes[2] == 0xFF {
        return Ok(ImageFormat::Jpeg);
    }
    if n >= 8 && bytes[0] == 0x89 && bytes[1] == 0x50 && bytes[2] == 0x4E && bytes[3] == 0x47
        && bytes[4] == 0x0D && bytes[5] == 0x0A && bytes[6] == 0x1A && bytes[7] == 0x0A {
        proof {
            assert(bytes@.subrange(0, 8) =~= seq![0x89u8, 0x50, 0x4E, 0x47, 0x0D, 0x0A, 0x1A, 0x0A]);
        }
        return Ok(ImageFormat::Png);
    }
    if n >= 12 && bytes[0] == 0x52 && bytes[1] == 0x49 && bytes[2] == 0x46 && bytes[3] == 0x46
        && bytes[8] == 0x57 && bytes[9] == 0x45 && bytes[10] == 0x42 && bytes[11] == 0x50 {
        proof {
            assert(bytes@.subrange(0, 4) =~= seq![0x52u8, 0x49, 0x46, 0x46]);
            assert(bytes@.subrange(8, 12) =~= seq![0x57u8, 0x45, 0x42, 0x50]);
        }
        return Ok(ImageFormat::WebP);
    }
    proof {
        if n >= 8 && bytes@.subrange(0, 8) == seq![0x89u8, 0x50, 0x4E, 0x47, 0x0D, 0x0A, 0x1A, 0x0A] {
            assert(bytes@.subrange(0, 8)[0] == bytes@[0]);
            assert(bytes@.subrange(0, 8)[1] == bytes@[1]);
            assert(bytes@.subrange(0, 8)[2] == bytes@[2]);
            assert(bytes@.subrange(0, 8)[3] == bytes@[3]);
            assert(bytes@.subrange(0, 8)[4] == bytes@[4]);
            assert(bytes@.subrange(0, 8)[5] == bytes@[5]);
            assert(bytes@.subrange(0, 8)[6] == bytes@[6]);
            assert(bytes@.subrange(0, 8)[7] == bytes@[7]);
        }
        if n >= 12 && bytes@.subrange(0, 4) == seq![0x52u8, 0x49, 0x46, 0x46]
            && bytes@.subrange(8, 12) == seq![0x57u8, 0x45, 0x42, 0x50] {
            assert(bytes@.subrange(0, 4)[0] == bytes@[0]);
            assert(bytes@.subrange(0, 4)[1] == bytes@[1]);
            assert(bytes@.subrange(0, 4)[2] == bytes@[2]);
            assert(bytes@.subrange(0, 4)[3] == bytes@[3]);
            assert(bytes@.subrange(8, 12)[0] == bytes@[8]);
            assert(bytes@.subrange(8, 12)[1] == bytes@[9]);
            assert(bytes@.subrange(8, 12)[2] == bytes@[10]);
            assert(bytes@.subrange(8, 12)[3] == bytes@[11]);
        }
    }
    Err(DomainError::UnsupportedFormat(String::from_str("unknown magic")))
}

// ─── Checks before decoding ──────────────────────────────────────────────────

/// The width and height that `imagesize::blob_size` reads from a payload's
/// header, `None` where it reports an error.
pub uninterp spec fn image_header_size(data: Seq<u8>) -> Option<(usize, usize)>;

/// Calls `imagesize::blob_size`, which parses the header of the payload
/// without decoding it. The contract claims only that the result is a
/// function of the bytes, named `image_header_size`; an error becomes `None`.
#[verifier::external_body]
fn header_size(data: &[u8]) -> (r: Option<(usize, usize)>)
    ensures
        r == image_header_size(data@),
{
    match imagesize::blob_size(data) {
        Ok(size) => Some((size.width, size.height)),
        Err(_) => None,
    }
}

/// `width * height`, saturated at `u64::MAX`.
pub open spec fn pixel_count(width: usize, height: usize) -> u64 {
    if width * height > u64::MAX {
        u64::MAX
    } else {
        (width * height) as u64
    }
}

/// A header that announces more pixels than the budget allows.
pub open spec fn over_budget(size: Option<(usize, usize)>, max_pixels: u64) -> bool {
    size matches Some((w, h)) && pixel_count(w, h) > max_pixels
}

/// The decompression-bomb guard: a header announcing more than
/// `max_pixels` pixels is refused as too large. A payload whose header
/// cannot be read passes; the decoder will judge it.
pub fn check_pixel_budget(size: Option<(usize, usize)>, max_pixels: u64) -> (r: Result<
    (),
    DomainError,
>)
    ensures
        over_budget(size, max_pixels) ==> r == Err::<(), DomainError>(DomainError::PayloadTooLarge),
        !over_budget(size, max_pixels) ==> r is Ok,
{
    match size {
        Some((w, h)) => {
            let pixels = match (w as u64).checked_mul(h as u64) {
                Some(p) => p,
                None => u64::MAX,
            };
            if pixels > max_pixels {
                Err(DomainError::PayloadTooLarge)
            } else {
                Ok(())
            }
        },
        None => Ok(()),
    }
}

/// The value of the first component of the primary image's Orientation
/// field that `kamadak-exif` reads from a payload, when it reads one.
pub uninterp spec fn exif_orientation_value(data: Seq<u8>) -> Option<u32>;

/// Calls `exif::Reader::read_from_container` on the payload, then
/// `Exif::get_field(Tag::Orientation, In::PRIMARY)` and `Value::get_uint(0)`.
/// The contract claims only that the result is a function of the bytes,
/// named `exif_orientation_value`; any failure along the way gives `None`.
#[verifier::external_body]
fn exif_orientation_raw(data: &[u8]) -> (r: Option<u32>)
    ensures
        r == exif_orientation_value(data@),
{
    let reader = exif::Reader::new();
    let exif = reader.read_from_container(&mut std::io::Cursor::new(data)).ok()?;
    let field = exif.get_field(exif::Tag::Orientation, exif::In::PRIMARY)?;
    field.value.get_uint(0)
}

/// The orientation tag as the decoder records it: the raw value truncated
/// to 16 bits.
pub open spec fn orientation_tag(raw: Option<u32>) -> Option<u16> {
    match raw {
        Some(v) => Some(v as u16),
        None => None,
    }
}

pub fn orientation_from_raw(raw: Option<u32>) -> (r: Option<u16>)
    ensures
        r == orientation_tag(raw),
{
    match raw {
        Some(v) => Some(v as u16),
        None => None,
    }
}

/// Best-effort read of the EXIF orientation tag.
pub fn read_exif_orientation(bytes: &[u8]) -> (r: Option<u16>)
    ensures
        r == orientation_tag(exif_orientation_value(bytes@)),
{
    orientation_from_raw(exif_orientation_raw(bytes))
}

/// What the decoder learns from a payload before decoding its pixels.
#[derive(Debug, Clone, Copy, PartialEq, Eq, Structural)]
pub struct PayloadInfo {
    pub format: ImageFormat,
    /// EXIF orientation (1 = identity, also when the payload has none).
    pub exif_orientation: u16,
}

/// The checks before decoding, in order: the magic bytes name a known
/// format, then the header announces no more than `max_pixels` pixels.
pub open spec fn payload_model(data: Seq<u8>, max_pixels: u64) -> Result<PayloadInfo, ErrorKind> {
    match sniffed_format(data) {
        None => Err(ErrorKind::UnknownMagic),
        Some(f) => if over_budget(image_header_size(data), max_pixels) {
            Err(ErrorKind::TooLarge)
        } else {
            Ok(
                PayloadInfo {
                    format: f,
                    exif_orientation: match orientation_tag(exif_orientation_value(data)) {
                        Some(o) => o,
                        None => 1,
                    },
                },
            )
        },
    }
}

/// What inspecting a payload gives: a payload of unknown format is
/// refused whatever its size; one of a known format whose header announces
/// `w` × `h` pixels is refused as too large exactly when `w * h` exceeds the
/// budget (for a budget below `u64::MAX`), and a header that cannot be read
/// is let through; an accepted payload has the sniffed format, and the
/// EXIF orientation read from it, 1 when none is read.
pub proof fn payload_inspection(data: Seq<u8>, max_pixels: u64)
    ensures
        sniffed_format(data) is None ==> payload_model(data, max_pixels) matches Err(
            ErrorKind::UnknownMagic,
        ),
        sniffed_format(data) is Some && image_header_size(data) is None ==> payload_model(
            data,
            max_pixels,
        ) is Ok,
        image_header_size(data) matches Some((w, h)) ==> ((sniffed_format(data) is Some
            && max_pixels < u64::MAX) ==> (payload_model(data, max_pixels) matches Err(
            ErrorKind::TooLarge,
        ) <==> w * h > max_pixels)),
        payload_model(data, max_pixels) matches Ok(info) ==> {
            &&& sniffed_format(data) == Some(info.format)
            &&& exif_orientation_value(data) is None ==> info.exif_orientation == 1
            &&& exif_orientation_value(data) matches Some(v) ==> (v <= u16::MAX
                ==> info.exif_orientation == v)
        },
{
}

/// The two ways the checks before decoding fail.
pub enum ErrorKind {
    UnknownMagic,
    TooLarge,
}

pub fn inspect_payload(bytes: &[u8], max_pixels: u64) -> (r: Result<PayloadInfo, DomainError>)
    ensures
        payload_model(bytes@, max_pixels) matches Ok(info) ==> r == Ok::<PayloadInfo, DomainError>(
            info,
        ),
        payload_model(bytes@, max_pixels) matches Err(ErrorKind::UnknownMagic) ==> (r matches Err(
            e,
        ) && e matches DomainError::UnsupportedFormat(m) && m@ == "unknown magic"@),
        payload_model(bytes@, max_pixels) matches Err(ErrorKind::TooLarge) ==> r == Err::<
            PayloadInfo,
            DomainError,
        >(DomainError::PayloadTooLarge),
{
    let format = match sniff_format(bytes) {
        Ok(f) => f,
        Err(e) => {
            return Err(e);
        },
    };
    let exif_orientation = match read_exif_orientation(bytes) {
        Some(o) => o,
        None => 1,
    };
    match check_pixel_budget(header_size(bytes), max_pixels) {
        Ok(()) => Ok(PayloadInfo { format, exif_orientation }),
        Err(e) => Err(e),
    }
}

// ─── Colour conversions ──────────────────────────────────────────────────────

/// A colour-space conversion of the pixel buffer.
#[derive(Debug, Clone, Copy, PartialEq, Eq, Structural)]
pub enum ColorConversion {
    BgrToBgra,
    GrayToBgra,
    BgraToBgr,
    GrayToBgr,
}

/// The conversion that brings a buffer with `channels` channels to BGRA:
/// none for 4 channels; `None` for a count that cannot be converted.
pub open spec fn to_bgra_model(channels: i32) -> Option<Option<ColorConversion>> {
    if channels == 4 {
        Some(None)
    } else if channels == 3 {
        Some(Some(ColorConversion::BgrToBgra))
    } else if channels == 1 {
        Some(Some(ColorConversion::GrayToBgra))
    } else {
        None
    }
}

/// What bringing a buffer to BGRA takes; an unsupported channel count
/// fails the `channels` step.
pub fn bgra_conversion(channels: i32) -> (r: Result<Option<ColorConversion>, DomainError>)
    ensures
        to_bgra_model(channels) matches Some(c) ==> r == Ok::<
            Option<ColorConversion>,
            DomainError,
        >(c),
        to_bgra_model(channels) is None ==> (r matches Err(e) && e matches DomainError::OpFailed {
            op,
            message,
        } && op@ == "channels"@ && message@ == "unsupported channels: "@ + signed_string(
            channels as int,
        )),
{
    if channels == 4 {
        Ok(None)
    } else if channels == 3 {
        Ok(Some(ColorConversion::BgrToBgra))
    } else if channels == 1 {
        Ok(Some(ColorConversion::GrayToBgra))
    } else {
        let n = fmt_i64(channels as i64);
        Err(DomainError::op("channels", join2("unsupported channels: ", n.as_str())))
    }
}

/// The conversion that brings a buffer to 3-channel BGR for a diff.
pub open spec fn to_bgr_model(channels: i32) -> Option<Option<ColorConversion>> {
    if channels == 3 {
        Some(None)
    } else if channels == 4 {
        Some(Some(ColorConversion::BgraToBgr))
    } else if channels == 1 {
        Some(Some(ColorConversion::GrayToBgr))
    } else {
        None
    }
}

pub fn bgr_conversion(channels: i32) -> (r: Result<Option<ColorConversion>, DomainError>)
    ensures
        to_bgr_model(channels) matches Some(c) ==> r == Ok::<Option<ColorConversion>, DomainError>(
            c,
        ),
        to_bgr_model(channels) is None ==> crate::error::fails_invalid(
            r,
            "diff: unsupported channel count "@ + signed_string(channels as int),
        ),
{
    if channels == 3 {
        Ok(None)
    } else if channels == 4 {
        Ok(Some(ColorConversion::BgraToBgr))
    } else if channels == 1 {
        Ok(Some(ColorConversion::GrayToBgr))
    } else {
        let n = fmt_i64(channels as i64);
        Err(DomainError::invalid(join2("diff: unsupported channel count ", n.as_str())))
    }
}

// ─── Encoding ────────────────────────────────────────────────────────────────

/// The format an image is encoded in: the one asked for, else the one it
/// was decoded from.
pub fn target_format(output: &OutputSpec, source: ImageFormat) -> (f: ImageFormat)
    ensures
        f == (match output.format {
            Some(g) => g,
            None => source,
        }),
{
    match output.format {
        Some(g) => g,
        None => source,
    }
}

/// A 4-channel buffer loses its alpha channel before it is encoded in a
/// format that cannot carry one.
pub fn strips_alpha(format: ImageFormat, channels: i32) -> (b: bool)
    ensures
        b == (!format_has_alpha(format) && channels == 4),
{
    !format.supports_alpha() && channels == 4
}

/// An encoder parameter.
#[derive(Debug, Clone, Copy, PartialEq, Eq, Structural)]
pub enum EncoderFlag {
    JpegQuality,
    JpegProgressive,
    PngCompression,
    WebpQuality,
}

/// The deflate level used for PNG, lossy request or not.
pub const PNG_COMPRESSION_LEVEL: i32 = 7i32;

/// The WebP quality that selects libwebp's lossless path.
pub const WEBP_LOSSLESS_QUALITY: i32 = 101i32;

/// The encoder parameters for a format and compression; JPEG cannot be
/// lossless.
pub open spec fn encode_params_model(format: ImageFormat, compression: Compression, progressive: bool) -> Result<
    Seq<(EncoderFlag, i32)>,
    Seq<char>,
> {
    match format {
        ImageFormat::Jpeg => match compression {
            Compression::Lossless => Err(
                "jpeg cannot be lossless (should have been caught by Pipeline::new)"@,
            ),
            Compression::Lossy(q) => Ok(
                seq![(EncoderFlag::JpegQuality, q@ as i32)] + if progressive {
                    seq![(EncoderFlag::JpegProgressive, 1i32)]
                } else {
                    Seq::<(EncoderFlag, i32)>::empty()
                },
            ),
        },
        ImageFormat::Png => Ok(seq![(EncoderFlag::PngCompression, PNG_COMPRESSION_LEVEL)]),
        ImageFormat::WebP => Ok(
            seq![
                (EncoderFlag::WebpQuality, match compression {
                    Compression::Lossy(q) => q@ as i32,
                    Compression::Lossless => WEBP_LOSSLESS_QUALITY,
                }),
            ],
        ),
    }
}

pub fn encode_params(format: ImageFormat, output: &OutputSpec) -> (r: Result<
    Vec<(EncoderFlag, i32)>,
    DomainError,
>)
    ensures
        encode_params_model(format, output.compression, output.progressive) matches Ok(p) ==> (r matches Ok(
            v,
        ) && v@ == p),
        encode_params_model(format, output.compression, output.progressive) matches Err(m) ==> (r matches Err(
            e,
        ) && e matches DomainError::Encode(x) && x@ == m),
{
    let mut params: Vec<(EncoderFlag, i32)> = Vec::new();
    match format {
        ImageFormat::Jpeg => {
            let quality = match output.compression {
                Compression::Lossy(q) => q.value() as i32,
                Compression::Lossless => {
                    return Err(
                        DomainError::Encode(
                            String::from_str(
                                "jpeg cannot be lossless (should have been caught by Pipeline::new)",
                            ),
                        ),
                    );
                },
            };
            params.push((EncoderFlag::JpegQuality, quality));
            if output.progressive {
                params.push((EncoderFlag::JpegProgressive, 1));
            }
        },
        ImageFormat::Png => {
            params.push((EncoderFlag::PngCompression, PNG_COMPRESSION_LEVEL));
        },
        ImageFormat::WebP => {
            let q = match output.compression {
                Compression::Lossy(q) => q.value() as i32,
                Compression::Lossless => WEBP_LOSSLESS_QUALITY,
            };
            params.push((EncoderFlag::WebpQuality, q));
        },
    }
    proof {
        let p = encode_params_model(format, output.compression, output.progressive);
        if p is Ok {
            assert(params@ =~= p->Ok_0);
        }
    }
    Ok(params)
}

/// The encoder accepts every format and compression but lossless JPEG.
pub proof fn only_lossless_jpeg_fails_to_encode(f: ImageFormat, c: Compression, progressive: bool)
    ensures
        encode_params_model(f, c, progressive) is Err <==> (f == ImageFormat::Jpeg && c
            == Compression::Lossless),
{
}

/// Each format's encoder gets settings of its own kind only, carrying what
/// was asked: JPEG the quality asked for, and the progressive flag exactly
/// when progressive output was asked; WebP the quality asked for, or the
/// value that selects lossless encoding; PNG its fixed compression level.
pub proof fn encoder_settings_follow_request(f: ImageFormat, c: Compression, progressive: bool)
    ensures
        encode_params_model(f, c, progressive) matches Ok(p) ==> {
            &&& forall|i: int|
                0 <= i < p.len() ==> match (#[trigger] p[i]).0 {
                    EncoderFlag::JpegQuality | EncoderFlag::JpegProgressive => f
                        == ImageFormat::Jpeg,
                    EncoderFlag::PngCompression => f == ImageFormat::Png,
                    EncoderFlag::WebpQuality => f == ImageFormat::WebP,
                }
            &&& c matches Compression::Lossy(q) ==> (f == ImageFormat::Jpeg ==> p.contains(
                (EncoderFlag::JpegQuality, q@ as i32),
            ))
            &&& c matches Compression::Lossy(q) ==> (f == ImageFormat::WebP ==> p.contains(
                (EncoderFlag::WebpQuality, q@ as i32),
            ))
            &&& (f == ImageFormat::WebP && c == Compression::Lossless) ==> p.contains(
                (EncoderFlag::WebpQuality, 101i32),
            )
            &&& f == ImageFormat::Png ==> p.contains((EncoderFlag::PngCompression, 7i32))
            &&& p.contains((EncoderFlag::JpegProgressive, 1i32)) <==> (f == ImageFormat::Jpeg
                && progressive)
            &&& p.len() == if f == ImageFormat::Jpeg && progressive {
                2int
            } else {
                1int
            }
        },
{
    if let Ok(p) = encode_params_model(f, c, progressive) {
        assert(p[0] == p[0]);
        if p.len() == 2 {
            assert(p[1] == p[1]);
        }
    }
}

/// The output of a valid pipeline can always be encoded, except when it
/// keeps the source format, asks for lossless compression and the source
/// is a JPEG: `Pipeline::new` cannot know the source format.
pub proof fn pipeline_output_encodes<S, D>(ops: Seq<Op<S, D>>, out: OutputSpec, source: ImageFormat)
    requires
        pipeline_ok(ops, out),
    ensures
        encode_params_model(
            match out.format {
                Some(g) => g,
                None => source,
            },
            out.compression,
            out.progressive,
        ) is Err <==> (out.format is None && source == ImageFormat::Jpeg && out.compression
            == Compression::Lossless),
{
}

} // verus!
