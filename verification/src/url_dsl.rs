//! The URL DSL parser.
//!
//! Ops are slash-separated; each op is `name,k_v,k_v,...` where `k_v` is a
//! key/value pair split at its first `_`. Examples:
//! * `resize,w_800,m_fit`
//! * `resize,w_400,h_300,m_fill/blur,s_2.0/format,f_webp,q_85`
//! * `rotate,a_90/round,r_24/format,f_png`
//! * `text,t_hello,c_ffffffff,p_br,s_24/format,f_png`
//!
//! Real-valued parameters (`blur,s_`, `rotate,a_`, …) are returned as the
//! text that was written, in a [`RealArg`]: reading them as numbers and
//! checking their ranges is left to the code that executes the ops. So that
//! this can happen in the same order as the checks here, a failed parse
//! reports the ops parsed before the failing segment and the real-valued
//! arguments of the failing segment that precede the failure.

use vstd::prelude::*;
use crate::error::{DomainError, ErrModel, err_model, same_result};
use crate::numbers::{parse_u32, parse_i32, parse_u32_spec, parse_i32_spec};
use crate::ops::{
    Op, ResizeMode, ResizeSpec, RotateSpec, CropSpec, BlurSpec, SharpenSpec, RoundCornerSpec,
    BrightnessSpec, ContrastSpec, SaturationSpec, TemperatureSpec, WatermarkTextSpec,
    resize_outcome,
};
use crate::pipeline::{Compression, OutputSpec};
use crate::text::{
    split_on, split_char, key_value, split_once_or_all, str_eq, join2, owned, lower_seq,
    trim_both,
};
use crate::value_objects::{
    Anchor, Color, ImageFormat, Interpolation, Quality, Rect, hex_body, hex_color_panics,
    hex_color_value, interpolation_named, format_named, DEFAULT_QUALITY,
};

verus! {

// ─── results ─────────────────────────────────────────────────────────────────

/// A real-valued parameter as written in the DSL; `text` is `None` when the
/// parameter was left out and its default applies.
#[derive(Debug, Clone)]
pub struct RealArg {
    pub key: &'static str,
    pub text: Option<String>,
}

/// An op as the DSL describes it.
pub type DslOp = Op<RealArg, RealArg>;

/// Why parsing stopped.
#[derive(Debug)]
pub enum DslFault {
    /// The input breaks a rule; this is the error to report.
    Rejected(DomainError),
    /// A colour parameter is sliced at a byte offset that is not a character
    /// boundary (see `hex_color_panics`).
    SliceOutOfBounds,
}

/// A failed parse, with what was read before the failure.
#[derive(Debug)]
pub struct DslError {
    pub fault: DslFault,
    /// The ops of the segments before the failing one.
    pub parsed: Vec<DslOp>,
    /// Real-valued arguments of the failing segment read before the failure.
    pub pending: Vec<RealArg>,
}

// ─── models ──────────────────────────────────────────────────────────────────

pub struct ArgModel {
    pub key: Seq<char>,
    pub text: Option<Seq<char>>,
}

pub struct TextModel {
    pub text: Seq<char>,
    pub font: Seq<char>,
    pub size: ArgModel,
    pub color: Color,
    pub position: Anchor,
    pub margin: u32,
    pub shadow: bool,
}

pub enum OpModel {
    Resize(ResizeSpec),
    Rotate(ArgModel, Color),
    Crop(CropSpec),
    Blur(ArgModel),
    Sharpen(ArgModel, ArgModel),
    RoundCorner(RoundCornerSpec),
    Brightness(BrightnessSpec),
    Contrast(ArgModel),
    Saturation(ArgModel),
    Temperature(TemperatureSpec),
    AutoOrient,
    WatermarkImage(Seq<char>, Anchor, ArgModel, u32, ArgModel),
    WatermarkText(TextModel),
}

pub enum CompressionModel {
    Lossy(u8),
    Lossless,
}

pub struct OutputModel {
    pub format: Option<ImageFormat>,
    pub compression: CompressionModel,
    pub progressive: bool,
}

pub enum SegModel {
    Op(OpModel),
    Output(OutputModel),
    Fail(ErrModel, Seq<ArgModel>),
    Panic(Seq<ArgModel>),
}

pub enum DslModel {
    Parsed(Seq<OpModel>, OutputModel),
    Fail(ErrModel, Seq<OpModel>, Seq<ArgModel>),
    Panic(Seq<OpModel>, Seq<ArgModel>),
}

pub open spec fn arg_model(a: RealArg) -> ArgModel {
    ArgModel {
        key: a.key@,
        text: match a.text {
            Some(t) => Some(t@),
            None => None,
        },
    }
}

pub open spec fn args_model(v: Seq<RealArg>) -> Seq<ArgModel> {
    v.map_values(|a: RealArg| arg_model(a))
}

pub open spec fn op_model(op: DslOp) -> OpModel {
    match op {
        Op::Resize(s) => OpModel::Resize(s),
        Op::Rotate(s) => OpModel::Rotate(arg_model(s.angle), s.background),
        Op::Crop(s) => OpModel::Crop(s),
        Op::Blur(s) => OpModel::Blur(arg_model(s.sigma)),
        Op::Sharpen(s) => OpModel::Sharpen(arg_model(s.amount), arg_model(s.radius)),
        Op::RoundCorner(s) => OpModel::RoundCorner(s),
        Op::Brightness(s) => OpModel::Brightness(s),
        Op::Contrast(s) => OpModel::Contrast(arg_model(s.value)),
        Op::Saturation(s) => OpModel::Saturation(arg_model(s.factor)),
        Op::Temperature(s) => OpModel::Temperature(s),
        Op::AutoOrient => OpModel::AutoOrient,
        Op::WatermarkImage(s) => OpModel::WatermarkImage(
            s.asset@,
            s.position,
            arg_model(s.opacity),
            s.margin,
            arg_model(s.scale),
        ),
        Op::WatermarkText(s) => OpModel::WatermarkText(
            TextModel {
                text: s.text@,
                font: s.font@,
                size: arg_model(s.size),
                color: s.color,
                position: s.position,
                margin: s.margin,
                shadow: s.shadow,
            },
        ),
    }
}

pub open spec fn ops_model(v: Seq<DslOp>) -> Seq<OpModel> {
    v.map_values(|o: DslOp| op_model(o))
}

pub open spec fn output_model(o: OutputSpec) -> OutputModel {
    OutputModel {
        format: o.format,
        compression: match o.compression {
            Compression::Lossy(q) => CompressionModel::Lossy(q@),
            Compression::Lossless => CompressionModel::Lossless,
        },
        progressive: o.progressive,
    }
}

pub open spec fn default_output_model() -> OutputModel {
    OutputModel {
        format: None,
        compression: CompressionModel::Lossy(DEFAULT_QUALITY),
        progressive: false,
    }
}

// ─── parameters ──────────────────────────────────────────────────────────────

pub type Params = Seq<(Seq<char>, Seq<char>)>;

/// The `k_v` pairs of the non-empty tokens, in order.
pub open spec fn params_fold(ts: Seq<Seq<char>>) -> Params
    decreases ts.len(),
{
    if ts.len() == 0 {
        Seq::empty()
    } else {
        let p = params_fold(ts.drop_last());
        if ts.last().len() == 0 {
            p
        } else {
            p.push(key_value(ts.last(), '_'))
        }
    }
}

/// The value of the last pair with the given key: later pairs override earlier ones.
pub open spec fn lookup(ps: Params, key: Seq<char>) -> Option<Seq<char>>
    decreases ps.len(),
{
    if ps.len() == 0 {
        None
    } else if ps.last().0 == key {
        Some(ps.last().1)
    } else {
        lookup(ps.drop_last(), key)
    }
}

pub open spec fn is_flag_on(v: Option<Seq<char>>) -> bool {
    v == Some("1"@) || v == Some("true"@)
}

pub open spec fn u32_arg(ps: Params, key: Seq<char>) -> Result<Option<u32>, ErrModel> {
    match lookup(ps, key) {
        None => Ok(None),
        Some(v) => match parse_u32_spec(v) {
            Some(n) => Ok(Some(n)),
            None => Err(ErrModel::Invalid("bad "@ + key)),
        },
    }
}

pub open spec fn i32_arg(ps: Params, key: Seq<char>) -> Result<Option<i32>, ErrModel> {
    match lookup(ps, key) {
        None => Ok(None),
        Some(v) => match parse_i32_spec(v) {
            Some(n) => Ok(Some(n)),
            None => Err(ErrModel::Invalid("bad "@ + key)),
        },
    }
}

pub open spec fn arg_of(ps: Params, key: Seq<char>) -> ArgModel {
    ArgModel { key, text: lookup(ps, key) }
}

/// The argument list holding `a` when it was given, empty otherwise.
pub open spec fn given(a: ArgModel) -> Seq<ArgModel> {
    if a.text is Some {
        seq![a]
    } else {
        Seq::empty()
    }
}

pub open spec fn invalid(m: Seq<char>) -> ErrModel {
    ErrModel::Invalid(m)
}

pub open spec fn fail(m: Seq<char>) -> SegModel {
    SegModel::Fail(ErrModel::Invalid(m), Seq::empty())
}

/// A colour parameter: its value, the message of its error, or a panic.
pub open spec fn color_arg(v: Seq<char>) -> Option<Result<Color, Seq<char>>> {
    if hex_color_panics(v) {
        None
    } else {
        match hex_color_value(v) {
            Some(c) => Some(Ok(c)),
            None => Some(Err("invalid color hex: "@ + hex_body(v))),
        }
    }
}

pub open spec fn anchor_short(s: Seq<char>) -> Option<Anchor> {
    if s == "tl"@ {
        Some(Anchor::TopLeft)
    } else if s == "t"@ {
        Some(Anchor::Top)
    } else if s == "tr"@ {
        Some(Anchor::TopRight)
    } else if s == "l"@ {
        Some(Anchor::Left)
    } else if s == "c"@ {
        Some(Anchor::Center)
    } else if s == "r"@ {
        Some(Anchor::Right)
    } else if s == "bl"@ {
        Some(Anchor::BottomLeft)
    } else if s == "b"@ {
        Some(Anchor::Bottom)
    } else if s == "br"@ {
        Some(Anchor::BottomRight)
    } else {
        None
    }
}

// ─── segment models ──────────────────────────────────────────────────────────

pub open spec fn mode_arg(ps: Params) -> Result<ResizeMode, ErrModel> {
    match lookup(ps, "m"@) {
        None => Ok(ResizeMode::Fit),
        Some(v) => if v == "exact"@ {
            Ok(ResizeMode::Exact)
        } else if v == "fill"@ {
            Ok(ResizeMode::Fill)
        } else if v == "fit"@ {
            Ok(ResizeMode::Fit)
        } else {
            Err(invalid("bad mode: "@ + v))
        },
    }
}

pub open spec fn interp_arg(ps: Params) -> Result<Interpolation, ErrModel> {
    match lookup(ps, "i"@) {
        None => Ok(Interpolation::Auto),
        Some(v) => match interpolation_named(lower_seq(v)) {
            Some(i) => Ok(i),
            None => Err(invalid("invalid interpolation: "@ + lower_seq(v))),
        },
    }
}

pub open spec fn seg_resize(ps: Params) -> SegModel {
    match u32_arg(ps, "w"@) {
        Err(e) => SegModel::Fail(e, Seq::empty()),
        Ok(w) => match u32_arg(ps, "h"@) {
            Err(e) => SegModel::Fail(e, Seq::empty()),
            Ok(h) => match mode_arg(ps) {
                Err(e) => SegModel::Fail(e, Seq::empty()),
                Ok(m) => match interp_arg(ps) {
                    Err(e) => SegModel::Fail(e, Seq::empty()),
                    Ok(i) => match resize_outcome(w, h, m, i) {
                        Ok(s) => SegModel::Op(OpModel::Resize(s)),
                        Err(msg) => fail(msg),
                    },
                },
            },
        },
    }
}

pub open spec fn seg_rotate(ps: Params) -> SegModel {
    match lookup(ps, "a"@) {
        None => fail("rotate needs a (angle)"@),
        Some(_) => {
            let a = arg_of(ps, "a"@);
            match lookup(ps, "bg"@) {
                None => SegModel::Op(OpModel::Rotate(a, Color { r: 0, g: 0, b: 0, a: 0 })),
                Some(bg) => match color_arg(bg) {
                    None => SegModel::Panic(seq![a]),
                    Some(Err(msg)) => SegModel::Fail(invalid(msg), seq![a]),
                    Some(Ok(c)) => SegModel::Op(OpModel::Rotate(a, c)),
                },
            }
        },
    }
}

/// A required `u32` parameter: its value, or the error to report.
pub open spec fn need_u32(ps: Params, key: Seq<char>, missing: Seq<char>) -> Result<u32, ErrModel> {
    match u32_arg(ps, key) {
        Err(e) => Err(e),
        Ok(None) => Err(invalid(missing)),
        Ok(Some(v)) => Ok(v),
    }
}

pub open spec fn need_i32(ps: Params, key: Seq<char>, missing: Seq<char>) -> Result<i32, ErrModel> {
    match i32_arg(ps, key) {
        Err(e) => Err(e),
        Ok(None) => Err(invalid(missing)),
        Ok(Some(v)) => Ok(v),
    }
}

pub open spec fn seg_crop(ps: Params) -> SegModel {
    match need_u32(ps, "x"@, "crop needs x"@) {
        Err(e) => SegModel::Fail(e, Seq::empty()),
        Ok(x) => match need_u32(ps, "y"@, "crop needs y"@) {
            Err(e) => SegModel::Fail(e, Seq::empty()),
            Ok(y) => match need_u32(ps, "w"@, "crop needs w"@) {
                Err(e) => SegModel::Fail(e, Seq::empty()),
                Ok(w) => match need_u32(ps, "h"@, "crop needs h"@) {
                    Err(e) => SegModel::Fail(e, Seq::empty()),
                    Ok(h) => if w == 0 || h == 0 {
                        fail("rect dimensions must be > 0"@)
                    } else {
                        SegModel::Op(
                            OpModel::Crop(CropSpec { rect: Rect { x, y, width: w, height: h } }),
                        )
                    },
                },
            },
        },
    }
}

/// A segment made of one required real-valued parameter.
pub open spec fn seg_real(ps: Params, key: Seq<char>, missing: Seq<char>, kind: int) -> SegModel {
    match lookup(ps, key) {
        None => fail(missing),
        Some(_) => {
            let a = arg_of(ps, key);
            SegModel::Op(
                if kind == 0 {
                    OpModel::Blur(a)
                } else if kind == 1 {
                    OpModel::Contrast(a)
                } else {
                    OpModel::Saturation(a)
                },
            )
        },
    }
}

pub open spec fn seg_sharpen(ps: Params) -> SegModel {
    match lookup(ps, "a"@) {
        None => fail("sharpen needs a"@),
        Some(_) => SegModel::Op(OpModel::Sharpen(arg_of(ps, "a"@), arg_of(ps, "r"@))),
    }
}

pub open spec fn seg_round(ps: Params) -> SegModel {
    match need_u32(ps, "r"@, "round needs r"@) {
        Err(e) => SegModel::Fail(e, Seq::empty()),
        Ok(r) => if r == 0 || r > 4096 {
            fail("round-corner radius out of range"@)
        } else {
            SegModel::Op(OpModel::RoundCorner(RoundCornerSpec { radius: r }))
        },
    }
}

pub open spec fn seg_brightness(ps: Params) -> SegModel {
    match need_i32(ps, "v"@, "brightness needs v"@) {
        Err(e) => SegModel::Fail(e, Seq::empty()),
        Ok(v) => if !(-255 <= v <= 255) {
            fail("brightness must be in [-255,255]"@)
        } else {
            SegModel::Op(OpModel::Brightness(BrightnessSpec { value: v }))
        },
    }
}

pub open spec fn seg_temperature(ps: Params) -> SegModel {
    match need_i32(ps, "v"@, "temperature needs v"@) {
        Err(e) => SegModel::Fail(e, Seq::empty()),
        Ok(v) => if !(-100 <= v <= 100) {
            fail("temperature must be in [-100,100]"@)
        } else {
            SegModel::Op(OpModel::Temperature(TemperatureSpec { value: v }))
        },
    }
}

/// The text watermark once the colour is known.
pub open spec fn seg_text_rest(ps: Params, t: Seq<char>, color: Color) -> SegModel {
    let size = arg_of(ps, "s"@);
    let pend = given(size);
    let position = match lookup(ps, "p"@) {
        None => Some(Anchor::BottomRight),
        Some(p) => anchor_short(p),
    };
    match position {
        None => SegModel::Fail(invalid("bad anchor: "@ + lookup(ps, "p"@).unwrap()), pend),
        Some(position) => match u32_arg(ps, "m"@) {
            Err(e) => SegModel::Fail(e, pend),
            Ok(m) => {
                let margin = match m {
                    Some(v) => v,
                    None => 16u32,
                };
                if t.len() == 0 {
                    SegModel::Fail(invalid("watermark text must not be empty"@), pend)
                } else {
                    SegModel::Op(
                        OpModel::WatermarkText(
                            TextModel {
                                text: t,
                                font: match lookup(ps, "f"@) {
                                    Some(f) => f,
                                    None => "default"@,
                                },
                                size,
                                color,
                                position,
                                margin,
                                shadow: is_flag_on(lookup(ps, "sh"@)),
                            },
                        ),
                    )
                }
            },
        },
    }
}

pub open spec fn seg_text(ps: Params) -> SegModel {
    match lookup(ps, "t"@) {
        None => fail("text needs t (text)"@),
        Some(t) => {
            let pend = given(arg_of(ps, "s"@));
            match lookup(ps, "c"@) {
                None => seg_text_rest(ps, t, Color { r: 255, g: 255, b: 255, a: 255 }),
                Some(c) => match color_arg(c) {
                    None => SegModel::Panic(pend),
                    Some(Err(msg)) => SegModel::Fail(invalid(msg), pend),
                    Some(Ok(col)) => seg_text_rest(ps, t, col),
                },
            }
        },
    }
}

pub open spec fn seg_output(ps: Params) -> SegModel {
    let format = match lookup(ps, "f"@) {
        None => Ok(None),
        Some(f) => match format_named(lower_seq(f)) {
            Some(x) => Ok(Some(x)),
            None => Err(ErrModel::Unsupported(lower_seq(f))),
        },
    };
    match format {
        Err(e) => SegModel::Fail(e, Seq::empty()),
        Ok(format) => {
            let compression = if is_flag_on(lookup(ps, "l"@)) {
                Ok(CompressionModel::Lossless)
            } else {
                match u32_arg(ps, "q"@) {
                    Err(e) => Err(e),
                    Ok(None) => Ok(CompressionModel::Lossy(DEFAULT_QUALITY)),
                    Ok(Some(q)) => {
                        let b = q as u8;
                        if b == 0 || b > 100 {
                            Err(invalid("quality must be in 1..=100"@))
                        } else {
                            Ok(CompressionModel::Lossy(b))
                        }
                    },
                }
            };
            match compression {
                Err(e) => SegModel::Fail(e, Seq::empty()),
                Ok(c) => SegModel::Output(
                    OutputModel {
                        format,
                        compression: c,
                        progressive: is_flag_on(lookup(ps, "p"@)),
                    },
                ),
            }
        },
    }
}

/// What one non-empty segment means.
#[verifier::opaque]
pub open spec fn seg_model(part: Seq<char>) -> SegModel {
    let toks = split_on(part, ',');
    let name = toks[0];
    let ps = params_fold(toks.drop_first());
    if name == "resize"@ {
        seg_resize(ps)
    } else if name == "rotate"@ {
        seg_rotate(ps)
    } else if name == "crop"@ {
        seg_crop(ps)
    } else if name == "blur"@ {
        seg_real(ps, "s"@, "blur needs s"@, 0)
    } else if name == "sharpen"@ {
        seg_sharpen(ps)
    } else if name == "round"@ {
        seg_round(ps)
    } else if name == "brightness"@ {
        seg_brightness(ps)
    } else if name == "contrast"@ {
        seg_real(ps, "v"@, "contrast needs v"@, 1)
    } else if name == "saturation"@ {
        seg_real(ps, "f"@, "saturation needs f"@, 2)
    } else if name == "temperature"@ {
        seg_temperature(ps)
    } else if name == "auto_orient"@ {
        SegModel::Op(OpModel::AutoOrient)
    } else if name == "text"@ {
        seg_text(ps)
    } else if name == "format"@ {
        seg_output(ps)
    } else {
        fail("unknown op: "@ + name)
    }
}

/// The meaning of a list of `/`-separated parts, empty parts skipped.
pub open spec fn dsl_fold(parts: Seq<Seq<char>>) -> DslModel
    decreases parts.len(),
{
    if parts.len() == 0 {
        DslModel::Parsed(Seq::empty(), default_output_model())
    } else {
        match dsl_fold(parts.drop_last()) {
            DslModel::Parsed(ops, out) => {
                let p = parts.last();
                if p.len() == 0 {
                    DslModel::Parsed(ops, out)
                } else {
                    match seg_model(p) {
                        SegModel::Op(o) => DslModel::Parsed(ops.push(o), out),
                        SegModel::Output(o) => DslModel::Parsed(ops, o),
                        SegModel::Fail(e, pend) => DslModel::Fail(e, ops, pend),
                        SegModel::Panic(pend) => DslModel::Panic(ops, pend),
                    }
                }
            },
            other => other,
        }
    }
}

/// The meaning of a DSL string.
pub open spec fn dsl_model(input: Seq<char>) -> DslModel {
    dsl_fold(split_on(input, '/'))
}

pub open spec fn dsl_panics(input: Seq<char>) -> bool {
    dsl_model(input) is Panic
}

// ─── execution ───────────────────────────────────────────────────────────────

pub open spec fn strs_view(v: Seq<&str>) -> Seq<Seq<char>> {
    v.map_values(|t: &str| t@)
}

pub open spec fn pairs_view(v: Seq<(&str, &str)>) -> Params {
    v.map_values(|p: (&str, &str)| (p.0@, p.1@))
}

fn pairs_of<'a>(toks: &Vec<&'a str>) -> (r: Vec<(&'a str, &'a str)>)
    requires
        toks@.len() >= 1,
    ensures
        pairs_view(r@) == params_fold(strs_view(toks@).drop_first()),
{
    let mut out: Vec<(&'a str, &'a str)> = Vec::new();
    let mut i: usize = 1;
    while i < toks.len()
        invariant
            1 <= i <= toks@.len(),
            pairs_view(out@) == params_fold(strs_view(toks@).subrange(1, i as int)),
        decreases toks@.len() - i,
    {
        let t = toks[i];
        proof {
            let ts = strs_view(toks@).subrange(1, i + 1);
            assert(ts.drop_last() =~= strs_view(toks@).subrange(1, i as int));
            assert(ts.last() == t@);
        }
        if t.unicode_len() != 0 {
            let kv = split_once_or_all(t, '_');
            out.push(kv);
            proof {
                assert(pairs_view(out@) =~= pairs_view(out@.drop_last()).push((kv.0@, kv.1@)));
            }
        }
        i = i + 1;
    }
    proof {
        assert(strs_view(toks@).subrange(1, toks@.len() as int) =~= strs_view(toks@).drop_first());
    }
    out
}

fn get<'a>(ps: &Vec<(&'a str, &'a str)>, key: &str) -> (r: Option<&'a str>)
    ensures
        match lookup(pairs_view(ps@), key@) {
            Some(v) => r matches Some(x) && x@ == v,
            None => r is None,
        },
{
    let mut i: usize = ps.len();
    proof {
        assert(ps@.subrange(0, i as int) =~= ps@);
    }
    while i > 0
        invariant
            i <= ps@.len(),
            lookup(pairs_view(ps@), key@) == lookup(pairs_view(ps@.subrange(0, i as int)), key@),
        decreases i,
    {
        proof {
            assert(pairs_view(ps@.subrange(0, i as int)).drop_last() =~= pairs_view(
                ps@.subrange(0, i - 1),
            ));
        }
        i = i - 1;
        let (k, v) = ps[i];
        if str_eq(k, key) {
            return Some(v);
        }
    }
    proof {
        assert(pairs_view(ps@.subrange(0, 0)) =~= Seq::<(Seq<char>, Seq<char>)>::empty());
    }
    None
}

fn get_u32(ps: &Vec<(&str, &str)>, key: &'static str) -> (r: Result<Option<u32>, DomainError>)
    ensures
        same_result(r, u32_arg(pairs_view(ps@), key@)),
{
    match get(ps, key) {
        None => Ok(None),
        Some(v) => match parse_u32(v) {
            Some(n) => Ok(Some(n)),
            None => Err(DomainError::invalid(join2("bad ", key))),
        },
    }
}

fn get_i32(ps: &Vec<(&str, &str)>, key: &'static str) -> (r: Result<Option<i32>, DomainError>)
    ensures
        same_result(r, i32_arg(pairs_view(ps@), key@)),
{
    match get(ps, key) {
        None => Ok(None),
        Some(v) => match parse_i32(v) {
            Some(n) => Ok(Some(n)),
            None => Err(DomainError::invalid(join2("bad ", key))),
        },
    }
}

fn need_u32_exec(ps: &Vec<(&str, &str)>, key: &'static str, missing: &'static str) -> (r: Result<
    u32,
    DomainError,
>)
    ensures
        same_result(r, need_u32(pairs_view(ps@), key@, missing@)),
{
    match get_u32(ps, key) {
        Err(e) => Err(e),
        Ok(None) => Err(DomainError::invalid(owned(missing))),
        Ok(Some(v)) => Ok(v),
    }
}

fn need_i32_exec(ps: &Vec<(&str, &str)>, key: &'static str, missing: &'static str) -> (r: Result<
    i32,
    DomainError,
>)
    ensures
        same_result(r, need_i32(pairs_view(ps@), key@, missing@)),
{
    match get_i32(ps, key) {
        Err(e) => Err(e),
        Ok(None) => Err(DomainError::invalid(owned(missing))),
        Ok(Some(v)) => Ok(v),
    }
}

fn real_arg(ps: &Vec<(&str, &str)>, key: &'static str) -> (r: RealArg)
    ensures
        arg_model(r) == arg_of(pairs_view(ps@), key@),
{
    let text = match get(ps, key) {
        Some(v) => Some(owned(v)),
        None => None,
    };
    RealArg { key, text }
}

fn flag_on(v: Option<&str>) -> (r: bool)
    ensures
        r == is_flag_on(
            match v {
                Some(x) => Some(x@),
                None => None,
            },
        ),
{
    proof {
        reveal_strlit("1");
        reveal_strlit("true");
    }
    match v {
        Some(x) => str_eq(x, "1") || str_eq(x, "true"),
        None => false,
    }
}

pub fn parse_anchor_short(s: &str) -> (r: Option<Anchor>)
    ensures
        r == anchor_short(s@),
{
    if str_eq(s, "tl") {
        Some(Anchor::TopLeft)
    } else if str_eq(s, "t") {
        Some(Anchor::Top)
    } else if str_eq(s, "tr") {
        Some(Anchor::TopRight)
    } else if str_eq(s, "l") {
        Some(Anchor::Left)
    } else if str_eq(s, "c") {
        Some(Anchor::Center)
    } else if str_eq(s, "r") {
        Some(Anchor::Right)
    } else if str_eq(s, "bl") {
        Some(Anchor::BottomLeft)
    } else if str_eq(s, "b") {
        Some(Anchor::Bottom)
    } else if str_eq(s, "br") {
        Some(Anchor::BottomRight)
    } else {
        None
    }
}

/// The outcome of one segment.
enum Seg {
    Op(DslOp),
    Output(OutputSpec),
    Fail(DomainError, Vec<RealArg>),
    Panic(Vec<RealArg>),
}

spec fn seg_view(s: Seg) -> SegModel {
    match s {
        Seg::Op(o) => SegModel::Op(op_model(o)),
        Seg::Output(o) => SegModel::Output(output_model(o)),
        Seg::Fail(e, p) => SegModel::Fail(err_model(e), args_model(p@)),
        Seg::Panic(p) => SegModel::Panic(args_model(p@)),
    }
}

fn no_args() -> (r: Vec<RealArg>)
    ensures
        args_model(r@) == Seq::<ArgModel>::empty(),
{
    let r = Vec::new();
    proof {
        assert(args_model(r@) =~= Seq::<ArgModel>::empty());
    }
    r
}

fn one_arg(a: RealArg) -> (r: Vec<RealArg>)
    ensures
        args_model(r@) == seq![arg_model(a)],
{
    let mut r = Vec::new();
    r.push(a);
    proof {
        assert(args_model(r@) =~= seq![arg_model(a)]);
    }
    r
}

fn fail_seg(e: DomainError) -> (r: Seg)
    ensures
        seg_view(r) == SegModel::Fail(err_model(e), Seq::empty()),
{
    Seg::Fail(e, no_args())
}

fn parse_resize(ps: &Vec<(&str, &str)>) -> (r: Seg)
    ensures
        seg_view(r) == seg_resize(pairs_view(ps@)),
{
    let width = match get_u32(ps, "w") {
        Ok(v) => v,
        Err(e) => return fail_seg(e),
    };
    let height = match get_u32(ps, "h") {
        Ok(v) => v,
        Err(e) => return fail_seg(e),
    };
    let mode = match get(ps, "m") {
        None => ResizeMode::Fit,
        Some(m) => if str_eq(m, "exact") {
            ResizeMode::Exact
        } else if str_eq(m, "fill") {
            ResizeMode::Fill
        } else if str_eq(m, "fit") {
            ResizeMode::Fit
        } else {
            return fail_seg(DomainError::invalid(join2("bad mode: ", m)));
        },
    };
    let interpolation = match get(ps, "i") {
        None => Interpolation::Auto,
        Some(i) => match Interpolation::parse(i) {
            Ok(v) => v,
            Err(e) => return fail_seg(e),
        },
    };
    match ResizeSpec::with_interpolation(width, height, mode, interpolation) {
        Ok(spec) => Seg::Op(Op::Resize(spec)),
        Err(e) => fail_seg(e),
    }
}

fn parse_rotate(ps: &Vec<(&str, &str)>) -> (r: Seg)
    ensures
        seg_view(r) == seg_rotate(pairs_view(ps@)),
{
    if get(ps, "a").is_none() {
        return fail_seg(DomainError::invalid(owned("rotate needs a (angle)")));
    }
    let background = match get(ps, "bg") {
        None => Color::rgba(0, 0, 0, 0),
        Some(bg) => match Color::parse_hex_checked(bg) {
            None => return Seg::Panic(one_arg(real_arg(ps, "a"))),
            Some(Err(e)) => return Seg::Fail(e, one_arg(real_arg(ps, "a"))),
            Some(Ok(c)) => c,
        },
    };
    Seg::Op(Op::Rotate(RotateSpec::new(real_arg(ps, "a"), background)))
}

fn parse_crop(ps: &Vec<(&str, &str)>) -> (r: Seg)
    ensures
        seg_view(r) == seg_crop(pairs_view(ps@)),
{
    let x = match need_u32_exec(ps, "x", "crop needs x") {
        Ok(v) => v,
        Err(e) => return fail_seg(e),
    };
    let y = match need_u32_exec(ps, "y", "crop needs y") {
        Ok(v) => v,
        Err(e) => return fail_seg(e),
    };
    let w = match need_u32_exec(ps, "w", "crop needs w") {
        Ok(v) => v,
        Err(e) => return fail_seg(e),
    };
    let h = match need_u32_exec(ps, "h", "crop needs h") {
        Ok(v) => v,
        Err(e) => return fail_seg(e),
    };
    match Rect::new(x, y, w, h) {
        Ok(rect) => Seg::Op(Op::Crop(CropSpec::new(rect))),
        Err(e) => fail_seg(e),
    }
}

fn parse_real(ps: &Vec<(&str, &str)>, key: &'static str, missing: &'static str, kind: u8) -> (r:
    Seg)
    requires
        kind <= 2,
    ensures
        seg_view(r) == seg_real(pairs_view(ps@), key@, missing@, kind as int),
{
    if get(ps, key).is_none() {
        return fail_seg(DomainError::invalid(owned(missing)));
    }
    let a = real_arg(ps, key);
    if kind == 0 {
        Seg::Op(Op::Blur(BlurSpec { sigma: a }))
    } else if kind == 1 {
        Seg::Op(Op::Contrast(ContrastSpec { value: a }))
    } else {
        Seg::Op(Op::Saturation(SaturationSpec { factor: a }))
    }
}

fn parse_sharpen(ps: &Vec<(&str, &str)>) -> (r: Seg)
    ensures
        seg_view(r) == seg_sharpen(pairs_view(ps@)),
{
    if get(ps, "a").is_none() {
        return fail_seg(DomainError::invalid(owned("sharpen needs a")));
    }
    Seg::Op(Op::Sharpen(SharpenSpec { amount: real_arg(ps, "a"), radius: real_arg(ps, "r") }))
}

fn parse_round(ps: &Vec<(&str, &str)>) -> (r: Seg)
    ensures
        seg_view(r) == seg_round(pairs_view(ps@)),
{
    let radius = match need_u32_exec(ps, "r", "round needs r") {
        Ok(v) => v,
        Err(e) => return fail_seg(e),
    };
    match RoundCornerSpec::new(radius) {
        Ok(s) => Seg::Op(Op::RoundCorner(s)),
        Err(e) => fail_seg(e),
    }
}

fn parse_brightness(ps: &Vec<(&str, &str)>) -> (r: Seg)
    ensures
        seg_view(r) == seg_brightness(pairs_view(ps@)),
{
    let value = match need_i32_exec(ps, "v", "brightness needs v") {
        Ok(v) => v,
        Err(e) => return fail_seg(e),
    };
    match BrightnessSpec::new(value) {
        Ok(s) => Seg::Op(Op::Brightness(s)),
        Err(e) => fail_seg(e),
    }
}

fn parse_temperature(ps: &Vec<(&str, &str)>) -> (r: Seg)
    ensures
        seg_view(r) == seg_temperature(pairs_view(ps@)),
{
    let value = match need_i32_exec(ps, "v", "temperature needs v") {
        Ok(v) => v,
        Err(e) => return fail_seg(e),
    };
    match TemperatureSpec::new(value) {
        Ok(s) => Seg::Op(Op::Temperature(s)),
        Err(e) => fail_seg(e),
    }
}

/// The real-valued arguments of a text segment read before its colour.
fn text_pending(ps: &Vec<(&str, &str)>) -> (r: Vec<RealArg>)
    ensures
        args_model(r@) == given(arg_of(pairs_view(ps@), "s"@)),
{
    let s = real_arg(ps, "s");
    if s.text.is_some() {
        one_arg(s)
    } else {
        no_args()
    }
}

fn parse_text_rest(ps: &Vec<(&str, &str)>, t: &str, color: Color) -> (r: Seg)
    ensures
        seg_view(r) == seg_text_rest(pairs_view(ps@), t@, color),
{
    let position = match get(ps, "p") {
        None => Anchor::BottomRight,
        Some(p) => match parse_anchor_short(p) {
            Some(a) => a,
            None => return Seg::Fail(
                DomainError::invalid(join2("bad anchor: ", p)),
                text_pending(ps),
            ),
        },
    };
    let margin = match get_u32(ps, "m") {
        Ok(Some(v)) => v,
        Ok(None) => 16,
        Err(e) => return Seg::Fail(e, text_pending(ps)),
    };
    let shadow = flag_on(get(ps, "sh"));
    let font = match get(ps, "f") {
        Some(f) => owned(f),
        None => owned("default"),
    };
    let pending = text_pending(ps);
    match WatermarkTextSpec::new(owned(t), font, real_arg(ps, "s"), color, position, margin, shadow) {
        Ok(spec) => Seg::Op(Op::WatermarkText(spec)),
        Err(e) => Seg::Fail(e, pending),
    }
}

fn parse_text(ps: &Vec<(&str, &str)>) -> (r: Seg)
    ensures
        seg_view(r) == seg_text(pairs_view(ps@)),
{
    let t = match get(ps, "t") {
        Some(t) => t,
        None => return fail_seg(DomainError::invalid(owned("text needs t (text)"))),
    };
    match get(ps, "c") {
        None => parse_text_rest(ps, t, Color::white()),
        Some(c) => match Color::parse_hex_checked(c) {
            None => Seg::Panic(text_pending(ps)),
            Some(Err(e)) => Seg::Fail(e, text_pending(ps)),
            Some(Ok(col)) => parse_text_rest(ps, t, col),
        },
    }
}

fn parse_output(ps: &Vec<(&str, &str)>) -> (r: Seg)
    ensures
        seg_view(r) == seg_output(pairs_view(ps@)),
{
    let format = match get(ps, "f") {
        None => None,
        Some(f) => match ImageFormat::parse(f) {
            Ok(x) => Some(x),
            Err(e) => return fail_seg(e),
        },
    };
    let compression = if flag_on(get(ps, "l")) {
        Compression::Lossless
    } else {
        let quality = match get_u32(ps, "q") {
            Err(e) => return fail_seg(e),
            Ok(None) => Quality::default_quality(),
            Ok(Some(q)) => {
                #[verifier::truncate]
                let b = q as u8;
                match Quality::new(b) {
                    Ok(v) => v,
                    Err(e) => return fail_seg(e),
                }
            },
        };
        Compression::Lossy(quality)
    };
    let progressive = flag_on(get(ps, "p"));
    Seg::Output(OutputSpec::new(format, compression, progressive))
}

fn parse_segment(part: &str) -> (r: Seg)
    requires
        part@.len() > 0,
    ensures
        seg_view(r) == seg_model(part@),
{
    let toks = split_char(part, ',');
    proof {
        reveal(seg_model);
        crate::text::lemma_split_on_nonempty(part@, ',');
        assert(strs_view(toks@) =~= split_on(part@, ','));
    }
    let name = toks[0];
    let ps = pairs_of(&toks);
    if str_eq(name, "resize") {
        parse_resize(&ps)
    } else if str_eq(name, "rotate") {
        parse_rotate(&ps)
    } else if str_eq(name, "crop") {
        parse_crop(&ps)
    } else if str_eq(name, "blur") {
        parse_real(&ps, "s", "blur needs s", 0)
    } else if str_eq(name, "sharpen") {
        parse_sharpen(&ps)
    } else if str_eq(name, "round") {
        parse_round(&ps)
    } else if str_eq(name, "brightness") {
        parse_brightness(&ps)
    } else if str_eq(name, "contrast") {
        parse_real(&ps, "v", "contrast needs v", 1)
    } else if str_eq(name, "saturation") {
        parse_real(&ps, "f", "saturation needs f", 2)
    } else if str_eq(name, "temperature") {
        parse_temperature(&ps)
    } else if str_eq(name, "auto_orient") {
        Seg::Op(Op::AutoOrient)
    } else if str_eq(name, "text") {
        parse_text(&ps)
    } else if str_eq(name, "format") {
        parse_output(&ps)
    } else {
        fail_seg(DomainError::invalid(join2("unknown op: ", name)))
    }
}

/// Once a prefix of the parts fails, the rest of the parts change nothing.
proof fn lemma_fold_stops(parts: Seq<Seq<char>>, k: int, j: int)
    requires
        0 <= k <= j <= parts.len(),
        !(dsl_fold(parts.subrange(0, k)) is Parsed),
    ensures
        dsl_fold(parts.subrange(0, j)) == dsl_fold(parts.subrange(0, k)),
    decreases j,
{
    if j > k {
        lemma_fold_stops(parts, k, j - 1);
        assert(parts.subrange(0, j).drop_last() =~= parts.subrange(0, j - 1));
    }
}

/// The model of a parse result.
pub open spec fn dsl_view(r: Result<(Vec<DslOp>, OutputSpec), DslError>) -> DslModel {
    match r {
        Ok((ops, out)) => DslModel::Parsed(ops_model(ops@), output_model(out)),
        Err(e) => match e.fault {
            DslFault::Rejected(x) => DslModel::Fail(
                err_model(x),
                ops_model(e.parsed@),
                args_model(e.pending@),
            ),
            DslFault::SliceOutOfBounds => DslModel::Panic(
                ops_model(e.parsed@),
                args_model(e.pending@),
            ),
        },
    }
}

/// Parses a DSL string, on every input: a colour argument that the byte
/// slicing of `Color::parse_hex` panics on is reported as `SliceOutOfBounds`.
pub fn parse_checked(input: &str) -> (r: Result<(Vec<DslOp>, OutputSpec), DslError>)
    ensures
        dsl_view(r) == dsl_model(input@),
{
    let parts = split_char(input, '/');
    let ghost pv = split_on(input@, '/');
    proof {
        assert(strs_view(parts@) =~= pv);
    }
    let mut ops: Vec<DslOp> = Vec::new();
    let mut output = OutputSpec::default_spec();
    let mut i: usize = 0;
    proof {
        assert(pv.subrange(0, 0) =~= Seq::<Seq<char>>::empty());
        assert(ops_model(ops@) =~= Seq::<OpModel>::empty());
    }
    while i < parts.len()
        invariant
            i <= parts@.len(),
            strs_view(parts@) == pv,
            pv == split_on(input@, '/'),
            dsl_fold(pv.subrange(0, i as int)) == DslModel::Parsed(
                ops_model(ops@),
                output_model(output),
            ),
        decreases parts@.len() - i,
    {
        let part = parts[i];
        proof {
            assert(pv.subrange(0, i + 1).drop_last() =~= pv.subrange(0, i as int));
            assert(pv.subrange(0, i + 1).last() == part@);
        }
        if part.unicode_len() != 0 {
            match parse_segment(part) {
                Seg::Op(o) => {
                    let ghost before = ops@;
                    ops.push(o);
                    proof {
                        assert(ops_model(ops@) =~= ops_model(before).push(op_model(o)));
                    }
                },
                Seg::Output(o) => {
                    output = o;
                },
                Seg::Fail(e, pending) => {
                    proof {
                        lemma_fold_stops(pv, i + 1, pv.len() as int);
                        assert(pv.subrange(0, pv.len() as int) =~= pv);
                    }
                    return Err(DslError { fault: DslFault::Rejected(e), parsed: ops, pending });
                },
                Seg::Panic(pending) => {
                    proof {
                        lemma_fold_stops(pv, i + 1, pv.len() as int);
                        assert(pv.subrange(0, pv.len() as int) =~= pv);
                    }
                    return Err(DslError { fault: DslFault::SliceOutOfBounds, parsed: ops, pending });
                },
            }
        }
        i = i + 1;
    }
    proof {
        assert(pv.subrange(0, parts@.len() as int) =~= pv);
    }
    Ok((ops, output))
}

/// Parses a DSL string into its ops and output specification.
pub fn parse(input: &str) -> (r: Result<(Vec<DslOp>, OutputSpec), DomainError>)
    requires
        !dsl_panics(input@),
    ensures
        match dsl_model(input@) {
            DslModel::Parsed(ops, out) => r matches Ok((v, o)) && ops_model(v@) == ops
                && output_model(o) == out,
            DslModel::Fail(e, _, _) => r matches Err(x) && err_model(x) == e,
            DslModel::Panic(_, _) => false,
        },
{
    match parse_checked(input) {
        Ok(v) => Ok(v),
        Err(e) => match e.fault {
            DslFault::Rejected(x) => Err(x),
            DslFault::SliceOutOfBounds => Err(DomainError::Internal(String::new())),
        },
    }
}

// ─── laws ────────────────────────────────────────────────────────────────────

proof fn lemma_split_leading_sep(s: Seq<char>, sep: char)
    ensures
        split_on(seq![sep] + s, sep) == seq![Seq::<char>::empty()] + split_on(s, sep),
    decreases s.len(),
{
    let t = seq![sep] + s;
    if s.len() == 0 {
        assert(t =~= seq![sep]);
        let e = Seq::<char>::empty();
        assert(t.drop_last() =~= e);
        assert(s =~= e);
        assert(split_on(e, sep) == seq![e]);
        assert(split_on(t.drop_last(), sep) == seq![e]);
        assert(t.last() == sep);
        assert(split_on(t, sep) == seq![e].push(e));
        assert(seq![e].push(e) =~= seq![e] + seq![e]);
    } else {
        assert(t.drop_last() =~= seq![sep] + s.drop_last());
        lemma_split_leading_sep(s.drop_last(), sep);
        crate::text::lemma_split_on_nonempty(s.drop_last(), sep);
        let p = split_on(s.drop_last(), sep);
        let e = Seq::<char>::empty();
        let big = seq![e] + p;
        assert(t.last() == s.last());
        assert(split_on(t.drop_last(), sep) == big);
        if s.last() == sep {
            assert(big.push(e) =~= seq![e] + p.push(e));
        } else {
            assert(big.last() == p.last());
            assert(big.drop_last() =~= seq![e] + p.drop_last());
            assert(big.drop_last().push(big.last().push(s.last())) =~= seq![e] + p.drop_last().push(
                p.last().push(s.last()),
            ));
        }
        assert(split_on(t, sep) =~= seq![Seq::<char>::empty()] + split_on(s, sep));
    }
}

proof fn lemma_fold_leading_empty(parts: Seq<Seq<char>>)
    ensures
        dsl_fold(seq![Seq::<char>::empty()] + parts) == dsl_fold(parts),
    decreases parts.len(),
{
    let t = seq![Seq::<char>::empty()] + parts;
    if parts.len() == 0 {
        assert(t.drop_last() =~= Seq::<Seq<char>>::empty());
        assert(t.last().len() == 0);
        assert(dsl_fold(t.drop_last()) == dsl_fold(parts));
    } else {
        assert(t.drop_last() =~= seq![Seq::<char>::empty()] + parts.drop_last());
        lemma_fold_leading_empty(parts.drop_last());
        assert(t.last() == parts.last());
        assert(dsl_fold(t.drop_last()) == dsl_fold(parts.drop_last()));
    }
}

/// One leading or trailing slash does not change what a DSL string means.
proof fn lemma_outer_slash(s: Seq<char>)
    ensures
        dsl_model(seq!['/'] + s) == dsl_model(s),
        dsl_model(s.push('/')) == dsl_model(s),
{
    lemma_split_leading_sep(s, '/');
    lemma_fold_leading_empty(split_on(s, '/'));
    assert(s.push('/').drop_last() =~= s);
    let q = split_on(s, '/').push(Seq::<char>::empty());
    assert(q.drop_last() =~= split_on(s, '/'));
}

/// Leading and trailing slashes do not change what a DSL string means: the
/// string with them trimmed (as `normalize_dsl` does) parses the same.
pub proof fn dsl_ignores_outer_slashes(s: Seq<char>)
    ensures
        dsl_model(trim_both(s, true)) == dsl_model(s),
{
    lemma_trim_start_keeps(s);
    lemma_trim_end_keeps(crate::text::trim_start(s, true));
}

proof fn lemma_trim_start_keeps(s: Seq<char>)
    ensures
        dsl_model(crate::text::trim_start(s, true)) == dsl_model(s),
    decreases s.len(),
{
    if s.len() > 0 && s[0] == '/' {
        lemma_trim_start_keeps(s.drop_first());
        assert(seq!['/'] + s.drop_first() =~= s);
        lemma_outer_slash(s.drop_first());
    }
}

proof fn lemma_trim_end_keeps(s: Seq<char>)
    ensures
        dsl_model(crate::text::trim_end(s, true)) == dsl_model(s),
    decreases s.len(),
{
    if s.len() > 0 && s.last() == '/' {
        lemma_trim_end_keeps(s.drop_last());
        assert(s.drop_last().push('/') =~= s);
        lemma_outer_slash(s.drop_last());
    }
}


/// Whether a `/`-separated part is a `format` segment: non-empty, with the
/// name `format` before its first comma.
pub open spec fn is_format_part(part: Seq<char>) -> bool {
    part.len() > 0 && split_on(part, ',')[0] == "format"@
}

/// Whether some part of a DSL string is a `format` segment.
pub open spec fn has_format(input: Seq<char>) -> bool {
    parts_have_format(split_on(input, '/'))
}

pub open spec fn parts_have_format(parts: Seq<Seq<char>>) -> bool {
    exists|i: int| 0 <= i < parts.len() && #[trigger] is_format_part(parts[i])
}

/// What the DSL string `a/b` means, from what `a` and `b` mean: the ops of
/// both in order, and the output of `b` when `b` has a `format` segment,
/// else that of `a`; a failure of `a` is that of the whole, and a failure of
/// `b` comes after all the ops of `a`.
pub open spec fn dsl_join(ma: DslModel, mb: DslModel, b_has_format: bool) -> DslModel {
    match ma {
        DslModel::Parsed(o1, out1) => match mb {
            DslModel::Parsed(o2, out2) => DslModel::Parsed(
                o1 + o2,
                if b_has_format {
                    out2
                } else {
                    out1
                },
            ),
            DslModel::Fail(e, o2, pend) => DslModel::Fail(e, o1 + o2, pend),
            DslModel::Panic(o2, pend) => DslModel::Panic(o1 + o2, pend),
        },
        other => other,
    }
}

proof fn lemma_split_join(a: Seq<char>, b: Seq<char>, sep: char)
    ensures
        split_on(a + seq![sep] + b, sep) == split_on(a, sep) + split_on(b, sep),
    decreases b.len(),
{
    let t = a + seq![sep] + b;
    if b.len() == 0 {
        assert(t =~= a.push(sep));
        assert(t.drop_last() =~= a);
        assert(split_on(a, sep).push(Seq::<char>::empty()) =~= split_on(a, sep) + split_on(b, sep));
    } else {
        let b1 = b.drop_last();
        assert(t.drop_last() =~= a + seq![sep] + b1);
        lemma_split_join(a, b1, sep);
        crate::text::lemma_split_on_nonempty(b1, sep);
        let pa = split_on(a, sep);
        let q = split_on(b1, sep);
        assert(t.last() == b.last());
        if b.last() == sep {
            assert((pa + q).push(Seq::<char>::empty()) =~= pa + q.push(Seq::<char>::empty()));
        } else {
            let c = b.last();
            assert((pa + q).last() == q.last());
            assert((pa + q).drop_last() =~= pa + q.drop_last());
            assert((pa + q).drop_last().push((pa + q).last().push(c)) =~= pa + q.drop_last().push(
                q.last().push(c),
            ));
        }
    }
}

/// A non-empty segment is read as an output specification only when it is
/// a `format` segment, and as an op only when it is not.
proof fn lemma_seg_kind(part: Seq<char>)
    requires
        part.len() > 0,
    ensures
        seg_model(part) is Output ==> is_format_part(part),
        seg_model(part) is Op ==> !is_format_part(part),
{
    reveal(seg_model);
    let toks = split_on(part, ',');
    let ps = params_fold(toks.drop_first());
    assert(!(seg_output(ps) is Op));
    if is_format_part(part) {
        reveal_strlit("format");
        assert("format"@[0] == 'f');
        reveal_strlit("resize");
        assert("resize"@[0] == 'r');
        reveal_strlit("rotate");
        assert("rotate"@[0] == 'r');
        reveal_strlit("crop");
        assert("crop"@[0] == 'c');
        reveal_strlit("blur");
        assert("blur"@[0] == 'b');
        reveal_strlit("sharpen");
        assert("sharpen"@[0] == 's');
        reveal_strlit("round");
        assert("round"@[0] == 'r');
        reveal_strlit("brightness");
        assert("brightness"@[0] == 'b');
        reveal_strlit("contrast");
        assert("contrast"@[0] == 'c');
        reveal_strlit("saturation");
        assert("saturation"@[0] == 's');
        reveal_strlit("temperature");
        assert("temperature"@[0] == 't');
        reveal_strlit("auto_orient");
        assert("auto_orient"@[0] == 'a');
        reveal_strlit("text");
        assert("text"@[0] == 't');
        assert(toks[0][0] == 'f');
    }
}

proof fn lemma_fold_join(p: Seq<Seq<char>>, q: Seq<Seq<char>>)
    ensures
        dsl_fold(p + q) == dsl_join(dsl_fold(p), dsl_fold(q), parts_have_format(q)),
    decreases q.len(),
{
    if q.len() == 0 {
        assert(p + q =~= p);
        if let DslModel::Parsed(o1, out1) = dsl_fold(p) {
            assert(o1 + Seq::<OpModel>::empty() =~= o1);
        }
    } else {
        let q1 = q.drop_last();
        let l = q.last();
        assert((p + q).drop_last() =~= p + q1);
        assert((p + q).last() == l);
        lemma_fold_join(p, q1);
        assert(parts_have_format(q) <==> parts_have_format(q1) || is_format_part(l)) by {
            if parts_have_format(q1) {
                let i = choose|i: int| 0 <= i < q1.len() && #[trigger] is_format_part(q1[i]);
                assert(q[i] == q1[i]);
            }
            if is_format_part(l) {
                assert(q[q.len() - 1] == l);
            }
            if parts_have_format(q) {
                let i = choose|i: int| 0 <= i < q.len() && #[trigger] is_format_part(q[i]);
                if i < q.len() - 1 {
                    assert(q1[i] == q[i]);
                }
            }
        }
        if l.len() > 0 {
            lemma_seg_kind(l);
            if let DslModel::Parsed(o1, out1) = dsl_fold(p) {
                if let DslModel::Parsed(o2, out2) = dsl_fold(q1) {
                    if let SegModel::Op(o) = seg_model(l) {
                        assert((o1 + o2).push(o) =~= o1 + o2.push(o));
                    }
                }
            }
        }
    }
}

/// Joining two DSL strings with a slash joins what they mean: `a/b` parses
/// exactly when `a` and `b` both do, into the ops of `a` followed by those
/// of `b`, with the output of `b` if `b` has a `format` segment and that of
/// `a` otherwise. A failure in `a` is the failure of `a/b`; one in `b` comes
/// after all the ops of `a`.
pub proof fn dsl_join_law(a: Seq<char>, b: Seq<char>)
    ensures
        dsl_model(a + seq!['/'] + b) == dsl_join(dsl_model(a), dsl_model(b), has_format(b)),
        dsl_model(a + seq!['/'] + b) is Parsed <==> dsl_model(a) is Parsed && dsl_model(b) is Parsed,
{
    lemma_split_join(a, b, '/');
    lemma_fold_join(split_on(a, '/'), split_on(b, '/'));
}


proof fn lemma_split_without_sep(s: Seq<char>, sep: char)
    requires
        forall|i: int| 0 <= i < s.len() ==> s[i] != sep,
    ensures
        split_on(s, sep) == seq![s],
    decreases s.len(),
{
    if s.len() == 0 {
        assert(s =~= Seq::<char>::empty());
    } else {
        let s1 = s.drop_last();
        assert forall|i: int| 0 <= i < s1.len() implies s1[i] != sep by {
            assert(s1[i] == s[i]);
        }
        lemma_split_without_sep(s1, sep);
        assert(s[s.len() - 1] != sep);
        assert(s1.push(s.last()) =~= s);
        assert(seq![s1].drop_last().push(seq![s1].last().push(s.last())) =~= seq![s]);
    }
}

/// A DSL text of one non-empty segment means what that segment means.
proof fn lemma_single_segment(part: Seq<char>)
    requires
        part.len() > 0,
        forall|i: int| 0 <= i < part.len() ==> part[i] != '/',
    ensures
        dsl_model(part) == match seg_model(part) {
            SegModel::Op(o) => DslModel::Parsed(seq![o], default_output_model()),
            SegModel::Output(o) => DslModel::Parsed(Seq::empty(), o),
            SegModel::Fail(e, pend) => DslModel::Fail(e, Seq::empty(), pend),
            SegModel::Panic(pend) => DslModel::Panic(Seq::empty(), pend),
        },
{
    lemma_split_without_sep(part, '/');
    let parts = seq![part];
    assert(parts.drop_last() =~= Seq::<Seq<char>>::empty());
    assert(parts.last() == part);
    reveal_with_fuel(dsl_fold, 2);
    if let SegModel::Op(o) = seg_model(part) {
        assert(Seq::<OpModel>::empty().push(o) =~= seq![o]);
    }
}

/// A DSL text of one `resize` segment resizes as its parameters say: `w`
/// and `h` are the width and height, and the mode is the one named by `m`
/// (`exact`, `fill` or `fit`; `fit` when `m` is left out), the
/// interpolation the one named by `i` (`auto` when left out). Any other
/// mode name is refused.
pub proof fn resize_follows_its_parameters(part: Seq<char>)
    requires
        part.len() > 0,
        forall|i: int| 0 <= i < part.len() ==> part[i] != '/',
        split_on(part, ',')[0] == "resize"@,
    ensures
        ({
            let ps = params_fold(split_on(part, ',').drop_first());
            &&& dsl_model(part) matches DslModel::Parsed(ops, out) ==> {
                &&& out == default_output_model()
                &&& ops.len() == 1
                &&& ops[0] matches OpModel::Resize(r) && {
                    &&& u32_arg(ps, "w"@) == Ok::<Option<u32>, ErrModel>(r.width)
                    &&& u32_arg(ps, "h"@) == Ok::<Option<u32>, ErrModel>(r.height)
                    &&& lookup(ps, "m"@) is None ==> r.mode == ResizeMode::Fit
                    &&& lookup(ps, "m"@) == Some("fit"@) ==> r.mode == ResizeMode::Fit
                    &&& lookup(ps, "m"@) == Some("fill"@) ==> r.mode == ResizeMode::Fill
                    &&& lookup(ps, "m"@) == Some("exact"@) ==> r.mode == ResizeMode::Exact
                    &&& lookup(ps, "i"@) is None ==> r.interpolation == Interpolation::Auto
                    &&& lookup(ps, "i"@) matches Some(v) ==> interpolation_named(lower_seq(v))
                        == Some(r.interpolation)
                }
            }
            &&& (lookup(ps, "m"@) matches Some(v) && v != "exact"@ && v != "fill"@ && v != "fit"@)
                ==> !(dsl_model(part) is Parsed)
        }),
{
    reveal(seg_model);
    lemma_single_segment(part);
    let ps = params_fold(split_on(part, ',').drop_first());
    assert(seg_model(part) == seg_resize(ps));
    reveal_strlit("exact");
    reveal_strlit("fill");
    reveal_strlit("fit");
    assert("fill"@ != "exact"@ && "fit"@ != "exact"@ && "fit"@ != "fill"@) by {
        assert("fill"@[1] != "exact"@[1]);
        assert("fit"@.len() != "exact"@.len());
        assert("fit"@.len() != "fill"@.len());
    }
}

/// A DSL text of one `crop` segment crops the rectangle its parameters
/// give: `x` and `y` its top-left corner, `w` and `h` its width and height.
/// It parses when all four are given as numbers and the width and height
/// are not zero, and not when one of them is missing.
pub proof fn crop_follows_its_parameters(part: Seq<char>)
    requires
        part.len() > 0,
        forall|i: int| 0 <= i < part.len() ==> part[i] != '/',
        split_on(part, ',')[0] == "crop"@,
    ensures
        ({
            let ps = params_fold(split_on(part, ',').drop_first());
            &&& dsl_model(part) matches DslModel::Parsed(ops, out) ==> {
                &&& out == default_output_model()
                &&& ops.len() == 1
                &&& ops[0] matches OpModel::Crop(c) && {
                    &&& u32_arg(ps, "x"@) == Ok::<Option<u32>, ErrModel>(Some(c.rect.x))
                    &&& u32_arg(ps, "y"@) == Ok::<Option<u32>, ErrModel>(Some(c.rect.y))
                    &&& u32_arg(ps, "w"@) == Ok::<Option<u32>, ErrModel>(Some(c.rect.width))
                    &&& u32_arg(ps, "h"@) == Ok::<Option<u32>, ErrModel>(Some(c.rect.height))
                    &&& c.rect.width > 0 && c.rect.height > 0
                }
            }
            &&& (u32_arg(ps, "x"@) matches Ok(Some(_)) && u32_arg(ps, "y"@) matches Ok(Some(_))
                && u32_arg(ps, "w"@) matches Ok(Some(_)) && u32_arg(ps, "h"@) matches Ok(Some(_))
                && u32_arg(ps, "w"@) != Ok::<Option<u32>, ErrModel>(Some(0)) && u32_arg(ps, "h"@)
                != Ok::<Option<u32>, ErrModel>(Some(0))) ==> dsl_model(part) is Parsed
            &&& (lookup(ps, "x"@) is None || lookup(ps, "y"@) is None || lookup(ps, "w"@) is None
                || lookup(ps, "h"@) is None) ==> !(dsl_model(part) is Parsed)
        }),
{
    reveal(seg_model);
    lemma_single_segment(part);
    let ps = params_fold(split_on(part, ',').drop_first());
    reveal_strlit("crop");
    reveal_strlit("resize");
    reveal_strlit("rotate");
    assert("crop"@ != "resize"@ && "crop"@ != "rotate"@) by {
        assert("crop"@.len() != "resize"@.len());
    }
    assert(seg_model(part) == seg_crop(ps));
}

/// A DSL text of one `format` segment adds no op and sets the output:
/// `f` names the format (`jpg` or `jpeg`, `png`, `webp`, in any case;
/// the source format when left out); `l_1` or `l_true` asks for lossless
/// compression; otherwise `q` is the quality, 1 to 100, with the default
/// quality when left out; `p_1` or `p_true` asks for progressive output.
pub proof fn format_follows_its_parameters(part: Seq<char>)
    requires
        part.len() > 0,
        forall|i: int| 0 <= i < part.len() ==> part[i] != '/',
        split_on(part, ',')[0] == "format"@,
    ensures
        format_named("jpg"@) == Some(ImageFormat::Jpeg),
        format_named("jpeg"@) == Some(ImageFormat::Jpeg),
        format_named("png"@) == Some(ImageFormat::Png),
        format_named("webp"@) == Some(ImageFormat::WebP),
        forall|n: Seq<char>|
            #![trigger format_named(n)]
            format_named(n) is Some ==> n == "jpg"@ || n == "jpeg"@ || n == "png"@ || n == "webp"@,
        ({
            let ps = params_fold(split_on(part, ',').drop_first());
            let lossless = is_flag_on(lookup(ps, "l"@));
            &&& dsl_model(part) matches DslModel::Parsed(ops, out) ==> {
                &&& ops.len() == 0
                &&& lookup(ps, "f"@) is None ==> out.format is None
                &&& lookup(ps, "f"@) matches Some(v) ==> (out.format is Some && format_named(
                    lower_seq(v),
                ) == out.format)
                &&& lossless ==> out.compression == CompressionModel::Lossless
                &&& (!lossless && lookup(ps, "q"@) is None) ==> out.compression
                    == CompressionModel::Lossy(DEFAULT_QUALITY)
                &&& u32_arg(ps, "q"@) matches Ok(Some(q)) ==> ((!lossless && 1 <= q <= 100)
                    ==> out.compression == CompressionModel::Lossy(q as u8))
                &&& out.progressive == is_flag_on(lookup(ps, "p"@))
            }
            &&& (lookup(ps, "f"@) matches Some(v) && format_named(lower_seq(v)) is None) ==> !(
            dsl_model(part) is Parsed)
        }),
{
    reveal(seg_model);
    lemma_single_segment(part);
    let ps = params_fold(split_on(part, ',').drop_first());
    reveal_strlit("format");
    reveal_strlit("resize");
    reveal_strlit("rotate");
    reveal_strlit("crop");
    reveal_strlit("blur");
    reveal_strlit("sharpen");
    reveal_strlit("round");
    reveal_strlit("brightness");
    reveal_strlit("contrast");
    reveal_strlit("saturation");
    reveal_strlit("temperature");
    reveal_strlit("auto_orient");
    reveal_strlit("text");
    assert(split_on(part, ',')[0][0] == 'f');
    assert("resize"@[0] == 'r' && "rotate"@[0] == 'r' && "crop"@[0] == 'c' && "blur"@[0] == 'b');
    assert("sharpen"@[0] == 's' && "round"@[0] == 'r' && "brightness"@[0] == 'b');
    assert("contrast"@[0] == 'c' && "saturation"@[0] == 's' && "temperature"@[0] == 't');
    assert("auto_orient"@[0] == 'a' && "text"@[0] == 't');
    assert(seg_model(part) == seg_output(ps));
    reveal_strlit("jpg");
    reveal_strlit("jpeg");
    reveal_strlit("png");
    reveal_strlit("webp");
    assert("jpeg"@ != "jpg"@ && "png"@ != "jpg"@ && "png"@ != "jpeg"@ && "webp"@ != "jpg"@
        && "webp"@ != "jpeg"@ && "webp"@ != "png"@) by {
        assert("jpeg"@.len() != "jpg"@.len());
        assert("png"@[0] != "jpg"@[0]);
        assert("png"@.len() != "jpeg"@.len());
        assert("webp"@.len() != "jpg"@.len());
        assert("webp"@[0] != "jpeg"@[0]);
        assert("webp"@.len() != "png"@.len());
    }
}
} // verus!
