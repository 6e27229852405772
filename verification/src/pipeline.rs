//! Pipeline aggregate root: an ordered list of operations and the desired
//! output specification. All invariants between ops live in `Pipeline::new`.

use vstd::prelude::*;
use crate::error::{DomainError, fails_invalid, op_error};
use crate::ops::{Op, op_kind, op_kind_name};
use crate::value_objects::{ImageFormat, Quality, DEFAULT_QUALITY, format_has_alpha};

verus! {

/// How the output should be compressed.
///
/// A closed sum type rather than a `quality + lossless` pair, so that
/// "lossless with quality 30" cannot be expressed. `Pipeline::new` adds the
/// remaining cross-field rule: JPEG with `Lossless` is rejected.
#[derive(Debug, Clone, Copy, PartialEq, Eq, Structural)]
pub enum Compression {
    /// Lossy with the given quality factor (a no-op for PNG).
    Lossy(Quality),
    /// Lossless: always for PNG, through libwebp's lossless path for WebP.
    Lossless,
}

impl Default for Compression {
    fn default() -> (c: Self)
        ensures
            c matches Compression::Lossy(q) && q@ == DEFAULT_QUALITY,
    {
        Compression::Lossy(Quality::default_quality())
    }
}

/// Output specification: encoding format and compression.
#[derive(Debug, Clone, Copy, PartialEq, Eq, Structural)]
pub struct OutputSpec {
    /// `None` means "preserve input format".
    pub format: Option<ImageFormat>,
    pub compression: Compression,
    pub progressive: bool,
}

/// The output of an unconfigured request: input format kept, lossy at the
/// default quality, not progressive.
pub open spec fn is_default_output(o: OutputSpec) -> bool {
    &&& o.format is None
    &&& o.compression matches Compression::Lossy(q) && q@ == DEFAULT_QUALITY
    &&& !o.progressive
}

impl OutputSpec {
    pub fn new(format: Option<ImageFormat>, compression: Compression, progressive: bool) -> (o:
        Self)
        ensures
            o == (OutputSpec { format, compression, progressive }),
    {
        Self { format, compression, progressive }
    }

    /// Lossy with an explicit quality.
    pub fn lossy(format: Option<ImageFormat>, quality: Quality, progressive: bool) -> (o: Self)
        ensures
            o == (OutputSpec { format, compression: Compression::Lossy(quality), progressive }),
    {
        Self { format, compression: Compression::Lossy(quality), progressive }
    }

    pub fn default_spec() -> (o: Self)
        ensures
            is_default_output(o),
    {
        Self { format: None, compression: Compression::default(), progressive: false }
    }
}

impl Default for OutputSpec {
    fn default() -> (o: Self)
        ensures
            is_default_output(o),
    {
        Self::default_spec()
    }
}

/// Ops whose result carries an alpha channel.
pub open spec fn is_alpha_op<S, D>(op: Op<S, D>) -> bool {
    op is RoundCorner || op is WatermarkImage
}

pub open spec fn any_alpha_op<S, D>(ops: Seq<Op<S, D>>) -> bool {
    exists|i: int| 0 <= i < ops.len() && is_alpha_op(#[trigger] ops[i])
}

/// The output format is known not to carry alpha while some op produces it.
pub open spec fn alpha_conflict<S, D>(ops: Seq<Op<S, D>>, out: OutputSpec) -> bool {
    out.format matches Some(f) && !format_has_alpha(f) && any_alpha_op(ops)
}

/// Lossless compression was asked of JPEG.
pub open spec fn lossless_jpeg(out: OutputSpec) -> bool {
    out.format == Some(ImageFormat::Jpeg) && out.compression == Compression::Lossless
}

/// The invariant every pipeline keeps.
pub open spec fn pipeline_ok<S, D>(ops: Seq<Op<S, D>>, out: OutputSpec) -> bool {
    !alpha_conflict(ops, out) && !lossless_jpeg(out)
}

#[derive(Debug)]
pub struct Pipeline<S, D> {
    ops: Vec<Op<S, D>>,
    output: OutputSpec,
}

fn produces_alpha<S, D>(op: &Op<S, D>) -> (r: bool)
    ensures
        r == is_alpha_op(*op),
{
    matches!(op, Op::RoundCorner(_) | Op::WatermarkImage(_))
}

fn has_alpha_op<S, D>(ops: &Vec<Op<S, D>>) -> (r: bool)
    ensures
        r == any_alpha_op(ops@),
{
    let mut i: usize = 0;
    while i < ops.len()
        invariant
            i <= ops@.len(),
            forall|j: int| 0 <= j < i ==> !is_alpha_op(#[trigger] ops@[j]),
        decreases ops@.len() - i,
    {
        if produces_alpha(&ops[i]) {
            return true;
        }
        i = i + 1;
    }
    false
}

impl<S, D> Pipeline<S, D> {
    #[verifier::type_invariant]
    spec fn keeps_rules(self) -> bool {
        pipeline_ok(self.ops@, self.output)
    }

    pub closed spec fn spec_ops(self) -> Seq<Op<S, D>> {
        self.ops@
    }

    pub closed spec fn spec_output(self) -> OutputSpec {
        self.output
    }

    pub fn new(ops: Vec<Op<S, D>>, output: OutputSpec) -> (r: Result<Self, DomainError>)
        ensures
            alpha_conflict(ops@, output) ==> fails_invalid(
                r,
                "output format does not support alpha but pipeline contains alpha-producing ops (round_corner / watermark with alpha)"@,
            ),
            !alpha_conflict(ops@, output) && lossless_jpeg(output) ==> fails_invalid(
                r,
                "JPEG does not support lossless compression; use PNG or WebP lossless"@,
            ),
            pipeline_ok(ops@, output) ==> (r matches Ok(p) && p.spec_ops() == ops@
                && p.spec_output() == output),
    {
        if let Some(fmt) = output.format {
            if !fmt.supports_alpha() && has_alpha_op(&ops) {
                return Err(
                    DomainError::invalid(
                        String::from_str(
                            "output format does not support alpha but pipeline contains alpha-producing ops (round_corner / watermark with alpha)",
                        ),
                    ),
                );
            }
        }
        if let (Some(ImageFormat::Jpeg), Compression::Lossless) = (output.format, output.compression) {
            return Err(
                DomainError::invalid(
                    String::from_str(
                        "JPEG does not support lossless compression; use PNG or WebP lossless",
                    ),
                ),
            );
        }
        Ok(Self { ops, output })
    }

    /// Single-op convenience constructor used by the per-operation endpoints.
    pub fn single(op: Op<S, D>, output: OutputSpec) -> (r: Result<Self, DomainError>)
        ensures
            alpha_conflict(seq![op], output) ==> fails_invalid(
                r,
                "output format does not support alpha but pipeline contains alpha-producing ops (round_corner / watermark with alpha)"@,
            ),
            !alpha_conflict(seq![op], output) && lossless_jpeg(output) ==> fails_invalid(
                r,
                "JPEG does not support lossless compression; use PNG or WebP lossless"@,
            ),
            pipeline_ok(seq![op], output) ==> (r matches Ok(p) && p.spec_ops() == seq![op]
                && p.spec_output() == output),
    {
        let mut v = Vec::new();
        v.push(op);
        proof {
            assert(v@ =~= seq![op]);
        }
        Self::new(v, output)
    }

    pub fn ops(&self) -> (r: &[Op<S, D>])
        ensures
            r@ == self.spec_ops(),
            pipeline_ok(r@, self.spec_output()),
    {
        proof {
            use_type_invariant(self);
        }
        self.ops.as_slice()
    }

    pub fn output(&self) -> (r: &OutputSpec)
        ensures
            *r == self.spec_output(),
            pipeline_ok(self.spec_ops(), *r),
    {
        proof {
            use_type_invariant(self);
        }
        &self.output
    }
}


// ─── which outputs carry alpha ───────────────────────────────────────────────

/// PNG and WebP carry an alpha channel and JPEG does not. So any ops,
/// round corners and image watermarks included, make a valid pipeline with
/// PNG or WebP output, lossy or lossless; with JPEG output an op that
/// produces alpha is refused, and so is lossless compression.
pub proof fn alpha_outputs<S, D>(ops: Seq<Op<S, D>>, out: OutputSpec)
    ensures
        forall|f: ImageFormat|
            #![trigger format_has_alpha(f)]
            format_has_alpha(f) <==> (f == ImageFormat::Png || f == ImageFormat::WebP),
        (out.format == Some(ImageFormat::Png) || out.format == Some(ImageFormat::WebP))
            ==> pipeline_ok(ops, out),
        out.format == Some(ImageFormat::Jpeg) && any_alpha_op(ops) ==> !pipeline_ok(ops, out),
        out.format == Some(ImageFormat::Jpeg) && out.compression == Compression::Lossless
            ==> !pipeline_ok(ops, out),
{
}

/// A pipeline is refused exactly when its output is JPEG and either the
/// compression is lossless or some op is a round corner or an image
/// watermark (the ops whose result has transparent pixels); every other
/// combination of ops and output is valid.
pub proof fn pipeline_refusals<S, D>(ops: Seq<Op<S, D>>, out: OutputSpec)
    ensures
        pipeline_ok(ops, out) <==> !(out.format == Some(ImageFormat::Jpeg) && (out.compression
            == Compression::Lossless || exists|i: int|
            0 <= i < ops.len() && (ops[i] is RoundCorner || ops[i] is WatermarkImage))),
{
    if exists|i: int| 0 <= i < ops.len() && (ops[i] is RoundCorner || ops[i] is WatermarkImage) {
        let i = choose|i: int|
            0 <= i < ops.len() && (ops[i] is RoundCorner || ops[i] is WatermarkImage);
        assert(is_alpha_op(ops[i]));
    }
}

// ─── running the ops ─────────────────────────────────────────────────────────

/// `r` is a possible outcome of applying `ops` in order to `buf` with
/// `apply`: each op to what the one before gave, stopping at the first
/// failure, which is reported as a failure of that op.
pub open spec fn ops_run<B, S, D, F: Fn(B, &Op<S, D>) -> Result<B, DomainError>>(
    apply: F,
    buf: B,
    ops: Seq<Op<S, D>>,
    r: Result<B, DomainError>,
) -> bool
    decreases ops.len(),
{
    if ops.len() == 0 {
        r == Ok::<B, DomainError>(buf)
    } else {
        exists|step: Result<B, DomainError>|
            #![trigger apply.ensures((buf, &ops[0]), step)]
            apply.ensures((buf, &ops[0]), step) && match step {
                Ok(next) => ops_run(apply, next, ops.drop_first(), r),
                Err(e) => r matches Err(x) && op_error(e, op_kind_name(op_kind(ops[0])), x),
            }
    }
}

/// Applies `ops` in order to `buf` with `apply`, each to what the one
/// before gave, and stops at the first failure, which it reports as a
/// failure of that op (see `DomainError::within_op`).
pub fn run_ops<B, S, D, F: Fn(B, &Op<S, D>) -> Result<B, DomainError>>(
    buf: B,
    ops: &[Op<S, D>],
    apply: F,
) -> (r: Result<B, DomainError>)
    requires
        forall|b: B, i: int| 0 <= i < ops@.len() ==> #[trigger] apply.requires((b, &ops@[i])),
    ensures
        ops_run(apply, buf, ops@, r),
{
    let ghost all = ops@;
    let ghost start = buf;
    let mut cur = buf;
    let mut i: usize = 0;
    proof {
        assert(all.skip(0) =~= all);
    }
    while i < ops.len()
        invariant
            all == ops@,
            start == buf,
            i <= all.len(),
            forall|b: B, k: int| 0 <= k < all.len() ==> #[trigger] apply.requires((b, &all[k])),
            forall|res: Result<B, DomainError>|
                #![trigger ops_run(apply, cur, all.skip(i as int), res)]
                ops_run(apply, cur, all.skip(i as int), res) ==> ops_run(apply, start, all, res),
        decreases all.len() - i,
    {
        let op = &ops[i];
        let ghost before = cur;
        let ghost rest = all.skip(i as int);
        proof {
            assert(rest[0] == all[i as int]);
            assert(rest.drop_first() =~= all.skip(i + 1));
        }
        let step = apply(cur, op);
        match step {
            Ok(next) => {
                proof {
                    assert forall|res: Result<B, DomainError>|
                        #![trigger ops_run(apply, next, all.skip(i + 1), res)]
                        ops_run(apply, next, all.skip(i + 1), res) implies ops_run(
                        apply,
                        start,
                        all,
                        res,
                    ) by {
                        assert(apply.ensures((before, &rest[0]), Ok::<B, DomainError>(next)));
                        assert(ops_run(apply, before, rest, res));
                    }
                }
                cur = next;
            },
            Err(e) => {
                let kind = op.kind().as_str();
                let x = e.within_op(kind);
                proof {
                    let res = Err::<B, DomainError>(x);
                    assert(apply.ensures((before, &rest[0]), Err::<B, DomainError>(e)));
                    assert(op_error(e, op_kind_name(op_kind(rest[0])), x));
                    assert(ops_run(apply, before, rest, res));
                    assert(ops_run(apply, start, all, res));
                }
                return Err(x);
            },
        }
        i = i + 1;
    }
    proof {
        assert(all.skip(i as int).len() == 0);
        assert(ops_run(apply, cur, all.skip(i as int), Ok::<B, DomainError>(cur)));
    }
    Ok(cur)
}
} // verus!
