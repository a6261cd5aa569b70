//! The per-file conversion guards and the choice of encoding.
//!
//! One conversion is planned from plain values: the two paths, whether the
//! output already exists on disk, the requested quality and the lossless
//! flag.  The guards run in a fixed order: paths that name the same file
//! once normalized are rejected,
//! an existing output is skipped silently (which makes a re-run over a
//! partially completed output directory idempotent), and an input that is
//! already WebP is rejected.  Only then is an encoding chosen.
//!
//! Quality is carried as thousandths of a quality point, so that the
//! caller's fractional quality survives without any floating point in the
//! library; the encoder's full scale of 0 to 100 points is 0 to 100_000.

use vstd::prelude::*;
use vstd::string::StringExecFns;

use crate::errors::ConvError;
use crate::pathnames::is_webp_path;
use crate::pathnames::is_webp_file;
use crate::pathnames::paths_equivalent;
use crate::pathnames::same_path;

verus! {

/// The full encoder scale, in thousandths of a quality point.
pub const QUALITY_MILLI_MAX: i64 = 100000;

/// What the guards decide for one conversion.
#[derive(Clone, Copy, Debug, PartialEq, Eq, Structural)]
pub enum GuardDecision {
    /// Input and output name the same file once normalized: rejected.
    RejectSamePath,
    /// The output already exists: succeed without work.
    SkipExisting,
    /// The input is already a WebP image: rejected.
    RejectWebpInput,
    /// No guard fired; the conversion goes ahead.
    Proceed,
}

/// The guards of one conversion, in their order of evaluation.  The
/// identity guard compares the two paths after normalization, so `a//b`,
/// `a/./b` and `a/b/` all name the same file as `a/b`.
pub open spec fn single_guard(input: Seq<char>, output: Seq<char>, output_exists: bool) -> GuardDecision {
    if same_path(input, output) {
        GuardDecision::RejectSamePath
    } else if output_exists {
        GuardDecision::SkipExisting
    } else if is_webp_path(input) {
        GuardDecision::RejectWebpInput
    } else {
        GuardDecision::Proceed
    }
}

/// Evaluates the guards of one conversion.
pub fn decide_single(input_path: &str, output_path: &str, output_exists: bool) -> (d: GuardDecision)
    ensures
        d == single_guard(input_path@, output_path@, output_exists),
{
    if paths_equivalent(input_path, output_path) {
        GuardDecision::RejectSamePath
    } else if output_exists {
        GuardDecision::SkipExisting
    } else if is_webp_file(input_path) {
        GuardDecision::RejectWebpInput
    } else {
        GuardDecision::Proceed
    }
}

/// The requested quality clamped to the encoder's scale.
pub open spec fn clamp_milli(q: int) -> int {
    if q < 0 {
        0
    } else if q > QUALITY_MILLI_MAX {
        QUALITY_MILLI_MAX as int
    } else {
        q
    }
}

/// Clamps a requested quality to the encoder's scale.
pub fn clamp_quality_milli(q: i64) -> (r: i64)
    ensures
        r as int == clamp_milli(q as int),
        0 <= r <= QUALITY_MILLI_MAX,
{
    if q < 0 {
        0
    } else if q > QUALITY_MILLI_MAX {
        QUALITY_MILLI_MAX
    } else {
        q
    }
}

/// How the pixels of one conversion are to be encoded.
#[derive(Clone, Copy, Debug, PartialEq, Eq, Structural)]
pub enum EncodingChoice {
    /// Lossless WebP; the requested quality plays no part.
    Lossless,
    /// Lossy WebP at the carried quality, in thousandths of a point.
    Lossy(i64),
}

/// The encoding for a request: lossless when the flag is set, else lossy
/// at the clamped quality.
pub open spec fn encoding_for(quality_milli: int, lossless: bool) -> EncodingChoice {
    if lossless {
        EncodingChoice::Lossless
    } else {
        EncodingChoice::Lossy(clamp_milli(quality_milli) as i64)
    }
}

/// Chooses the encoding for a request.
pub fn choose_encoding(quality_milli: i64, lossless: bool) -> (r: EncodingChoice)
    ensures
        r == encoding_for(quality_milli as int, lossless),
{
    if lossless {
        EncodingChoice::Lossless
    } else {
        EncodingChoice::Lossy(clamp_quality_milli(quality_milli))
    }
}

/// The work, if any, that one conversion performs.
#[derive(Clone, Copy, Debug, PartialEq, Eq, Structural)]
pub enum SinglePlan {
    /// The output exists: nothing is decoded, encoded or written.
    SkipExisting,
    /// Decode the input and encode it as planned.
    Encode(EncodingChoice),
}

/// Plans one conversion: runs the guards in order and, where they pass,
/// chooses the encoding.
pub fn plan_single(
    input_path: &str,
    output_path: &str,
    output_exists: bool,
    quality_milli: i64,
    lossless: bool,
) -> (r: Result<SinglePlan, ConvError>)
    ensures
        single_guard(input_path@, output_path@, output_exists) == GuardDecision::RejectSamePath
            ==> (r matches Err(e) && e is InvalidArgument
                && e.spec_message() == "Input and output paths must differ."@),
        single_guard(input_path@, output_path@, output_exists) == GuardDecision::SkipExisting
            ==> r == Ok::<SinglePlan, ConvError>(SinglePlan::SkipExisting),
        single_guard(input_path@, output_path@, output_exists) == GuardDecision::RejectWebpInput
            ==> (r matches Err(e) && e is InvalidArgument
                && e.spec_message() == "Input is already a WebP image."@),
        single_guard(input_path@, output_path@, output_exists) == GuardDecision::Proceed
            ==> r == Ok::<SinglePlan, ConvError>(
                SinglePlan::Encode(encoding_for(quality_milli as int, lossless)),
            ),
{
    match decide_single(input_path, output_path, output_exists) {
        GuardDecision::RejectSamePath => Err(
            ConvError::InvalidArgument(String::from_str("Input and output paths must differ.")),
        ),
        GuardDecision::SkipExisting => Ok(SinglePlan::SkipExisting),
        GuardDecision::RejectWebpInput => Err(
            ConvError::InvalidArgument(String::from_str("Input is already a WebP image.")),
        ),
        GuardDecision::Proceed => Ok(SinglePlan::Encode(choose_encoding(quality_milli, lossless))),
    }
}

} // verus!
