//! Library-wide laws, each proved from the specifications that the
//! executable functions are verified against.

use vstd::prelude::*;

use crate::batch::count_false;
use crate::batch::count_true;
use crate::single::EncodingChoice;
use crate::single::GuardDecision;
use crate::single::QUALITY_MILLI_MAX;
use crate::single::clamp_milli;
use crate::single::encoding_for;
use crate::single::single_guard;
use crate::pathnames::clean_components;
use crate::pathnames::ext_start;
use crate::pathnames::extension_of;
use crate::pathnames::file_name_of;
use crate::pathnames::is_candidate_path;
use crate::pathnames::is_supported_extension;
use crate::pathnames::is_webp_path;
use crate::pathnames::keep_component;
use crate::pathnames::last_index_of;
use crate::pathnames::lemma_clean_last;
use crate::pathnames::lemma_last_index_determined;
use crate::pathnames::lemma_last_index_properties;
use crate::pathnames::lemma_last_raw_component;
use crate::pathnames::lemma_name_decomposition;
use crate::pathnames::lower_code;
use crate::pathnames::name_start;
use crate::pathnames::output_path_spec;
use crate::pathnames::output_stem;
use crate::pathnames::raw_components;
use crate::pathnames::same_path;
use crate::pathnames::stem_of;

verus! {

/// Idempotence of a re-run: once a conversion's output exists, planning
/// the same conversion again skips it — nothing is decoded, encoded or
/// written, whatever the file contents, quality or lossless flag were.
pub proof fn lemma_second_run_skips(input: Seq<char>, output: Seq<char>)
    requires
        !same_path(input, output),
    ensures
        single_guard(input, output, true) == GuardDecision::SkipExisting,
{
}

/// The identity guard: a conversion from a path onto itself is rejected,
/// whether or not the output exists.
pub proof fn lemma_same_path_rejected(p: Seq<char>, output_exists: bool)
    ensures
        single_guard(p, p, output_exists) == GuardDecision::RejectSamePath,
{
}

/// The identity guard holds up to normalization: two spellings of the
/// same file — repeated or trailing separators, `.` components — are
/// rejected just as the identical spelling is.
pub proof fn lemma_equivalent_paths_rejected(a: Seq<char>, b: Seq<char>, output_exists: bool)
    requires
        same_path(a, b),
    ensures
        single_guard(a, b, output_exists) == GuardDecision::RejectSamePath,
{
}

/// The format guard: an input that is already WebP is rejected before any
/// work, so no output file is ever planned for it.
pub proof fn lemma_webp_input_rejected(input: Seq<char>, output: Seq<char>)
    requires
        !same_path(input, output),
        is_webp_path(input),
    ensures
        single_guard(input, output, false) == GuardDecision::RejectWebpInput,
{
}

/// The quality clamp saturates: any request at or above the full scale
/// behaves as the full scale, and any request at or below zero behaves
/// as zero — for the clamp and for the chosen encoding alike.
pub proof fn lemma_quality_clamp_saturates(q: int)
    ensures
        q >= QUALITY_MILLI_MAX ==> clamp_milli(q) == clamp_milli(QUALITY_MILLI_MAX as int),
        q <= 0 ==> clamp_milli(q) == clamp_milli(0),
        q >= QUALITY_MILLI_MAX ==> encoding_for(q, false) == encoding_for(
            QUALITY_MILLI_MAX as int,
            false,
        ),
        q <= 0 ==> encoding_for(q, false) == encoding_for(0, false),
{
}

/// The lossless flag makes the quality irrelevant: any two requests with
/// the flag set are encoded the same way, losslessly.
pub proof fn lemma_lossless_ignores_quality(q1: int, q2: int)
    ensures
        encoding_for(q1, true) == encoding_for(q2, true),
        encoding_for(q1, true) == EncodingChoice::Lossless,
{
}

/// Consistency of the two classifications: a path with a recognized input
/// extension is never itself WebP, so the format guard cannot fire on a
/// candidate the batch enumeration selected.
pub proof fn lemma_candidate_is_not_webp(p: Seq<char>)
    requires
        is_candidate_path(p),
    ensures
        !is_webp_path(p),
{
    assert(lower_code('j') != lower_code('w'));
    assert(lower_code('t') != lower_code('w'));
}

/// Idempotence holds of every real batch item with no side condition:
/// a candidate input never names the same file as the output path the
/// batch derives for it — their file names differ in extension — so once
/// that output exists, the item is planned as a skip.
pub proof fn lemma_batch_item_idempotent(output_dir: Seq<char>, input: Seq<char>)
    requires
        is_candidate_path(input),
    ensures
        !same_path(input, output_path_spec(output_dir, input)),
        single_guard(input, output_path_spec(output_dir, input), true)
            == GuardDecision::SkipExisting,
{
    let out = output_path_spec(output_dir, input);
    let ext = extension_of(input).unwrap();
    let stem = stem_of(input);
    let ns = name_start(input);
    let e = ext_start(input).unwrap();
    let d = last_index_of(input, '.').unwrap();

    lemma_last_index_properties(input, '.');
    lemma_last_index_properties(input, '/');
    lemma_name_decomposition(input);

    assert(e == d + 1 && d > ns && d < input.len());
    assert(ext.len() >= 3);
    assert(file_name_of(input).len() == stem.len() + 1 + ext.len());
    assert(output_stem(input) == stem);

    // After the joined separator the output holds no further separator:
    // the stem is drawn from the input's file name, the suffix is fixed.
    let k = output_dir.len() as int;
    assert(out.len() == k + 1 + stem.len() + 5);
    assert(out[k] == '/');
    assert forall|j: int| k < j < out.len() implies out[j] != '/' by {
        if j < k + 1 + stem.len() {
            assert(out[j] == stem[j - k - 1]);
            assert(stem[j - k - 1] == input[ns + j - k - 1]);
            assert(input[ns + j - k - 1] != '/');
        } else {
            assert(out[j] == seq!['.', 'w', 'e', 'b', 'p'][j - k - 1 - stem.len()]);
        }
    }
    lemma_last_index_determined(out, '/', k);
    assert(name_start(out) == k + 1);
    assert(file_name_of(out) =~= stem + seq!['.', 'w', 'e', 'b', 'p']);

    lemma_last_raw_component(input);
    lemma_last_raw_component(out);
    assert(keep_component(raw_components(input).last()));
    assert(keep_component(raw_components(out).last()));
    lemma_clean_last(input);
    lemma_clean_last(out);

    if same_path(input, out) {
        assert(clean_components(input).last() == clean_components(out).last());
        assert(file_name_of(input) == file_name_of(out));
        assert(ext.len() == 4);
        assert(ext[0] == (stem + seq!['.'] + ext)[stem.len() as int + 1]);
        assert(ext[0] == 'w' && ext[1] == 'e' && ext[2] == 'b' && ext[3] == 'p');
        assert(is_supported_extension(ext));
        assert(lower_code('w') != lower_code('j'));
        assert(lower_code('w') != lower_code('t'));
        assert(false);
    }
}

/// Isolation of failures: over any batch the outcomes partition, so with
/// exactly `k` failed items among `n` the summary counts `k` errors and
/// `n - k` successes — a failed item only moves one count, never the
/// other items.
pub proof fn lemma_outcomes_partition(outcomes: Seq<bool>)
    ensures
        count_true(outcomes) + count_false(outcomes) == outcomes.len(),
        count_true(outcomes) == outcomes.len() - count_false(outcomes),
    decreases outcomes.len(),
{
    if outcomes.len() > 0 {
        lemma_outcomes_partition(outcomes.drop_last());
    }
}

} // verus!
