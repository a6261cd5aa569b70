//! The batch pipeline: argument validation, candidate selection, the text
//! of every log line, and the aggregation of per-item outcomes.
//!
//! The caller enumerates a directory and hands each entry over as a plain
//! name with a regular-file flag; unreadable entries are simply not handed
//! over.  The library selects the candidates, and after the parallel
//! fan-out has completed it folds the per-item outcomes into the batch
//! summary.  A failure of one item is one `false` outcome and one error
//! line; it never removes another item from the batch.

use vstd::prelude::*;
use vstd::string::StringExecFns;

use crate::errors::ConvError;
use crate::numfmt::dec_str;
use crate::numfmt::usize_to_string;
use crate::pathnames::is_candidate_path;
use crate::pathnames::has_supported_extension;

verus! {

/// One directory entry, as the enumerating caller saw it.
pub struct DirEntryInfo {
    /// The entry's file name, without any directory part.
    pub name: String,
    /// Whether the entry is a regular file.
    pub is_file: bool,
}

/// Whether an entry is a candidate: a regular file with a recognized
/// input extension.
pub open spec fn is_candidate_entry(e: DirEntryInfo) -> bool {
    e.is_file && is_candidate_path(e.name@)
}

/// The names of the candidates among `entries`, in enumeration order.
pub open spec fn candidate_names(entries: Seq<DirEntryInfo>) -> Seq<Seq<char>> {
    entries.filter(|e: DirEntryInfo| is_candidate_entry(e)).map_values(
        |e: DirEntryInfo| e.name@,
    )
}

/// The character sequences of a vector of strings.
pub open spec fn string_views(v: Seq<String>) -> Seq<Seq<char>> {
    v.map_values(|s: String| s@)
}

/// Selects the candidates of a batch, in enumeration order.
pub fn select_candidates(entries: &Vec<DirEntryInfo>) -> (r: Vec<String>)
    ensures
        string_views(r@) == candidate_names(entries@),
{
    let mut out: Vec<String> = Vec::new();
    let mut i: usize = 0;
    proof {
        reveal(Seq::filter);
        assert(string_views(out@) =~= candidate_names(entries@.take(0)));
    }
    while i < entries.len()
        invariant
            i <= entries@.len(),
            string_views(out@) == candidate_names(entries@.take(i as int)),
        decreases entries@.len() - i,
    {
        let e = &entries[i];
        let ghost prefix = entries@.take(i as int);
        let ghost next = entries@.take(i + 1);
        proof {
            reveal(Seq::filter);
            assert(next.drop_last() =~= prefix);
            assert(next.last() == entries@[i as int]);
        }
        if e.is_file && has_supported_extension(e.name.as_str()) {
            out.push(e.name.clone());
            proof {
                assert(is_candidate_entry(entries@[i as int]));
                assert(candidate_names(next) =~= candidate_names(prefix).push(
                    entries@[i as int].name@,
                ));
                assert(string_views(out@) =~= candidate_names(next));
            }
        } else {
            proof {
                assert(!is_candidate_entry(entries@[i as int]));
                assert(candidate_names(next) =~= candidate_names(prefix));
            }
        }
        i += 1;
    }
    proof {
        assert(entries@.take(entries@.len() as int) =~= entries@);
    }
    out
}

/// Rejects an empty directory argument before any work is done.
pub fn validate_batch_args(input_dir: &str, output_dir: &str) -> (r: Result<(), ConvError>)
    ensures
        input_dir@.len() == 0 ==> (r matches Err(e) && e is InvalidArgument
            && e.spec_message() == "Input path is empty."@),
        input_dir@.len() > 0 && output_dir@.len() == 0 ==> (r matches Err(e)
            && e is InvalidArgument && e.spec_message() == "Output path is empty."@),
        input_dir@.len() > 0 && output_dir@.len() > 0 ==> r is Ok,
{
    if input_dir.is_empty() {
        Err(ConvError::InvalidArgument(String::from_str("Input path is empty.")))
    } else if output_dir.is_empty() {
        Err(ConvError::InvalidArgument(String::from_str("Output path is empty.")))
    } else {
        Ok(())
    }
}

/// The number of successful outcomes.
pub open spec fn count_true(s: Seq<bool>) -> int
    decreases s.len(),
{
    if s.len() == 0 {
        0
    } else {
        count_true(s.drop_last()) + if s.last() {
            1int
        } else {
            0int
        }
    }
}

/// The number of failed outcomes.
pub open spec fn count_false(s: Seq<bool>) -> int
    decreases s.len(),
{
    if s.len() == 0 {
        0
    } else {
        count_false(s.drop_last()) + if s.last() {
            0int
        } else {
            1int
        }
    }
}

/// The final tally of one batch.
#[derive(Clone, Copy, Debug, PartialEq, Eq, Structural)]
pub struct BatchSummary {
    pub success_count: usize,
    pub error_count: usize,
    pub total: usize,
}

/// Folds the per-item outcomes of a completed batch into its summary.
pub fn summarize(outcomes: &Vec<bool>) -> (r: BatchSummary)
    ensures
        r.success_count == count_true(outcomes@),
        r.error_count == count_false(outcomes@),
        r.total == outcomes@.len(),
        r.success_count + r.error_count == r.total,
{
    let mut success: usize = 0;
    let mut errors: usize = 0;
    let mut i: usize = 0;
    proof {
        assert(outcomes@.take(0) =~= Seq::<bool>::empty());
    }
    while i < outcomes.len()
        invariant
            i <= outcomes@.len(),
            success == count_true(outcomes@.take(i as int)),
            errors == count_false(outcomes@.take(i as int)),
            success + errors == i,
        decreases outcomes@.len() - i,
    {
        proof {
            assert(outcomes@.take(i + 1).drop_last() =~= outcomes@.take(i as int));
            assert(outcomes@.take(i + 1).last() == outcomes@[i as int]);
        }
        if outcomes[i] {
            success += 1;
        } else {
            errors += 1;
        }
        i += 1;
    }
    proof {
        assert(outcomes@.take(outcomes@.len() as int) =~= outcomes@);
    }
    BatchSummary { success_count: success, error_count: errors, total: outcomes.len() }
}

/// The log line that announces the batch.
pub open spec fn start_line_spec(input_dir: Seq<char>) -> Seq<char> {
    "Starting conversion from: "@ + input_dir
}

/// Builds the log line that announces the batch.
pub fn start_line(input_dir: &str) -> (r: String)
    ensures
        r@ == start_line_spec(input_dir@),
{
    let mut s = String::from_str("Starting conversion from: ");
    s.append(input_dir);
    s
}

/// The log line that reports the candidate count.
pub open spec fn found_line_spec(count: int) -> Seq<char> {
    "Found "@ + dec_str(count) + " files to convert\n"@
}

/// Builds the log line that reports the candidate count.
pub fn found_line(count: usize) -> (r: String)
    ensures
        r@ == found_line_spec(count as int),
{
    let mut s = String::from_str("Found ");
    let digits = usize_to_string(count);
    s.append(digits.as_str());
    s.append(" files to convert\n");
    s
}

/// The log line for one converted item.
pub open spec fn converted_line_spec(path: Seq<char>) -> Seq<char> {
    "Converted: "@ + path
}

/// Builds the log line for one converted item.
pub fn converted_line(path: &str) -> (r: String)
    ensures
        r@ == converted_line_spec(path@),
{
    let mut s = String::from_str("Converted: ");
    s.append(path);
    s
}

/// The log line for one failed item.
pub open spec fn error_line_spec(message: Seq<char>) -> Seq<char> {
    "Error: "@ + message
}

/// Builds the log line for one failed item.
pub fn error_line(message: &str) -> (r: String)
    ensures
        r@ == error_line_spec(message@),
{
    let mut s = String::from_str("Error: ");
    s.append(message);
    s
}

/// The closing block of the log: the counts of the batch summary.
pub open spec fn summary_block_spec(summary: BatchSummary) -> Seq<char> {
    "\nFinished processing all files\nSuccess: "@ + dec_str(summary.success_count as int)
        + "\nErrors: "@ + dec_str(summary.error_count as int) + "\nTotal: "@ + dec_str(
        summary.total as int,
    )
}

/// Builds the closing block of the log.
pub fn summary_block(summary: &BatchSummary) -> (r: String)
    ensures
        r@ == summary_block_spec(*summary),
{
    let mut s = String::from_str("\nFinished processing all files\nSuccess: ");
    let success = usize_to_string(summary.success_count);
    s.append(success.as_str());
    s.append("\nErrors: ");
    let errors = usize_to_string(summary.error_count);
    s.append(errors.as_str());
    s.append("\nTotal: ");
    let total = usize_to_string(summary.total);
    s.append(total.as_str());
    s
}

} // verus!
