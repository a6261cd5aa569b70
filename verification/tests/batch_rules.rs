use webp_converter_app::batch::converted_line;
use webp_converter_app::batch::error_line;
use webp_converter_app::batch::found_line;
use webp_converter_app::batch::select_candidates;
use webp_converter_app::batch::start_line;
use webp_converter_app::batch::summarize;
use webp_converter_app::batch::summary_block;
use webp_converter_app::batch::validate_batch_args;
use webp_converter_app::batch::BatchSummary;
use webp_converter_app::batch::DirEntryInfo;
use webp_converter_app::errors::ConvError;
use webp_converter_app::numfmt::usize_to_string;

fn entry(name: &str, is_file: bool) -> DirEntryInfo {
    DirEntryInfo {
        name: String::from(name),
        is_file,
    }
}

#[test]
fn empty_directory_arguments_are_fatal() {
    let r = validate_batch_args("", "out");
    match r {
        Err(e) => {
            assert!(e.is_invalid_argument());
            assert_eq!(e.message(), "Input path is empty.");
        }
        Ok(_) => panic!("an empty input directory must be rejected"),
    }
    let r = validate_batch_args("in", "");
    match r {
        Err(e) => {
            assert!(e.is_invalid_argument());
            assert_eq!(e.message(), "Output path is empty.");
        }
        Ok(_) => panic!("an empty output directory must be rejected"),
    }
    assert!(validate_batch_args("in", "out").is_ok());
}

#[test]
fn candidate_selection_keeps_order_and_filters() {
    let entries = vec![
        entry("a.png", true),
        entry("notes.txt", true),
        entry("b.JPG", true),
        entry("subdir.png", false),
        entry("c.gif", true),
        entry("d.webp", true),
    ];
    let picked = select_candidates(&entries);
    assert_eq!(picked, vec!["a.png", "b.JPG", "c.gif"]);
}

#[test]
fn summarize_counts_successes_and_errors() {
    let outcomes = vec![true, false, true, true, false];
    let s = summarize(&outcomes);
    assert_eq!(s.success_count, 3);
    assert_eq!(s.error_count, 2);
    assert_eq!(s.total, 5);

    let none: Vec<bool> = Vec::new();
    let s = summarize(&none);
    assert_eq!(s.success_count, 0);
    assert_eq!(s.error_count, 0);
    assert_eq!(s.total, 0);
}

#[test]
fn isolation_of_failures_in_counts() {
    // Exactly k corrupt candidates among n: the summary reports k errors
    // and n - k successes, and every item keeps its own outcome.
    let n = 10;
    for k in 0..=n {
        let outcomes: Vec<bool> = (0..n).map(|i| i >= k).collect();
        let s = summarize(&outcomes);
        assert_eq!(s.error_count, k);
        assert_eq!(s.success_count, n - k);
        assert_eq!(s.total, n);
    }
}

#[test]
fn error_variants_and_messages() {
    // The caller that writes files reports its failures in this variant.
    let e = ConvError::IoError(String::from("Failed to create file"));
    assert!(e.is_io_error());
    assert!(!e.is_invalid_argument());
    assert!(!e.is_decode_error());
    assert!(!e.is_encode_error());
    assert_eq!(e.message(), "Failed to create file");
}

#[test]
fn decimal_rendering() {
    assert_eq!(usize_to_string(0), "0");
    assert_eq!(usize_to_string(7), "7");
    assert_eq!(usize_to_string(10), "10");
    assert_eq!(usize_to_string(87), "87");
    assert_eq!(usize_to_string(100000), "100000");
    assert_eq!(usize_to_string(90817263), "90817263");
}

#[test]
fn log_line_texts() {
    assert_eq!(start_line("in"), "Starting conversion from: in");
    assert_eq!(found_line(4), "Found 4 files to convert\n");
    assert_eq!(converted_line("in/a.png"), "Converted: in/a.png");
    assert_eq!(error_line("stb_image failed: bad header"), "Error: stb_image failed: bad header");
    let s = BatchSummary {
        success_count: 3,
        error_count: 1,
        total: 4,
    };
    assert_eq!(
        summary_block(&s),
        "\nFinished processing all files\nSuccess: 3\nErrors: 1\nTotal: 4"
    );
}

#[test]
fn end_to_end_log_of_a_mixed_batch() {
    // A directory of three good images and one corrupt one: all four are
    // candidates, one outcome fails, and the summary reads 3 / 1 / 4.
    let entries = vec![
        entry("a.png", true),
        entry("b.png", true),
        entry("c.png", true),
        entry("broken.png", true),
        entry("readme.md", true),
    ];
    let candidates = select_candidates(&entries);
    assert_eq!(candidates.len(), 4);
    assert_eq!(found_line(candidates.len()), "Found 4 files to convert\n");

    let outcomes: Vec<bool> = candidates.iter().map(|c| c != "broken.png").collect();
    let s = summarize(&outcomes);
    assert_eq!(s.success_count, 3);
    assert_eq!(s.error_count, 1);
    assert_eq!(s.total, 4);
    assert_eq!(
        summary_block(&s),
        "\nFinished processing all files\nSuccess: 3\nErrors: 1\nTotal: 4"
    );
}
