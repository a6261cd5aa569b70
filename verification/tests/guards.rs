use webp_converter_app::single::clamp_quality_milli;
use webp_converter_app::single::choose_encoding;
use webp_converter_app::single::decide_single;
use webp_converter_app::single::plan_single;
use webp_converter_app::single::EncodingChoice;
use webp_converter_app::single::GuardDecision;
use webp_converter_app::single::SinglePlan;
use webp_converter_app::pathnames::webp_output_path;

#[test]
fn same_path_always_invalid_argument() {
    for exists in [false, true] {
        for lossless in [false, true] {
            let r = plan_single("photos/a.png", "photos/a.png", exists, 87_000, lossless);
            match r {
                Err(e) => {
                    assert!(e.is_invalid_argument());
                    assert_eq!(e.message(), "Input and output paths must differ.");
                }
                Ok(_) => panic!("identical paths must be rejected"),
            }
        }
    }
}

#[test]
fn webp_input_rejected_and_nothing_planned() {
    let r = plan_single("a.webp", "b.webp", false, 87_000, false);
    match r {
        Err(e) => {
            assert!(e.is_invalid_argument());
            assert_eq!(e.message(), "Input is already a WebP image.");
        }
        Ok(_) => panic!("a WebP input must be rejected"),
    }
    let r = plan_single("DIR/PHOTO.WEBP", "out/PHOTO.webp", false, 87_000, false);
    assert!(r.is_err());
}

#[test]
fn normalized_spellings_of_one_file_are_rejected() {
    // The identity guard works on normalized paths: another spelling of
    // the same file fails just as the identical spelling does.
    for other in ["photos//a.png", "photos/./a.png", "photos/a.png/"] {
        let r = plan_single("photos/a.png", other, false, 87_000, false);
        match r {
            Err(e) => {
                assert!(e.is_invalid_argument());
                assert_eq!(e.message(), "Input and output paths must differ.");
            }
            Ok(_) => panic!("equivalent paths must be rejected"),
        }
    }
    // An absolute path and a relative one are not the same file.
    assert_eq!(
        decide_single("/photos/a.png", "photos/a.png", false),
        GuardDecision::Proceed
    );
}

#[test]
fn existing_output_is_skipped_silently() {
    let r = plan_single("a.png", "out/a.webp", true, 87_000, false);
    assert_eq!(r.unwrap(), SinglePlan::SkipExisting);
    // The identity guard still runs first.
    assert_eq!(
        decide_single("p.png", "p.png", true),
        GuardDecision::RejectSamePath
    );
}

#[test]
fn guard_order_and_proceed() {
    assert_eq!(
        decide_single("a.png", "out/a.webp", false),
        GuardDecision::Proceed
    );
    // An existing output wins over the WebP-input guard.
    assert_eq!(
        decide_single("a.webp", "out/a.webp", true),
        GuardDecision::SkipExisting
    );
    let r = plan_single("a.png", "out/a.webp", false, 87_000, false);
    assert_eq!(r.unwrap(), SinglePlan::Encode(EncodingChoice::Lossy(87_000)));
}

#[test]
fn second_run_over_completed_outputs_skips_every_item() {
    // Once every output exists, a re-run plans no decode, no encode and
    // no write for any item.
    for name in ["a.png", "b.jpg", "c.gif"] {
        let input = format!("in/{}", name);
        let output = webp_output_path("out", name);
        let r = plan_single(&input, &output, true, 87_000, false);
        assert_eq!(r.unwrap(), SinglePlan::SkipExisting);
    }
}

#[test]
fn quality_clamp_saturates() {
    // 150 quality points behave as 100; -10 behave as 0.
    assert_eq!(clamp_quality_milli(150_000), 100_000);
    assert_eq!(clamp_quality_milli(100_000), 100_000);
    assert_eq!(clamp_quality_milli(-10_000), 0);
    assert_eq!(clamp_quality_milli(0), 0);
    assert_eq!(clamp_quality_milli(87_000), 87_000);
    assert_eq!(
        choose_encoding(150_000, false),
        choose_encoding(100_000, false)
    );
    assert_eq!(choose_encoding(-10_000, false), choose_encoding(0, false));
}

#[test]
fn lossless_flag_ignores_quality() {
    for q in [-5_000i64, 0, 42_000, 87_000, 100_000, 999_999] {
        assert_eq!(choose_encoding(q, true), EncodingChoice::Lossless);
    }
    let r = plan_single("a.png", "out/a.webp", false, 3_000, true);
    assert_eq!(r.unwrap(), SinglePlan::Encode(EncodingChoice::Lossless));
}
