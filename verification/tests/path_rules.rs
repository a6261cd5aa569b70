use webp_converter_app::pathnames::has_supported_extension;
use webp_converter_app::pathnames::is_webp_file;
use webp_converter_app::pathnames::clean_components_of;
use webp_converter_app::pathnames::join_path;
use webp_converter_app::pathnames::paths_equivalent;
use webp_converter_app::pathnames::str_eq;
use webp_converter_app::pathnames::webp_output_path;

#[test]
fn supported_extensions_case_insensitive() {
    assert!(has_supported_extension("a.png"));
    assert!(has_supported_extension("a.PNG"));
    assert!(has_supported_extension("photo.JpEg"));
    assert!(has_supported_extension("b.jpg"));
    assert!(has_supported_extension("c.bmp"));
    assert!(has_supported_extension("d.tiff"));
    assert!(has_supported_extension("e.gif"));
    assert!(has_supported_extension("dir/sub/photo.Gif"));
}

#[test]
fn unsupported_names_are_not_candidates() {
    assert!(!has_supported_extension("notes.txt"));
    assert!(!has_supported_extension("archive"));
    assert!(!has_supported_extension("a.webp"));
    assert!(!has_supported_extension(".png"));
    assert!(!has_supported_extension("a.tar.gz"));
    assert!(!has_supported_extension("a.tif"));
    assert!(!has_supported_extension("png"));
    assert!(!has_supported_extension(""));
    assert!(!has_supported_extension("trailing.png/"));
}

#[test]
fn webp_detection() {
    assert!(is_webp_file("x.webp"));
    assert!(is_webp_file("x.WEBP"));
    assert!(is_webp_file("dir/deep/x.WebP"));
    assert!(!is_webp_file("x.webpp"));
    assert!(!is_webp_file("webp"));
    assert!(!is_webp_file(".webp"));
    assert!(!is_webp_file("x.png"));
}

#[test]
fn output_path_drops_extension_and_appends_webp() {
    assert_eq!(webp_output_path("out", "in/photo.png"), "out/photo.webp");
    assert_eq!(webp_output_path("out", "photo.jpeg"), "out/photo.webp");
    // Only the last extension is dropped, none accumulate.
    assert_eq!(webp_output_path("out", "in/a.b.c.png"), "out/a.b.c.webp");
    // A name without an extension keeps its whole stem.
    assert_eq!(webp_output_path("out", "in/archive"), "out/archive.webp");
    // A hidden-file name is a stem, not an extension.
    assert_eq!(webp_output_path("out", "in/.png"), "out/.png.webp");
    // An empty file name falls back to a fixed stem.
    assert_eq!(webp_output_path("out", "in/"), "out/image.webp");
    assert_eq!(webp_output_path("out", ""), "out/image.webp");
}

#[test]
fn joining_paths() {
    assert_eq!(join_path("in", "a.png"), "in/a.png");
    assert_eq!(join_path("", ""), "/");
}

#[test]
fn normalization_drops_empty_and_dot_components() {
    assert_eq!(clean_components_of("a//b.png"), vec!["a", "b.png"]);
    assert_eq!(clean_components_of("a/./b.png"), vec!["a", "b.png"]);
    assert_eq!(clean_components_of("a/b.png/"), vec!["a", "b.png"]);
    assert_eq!(clean_components_of("./a.png"), vec!["a.png"]);
    assert_eq!(clean_components_of("/a/b"), vec!["a", "b"]);
    assert_eq!(clean_components_of(""), Vec::<String>::new());
    assert_eq!(clean_components_of("..png"), vec!["..png"]);
    // `..` is a real component, not normalized away.
    assert_eq!(clean_components_of("a/../b"), vec!["a", "..", "b"]);
}

#[test]
fn path_equivalence_up_to_normalization() {
    assert!(paths_equivalent("a/b.png", "a/b.png"));
    assert!(paths_equivalent("a//b.png", "a/b.png"));
    assert!(paths_equivalent("a/./b.png", "a/b.png"));
    assert!(paths_equivalent("a/b.png/", "a/b.png"));
    assert!(!paths_equivalent("/a.png", "a.png"));
    assert!(!paths_equivalent("a/b.png", "a/c.png"));
    assert!(!paths_equivalent("a/B.png", "a/b.png"));
}

#[test]
fn string_equality_is_exact() {
    assert!(str_eq("a/b.png", "a/b.png"));
    assert!(!str_eq("a/b.png", "a/B.png"));
    assert!(!str_eq("a", "ab"));
    assert!(str_eq("", ""));
}
