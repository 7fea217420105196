use website_downloader::assets::Replacement;
use website_downloader::rewrite::{replace_all, rewrite_page};

fn replacement(original: &str, replacement: &str) -> Replacement {
    Replacement {
        original_text: String::from(original),
        replacement_text: String::from(replacement),
    }
}

#[test]
fn replace_all_matches_std_literal_replace() {
    let cases = [
        ("aab", "ab", "ba"),
        ("banana", "an", "AN"),
        ("aaaa", "aa", "b"),
        ("no hit here", "xyz", "q"),
        ("abcabc", "abc", ""),
        ("<img src=\"a.png\">", "a.png", "img/a.png"),
    ];
    for (text, pattern, rep) in cases {
        assert_eq!(replace_all(text, pattern, rep), text.replace(pattern, rep));
    }
}

#[test]
fn replacements_apply_in_recording_order() {
    // The first pass's output is what the second pass sees: sequential
    // literal substitution is order-sensitive by design.
    let text = "x a y";
    let rewritten = rewrite_page(
        text,
        &vec![replacement("a", "b"), replacement("b", "c")],
    );
    assert_eq!(rewritten, "x c y");
    let other_order = rewrite_page(
        text,
        &vec![replacement("b", "c"), replacement("a", "b")],
    );
    assert_eq!(other_order, "x b y");
}

#[test]
fn rewrite_points_page_at_local_copies() {
    let text = r#"<head><link rel="stylesheet" href="/style.css"></head><body><img src="logo.png"></body>"#;
    let rewritten = rewrite_page(
        text,
        &vec![
            replacement("/style.css", "css/style.css"),
            replacement("logo.png", "img/logo.png"),
        ],
    );
    assert_eq!(
        rewritten,
        r#"<head><link rel="stylesheet" href="css/style.css"></head><body><img src="img/logo.png"></body>"#
    );
}

#[test]
fn rewriting_twice_from_the_same_inputs_is_identical() {
    let text = r#"<body><img src="a.png"><img src="b.png"></body>"#;
    let pairs = vec![
        replacement("a.png", "img/a.png"),
        replacement("b.png", "img/b.png"),
    ];
    let first = rewrite_page(text, &pairs);
    let second = rewrite_page(text, &pairs);
    assert_eq!(first, second);
}

#[test]
fn local_path_can_still_hold_the_original_reference() {
    // The known sharp edge: the recorded local path usually ends in the
    // original file name, so the original string can survive inside it.
    let rewritten = rewrite_page(
        r#"<img src="/style.css">"#,
        &vec![replacement("/style.css", "css/style.css")],
    );
    assert_eq!(rewritten, r#"<img src="css/style.css">"#);
    assert!(rewritten.contains("/style.css"));
}

#[test]
fn empty_replacement_list_leaves_text_unchanged() {
    let text = "untouched <img src=\"x\">";
    assert_eq!(rewrite_page(text, &Vec::new()), text);
}
