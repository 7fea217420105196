use website_downloader::assets::{plan_assets, AssetCategory};
use website_downloader::resolve::resolve_asset_url;

#[test]
fn root_relative_reference_resolves_against_host() {
    let resolved = resolve_asset_url("https://example.com/a/b.html", "/style.css").unwrap();
    assert_eq!(resolved, "https://example.com/style.css");
}

#[test]
fn path_relative_reference_resolves_against_page_directory() {
    let resolved = resolve_asset_url("https://example.com/a/b.html", "img/logo.png").unwrap();
    assert_eq!(resolved, "https://example.com/a/img/logo.png");
}

#[test]
fn absolute_reference_passes_through_unchanged() {
    let resolved = resolve_asset_url("https://example.com/a/b.html", "https://cdn.example.org/x.js")
        .unwrap();
    assert_eq!(resolved, "https://cdn.example.org/x.js");
}

#[test]
fn malformed_base_url_is_a_url_parse_error() {
    let html = r#"<html><body><img src="logo.png"></body></html>"#;
    let err = plan_assets(html, "not a url").unwrap_err();
    assert!(matches!(
        err,
        website_downloader::errors::WebsiteDownloaderError::UrlParseError(_)
    ));
}

#[test]
fn invalid_selector_is_a_selector_parse_error() {
    let mut refs = Vec::new();
    let err = website_downloader::assets::collect_category(
        "<html></html>",
        "https://example.com/",
        "li[[[",
        AssetCategory::Image,
        &mut refs,
    )
    .unwrap_err();
    assert!(matches!(
        err,
        website_downloader::errors::WebsiteDownloaderError::SelectorParseError(_)
    ));
}

#[test]
fn plan_collects_all_four_categories_in_order() {
    let html = r#"<html><head><link rel="stylesheet" href="/style.css"><script src="app.js"></script></head><body><img src="img/logo.png"><video src="movie.mp4"></video></body></html>"#;
    let refs = plan_assets(html, "https://example.com/a/b.html").unwrap();
    assert_eq!(refs.len(), 4);

    assert_eq!(refs[0].original, "/style.css");
    assert_eq!(refs[0].resolved_url, "https://example.com/style.css");
    assert!(matches!(refs[0].category, AssetCategory::Stylesheet));
    assert_eq!(refs[0].local_relative_path, "css/style.css");

    assert_eq!(refs[1].original, "app.js");
    assert_eq!(refs[1].resolved_url, "https://example.com/a/app.js");
    assert!(matches!(refs[1].category, AssetCategory::Script));
    assert_eq!(refs[1].local_relative_path, "js/app.js");

    assert_eq!(refs[2].original, "img/logo.png");
    assert_eq!(refs[2].resolved_url, "https://example.com/a/img/logo.png");
    assert!(matches!(refs[2].category, AssetCategory::Image));
    assert_eq!(refs[2].local_relative_path, "img/logo.png");

    assert_eq!(refs[3].original, "movie.mp4");
    assert_eq!(refs[3].resolved_url, "https://example.com/a/movie.mp4");
    assert!(matches!(refs[3].category, AssetCategory::Video));
    assert_eq!(refs[3].local_relative_path, "videos/movie.mp4");
}

#[test]
fn missing_reference_attribute_is_skipped_without_error() {
    let html = r#"<html><head><script>var inline = 1;</script></head><body><video controls></video></body></html>"#;
    let refs = plan_assets(html, "https://example.com/").unwrap();
    assert!(refs.is_empty());
}

#[test]
fn empty_reference_attribute_is_skipped_without_error() {
    let html = r#"<html><body><img src=""></body></html>"#;
    let refs = plan_assets(html, "https://example.com/").unwrap();
    assert!(refs.is_empty());
}

#[test]
fn video_url_without_path_segment_gets_default_video_name() {
    let html = r#"<html><body><video src="https://example.com/media/"></video></body></html>"#;
    let refs = plan_assets(html, "https://example.com/").unwrap();
    assert_eq!(refs.len(), 1);
    assert_eq!(refs[0].local_relative_path, "videos/video.mp4");
}

#[test]
fn non_video_url_without_path_segment_gets_default_page_name() {
    // The default file name equals the rewritten page's own name; the asset
    // still lands in its category directory, not at the destination root.
    let html = r#"<html><body><img src="https://example.com/pics/"></body></html>"#;
    let refs = plan_assets(html, "https://example.com/").unwrap();
    assert_eq!(refs.len(), 1);
    assert_eq!(refs[0].local_relative_path, "img/index.html");
    assert_ne!(refs[0].local_relative_path, "index.html");
}

#[test]
fn source_elements_count_as_videos() {
    let html = r#"<html><body><video><source src="clip.webm"></video></body></html>"#;
    let refs = plan_assets(html, "https://example.com/").unwrap();
    assert_eq!(refs.len(), 1);
    assert!(matches!(refs[0].category, AssetCategory::Video));
    assert_eq!(refs[0].local_relative_path, "videos/clip.webm");
}

#[test]
fn link_without_stylesheet_rel_is_ignored() {
    let html = r#"<html><head><link rel="icon" href="favicon.ico"></head></html>"#;
    let refs = plan_assets(html, "https://example.com/").unwrap();
    assert!(refs.is_empty());
}

#[test]
fn one_unresolvable_reference_fails_the_whole_plan() {
    let html = r#"<html><body><img src="ok.png"><img src="https://bad^^host/x.png"></body></html>"#;
    let result = plan_assets(html, "https://example.com/");
    assert!(result.is_err());
}

#[test]
fn error_message_names_the_kind() {
    let err = website_downloader::errors::WebsiteDownloaderError::IoError(String::from("denied"));
    assert_eq!(err.message(), "IO error: denied");
}
