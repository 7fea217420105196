use website_downloader::errors::WebsiteDownloaderError;
use website_downloader::run::{RunAction, RunEvent, RunState, RunStatus};

const PAGE: &str = r#"<html><head><link rel="stylesheet" href="/style.css"></head><body><img src="logo.png"></body></html>"#;

#[test]
fn a_full_run_walks_fetch_dirs_assets_index() {
    let mut run = RunState::start(String::from("https://example.com/a/b.html"));
    let first = run.first_action();
    match first {
        RunAction::FetchPage(url) => assert_eq!(url, "https://example.com/a/b.html"),
        other => panic!("unexpected action: {:?}", other),
    }

    let action = run.step(RunEvent::PageFetched(String::from(PAGE)));
    assert!(matches!(action, RunAction::PrepareDirectories));

    let action = run.step(RunEvent::DirectoriesReady);
    match action {
        RunAction::SaveAsset { resolved_url, local_relative_path } => {
            assert_eq!(resolved_url, "https://example.com/style.css");
            assert_eq!(local_relative_path, "css/style.css");
        },
        other => panic!("unexpected action: {:?}", other),
    }

    let action = run.step(RunEvent::AssetSaved);
    match action {
        RunAction::SaveAsset { resolved_url, local_relative_path } => {
            assert_eq!(resolved_url, "https://example.com/a/logo.png");
            assert_eq!(local_relative_path, "img/logo.png");
        },
        other => panic!("unexpected action: {:?}", other),
    }

    let action = run.step(RunEvent::AssetSaved);
    match action {
        RunAction::WriteIndex(text) => {
            assert_eq!(
                text,
                r#"<html><head><link rel="stylesheet" href="css/style.css"></head><body><img src="img/logo.png"></body></html>"#
            );
        },
        other => panic!("unexpected action: {:?}", other),
    }

    let action = run.step(RunEvent::IndexWritten);
    assert!(matches!(action, RunAction::Finished));
    assert_eq!(run.status, RunStatus::Done);
}

#[test]
fn a_failed_asset_fetch_aborts_before_any_index_write() {
    let mut run = RunState::start(String::from("https://example.com/"));
    run.step(RunEvent::PageFetched(String::from(PAGE)));
    let action = run.step(RunEvent::DirectoriesReady);
    assert!(matches!(action, RunAction::SaveAsset { .. }));

    let failure = WebsiteDownloaderError::ReqwestError(String::from("status 404"));
    let action = run.step(RunEvent::StepFailed(failure));
    match action {
        RunAction::Abort(WebsiteDownloaderError::ReqwestError(m)) => {
            assert_eq!(m, "status 404");
        },
        other => panic!("unexpected action: {:?}", other),
    }
    assert_eq!(run.status, RunStatus::Failed);
}

#[test]
fn a_failed_page_fetch_aborts_at_once() {
    let mut run = RunState::start(String::from("https://example.com/"));
    let failure = WebsiteDownloaderError::ReqwestError(String::from("connection refused"));
    let action = run.step(RunEvent::StepFailed(failure));
    assert!(matches!(action, RunAction::Abort(_)));
    assert_eq!(run.status, RunStatus::Failed);
}

#[test]
fn a_page_without_assets_goes_straight_to_the_index_write() {
    let mut run = RunState::start(String::from("https://example.com/"));
    run.step(RunEvent::PageFetched(String::from("<html><body>plain</body></html>")));
    let action = run.step(RunEvent::DirectoriesReady);
    match action {
        RunAction::WriteIndex(text) => assert_eq!(text, "<html><body>plain</body></html>"),
        other => panic!("unexpected action: {:?}", other),
    }
    let action = run.step(RunEvent::IndexWritten);
    assert!(matches!(action, RunAction::Finished));
}

#[test]
fn an_unresolvable_reference_aborts_the_run_during_planning() {
    let mut run = RunState::start(String::from("not a url"));
    run.step(RunEvent::PageFetched(String::from(PAGE)));
    let action = run.step(RunEvent::DirectoriesReady);
    assert!(matches!(
        action,
        RunAction::Abort(WebsiteDownloaderError::UrlParseError(_))
    ));
    assert_eq!(run.status, RunStatus::Failed);
}

#[test]
fn two_runs_over_the_same_page_decide_identically() {
    let drive = || {
        let mut run = RunState::start(String::from("https://example.com/a/b.html"));
        run.step(RunEvent::PageFetched(String::from(PAGE)));
        let mut actions: Vec<String> = Vec::new();
        let mut action = run.step(RunEvent::DirectoriesReady);
        loop {
            match action {
                RunAction::SaveAsset { resolved_url, local_relative_path } => {
                    actions.push(format!("save {} as {}", resolved_url, local_relative_path));
                    action = run.step(RunEvent::AssetSaved);
                },
                RunAction::WriteIndex(text) => {
                    actions.push(format!("index {}", text));
                    break;
                },
                other => panic!("unexpected action: {:?}", other),
            }
        }
        actions
    };
    assert_eq!(drive(), drive());
}
