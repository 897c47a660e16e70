use myterm::errors::SupervisorError;
use myterm::update::{
    ReleaseAsset, ReleaseInfo, evaluate_update, parse_release, check_for_update, find_asset,
    install_begin, install_pending_step, install_advance, InstallPhase, InstallStep,
};

fn release(tag: &str, assets: Vec<(&str, &str)>) -> ReleaseInfo {
    ReleaseInfo {
        tag_name: tag.to_string(),
        assets: assets
            .into_iter()
            .map(|(n, u)| ReleaseAsset { name: n.to_string(), url: u.to_string() })
            .collect(),
    }
}

#[test]
fn newer_release_with_asset_is_available() {
    let rel = release("v1.2.0", vec![("MyTerm.zip", "https://example.invalid/MyTerm.zip")]);
    let info = evaluate_update(&rel, "1.1.9").unwrap();
    assert!(info.available);
    assert_eq!(info.version, "v1.2.0");
    assert_eq!(info.download_url, "https://example.invalid/MyTerm.zip");
}

#[test]
fn equal_release_is_not_available_and_has_no_url() {
    let rel = release("v1.0.0", vec![("MyTerm.zip", "https://example.invalid/MyTerm.zip")]);
    let info = evaluate_update(&rel, "1.0").unwrap();
    assert!(!info.available);
    assert_eq!(info.version, "v1.0.0");
    assert_eq!(info.download_url, "");
}

#[test]
fn newer_release_without_the_asset_is_a_hard_error() {
    let rel = release("v2.0.0", vec![("Other.zip", "https://example.invalid/Other.zip")]);
    assert_eq!(evaluate_update(&rel, "1.0.0"), Err(SupervisorError::UpdateAssetMissing));
}

#[test]
fn the_first_asset_with_the_exact_name_wins() {
    let rel = release(
        "v9",
        vec![
            ("myterm.zip", "https://example.invalid/lower"),
            ("MyTerm.zip", "https://example.invalid/first"),
            ("MyTerm.zip", "https://example.invalid/second"),
        ],
    );
    assert_eq!(
        find_asset(&rel.assets, "MyTerm.zip"),
        Some("https://example.invalid/first".to_string())
    );
}

#[test]
fn release_manifest_is_read_from_json() {
    let json = "{\"tag_name\": \"v1.4.0\", \"assets\": [ {\"name\": \"MyTerm.zip\", \"browser_download_url\": \"https://example.invalid/a.zip\", \"size\": 7 } ] }";
    let rel = parse_release(json).unwrap();
    assert_eq!(rel.tag_name, "v1.4.0");
    assert_eq!(rel.assets.len(), 1);
    assert_eq!(rel.assets[0].name, "MyTerm.zip");
    assert_eq!(rel.assets[0].url, "https://example.invalid/a.zip");
}

#[test]
fn malformed_manifest_counts_as_a_failed_fetch() {
    assert_eq!(parse_release("not json").unwrap_err(), SupervisorError::DownloadFailed);
    assert_eq!(parse_release("{}").unwrap_err(), SupervisorError::DownloadFailed);
    assert_eq!(
        parse_release("{\"tag_name\": 7, \"assets\": []}").unwrap_err(),
        SupervisorError::DownloadFailed
    );
}

#[test]
fn full_check_composes_parse_and_evaluation() {
    let json = "{\"tag_name\": \"v2.0.0\", \"assets\": [ {\"name\": \"MyTerm.zip\", \"browser_download_url\": \"https://example.invalid/b.zip\" } ] }";
    let info = check_for_update(json, "1.9.9").unwrap();
    assert!(info.available);
    assert_eq!(info.download_url, "https://example.invalid/b.zip");
}

#[test]
fn blank_download_url_is_rejected() {
    assert_eq!(install_begin(""), Err(SupervisorError::DownloadFailed));
    assert_eq!(install_begin("   "), Err(SupervisorError::DownloadFailed));
    assert_eq!(
        install_begin("https://example.invalid/MyTerm.zip"),
        Ok(InstallPhase::AtCreateWorkspace)
    );
}

#[test]
fn install_pipeline_visits_its_steps_in_order() {
    let mut phase = install_begin("https://example.invalid/MyTerm.zip").unwrap();
    let mut steps: Vec<InstallStep> = Vec::new();
    while let Some(step) = install_pending_step(phase) {
        steps.push(step);
        phase = install_advance(phase, true);
    }
    assert_eq!(phase, InstallPhase::Done);
    assert_eq!(
        steps,
        vec![
            InstallStep::CreateWorkspace,
            InstallStep::DownloadArchive,
            InstallStep::ExtractArchive,
            InstallStep::LocateBundle,
            InstallStep::ClearQuarantine,
            InstallStep::RemoveStaleBackup,
            InstallStep::MoveBundleAside,
            InstallStep::CopyBundleIn,
            InstallStep::ClearQuarantineLive,
        ]
    );
}

#[test]
fn a_failed_required_step_aborts_the_pipeline() {
    let failed = install_advance(InstallPhase::AtDownload, false);
    assert_eq!(failed, InstallPhase::Failed { error: SupervisorError::DownloadFailed });
    assert_eq!(install_pending_step(failed), None);
    assert_eq!(install_advance(failed, true), failed);
    assert_eq!(
        install_advance(InstallPhase::AtExtract, false),
        InstallPhase::Failed { error: SupervisorError::ExtractFailed }
    );
    assert_eq!(
        install_advance(InstallPhase::AtLocate, false),
        InstallPhase::Failed { error: SupervisorError::BundleNotFound }
    );
    assert_eq!(
        install_advance(InstallPhase::AtMoveAside, false),
        InstallPhase::Failed { error: SupervisorError::SwapFailed }
    );
    assert_eq!(
        install_advance(InstallPhase::AtCopyIn, false),
        InstallPhase::Failed { error: SupervisorError::SwapFailed }
    );
}

#[test]
fn best_effort_steps_never_abort() {
    assert_eq!(
        install_advance(InstallPhase::AtClearQuarantine, false),
        InstallPhase::AtRemoveStaleBackup
    );
    assert_eq!(
        install_advance(InstallPhase::AtRemoveStaleBackup, false),
        InstallPhase::AtMoveAside
    );
    assert_eq!(install_advance(InstallPhase::AtClearQuarantineLive, false), InstallPhase::Done);
}
