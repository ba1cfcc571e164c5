use release_gate::release::artifact_for;
use release_gate::release::RawAsset;
use release_gate::release::RawRelease;
use release_gate::transform::normalize;
use release_gate::transform::signature_urls;

fn asset(name: &str, url: &str) -> RawAsset {
    RawAsset { name: Some(name.to_string()), browser_download_url: Some(url.to_string()) }
}

fn valid_raw(assets: Vec<RawAsset>) -> RawRelease {
    RawRelease {
        tag_name: Some("v1.0.0".to_string()),
        body: Some("Fixed bugs.".to_string()),
        published_at: Some("2022-01-01T00:00:00Z".to_string()),
        assets,
    }
}

#[test]
fn no_assets_gives_empty_platforms() {
    let raw = valid_raw(vec![]);
    let rel = normalize(&raw, &vec![]).expect("valid release");
    assert!(rel.platforms.is_empty());
    assert_eq!(rel.version, "v1.0.0");
    assert_eq!(rel.notes, "Fixed bugs.");
    assert_eq!(rel.pub_date, "2022-01-01T00:00:00Z");
}

#[test]
fn no_matching_assets_gives_empty_platforms() {
    let raw = valid_raw(vec![
        asset("README.md", "u1"),
        asset("App-1.0.0.dmg", "u2"),
        asset("checksums.txt", "u3"),
    ]);
    let rel = normalize(&raw, &vec![]).expect("valid release");
    assert!(rel.platforms.is_empty());
}

#[test]
fn missing_tag_name_gives_none() {
    let mut raw = valid_raw(vec![]);
    raw.tag_name = None;
    assert!(normalize(&raw, &vec![]).is_none());
}

#[test]
fn missing_body_gives_none() {
    let mut raw = valid_raw(vec![asset("App-1.0.0-x64_en-US.msi.zip", "U")]);
    raw.body = None;
    assert!(normalize(&raw, &vec![]).is_none());
}

#[test]
fn missing_published_at_gives_none() {
    let mut raw = valid_raw(vec![]);
    raw.published_at = None;
    assert!(normalize(&raw, &vec![]).is_none());
}

#[test]
fn notes_boilerplate_stripped() {
    let mut raw = valid_raw(vec![]);
    raw.body = Some(
        "Fixed bugs.\nSee the assets to download this version and install.\n\n".to_string(),
    );
    let rel = normalize(&raw, &vec![]).expect("valid release");
    assert_eq!(rel.notes, "Fixed bugs.");
}

#[test]
fn notes_without_boilerplate_only_trimmed() {
    let mut raw = valid_raw(vec![]);
    raw.body = Some("All new. \r\n \n".to_string());
    let rel = normalize(&raw, &vec![]).expect("valid release");
    assert_eq!(rel.notes, "All new.");
}

#[test]
fn windows_asset_and_signature_mapped() {
    let raw = valid_raw(vec![
        asset("App-1.0.0-x64_en-US.msi.zip", "U"),
        asset("App-1.0.0-x64_en-US.msi.zip.sig", "SIG-URL"),
    ]);
    let urls = signature_urls(&raw);
    assert_eq!(urls, vec!["SIG-URL".to_string()]);
    let rel = normalize(&raw, &vec!["S".to_string()]).expect("valid release");
    assert_eq!(rel.platforms.len(), 1);
    let art = artifact_for(&rel, "windows-x86_64").expect("windows entry");
    assert_eq!(art.url.as_deref(), Some("U"));
    assert_eq!(art.signature.as_deref(), Some("S"));
}

#[test]
fn darwin_asset_maps_to_both_architectures() {
    let raw = valid_raw(vec![asset("App.app.tar.gz", "mac-url")]);
    let rel = normalize(&raw, &vec![]).expect("valid release");
    assert_eq!(rel.platforms.len(), 2);
    let intel = artifact_for(&rel, "darwin-x86_64").expect("intel entry");
    assert_eq!(intel.url.as_deref(), Some("mac-url"));
    assert_eq!(intel.signature, None);
    let arm = artifact_for(&rel, "darwin-aarch64").expect("arm entry");
    assert_eq!(arm.url.as_deref(), Some("mac-url"));
}

#[test]
fn linux_asset_mapped() {
    let raw = valid_raw(vec![asset("App_1.0.0_amd64.AppImage.tar.gz", "lin-url")]);
    let rel = normalize(&raw, &vec![]).expect("valid release");
    let lin = artifact_for(&rel, "linux-x86_64").expect("linux entry");
    assert_eq!(lin.url.as_deref(), Some("lin-url"));
    assert!(artifact_for(&rel, "windows-x86_64").is_none());
}

#[test]
fn failed_signature_fetch_recorded_as_empty_string() {
    let raw = valid_raw(vec![
        asset("App.app.tar.gz", "mac-url"),
        asset("App.app.tar.gz.sig", "sig-url"),
    ]);
    assert_eq!(signature_urls(&raw), vec!["sig-url".to_string()]);
    // the caller maps a failed fetch to an empty body
    let rel = normalize(&raw, &vec!["".to_string()]).expect("valid release");
    let intel = artifact_for(&rel, "darwin-x86_64").expect("intel entry");
    assert_eq!(intel.url.as_deref(), Some("mac-url"));
    assert_eq!(intel.signature.as_deref(), Some(""));
}

#[test]
fn signature_before_installer_keeps_both() {
    let raw = valid_raw(vec![
        asset("App-1.0.0-x64_en-US.msi.zip.sig", "sig-url"),
        asset("App-1.0.0-x64_en-US.msi.zip", "U"),
    ]);
    let rel = normalize(&raw, &vec!["S".to_string()]).expect("valid release");
    let win = artifact_for(&rel, "windows-x86_64").expect("windows entry");
    assert_eq!(win.url.as_deref(), Some("U"));
    assert_eq!(win.signature.as_deref(), Some("S"));
}

#[test]
fn malformed_asset_skipped_not_fatal() {
    let raw = valid_raw(vec![
        RawAsset { name: None, browser_download_url: Some("u".to_string()) },
        RawAsset { name: Some("App-1.0.0-x64_en-US.msi.zip".to_string()), browser_download_url: None },
        asset("App-1.0.0-x64_en-US.msi.zip", "U"),
    ]);
    assert!(signature_urls(&raw).is_empty());
    let rel = normalize(&raw, &vec![]).expect("valid release");
    assert_eq!(rel.platforms.len(), 1);
    let win = artifact_for(&rel, "windows-x86_64").expect("windows entry");
    assert_eq!(win.url.as_deref(), Some("U"));
    assert_eq!(win.signature, None);
}

#[test]
fn two_signature_bodies_consumed_in_asset_order() {
    let raw = valid_raw(vec![
        asset("App_amd64.AppImage.tar.gz.sig", "first-sig-url"),
        asset("App-x64_en-US.msi.zip.sig", "second-sig-url"),
    ]);
    assert_eq!(
        signature_urls(&raw),
        vec!["first-sig-url".to_string(), "second-sig-url".to_string()]
    );
    let rel = normalize(&raw, &vec!["L".to_string(), "W".to_string()]).expect("valid release");
    let lin = artifact_for(&rel, "linux-x86_64").expect("linux entry");
    assert_eq!(lin.signature.as_deref(), Some("L"));
    assert_eq!(lin.url, None);
    let win = artifact_for(&rel, "windows-x86_64").expect("windows entry");
    assert_eq!(win.signature.as_deref(), Some("W"));
}
