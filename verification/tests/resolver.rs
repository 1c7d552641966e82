use shard::error::LauncherError;
use shard::model::ContentVersion;
use shard::model::Platform;
use shard::model::ReleaseChannel;
use shard::resolver::resolve_latest;

fn version(
    id: &str,
    channel: ReleaseChannel,
    game_versions: &[&str],
    loaders: &[&str],
) -> ContentVersion {
    ContentVersion {
        id: id.to_string(),
        platform: Platform::Modrinth,
        parent_item_id: "sodium".to_string(),
        display_name: id.to_string(),
        release_channel: channel,
        publish_date: "2025-01-01".to_string(),
        supported_game_versions: game_versions.iter().map(|s| s.to_string()).collect(),
        supported_loaders: loaders.iter().map(|s| s.to_string()).collect(),
        files: Vec::new(),
    }
}

#[test]
fn newest_first_order_is_trusted() {
    // Item "sodium": versions newest-first; resolving for 1.21.4 yields v2.
    let versions = vec![
        version("v2", ReleaseChannel::Release, &["1.21.4"], &[]),
        version("v1", ReleaseChannel::Release, &["1.21.4", "1.21.3"], &[]),
    ];
    let picked = resolve_latest(&versions, Some("1.21.4"), None).expect("resolves");
    assert_eq!(picked.id, "v2");
}

#[test]
fn release_preferred_over_beta_in_either_order() {
    let beta_first = vec![
        version("b", ReleaseChannel::Beta, &["1.21.4"], &["fabric"]),
        version("r", ReleaseChannel::Release, &["1.21.4"], &["fabric"]),
    ];
    let picked = resolve_latest(&beta_first, Some("1.21.4"), Some("fabric")).expect("resolves");
    assert_eq!(picked.id, "r");

    let release_first = vec![
        version("r", ReleaseChannel::Release, &["1.21.4"], &["fabric"]),
        version("b", ReleaseChannel::Beta, &["1.21.4"], &["fabric"]),
    ];
    let picked = resolve_latest(&release_first, Some("1.21.4"), Some("fabric")).expect("resolves");
    assert_eq!(picked.id, "r");
}

#[test]
fn falls_back_to_full_filtered_set_without_release() {
    let versions = vec![
        version("b1", ReleaseChannel::Beta, &["1.21.4"], &[]),
        version("a1", ReleaseChannel::Alpha, &["1.21.4"], &[]),
    ];
    let picked = resolve_latest(&versions, Some("1.21.4"), None).expect("resolves");
    assert_eq!(picked.id, "b1");
}

#[test]
fn no_compatible_version_error() {
    let versions = vec![version("v1", ReleaseChannel::Release, &["1.20.1"], &[])];
    let err = resolve_latest(&versions, Some("1.21.4"), None).unwrap_err();
    assert_eq!(err, LauncherError::NoCompatibleVersion);
    let err = resolve_latest(&Vec::new(), None, None).unwrap_err();
    assert_eq!(err, LauncherError::NoCompatibleVersion);
}

#[test]
fn empty_game_version_list_is_compatible_with_any() {
    // A version listing no game versions is a conscious wildcard.
    let versions = vec![version("v1", ReleaseChannel::Release, &[], &[])];
    let picked = resolve_latest(&versions, Some("1.21.4"), Some("fabric")).expect("resolves");
    assert_eq!(picked.id, "v1");
}

#[test]
fn loader_filter_applies() {
    let versions = vec![
        version("forge-only", ReleaseChannel::Release, &["1.21.4"], &["forge"]),
        version("fabric-only", ReleaseChannel::Release, &["1.21.4"], &["fabric"]),
    ];
    let picked = resolve_latest(&versions, Some("1.21.4"), Some("fabric")).expect("resolves");
    assert_eq!(picked.id, "fabric-only");
}
