use shard::error::LauncherError;
use shard::model::RefSource;
use shard::store::import_bytes;
use shard::model::ContentType;
use shard::model::ContentVersion;
use shard::model::FileHashEntry;
use shard::model::Platform;
use shard::model::ReleaseChannel;
use shard::model::VersionFile;
use shard::store::ContentStore;
use shard::store::download_to_store;
use shard::store::plan_download;

// SHA-1 of the bytes "abc".
const ABC_SHA1: &str = "a9993e364706816aba3e25717850c26c9cd0d89d";

fn version_with_file(url: Option<&str>, advertised_sha1: Option<&str>) -> ContentVersion {
    let mut hashes = Vec::new();
    if let Some(h) = advertised_sha1 {
        hashes.push(FileHashEntry { algo: "sha1".to_string(), value: h.to_string() });
    }
    ContentVersion {
        id: "v1".to_string(),
        platform: Platform::Modrinth,
        parent_item_id: "proj".to_string(),
        display_name: "Proj 1.0".to_string(),
        release_channel: ReleaseChannel::Release,
        publish_date: "2025-01-01".to_string(),
        supported_game_versions: vec!["1.21.4".to_string()],
        supported_loaders: vec!["fabric".to_string()],
        files: vec![VersionFile {
            url: url.map(|u| u.to_string()),
            file_name: "proj-1.0.jar".to_string(),
            size: 3,
            primary: true,
            hashes,
        }],
    }
}

#[test]
fn computed_hash_is_the_local_sha1() {
    let mut store = ContentStore { entries: Vec::new() };
    let v = version_with_file(Some("https://cdn.example/proj-1.0.jar"), None);
    let bytes: Vec<u8> = b"abc".to_vec();
    let r = download_to_store(&mut store, &v, ContentType::Mod, &bytes).expect("stores");
    assert_eq!(r.hash, Some(ABC_SHA1.to_string()));
    assert_eq!(r.name, "Proj 1.0");
    assert_eq!(r.version, Some("v1".to_string()));
    assert_eq!(r.file_name, Some("proj-1.0.jar".to_string()));
    assert_eq!(store.entries.len(), 1);
    assert_eq!(store.entries[0].hash, ABC_SHA1);
}

#[test]
fn repeated_download_keeps_one_entry_and_the_same_hash() {
    let mut store = ContentStore { entries: Vec::new() };
    let v = version_with_file(Some("https://cdn.example/proj-1.0.jar"), Some(ABC_SHA1));
    let bytes: Vec<u8> = b"abc".to_vec();
    let r1 = download_to_store(&mut store, &v, ContentType::Mod, &bytes).expect("stores");
    let r2 = download_to_store(&mut store, &v, ContentType::Mod, &bytes).expect("reuses");
    assert_eq!(store.entries.len(), 1);
    assert_eq!(r1.hash, r2.hash);
    assert_eq!(r1.hash, Some(ABC_SHA1.to_string()));
}

#[test]
fn hash_mismatch_fails_and_creates_no_entry() {
    let mut store = ContentStore { entries: Vec::new() };
    let advertised = "0000000000000000000000000000000000000000";
    let v = version_with_file(Some("https://cdn.example/proj-1.0.jar"), Some(advertised));
    let bytes: Vec<u8> = b"abc".to_vec();
    let err = download_to_store(&mut store, &v, ContentType::Mod, &bytes).unwrap_err();
    assert_eq!(err, LauncherError::HashMismatch);
    assert_eq!(store.entries.len(), 0);
}

#[test]
fn matching_advertised_hash_passes() {
    let mut store = ContentStore { entries: Vec::new() };
    let v = version_with_file(Some("https://cdn.example/proj-1.0.jar"), Some(ABC_SHA1));
    let bytes: Vec<u8> = b"abc".to_vec();
    let r = download_to_store(&mut store, &v, ContentType::Mod, &bytes).expect("stores");
    assert_eq!(r.hash, Some(ABC_SHA1.to_string()));
    assert_eq!(store.entries.len(), 1);
}

#[test]
fn plan_download_picks_primary_and_advertised_hash() {
    let v = version_with_file(Some("https://cdn.example/proj-1.0.jar"), Some(ABC_SHA1));
    let plan = plan_download(&v).expect("plans");
    assert_eq!(plan.url, "https://cdn.example/proj-1.0.jar");
    assert_eq!(plan.file_name, "proj-1.0.jar");
    assert_eq!(plan.size, 3);
    assert_eq!(plan.advertised_sha1, Some(ABC_SHA1.to_string()));
}

#[test]
fn missing_url_is_distribution_disabled() {
    let v = version_with_file(None, Some(ABC_SHA1));
    let err = plan_download(&v).unwrap_err();
    assert_eq!(err, LauncherError::DistributionDisabled);
}

#[test]
fn first_file_is_primary_when_none_is_marked() {
    let mut v = version_with_file(Some("https://cdn.example/a.jar"), None);
    v.files[0].primary = false;
    v.files.push(VersionFile {
        url: Some("https://cdn.example/b.jar".to_string()),
        file_name: "b.jar".to_string(),
        size: 9,
        primary: false,
        hashes: Vec::new(),
    });
    let plan = plan_download(&v).expect("plans");
    assert_eq!(plan.file_name, "proj-1.0.jar");
}

#[test]
fn local_import_shares_the_store_with_downloads() {
    let mut store = ContentStore { entries: Vec::new() };
    let bytes: Vec<u8> = b"abc".to_vec();
    let r = import_bytes(
        &mut store,
        "My Mod",
        "my-mod.jar",
        ContentType::Mod,
        RefSource::Local,
        &bytes,
    );
    assert_eq!(r.hash, Some(ABC_SHA1.to_string()));
    assert_eq!(r.name, "My Mod");
    assert!(r.version.is_none());
    assert_eq!(store.entries.len(), 1);
    // A registry download of the same bytes reuses the imported entry.
    let v = version_with_file(Some("https://cdn.example/same.jar"), None);
    let r2 = download_to_store(&mut store, &v, ContentType::Mod, &bytes).expect("reuses");
    assert_eq!(store.entries.len(), 1);
    assert_eq!(r2.hash, r.hash);
}
