use shard::config::Config;
use shard::config::default_auto_update;
use shard::error::LauncherError;
use shard::model::ContentType;
use shard::model::ContentVersion;
use shard::model::Platform;
use shard::model::ReleaseChannel;
use shard::ops::find_version;
use shard::ops::parse_content_type;
use shard::ops::parse_loader;
use shard::ops::parse_platform;
use shard::paths::Paths;

#[test]
fn loader_notation_parses() {
    let l = parse_loader("fabric@0.15.3").expect("parses");
    assert_eq!(l.loader_type, "fabric");
    assert_eq!(l.version, "0.15.3");
    assert!(parse_loader("fabric").is_none());
    assert!(parse_loader("@0.15.3").is_none());
    assert!(parse_loader("fabric@").is_none());
}

#[test]
fn platform_names_parse() {
    assert_eq!(parse_platform("modrinth"), Some(Platform::Modrinth));
    assert_eq!(parse_platform("CurseForge"), Some(Platform::CurseForge));
    assert_eq!(parse_platform("other"), None);
}

#[test]
fn content_type_names_parse() {
    assert_eq!(parse_content_type("mod"), Some(ContentType::Mod));
    assert_eq!(parse_content_type("resourcepack"), Some(ContentType::ResourcePack));
    assert_eq!(parse_content_type("shader"), Some(ContentType::ShaderPack));
    assert_eq!(parse_content_type("Shaderpack"), Some(ContentType::ShaderPack));
    assert_eq!(parse_content_type("modpack"), Some(ContentType::ModPack));
    assert_eq!(parse_content_type("nothing"), None);
}

#[test]
fn versions_are_found_by_id_or_name() {
    let v = |id: &str, name: &str| ContentVersion {
        id: id.to_string(),
        platform: Platform::Modrinth,
        parent_item_id: "p".to_string(),
        display_name: name.to_string(),
        release_channel: ReleaseChannel::Release,
        publish_date: String::new(),
        supported_game_versions: Vec::new(),
        supported_loaders: Vec::new(),
        files: Vec::new(),
    };
    let versions = vec![v("v1", "One"), v("v2", "Two")];
    assert_eq!(find_version(&versions, "v2"), Some(1));
    assert_eq!(find_version(&versions, "One"), Some(0));
    assert_eq!(find_version(&versions, "v9"), None);
}

#[test]
fn paths_are_deterministic() {
    let paths = Paths { root: "/home/user/.shard".to_string() };
    assert_eq!(paths.profiles_dir(), "/home/user/.shard/profiles");
    assert_eq!(paths.profile_json("base"), "/home/user/.shard/profiles/base.json");
    assert_eq!(paths.config_json(), "/home/user/.shard/config.json");
    assert_eq!(paths.accounts_json(), "/home/user/.shard/accounts.json");
    assert_eq!(paths.instance_dir("base"), "/home/user/.shard/instances/base");
    assert_eq!(paths.instance_logs_dir("base"), "/home/user/.shard/instances/base/logs");
    assert_eq!(
        paths.instance_latest_log("base"),
        "/home/user/.shard/instances/base/logs/latest.log"
    );
    assert_eq!(
        paths.instance_crash_reports("base"),
        "/home/user/.shard/instances/base/crash-reports"
    );
    assert_eq!(paths.templates_dir(), "/home/user/.shard/templates");
    assert_eq!(paths.template_json("vanilla"), "/home/user/.shard/templates/vanilla.json");
    assert_eq!(
        paths.store_path(ContentType::Mod, "a9993e364706816aba3e25717850c26c9cd0d89d"),
        "/home/user/.shard/store/mods/a9993e364706816aba3e25717850c26c9cd0d89d"
    );
    assert_eq!(
        paths.store_path(ContentType::ShaderPack, "ff"),
        "/home/user/.shard/store/shaderpacks/ff"
    );
}

#[test]
fn config_defaults() {
    assert!(default_auto_update());
    let c = Config::default();
    assert!(c.msa_client_id.is_none());
    assert!(c.msa_client_secret.is_none());
    assert!(c.curseforge_api_key.is_none());
    assert!(c.auto_update_enabled);
}

#[test]
fn error_messages_name_the_failure() {
    assert_eq!(LauncherError::NotFound.as_str(), "project or version not found");
    assert_eq!(LauncherError::NoCompatibleVersion.as_str(), "no compatible version found");
    assert_eq!(
        LauncherError::DistributionDisabled.as_str(),
        "distribution is disabled by the project owner"
    );
    assert_eq!(
        LauncherError::HashMismatch.as_str(),
        "downloaded file does not match the advertised hash"
    );
    assert_eq!(LauncherError::DownloadFailed.as_str(), "download failed");
    assert_eq!(LauncherError::StoreWriteFailed.as_str(), "failed to write to the content store");
    assert_eq!(LauncherError::AlreadyExists.as_str(), "a profile with this id already exists");
    assert_eq!(LauncherError::ProfileNotFound.as_str(), "profile not found");
}
