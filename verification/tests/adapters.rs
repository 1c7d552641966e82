use shard::curseforge;
use shard::model::ContentType;
use shard::model::Platform;
use shard::model::ReleaseChannel;
use shard::modrinth;
use shard::modrinth::ProjectType;
use shard::modrinth::SearchFacets;

#[test]
fn facets_string_grammar() {
    let facets = SearchFacets {
        project_type: Some(ProjectType::Mod),
        categories: vec!["optimization".to_string()],
        game_versions: vec!["1.21.4".to_string()],
    };
    assert_eq!(
        facets.to_facets_string(),
        "[[\"project_types:mod\"],[\"categories:optimization\"],[\"game_versions:1.21.4\"]]"
    );
}

#[test]
fn empty_facets_are_the_empty_string() {
    let facets = SearchFacets { project_type: None, categories: Vec::new(), game_versions: Vec::new() };
    assert_eq!(facets.to_facets_string(), "");
}

#[test]
fn modrinth_search_url_percent_encodes() {
    let facets = SearchFacets { project_type: None, categories: Vec::new(), game_versions: Vec::new() };
    let url = modrinth::search_url("fabric api", &facets, 20, 0);
    assert_eq!(
        url,
        "https://api.modrinth.com/v2/search?query=fabric%20api&limit=20&offset=0"
    );

    let facets = SearchFacets {
        project_type: Some(ProjectType::Shader),
        categories: Vec::new(),
        game_versions: Vec::new(),
    };
    let url = modrinth::search_url("iris", &facets, 10, 5);
    assert_eq!(
        url,
        "https://api.modrinth.com/v2/search?query=iris&limit=10&offset=5&facets=%5B%5B%22project_types%3Ashader%22%5D%5D"
    );
}

#[test]
fn modrinth_project_and_versions_urls() {
    assert_eq!(modrinth::project_url("sodium"), "https://api.modrinth.com/v2/project/sodium");
    assert_eq!(
        modrinth::versions_url("sodium", Some("1.21.4"), Some("fabric")),
        "https://api.modrinth.com/v2/project/sodium/version?game_versions=[\"1.21.4\"]&loaders=[\"fabric\"]"
    );
    assert_eq!(
        modrinth::versions_url("sodium", None, Some("fabric")),
        "https://api.modrinth.com/v2/project/sodium/version?loaders=[\"fabric\"]"
    );
    assert_eq!(
        modrinth::versions_url("sodium", None, None),
        "https://api.modrinth.com/v2/project/sodium/version"
    );
}

fn modrinth_version() -> modrinth::Version {
    modrinth::Version {
        id: "v2".to_string(),
        project_id: "sodium".to_string(),
        name: "Sodium 0.6".to_string(),
        version_number: "0.6.0".to_string(),
        changelog: String::new(),
        date_published: "2025-01-01".to_string(),
        downloads: 100,
        version_type: "release".to_string(),
        loaders: vec!["fabric".to_string()],
        game_versions: vec!["1.21.4".to_string()],
        files: vec![modrinth::VersionFile {
            url: "https://cdn.modrinth.com/sodium.jar".to_string(),
            filename: "sodium.jar".to_string(),
            primary: true,
            size: 1234,
            hashes: modrinth::FileHashes {
                sha1: "a9993e364706816aba3e25717850c26c9cd0d89d".to_string(),
                sha512: "ddaf35a1".to_string(),
            },
        }],
        dependencies: Vec::new(),
    }
}

#[test]
fn modrinth_version_translates_with_sha1_surfaced() {
    let v = modrinth_version();
    let c = modrinth::to_content_version(&v);
    assert_eq!(c.id, "v2");
    assert_eq!(c.platform, Platform::Modrinth);
    assert_eq!(c.parent_item_id, "sodium");
    assert_eq!(c.release_channel, ReleaseChannel::Release);
    assert_eq!(c.supported_loaders, vec!["fabric".to_string()]);
    assert_eq!(c.files.len(), 1);
    let f = &c.files[0];
    assert_eq!(f.url, Some("https://cdn.modrinth.com/sodium.jar".to_string()));
    assert!(f.primary);
    // SHA-1 is the canonical cross-platform hash and comes first.
    assert_eq!(f.hashes[0].algo, "sha1");
    assert_eq!(f.hashes[0].value, "a9993e364706816aba3e25717850c26c9cd0d89d");
}

#[test]
fn modrinth_beta_and_unknown_channels() {
    let mut v = modrinth_version();
    v.version_type = "beta".to_string();
    assert_eq!(modrinth::to_content_version(&v).release_channel, ReleaseChannel::Beta);
    v.version_type = "weird".to_string();
    assert_eq!(modrinth::to_content_version(&v).release_channel, ReleaseChannel::Alpha);
}

#[test]
fn modrinth_loader_post_filter() {
    let hit = |id: &str, cats: &[&str]| modrinth::SearchHit {
        project_id: id.to_string(),
        slug: id.to_string(),
        project_type: ProjectType::Mod,
        title: id.to_string(),
        description: String::new(),
        icon_url: None,
        downloads: 0,
        follows: 0,
        categories: cats.iter().map(|s| s.to_string()).collect(),
        versions: Vec::new(),
        latest_version: None,
        date_modified: String::new(),
        date_created: String::new(),
    };
    let hits = vec![hit("a", &["fabric", "optimization"]), hit("b", &["forge"])];
    let kept = modrinth::filter_hits_by_loader(hits, "fabric");
    assert_eq!(kept.len(), 1);
    assert_eq!(kept[0].project_id, "a");
}

#[test]
fn curseforge_loader_parse() {
    assert_eq!(curseforge::ModLoaderType::parse("Forge"), curseforge::ModLoaderType::Forge);
    assert_eq!(curseforge::ModLoaderType::parse("fabric"), curseforge::ModLoaderType::Fabric);
    assert_eq!(curseforge::ModLoaderType::parse("NEOFORGE"), curseforge::ModLoaderType::NeoForge);
    assert_eq!(curseforge::ModLoaderType::parse("unknown"), curseforge::ModLoaderType::Any);
}

fn curseforge_file() -> curseforge::File {
    curseforge::File {
        id: 777,
        game_id: 432,
        mod_id: 555,
        is_available: true,
        display_name: "Thing 2.0".to_string(),
        file_name: "thing-2.0.jar".to_string(),
        release_type: 1,
        file_status: 4,
        hashes: vec![
            curseforge::FileHash { value: "deadbeef".to_string(), algo: 2 },
            curseforge::FileHash {
                value: "a9993e364706816aba3e25717850c26c9cd0d89d".to_string(),
                algo: 1,
            },
        ],
        file_date: "2025-01-01".to_string(),
        file_length: 42,
        download_count: 9,
        download_url: Some("https://edge.forgecdn.net/thing-2.0.jar".to_string()),
        game_versions: vec!["1.21.4".to_string(), "Fabric".to_string()],
        sortable_game_versions: Vec::new(),
        dependencies: Vec::new(),
        expose_as_alternative: None,
        parent_project_file_id: None,
        alternate_file_id: None,
        is_server_pack: Some(false),
        server_pack_file_id: None,
        file_fingerprint: 1,
        modules: Vec::new(),
    }
}

#[test]
fn curseforge_get_sha1_hash() {
    let f = curseforge_file();
    assert_eq!(curseforge::get_sha1_hash(&f), Some("a9993e364706816aba3e25717850c26c9cd0d89d"));
    let mut f2 = curseforge_file();
    f2.hashes.retain(|h| h.algo != 1);
    assert_eq!(curseforge::get_sha1_hash(&f2), None);
}

#[test]
fn curseforge_file_translates() {
    let f = curseforge_file();
    let c = curseforge::file_to_content(&f);
    assert_eq!(c.id, "777");
    assert_eq!(c.platform, Platform::CurseForge);
    assert_eq!(c.parent_item_id, "555");
    assert_eq!(c.release_channel, ReleaseChannel::Release);
    // The mixed game-version list is split: loader names case-folded out.
    assert_eq!(c.supported_game_versions, vec!["1.21.4".to_string()]);
    assert_eq!(c.supported_loaders, vec!["fabric".to_string()]);
    assert_eq!(c.files.len(), 1);
    let file = &c.files[0];
    assert_eq!(file.url, Some("https://edge.forgecdn.net/thing-2.0.jar".to_string()));
    assert_eq!(file.size, 42);
    // SHA-1 surfaced under the canonical name even though the registry
    // lists MD5 first.
    assert_eq!(file.hashes[0].algo, "sha1");
    assert_eq!(file.hashes[0].value, "a9993e364706816aba3e25717850c26c9cd0d89d");
}

#[test]
fn curseforge_search_url_grammar() {
    let url = curseforge::search_url(
        "just enough items",
        Some(curseforge::CLASS_MODS),
        Some("1.21.4"),
        Some(curseforge::ModLoaderType::Fabric),
        25,
        0,
        Some(curseforge::SearchSortField::Popularity),
    );
    assert_eq!(
        url,
        "https://api.curseforge.com/v1/mods/search?gameId=432&searchFilter=just%20enough%20items&pageSize=25&index=0&classId=6&gameVersion=1.21.4&modLoaderType=4&sortField=2&sortOrder=desc"
    );
}

#[test]
fn curseforge_mod_and_file_urls() {
    assert_eq!(curseforge::mod_url(555), "https://api.curseforge.com/v1/mods/555");
    assert_eq!(
        curseforge::file_url(555, 777),
        "https://api.curseforge.com/v1/mods/555/files/777"
    );
    assert_eq!(
        curseforge::mod_files_url(555, Some("1.21.4"), None, 1, 0),
        "https://api.curseforge.com/v1/mods/555/files?pageSize=1&index=0&gameVersion=1.21.4"
    );
}

#[test]
fn curseforge_mod_translates() {
    let m = curseforge::Mod {
        id: 555,
        game_id: 432,
        name: "Thing".to_string(),
        slug: "thing".to_string(),
        summary: "A thing.".to_string(),
        links: curseforge::ModLinks {
            website_url: None,
            wiki_url: None,
            issues_url: None,
            source_url: None,
        },
        status: 4,
        download_count: 12345,
        is_featured: false,
        primary_category_id: 1,
        class_id: Some(curseforge::CLASS_SHADERS),
        categories: vec![],
        authors: vec![],
        logo: None,
        screenshots: vec![],
        main_file_id: 777,
        latest_files: vec![],
        latest_files_indexes: vec![],
        date_created: String::new(),
        date_modified: String::new(),
        date_released: String::new(),
        allow_mod_distribution: Some(true),
        game_popularity_rank: 1,
        is_available: true,
        thumbs_up_count: 0,
    };
    let item = curseforge::mod_to_item(&m);
    assert_eq!(item.id, "555");
    assert_eq!(item.content_type, ContentType::ShaderPack);
    assert_eq!(item.download_count, 12345);
}

#[test]
fn curseforge_game_versions_flatten_in_order() {
    let groups = vec![
        curseforge::GameVersionGroup {
            version_type: 1,
            versions: vec!["1.21.4".to_string(), "1.21.3".to_string()],
        },
        curseforge::GameVersionGroup { version_type: 2, versions: vec!["24w14a".to_string()] },
    ];
    let flat = curseforge::flatten_game_versions(&groups);
    let pairs: Vec<(String, u32)> =
        flat.iter().map(|v| (v.version.clone(), v.version_type)).collect();
    assert_eq!(
        pairs,
        vec![
            ("1.21.4".to_string(), 1),
            ("1.21.3".to_string(), 1),
            ("24w14a".to_string(), 2),
        ]
    );
}
