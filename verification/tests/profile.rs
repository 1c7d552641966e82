use shard::error::LauncherError;
use shard::model::ContentRef;
use shard::model::RefSource;
use shard::profile::Profile;
use shard::profile::ProfileCatalog;
use shard::profile::Runtime;
use shard::profile::clone_profile;
use shard::profile::create_profile;
use shard::profile::delete_profile;
use shard::profile::diff_profiles;
use shard::profile::get_profile;
use shard::profile::list_profiles;
use shard::profile::remove_mod;
use shard::profile::upsert_mod;
use shard::profile::upsert_resourcepack;
use shard::profile::upsert_shaderpack;

fn content_ref(name: &str, hash: Option<&str>) -> ContentRef {
    ContentRef {
        name: name.to_string(),
        hash: hash.map(|h| h.to_string()),
        version: None,
        source: RefSource::Local,
        file_name: None,
    }
}

fn empty_profile(id: &str) -> Profile {
    Profile {
        id: id.to_string(),
        mc_version: "1.21.4".to_string(),
        loader: None,
        runtime: Runtime { java: None, memory: None, args: Vec::new() },
        mods: Vec::new(),
        resourcepacks: Vec::new(),
        shaderpacks: Vec::new(),
    }
}

#[test]
fn upsert_mod_is_idempotent() {
    let mut p = empty_profile("a");
    let r = content_ref("Sodium", Some("abc123"));
    let first = upsert_mod(&mut p, content_ref("Sodium", Some("abc123")));
    assert!(first);
    assert_eq!(p.mods.len(), 1);
    let second = upsert_mod(&mut p, r);
    assert!(!second);
    assert_eq!(p.mods.len(), 1);
}

#[test]
fn upsert_replaces_in_place_by_identity() {
    let mut p = empty_profile("a");
    upsert_mod(&mut p, content_ref("First", Some("h1")));
    upsert_mod(&mut p, content_ref("Second", Some("h2")));
    // Same hash, new name: replaced at position 0, order kept.
    let changed = upsert_mod(&mut p, content_ref("Renamed", Some("h1")));
    assert!(changed);
    assert_eq!(p.mods.len(), 2);
    assert_eq!(p.mods[0].name, "Renamed");
    assert_eq!(p.mods[1].name, "Second");
}

#[test]
fn identity_falls_back_to_case_insensitive_name() {
    let mut p = empty_profile("a");
    upsert_mod(&mut p, content_ref("Sodium", None));
    let changed = upsert_mod(&mut p, content_ref("SODIUM", None));
    // Same identity (case-folded name): replaced, list still has one entry.
    assert!(changed);
    assert_eq!(p.mods.len(), 1);
    assert_eq!(p.mods[0].name, "SODIUM");
}

#[test]
fn upsert_touches_only_the_target_list() {
    let mut p = empty_profile("a");
    upsert_resourcepack(&mut p, content_ref("Pack", Some("p1")));
    upsert_shaderpack(&mut p, content_ref("Shader", Some("s1")));
    upsert_mod(&mut p, content_ref("Mod", Some("m1")));
    assert_eq!(p.mods.len(), 1);
    assert_eq!(p.resourcepacks.len(), 1);
    assert_eq!(p.shaderpacks.len(), 1);
}

#[test]
fn remove_by_hash_and_by_name() {
    let mut p = empty_profile("a");
    upsert_mod(&mut p, content_ref("Sodium", Some("h1")));
    upsert_mod(&mut p, content_ref("Lithium", Some("h2")));
    assert!(remove_mod(&mut p, "h1"));
    assert_eq!(p.mods.len(), 1);
    assert!(remove_mod(&mut p, "LITHIUM"));
    assert_eq!(p.mods.len(), 0);
    assert!(!remove_mod(&mut p, "absent"));
}

#[test]
fn diff_profile_with_itself() {
    let mut p = empty_profile("a");
    upsert_mod(&mut p, content_ref("Sodium", Some("h1")));
    upsert_resourcepack(&mut p, content_ref("Pack", Some("h2")));
    let (only_a, only_b, both) = diff_profiles(&p, &p);
    assert!(only_a.is_empty());
    assert!(only_b.is_empty());
    let mut both_sorted = both.clone();
    both_sorted.sort();
    assert_eq!(both_sorted, vec!["h1".to_string(), "h2".to_string()]);
}

#[test]
fn diff_ignores_list_kind() {
    // The same hash in different list kinds still counts as shared.
    let mut a = empty_profile("a");
    upsert_mod(&mut a, content_ref("Thing", Some("h1")));
    let mut b = empty_profile("b");
    upsert_shaderpack(&mut b, content_ref("Thing", Some("h1")));
    let (only_a, only_b, both) = diff_profiles(&a, &b);
    assert!(only_a.is_empty());
    assert!(only_b.is_empty());
    assert_eq!(both, vec!["h1".to_string()]);
}

#[test]
fn diff_splits_sides() {
    let mut a = empty_profile("a");
    upsert_mod(&mut a, content_ref("Shared", Some("s")));
    upsert_mod(&mut a, content_ref("OnlyA", Some("x")));
    let mut b = empty_profile("b");
    upsert_mod(&mut b, content_ref("Shared", Some("s")));
    upsert_mod(&mut b, content_ref("OnlyB", Some("y")));
    let (only_a, only_b, both) = diff_profiles(&a, &b);
    assert_eq!(only_a, vec!["x".to_string()]);
    assert_eq!(only_b, vec!["y".to_string()]);
    assert_eq!(both, vec!["s".to_string()]);
}

#[test]
fn catalog_create_clone_delete() {
    let mut cat = ProfileCatalog { profiles: Vec::new() };
    let rt = Runtime { java: None, memory: Some("4G".to_string()), args: Vec::new() };
    let p = create_profile(&mut cat, "base", "1.21.4", None, rt).expect("creates");
    assert_eq!(p.id, "base");
    assert_eq!(p.mc_version, "1.21.4");

    let rt2 = Runtime { java: None, memory: None, args: Vec::new() };
    let err = create_profile(&mut cat, "base", "1.21.4", None, rt2).unwrap_err();
    assert_eq!(err, LauncherError::AlreadyExists);

    let copy = clone_profile(&mut cat, "base", "copy").expect("clones");
    assert_eq!(copy.id, "copy");
    assert_eq!(copy.mc_version, "1.21.4");
    assert_eq!(copy.runtime.memory, Some("4G".to_string()));

    let err = clone_profile(&mut cat, "missing", "other").unwrap_err();
    assert_eq!(err, LauncherError::ProfileNotFound);
    let err = clone_profile(&mut cat, "base", "copy").unwrap_err();
    assert_eq!(err, LauncherError::AlreadyExists);

    let ids = list_profiles(&cat);
    assert_eq!(ids, vec!["base".to_string(), "copy".to_string()]);

    assert!(get_profile(&cat, "base").is_some());
    assert!(get_profile(&cat, "nope").is_none());

    assert!(delete_profile(&mut cat, "base"));
    assert!(!delete_profile(&mut cat, "base"));
    assert_eq!(list_profiles(&cat), vec!["copy".to_string()]);
}

#[test]
fn clone_deep_copies_content_lists() {
    let mut cat = ProfileCatalog { profiles: Vec::new() };
    let rt = Runtime { java: None, memory: None, args: Vec::new() };
    create_profile(&mut cat, "base", "1.21.4", None, rt).expect("creates");
    // Mutate the stored profile through a fresh upsert, then clone.
    {
        let stored = cat.profiles.iter_mut().find(|p| p.id == "base").unwrap();
        upsert_mod(stored, content_ref("Sodium", Some("h1")));
    }
    let copy = clone_profile(&mut cat, "base", "copy").expect("clones");
    assert_eq!(copy.mods.len(), 1);
    assert_eq!(copy.mods[0].name, "Sodium");
}
