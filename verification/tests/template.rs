use shard::model::ContentRef;
use shard::model::ContentType;
use shard::model::RefSource;
use shard::profile::Profile;
use shard::profile::Runtime;
use shard::template::ContentSource;
use shard::template::InstallOutcome;
use shard::template::Template;
use shard::template::TemplateContent;
use shard::template::TemplateRuntime;
use shard::template::apply_install_outcomes;
use shard::template::create_default_template;
use shard::template::create_vanilla_template;
use shard::template::default_true;
use shard::template::plan_installs;
use shard::template::template_settings;

fn entry(name: &str, project: &str, required: bool) -> TemplateContent {
    TemplateContent {
        name: name.to_string(),
        source: ContentSource::Modrinth { project: project.to_string() },
        version: None,
        required,
    }
}

fn empty_profile() -> Profile {
    Profile {
        id: "p".to_string(),
        mc_version: "1.21.4".to_string(),
        loader: None,
        runtime: Runtime { java: None, memory: None, args: Vec::new() },
        mods: Vec::new(),
        resourcepacks: Vec::new(),
        shaderpacks: Vec::new(),
    }
}

#[test]
fn optional_entries_are_never_attempted() {
    // An optional entry pointing at a project that would 404 never reaches
    // resolution: it is not in the plan, so it cannot abort the batch and
    // cannot show up in the skipped report either.
    let entries = vec![
        entry("Wanted", "sodium", true),
        entry("NiceToHave", "does-not-exist", false),
        entry("AlsoWanted", "lithium", true),
    ];
    let plan = plan_installs(&entries);
    assert_eq!(plan.len(), 2);
    assert_eq!(plan[0].name, "Wanted");
    assert_eq!(plan[1].name, "AlsoWanted");
    assert!(plan.iter().all(|e| e.required));
}

#[test]
fn failed_items_are_skipped_and_reported() {
    let mut p = empty_profile();
    let ok_ref = ContentRef {
        name: "Sodium".to_string(),
        hash: Some("h1".to_string()),
        version: None,
        source: RefSource::Local,
        file_name: None,
    };
    let outcomes = vec![
        InstallOutcome { name: "Sodium".to_string(), kind: ContentType::Mod, result: Some(ok_ref) },
        InstallOutcome { name: "Broken".to_string(), kind: ContentType::Mod, result: None },
    ];
    let skipped = apply_install_outcomes(&mut p, outcomes);
    assert_eq!(p.mods.len(), 1);
    assert_eq!(p.mods[0].name, "Sodium");
    assert_eq!(skipped, vec!["Broken".to_string()]);
}

#[test]
fn outcomes_go_to_the_list_their_kind_names() {
    let mut p = empty_profile();
    let make = |name: &str, kind| InstallOutcome {
        name: name.to_string(),
        kind,
        result: Some(ContentRef {
            name: name.to_string(),
            hash: Some(name.to_string()),
            version: None,
            source: RefSource::Local,
            file_name: None,
        }),
    };
    let outcomes = vec![
        make("m", ContentType::Mod),
        make("mp", ContentType::ModPack),
        make("rp", ContentType::ResourcePack),
        make("sp", ContentType::ShaderPack),
    ];
    let skipped = apply_install_outcomes(&mut p, outcomes);
    assert!(skipped.is_empty());
    assert_eq!(p.mods.len(), 2);
    assert_eq!(p.resourcepacks.len(), 1);
    assert_eq!(p.shaderpacks.len(), 1);
}

#[test]
fn builtin_templates() {
    assert!(default_true());
    let vanilla = create_vanilla_template();
    assert_eq!(vanilla.id, "vanilla");
    assert_eq!(vanilla.mc_version, "1.21.4");
    assert!(vanilla.loader.is_none());
    assert!(vanilla.mods.is_empty());
    assert_eq!(vanilla.runtime.memory, Some("2G".to_string()));

    let default = create_default_template();
    assert_eq!(default.id, "default");
    assert_eq!(default.mods.len(), 5);
    assert!(default.mods.iter().all(|m| m.required));
    let projects: Vec<String> = default
        .mods
        .iter()
        .map(|m| match &m.source {
            ContentSource::Modrinth { project } => project.clone(),
            _ => String::new(),
        })
        .collect();
    assert_eq!(projects, vec!["sodium", "iris", "lithium", "fabric-api", "modmenu"]);
    let loader = default.loader.expect("has loader");
    assert_eq!(loader.loader_type, "fabric");
    assert_eq!(loader.version, "latest");
}

#[test]
fn settings_prefer_caller_overrides() {
    let template = Template {
        id: "t".to_string(),
        name: "T".to_string(),
        description: String::new(),
        mc_version: "1.21.4".to_string(),
        loader: None,
        mods: Vec::new(),
        resourcepacks: Vec::new(),
        shaderpacks: Vec::new(),
        runtime: TemplateRuntime {
            java: Some("/usr/bin/java".to_string()),
            memory: Some("2G".to_string()),
            args: vec!["-XX:+UseG1GC".to_string()],
        },
    };
    let (loader, runtime) = template_settings(&template, None, Some("8G".to_string()), None);
    assert!(loader.is_none());
    assert_eq!(runtime.java, Some("/usr/bin/java".to_string()));
    assert_eq!(runtime.memory, Some("8G".to_string()));
    assert_eq!(runtime.args, vec!["-XX:+UseG1GC".to_string()]);
}
