//! Profile templates and the template installer's decision logic. A
//! template declares wanted content; planning keeps exactly the entries
//! marked required — optional entries are never attempted — and applying
//! the per-item outcomes upserts each fetched reference into the right
//! list while collecting the names of items that failed, so the batch
//! never aborts on one bad entry and the skips stay observable.

use vstd::prelude::*;
use vstd::string::StringExecFns;
use crate::model::ContentRef;
use crate::model::ContentType;
use crate::model::copy_content_ref;
use crate::model::copy_opt_string;
use crate::model::copy_strings;
use crate::model::opt_str_eq;
use crate::profile::Loader;
use crate::profile::Profile;
use crate::profile::Runtime;
use crate::profile::upsert_seq;
use crate::profile::upsert_mod;
use crate::profile::upsert_resourcepack;
use crate::profile::upsert_shaderpack;

verus! {

/// Loader configuration carried by a template.
#[derive(Debug, Clone)]
pub struct TemplateLoader {
    pub loader_type: String,
    pub version: String,
}

/// Where a template entry's content comes from.
#[derive(Debug, Clone)]
pub enum ContentSource {
    /// A Modrinth project, by slug or id.
    Modrinth { project: String },
    /// A CurseForge project, by numeric id.
    CurseForge { project_id: u32 },
    /// A direct URL download.
    Url { url: String },
}

/// One wanted piece of content in a template.
#[derive(Debug, Clone)]
pub struct TemplateContent {
    pub name: String,
    pub source: ContentSource,
    pub version: Option<String>,
    pub required: bool,
}

/// Runtime configuration carried by a template.
#[derive(Debug, Clone)]
pub struct TemplateRuntime {
    pub java: Option<String>,
    pub memory: Option<String>,
    pub args: Vec<String>,
}

/// A profile template: identity, game version, loader, wanted content and
/// runtime settings.
#[derive(Debug, Clone)]
pub struct Template {
    pub id: String,
    pub name: String,
    pub description: String,
    pub mc_version: String,
    pub loader: Option<TemplateLoader>,
    pub mods: Vec<TemplateContent>,
    pub resourcepacks: Vec<TemplateContent>,
    pub shaderpacks: Vec<TemplateContent>,
    pub runtime: TemplateRuntime,
}

/// The default for a template entry's `required` flag.
pub fn default_true() -> (b: bool)
    ensures
        b,
{
    true
}

/// A copy of a content source describing the same origin.
pub fn copy_content_source(s: &ContentSource) -> (o: ContentSource)
    ensures
        o == *s,
{
    match s {
        ContentSource::Modrinth { project } => ContentSource::Modrinth {
            project: project.clone(),
        },
        ContentSource::CurseForge { project_id } => ContentSource::CurseForge {
            project_id: *project_id,
        },
        ContentSource::Url { url } => ContentSource::Url { url: url.clone() },
    }
}

/// A copy of a template entry holding the same values.
pub fn copy_template_content(e: &TemplateContent) -> (o: TemplateContent)
    ensures
        o == *e,
{
    TemplateContent {
        name: e.name.clone(),
        source: copy_content_source(&e.source),
        version: copy_opt_string(&e.version),
        required: e.required,
    }
}

/// The entries of a template list that installation attempts: exactly the
/// ones marked required, in order.
pub open spec fn required_only(s: Seq<TemplateContent>) -> Seq<TemplateContent>
    decreases s.len(),
{
    if s.len() == 0 {
        Seq::empty()
    } else if s[0].required {
        seq![s[0]] + required_only(s.drop_first())
    } else {
        required_only(s.drop_first())
    }
}

/// Law: planning never keeps an entry that is not marked required, and it
/// keeps every entry that is.
pub proof fn lemma_required_only(s: Seq<TemplateContent>)
    ensures
        forall|k: int| 0 <= k < required_only(s).len() ==> (#[trigger] required_only(s)[k]).required,
        forall|k: int|
            0 <= k < s.len() && (#[trigger] s[k]).required ==> required_only(s).contains(s[k]),
    decreases s.len(),
{
    if s.len() > 0 {
        lemma_required_only(s.drop_first());
        let rest = required_only(s.drop_first());
        assert forall|k: int| 0 <= k < s.len() && (#[trigger] s[k]).required implies required_only(
            s,
        ).contains(s[k]) by {
            if k == 0 {
                assert(required_only(s)[0] == s[0]);
            } else {
                assert(s.drop_first()[k - 1] == s[k]);
                assert(rest.contains(s[k]));
                let w = choose|w: int| 0 <= w < rest.len() && rest[w] == s[k];
                if s[0].required {
                    assert(required_only(s)[w + 1] == rest[w]);
                }
            }
        }
        if s[0].required {
            assert forall|k: int|
                0 <= k < required_only(s).len() implies (#[trigger] required_only(
                s,
            )[k]).required by {
                if k > 0 {
                    assert(required_only(s)[k] == rest[k - 1]);
                }
            }
        }
    }
}

/// Keep the entries installation will attempt: exactly those marked
/// required, in order. Optional entries are never attempted at all.
pub fn plan_installs(entries: &Vec<TemplateContent>) -> (plan: Vec<TemplateContent>)
    ensures
        plan@ == required_only(entries@),
{
    let n = entries.len();
    let mut plan: Vec<TemplateContent> = Vec::new();
    let mut i: usize = 0;
    proof {
        assert(entries@.subrange(0, n as int) =~= entries@);
        assert(plan@ + required_only(entries@.subrange(0, n as int)) =~= required_only(entries@));
    }
    while i < n
        invariant
            i <= n,
            n == entries@.len(),
            required_only(entries@) == plan@ + required_only(entries@.subrange(i as int, n as int)),
        decreases n - i,
    {
        proof {
            assert(entries@.subrange(i as int, n as int)[0] == entries@[i as int]);
            assert(entries@.subrange(i as int, n as int).drop_first() =~= entries@.subrange(
                i + 1 as int,
                n as int,
            ));
        }
        if entries[i].required {
            let e = copy_template_content(&entries[i]);
            proof {
                assert(plan@.push(e) + required_only(entries@.subrange(i + 1 as int, n as int))
                    =~= plan@ + (seq![entries@[i as int]] + required_only(
                    entries@.subrange(i + 1 as int, n as int),
                )));
            }
            plan.push(e);
        }
        i = i + 1;
    }
    proof {
        assert(required_only(entries@.subrange(n as int, n as int)) =~= Seq::<
            TemplateContent,
        >::empty());
        assert(plan@ + Seq::<TemplateContent>::empty() =~= plan@);
    }
    plan
}

/// The outcome of attempting one planned entry: the fetched reference, or
/// nothing when resolution or download failed.
#[derive(Debug, Clone)]
pub struct InstallOutcome {
    pub name: String,
    pub kind: ContentType,
    pub result: Option<ContentRef>,
}

/// The mods list after applying the outcomes in order.
pub open spec fn apply_mods(ms: Seq<ContentRef>, outcomes: Seq<InstallOutcome>) -> Seq<ContentRef>
    decreases outcomes.len(),
{
    if outcomes.len() == 0 {
        ms
    } else {
        apply_mods(
            match outcomes[0].result {
                Option::Some(r) => if outcomes[0].kind == ContentType::Mod || outcomes[0].kind
                    == ContentType::ModPack {
                    upsert_seq(ms, r)
                } else {
                    ms
                },
                Option::None => ms,
            },
            outcomes.drop_first(),
        )
    }
}

/// The resource pack list after applying the outcomes in order.
pub open spec fn apply_resourcepacks(
    ps: Seq<ContentRef>,
    outcomes: Seq<InstallOutcome>,
) -> Seq<ContentRef>
    decreases outcomes.len(),
{
    if outcomes.len() == 0 {
        ps
    } else {
        apply_resourcepacks(
            match outcomes[0].result {
                Option::Some(r) => if outcomes[0].kind == ContentType::ResourcePack {
                    upsert_seq(ps, r)
                } else {
                    ps
                },
                Option::None => ps,
            },
            outcomes.drop_first(),
        )
    }
}

/// The shader pack list after applying the outcomes in order.
pub open spec fn apply_shaderpacks(
    ss: Seq<ContentRef>,
    outcomes: Seq<InstallOutcome>,
) -> Seq<ContentRef>
    decreases outcomes.len(),
{
    if outcomes.len() == 0 {
        ss
    } else {
        apply_shaderpacks(
            match outcomes[0].result {
                Option::Some(r) => if outcomes[0].kind == ContentType::ShaderPack {
                    upsert_seq(ss, r)
                } else {
                    ss
                },
                Option::None => ss,
            },
            outcomes.drop_first(),
        )
    }
}

/// The names of the outcomes that failed, in order: the observable
/// skipped-items report.
pub open spec fn skipped_of(outcomes: Seq<InstallOutcome>) -> Seq<Seq<char>>
    decreases outcomes.len(),
{
    if outcomes.len() == 0 {
        Seq::empty()
    } else if outcomes[0].result is None {
        seq![outcomes[0].name@] + skipped_of(outcomes.drop_first())
    } else {
        skipped_of(outcomes.drop_first())
    }
}

/// The views of a string vector.
pub open spec fn views_of(v: Seq<String>) -> Seq<Seq<char>> {
    v.map_values(|s: String| s@)
}

/// Apply the per-item outcomes of a template installation to a profile:
/// each fetched reference is upserted into the list its kind names, and
/// the names of failed items are returned so the caller can report them.
/// One failed item never aborts the batch.
pub fn apply_install_outcomes(profile: &mut Profile, outcomes: Vec<InstallOutcome>) -> (skipped:
    Vec<String>)
    ensures
        final(profile).mods@ == apply_mods(old(profile).mods@, outcomes@),
        final(profile).resourcepacks@ == apply_resourcepacks(old(profile).resourcepacks@, outcomes@),
        final(profile).shaderpacks@ == apply_shaderpacks(old(profile).shaderpacks@, outcomes@),
        views_of(skipped@) == skipped_of(outcomes@),
        final(profile).id == old(profile).id,
        final(profile).mc_version == old(profile).mc_version,
        final(profile).loader == old(profile).loader,
        final(profile).runtime == old(profile).runtime,
{
    let n = outcomes.len();
    let mut skipped: Vec<String> = Vec::new();
    let mut i: usize = 0;
    proof {
        assert(outcomes@.subrange(0, n as int) =~= outcomes@);
        assert(outcomes@.subrange(i as int, n as int) =~= outcomes@);
        assert(views_of(skipped@) + skipped_of(outcomes@) =~= skipped_of(outcomes@));
    }
    while i < n
        invariant
            i <= n,
            n == outcomes@.len(),
            apply_mods(old(profile).mods@, outcomes@) == apply_mods(
                profile.mods@,
                outcomes@.subrange(i as int, n as int),
            ),
            apply_resourcepacks(old(profile).resourcepacks@, outcomes@) == apply_resourcepacks(
                profile.resourcepacks@,
                outcomes@.subrange(i as int, n as int),
            ),
            apply_shaderpacks(old(profile).shaderpacks@, outcomes@) == apply_shaderpacks(
                profile.shaderpacks@,
                outcomes@.subrange(i as int, n as int),
            ),
            skipped_of(outcomes@) == views_of(skipped@) + skipped_of(
                outcomes@.subrange(i as int, n as int),
            ),
            profile.id == old(profile).id,
            profile.mc_version == old(profile).mc_version,
            profile.loader == old(profile).loader,
            profile.runtime == old(profile).runtime,
        decreases n - i,
    {
        proof {
            assert(outcomes@.subrange(i as int, n as int)[0] == outcomes@[i as int]);
            assert(outcomes@.subrange(i as int, n as int).drop_first() =~= outcomes@.subrange(
                i + 1 as int,
                n as int,
            ));
        }
        let o = &outcomes[i];
        match &o.result {
            Some(r) => {
                let cref = copy_content_ref(r);
                match o.kind {
                    ContentType::Mod => {
                        upsert_mod(profile, cref);
                    },
                    ContentType::ModPack => {
                        upsert_mod(profile, cref);
                    },
                    ContentType::ResourcePack => {
                        upsert_resourcepack(profile, cref);
                    },
                    ContentType::ShaderPack => {
                        upsert_shaderpack(profile, cref);
                    },
                }
            },
            None => {
                let name = o.name.clone();
                proof {
                    assert(views_of(skipped@.push(name)) =~= views_of(skipped@) + seq![name@]);
                    assert(views_of(skipped@) + (seq![outcomes@[i as int].name@] + skipped_of(
                        outcomes@.subrange(i + 1 as int, n as int),
                    )) =~= views_of(skipped@.push(name)) + skipped_of(
                        outcomes@.subrange(i + 1 as int, n as int),
                    ));
                }
                skipped.push(name);
            },
        }
        i = i + 1;
    }
    proof {
        assert(outcomes@.subrange(n as int, n as int).len() == 0);
        assert(views_of(skipped@) + Seq::<Seq<char>>::empty() =~= views_of(skipped@));
    }
    skipped
}

/// The built-in template for unmodified gameplay: no loader, no content.
pub fn create_vanilla_template() -> (t: Template)
    ensures
        t.id@ == "vanilla"@,
        t.name@ == "Vanilla"@,
        t.mc_version@ == "1.21.4"@,
        t.loader is None,
        t.mods@.len() == 0,
        t.resourcepacks@.len() == 0,
        t.shaderpacks@.len() == 0,
        t.runtime.java is None,
        t.runtime.memory is Some && t.runtime.memory.unwrap()@ == "2G"@,
        t.runtime.args@.len() == 0,
{
    Template {
        id: String::from_str("vanilla"),
        name: String::from_str("Vanilla"),
        description: String::from_str("Pure Minecraft experience with no mods."),
        mc_version: String::from_str("1.21.4"),
        loader: None,
        mods: Vec::new(),
        resourcepacks: Vec::new(),
        shaderpacks: Vec::new(),
        runtime: TemplateRuntime {
            java: None,
            memory: Some(String::from_str("2G")),
            args: Vec::new(),
        },
    }
}

/// One required Modrinth entry for a built-in template.
fn builtin_mod(name: &str, project: &str) -> (e: TemplateContent)
    ensures
        e.name@ == name@,
        e.source matches ContentSource::Modrinth { project: p } && p@ == project@,
        e.version is None,
        e.required,
{
    TemplateContent {
        name: String::from_str(name),
        source: ContentSource::Modrinth { project: String::from_str(project) },
        version: None,
        required: true,
    }
}

/// The built-in template for optimized Fabric gameplay: Sodium, Iris,
/// Lithium, Fabric API and Mod Menu, all required.
pub fn create_default_template() -> (t: Template)
    ensures
        t.id@ == "default"@,
        t.name@ == "Default"@,
        t.mc_version@ == "1.21.4"@,
        t.loader matches Some(l) && l.loader_type@ == "fabric"@ && l.version@ == "latest"@,
        t.mods@.len() == 5,
        t.mods@[0].source matches ContentSource::Modrinth { project: p } && p@ == "sodium"@,
        t.mods@[1].source matches ContentSource::Modrinth { project: p } && p@ == "iris"@,
        t.mods@[2].source matches ContentSource::Modrinth { project: p } && p@ == "lithium"@,
        t.mods@[3].source matches ContentSource::Modrinth { project: p } && p@ == "fabric-api"@,
        t.mods@[4].source matches ContentSource::Modrinth { project: p } && p@ == "modmenu"@,
        forall|k: int| 0 <= k < t.mods@.len() ==> (#[trigger] t.mods@[k]).required,
        t.resourcepacks@.len() == 0,
        t.shaderpacks@.len() == 0,
        t.runtime.memory is Some && t.runtime.memory.unwrap()@ == "4G"@,
{
    let mut mods: Vec<TemplateContent> = Vec::new();
    mods.push(builtin_mod("Sodium", "sodium"));
    mods.push(builtin_mod("Iris Shaders", "iris"));
    mods.push(builtin_mod("Lithium", "lithium"));
    mods.push(builtin_mod("Fabric API", "fabric-api"));
    mods.push(builtin_mod("Mod Menu", "modmenu"));
    Template {
        id: String::from_str("default"),
        name: String::from_str("Default"),
        description: String::from_str("Optimized Fabric with Sodium, Iris, and performance mods."),
        mc_version: String::from_str("1.21.4"),
        loader: Some(
            TemplateLoader {
                loader_type: String::from_str("fabric"),
                version: String::from_str("latest"),
            },
        ),
        mods,
        resourcepacks: Vec::new(),
        shaderpacks: Vec::new(),
        runtime: TemplateRuntime {
            java: None,
            memory: Some(String::from_str("4G")),
            args: Vec::new(),
        },
    }
}

/// The loader and runtime a new profile takes from a template, with
/// caller-supplied overrides winning over the template's values.
pub fn template_settings(
    template: &Template,
    java: Option<String>,
    memory: Option<String>,
    args: Option<Vec<String>>,
) -> (r: (Option<Loader>, Runtime))
    ensures
        (match (r.0, template.loader) {
            (Option::Some(l), Option::Some(t)) => l.loader_type@ == t.loader_type@ && l.version@
                == t.version@,
            (Option::None, Option::None) => true,
            _ => false,
        }),
        opt_str_eq(
            r.1.java,
            if java is Some {
                java
            } else {
                template.runtime.java
            },
        ),
        opt_str_eq(
            r.1.memory,
            if memory is Some {
                memory
            } else {
                template.runtime.memory
            },
        ),
        r.1.args@ == (match args {
            Option::Some(a) => a@,
            Option::None => template.runtime.args@,
        }),
{
    let loader = match &template.loader {
        Some(t) => Some(Loader { loader_type: t.loader_type.clone(), version: t.version.clone() }),
        None => None,
    };
    let java_choice = match java {
        Some(j) => Some(j),
        None => copy_opt_string(&template.runtime.java),
    };
    let memory_choice = match memory {
        Some(m) => Some(m),
        None => copy_opt_string(&template.runtime.memory),
    };
    let args_choice = match args {
        Some(a) => a,
        None => copy_strings(&template.runtime.args),
    };
    (loader, Runtime { java: java_choice, memory: memory_choice, args: args_choice })
}

} // verus!
