//! The launcher's on-disk layout, as path strings derived from one
//! per-user data directory: profiles, templates, instances and their
//! logs, the accounts and config files, and the content store, whose file
//! locations are a deterministic function of the artifact's hash.
//! Creating directories and checking existence belongs to the shell.

use vstd::prelude::*;
use vstd::string::StringExecFns;
use crate::model::ContentType;

verus! {

/// The per-user application data directory everything lives under.
#[derive(Debug, Clone)]
pub struct Paths {
    pub root: String,
}

/// The store subdirectory a content kind maps to.
pub open spec fn kind_dir(kind: ContentType) -> Seq<char> {
    match kind {
        ContentType::Mod => "mods"@,
        ContentType::ResourcePack => "resourcepacks"@,
        ContentType::ShaderPack => "shaderpacks"@,
        ContentType::ModPack => "modpacks"@,
    }
}

/// The store subdirectory name of a content kind.
pub fn kind_dir_name(kind: ContentType) -> (r: &'static str)
    ensures
        r@ == kind_dir(kind),
{
    match kind {
        ContentType::Mod => "mods",
        ContentType::ResourcePack => "resourcepacks",
        ContentType::ShaderPack => "shaderpacks",
        ContentType::ModPack => "modpacks",
    }
}

impl Paths {
    /// The directory holding profile files.
    pub fn profiles_dir(&self) -> (r: String)
        ensures
            r@ == self.root@ + "/profiles"@,
    {
        let mut p = self.root.clone();
        p.append("/profiles");
        p
    }

    /// The file a profile is persisted in.
    pub fn profile_json(&self, id: &str) -> (r: String)
        ensures
            r@ == self.root@ + "/profiles/"@ + id@ + ".json"@,
    {
        let mut p = self.root.clone();
        p.append("/profiles/");
        p.append(id);
        p.append(".json");
        p
    }

    /// The launcher's config file.
    pub fn config_json(&self) -> (r: String)
        ensures
            r@ == self.root@ + "/config.json"@,
    {
        let mut p = self.root.clone();
        p.append("/config.json");
        p
    }

    /// The accounts file.
    pub fn accounts_json(&self) -> (r: String)
        ensures
            r@ == self.root@ + "/accounts.json"@,
    {
        let mut p = self.root.clone();
        p.append("/accounts.json");
        p
    }

    /// A profile's instance directory.
    pub fn instance_dir(&self, profile_id: &str) -> (r: String)
        ensures
            r@ == self.root@ + "/instances/"@ + profile_id@,
    {
        let mut p = self.root.clone();
        p.append("/instances/");
        p.append(profile_id);
        p
    }

    /// The logs directory of a profile's instance.
    pub fn instance_logs_dir(&self, profile_id: &str) -> (r: String)
        ensures
            r@ == self.root@ + "/instances/"@ + profile_id@ + "/logs"@,
    {
        let mut p = self.instance_dir(profile_id);
        p.append("/logs");
        p
    }

    /// The current log file of a profile's instance.
    pub fn instance_latest_log(&self, profile_id: &str) -> (r: String)
        ensures
            r@ == self.root@ + "/instances/"@ + profile_id@ + "/logs"@ + "/latest.log"@,
    {
        let mut p = self.instance_logs_dir(profile_id);
        p.append("/latest.log");
        p
    }

    /// The crash-reports directory of a profile's instance.
    pub fn instance_crash_reports(&self, profile_id: &str) -> (r: String)
        ensures
            r@ == self.root@ + "/instances/"@ + profile_id@ + "/crash-reports"@,
    {
        let mut p = self.instance_dir(profile_id);
        p.append("/crash-reports");
        p
    }

    /// The directory holding templates.
    pub fn templates_dir(&self) -> (r: String)
        ensures
            r@ == self.root@ + "/templates"@,
    {
        let mut p = self.root.clone();
        p.append("/templates");
        p
    }

    /// The file a template is persisted in.
    pub fn template_json(&self, id: &str) -> (r: String)
        ensures
            r@ == self.root@ + "/templates"@ + "/"@ + id@ + ".json"@,
    {
        let mut p = self.templates_dir();
        p.append("/");
        p.append(id);
        p.append(".json");
        p
    }

    /// Where the store keeps an artifact: a deterministic function of the
    /// content kind and the artifact's hash.
    pub fn store_path(&self, kind: ContentType, hash: &str) -> (r: String)
        ensures
            r@ == self.root@ + "/store/"@ + kind_dir(kind) + "/"@ + hash@,
    {
        let mut p = self.root.clone();
        p.append("/store/");
        p.append(kind_dir_name(kind));
        p.append("/");
        p.append(hash);
        p
    }
}

} // verus!
