//! The canonical content model: platform-agnostic types shared by the
//! registry adapters, the version resolver, the content-addressed store and
//! the profile reconciler, together with the identity used to key profile
//! content lists.

use vstd::prelude::*;
use crate::text::lower_of;
use crate::text::to_lowercase;
use crate::text::str_eq;

verus! {

/// One of the two supported upstream registries.
#[derive(Clone, Copy, Debug, PartialEq, Eq, Structural)]
pub enum Platform {
    Modrinth,
    CurseForge,
}

/// The kind of content an item provides.
#[derive(Clone, Copy, Debug, PartialEq, Eq, Structural)]
pub enum ContentType {
    Mod,
    ResourcePack,
    ShaderPack,
    ModPack,
}

/// The release channel of a version.
#[derive(Clone, Copy, Debug, PartialEq, Eq, Structural)]
pub enum ReleaseChannel {
    Release,
    Beta,
    Alpha,
}

/// One advertised digest of a file: the algorithm's name and the hex value.
#[derive(Debug, Clone)]
pub struct FileHashEntry {
    pub algo: String,
    pub value: String,
}

/// One downloadable file of a version. `url` is `None` when the upstream
/// registry forbids redistribution (distribution disabled).
#[derive(Debug, Clone)]
pub struct VersionFile {
    pub url: Option<String>,
    pub file_name: String,
    pub size: u64,
    pub primary: bool,
    pub hashes: Vec<FileHashEntry>,
}

/// One installable release of an item, normalized across registries.
#[derive(Debug, Clone)]
pub struct ContentVersion {
    pub id: String,
    pub platform: Platform,
    pub parent_item_id: String,
    pub display_name: String,
    pub release_channel: ReleaseChannel,
    pub publish_date: String,
    pub supported_game_versions: Vec<String>,
    pub supported_loaders: Vec<String>,
    pub files: Vec<VersionFile>,
}

/// One discoverable project, normalized across registries.
/// Identity is the pair (platform, id).
#[derive(Debug, Clone)]
pub struct ContentItem {
    pub id: String,
    pub platform: Platform,
    pub title: String,
    pub summary: String,
    pub content_type: ContentType,
    pub download_count: u64,
    pub categories: Vec<String>,
}

/// Provenance of a stored artifact.
#[derive(Debug, Clone)]
pub enum RefSource {
    /// Fetched from a registry: which one, which project, which version.
    Registry { platform: Platform, project_id: String, version_id: String },
    /// Imported from a local file.
    Local,
    /// Fetched from a raw URL.
    Remote { url: String },
}

/// The unit stored inside a profile: a lightweight pointer to a stored
/// artifact. `hash` is the locally computed strong hash when known.
#[derive(Debug, Clone)]
pub struct ContentRef {
    pub name: String,
    pub hash: Option<String>,
    pub version: Option<String>,
    pub source: RefSource,
    pub file_name: Option<String>,
}

/// The identity used to key profile lists: the strong hash when present,
/// else the case-folded name.
pub open spec fn ref_identity(r: ContentRef) -> Seq<char> {
    match r.hash {
        Some(h) => h@,
        None => lower_of(r.name@),
    }
}

/// The identity of a reference as a string.
pub fn ref_identity_string(r: &ContentRef) -> (s: String)
    ensures
        s@ == ref_identity(*r),
{
    match &r.hash {
        Some(h) => h.clone(),
        None => to_lowercase(r.name.as_str()),
    }
}

/// Two optional strings hold the same characters.
pub open spec fn opt_str_eq(a: Option<String>, b: Option<String>) -> bool {
    match (a, b) {
        (Option::Some(x), Option::Some(y)) => x@ == y@,
        (Option::None, Option::None) => true,
        _ => false,
    }
}

/// Whether two optional strings hold the same characters.
pub fn opt_string_eq(a: &Option<String>, b: &Option<String>) -> (r: bool)
    ensures
        r == opt_str_eq(*a, *b),
{
    match (a, b) {
        (Option::Some(x), Option::Some(y)) => *x == *y,
        (Option::None, Option::None) => true,
        _ => false,
    }
}

/// Two provenance values describe the same origin.
pub open spec fn source_eq(a: RefSource, b: RefSource) -> bool {
    match (a, b) {
        (
            RefSource::Registry { platform: pa, project_id: ja, version_id: va },
            RefSource::Registry { platform: pb, project_id: jb, version_id: vb },
        ) => pa == pb && ja@ == jb@ && va@ == vb@,
        (RefSource::Local, RefSource::Local) => true,
        (RefSource::Remote { url: ua }, RefSource::Remote { url: ub }) => ua@ == ub@,
        _ => false,
    }
}

/// Whether two provenance values describe the same origin.
pub fn ref_source_eq(a: &RefSource, b: &RefSource) -> (r: bool)
    ensures
        r == source_eq(*a, *b),
{
    match (a, b) {
        (
            RefSource::Registry { platform: pa, project_id: ja, version_id: va },
            RefSource::Registry { platform: pb, project_id: jb, version_id: vb },
        ) => *pa == *pb && *ja == *jb && *va == *vb,
        (RefSource::Local, RefSource::Local) => true,
        (RefSource::Remote { url: ua }, RefSource::Remote { url: ub }) => *ua == *ub,
        _ => false,
    }
}

/// Two references are equal field for field, comparing strings by their
/// characters.
pub open spec fn ref_eq(a: ContentRef, b: ContentRef) -> bool {
    a.name@ == b.name@ && opt_str_eq(a.hash, b.hash) && opt_str_eq(a.version, b.version)
        && source_eq(a.source, b.source) && opt_str_eq(a.file_name, b.file_name)
}

/// Whether two references are equal field for field.
pub fn content_ref_eq(a: &ContentRef, b: &ContentRef) -> (r: bool)
    ensures
        r == ref_eq(*a, *b),
{
    a.name.eq(&b.name) && opt_string_eq(&a.hash, &b.hash) && opt_string_eq(&a.version, &b.version)
        && ref_source_eq(&a.source, &b.source) && opt_string_eq(&a.file_name, &b.file_name)
}

/// A field-for-field copy of a reference.
pub fn copy_content_ref(r: &ContentRef) -> (o: ContentRef)
    ensures
        o == *r,
{
    ContentRef {
        name: r.name.clone(),
        hash: copy_opt_string(&r.hash),
        version: copy_opt_string(&r.version),
        source: copy_ref_source(&r.source),
        file_name: copy_opt_string(&r.file_name),
    }
}

/// A copy of an optional string holding the same value.
pub fn copy_opt_string(a: &Option<String>) -> (o: Option<String>)
    ensures
        o == *a,
{
    match a {
        Option::Some(x) => Option::Some(x.clone()),
        Option::None => Option::None,
    }
}

/// A copy of a provenance value describing the same origin.
pub fn copy_ref_source(a: &RefSource) -> (o: RefSource)
    ensures
        o == *a,
{
    match a {
        RefSource::Registry { platform, project_id, version_id } => RefSource::Registry {
            platform: *platform,
            project_id: project_id.clone(),
            version_id: version_id.clone(),
        },
        RefSource::Local => RefSource::Local,
        RefSource::Remote { url } => RefSource::Remote { url: url.clone() },
    }
}

/// A copy of a string vector holding the same values.
pub fn copy_strings(v: &Vec<String>) -> (o: Vec<String>)
    ensures
        o@ == v@,
{
    let mut o: Vec<String> = Vec::new();
    let n = v.len();
    let mut i: usize = 0;
    while i < n
        invariant
            i <= n,
            n == v@.len(),
            o@ == v@.subrange(0, i as int),
        decreases n - i,
    {
        o.push(v[i].clone());
        assert(o@ =~= v@.subrange(0, i + 1 as int));
        i = i + 1;
    }
    assert(o@ =~= v@);
    o
}

/// A copy of a reference list holding the same values.
pub fn copy_content_refs(v: &Vec<ContentRef>) -> (o: Vec<ContentRef>)
    ensures
        o@ == v@,
{
    let mut o: Vec<ContentRef> = Vec::new();
    let n = v.len();
    let mut i: usize = 0;
    while i < n
        invariant
            i <= n,
            n == v@.len(),
            o@ == v@.subrange(0, i as int),
        decreases n - i,
    {
        o.push(copy_content_ref(&v[i]));
        assert(o@ =~= v@.subrange(0, i + 1 as int));
        i = i + 1;
    }
    assert(o@ =~= v@);
    o
}

/// Options accepted by a content search across either registry.
#[derive(Debug, Clone)]
pub struct SearchOptions {
    pub query: String,
    pub content_type: Option<ContentType>,
    pub game_version: Option<String>,
    pub loader: Option<String>,
    pub limit: u32,
    pub offset: u32,
}

} // verus!
