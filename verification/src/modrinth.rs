//! The Modrinth-like registry adapter: its data shapes, its filter grammar
//! (filters ride in one nested JSON-array `facets` query parameter; the
//! loader is not a filterable search attribute and must be applied
//! client-side), its URL building, and the translation of its versions
//! into the canonical model with SHA-1 surfaced as the cross-platform
//! hash. The HTTP transfer and JSON decoding live in the shell.

use vstd::prelude::*;
use vstd::string::StringExecFns;
use crate::model;
use crate::model::Platform;
use crate::model::copy_strings;
use crate::store::sha1_advert;
use crate::text::dec_of;
use crate::text::percent_encode;
use crate::text::u64_to_dec;
use crate::text::url_encode;
use vstd::utf8::encode_utf8;

verus! {

/// Project types on this registry.
#[derive(Clone, Copy, Debug, PartialEq, Eq, Structural)]
pub enum ProjectType {
    Mod,
    Modpack,
    Resourcepack,
    Shader,
}

/// The lower-case name of a project type, as the registry spells it.
pub open spec fn project_type_str(t: ProjectType) -> Seq<char> {
    match t {
        ProjectType::Mod => "mod"@,
        ProjectType::Modpack => "modpack"@,
        ProjectType::Resourcepack => "resourcepack"@,
        ProjectType::Shader => "shader"@,
    }
}

impl ProjectType {
    /// The registry's name for this project type.
    pub fn as_str(&self) -> (r: &'static str)
        ensures
            r@ == project_type_str(*self),
    {
        match self {
            ProjectType::Mod => "mod",
            ProjectType::Modpack => "modpack",
            ProjectType::Resourcepack => "resourcepack",
            ProjectType::Shader => "shader",
        }
    }
}

/// A project as this registry describes it.
#[derive(Debug, Clone)]
pub struct Project {
    pub id: String,
    pub slug: String,
    pub project_type: ProjectType,
    pub title: String,
    pub description: String,
    pub body: String,
    pub icon_url: Option<String>,
    pub downloads: u64,
    pub followers: u32,
    pub categories: Vec<String>,
    pub loaders: Vec<String>,
    pub game_versions: Vec<String>,
    pub updated: String,
    pub published: String,
}

/// A version of a project as this registry describes it.
#[derive(Debug, Clone)]
pub struct Version {
    pub id: String,
    pub project_id: String,
    pub name: String,
    pub version_number: String,
    pub changelog: String,
    pub date_published: String,
    pub downloads: u64,
    pub version_type: String,
    pub loaders: Vec<String>,
    pub game_versions: Vec<String>,
    pub files: Vec<VersionFile>,
    pub dependencies: Vec<Dependency>,
}

/// A file within a version.
#[derive(Debug, Clone)]
pub struct VersionFile {
    pub url: String,
    pub filename: String,
    pub primary: bool,
    pub size: u64,
    pub hashes: FileHashes,
}

/// The digests this registry advertises per file: SHA-1 and SHA-512.
#[derive(Debug, Clone)]
pub struct FileHashes {
    pub sha1: String,
    pub sha512: String,
}

/// Dependency information attached to a version.
#[derive(Debug, Clone)]
pub struct Dependency {
    pub version_id: Option<String>,
    pub project_id: Option<String>,
    pub file_name: Option<String>,
    pub dependency_type: String,
}

/// A page of search results.
#[derive(Debug, Clone)]
pub struct SearchResult {
    pub hits: Vec<SearchHit>,
    pub offset: u32,
    pub limit: u32,
    pub total_hits: u32,
}

/// A single search hit.
#[derive(Debug, Clone)]
pub struct SearchHit {
    pub project_id: String,
    pub slug: String,
    pub project_type: ProjectType,
    pub title: String,
    pub description: String,
    pub icon_url: Option<String>,
    pub downloads: u64,
    pub follows: u32,
    pub categories: Vec<String>,
    pub versions: Vec<String>,
    pub latest_version: Option<String>,
    pub date_modified: String,
    pub date_created: String,
}

/// A category tag.
#[derive(Debug, Clone)]
pub struct Category {
    pub name: String,
    pub project_type: String,
    pub header: String,
    pub icon: String,
}

/// A game version tag.
#[derive(Debug, Clone)]
pub struct GameVersion {
    pub version: String,
    pub version_type: String,
    pub date: String,
    pub major: bool,
}

/// A loader tag.
#[derive(Debug, Clone)]
pub struct Loader {
    pub name: String,
    pub supported_project_types: Vec<String>,
    pub icon: String,
}

/// Facet filters for search. The loader is deliberately absent: this
/// registry cannot filter searches by loader server-side, so loader
/// filtering happens client-side against the hits.
#[derive(Debug, Clone)]
pub struct SearchFacets {
    pub project_type: Option<ProjectType>,
    pub categories: Vec<String>,
    pub game_versions: Vec<String>,
}

/// One facet: a one-element JSON array holding `kind:value`.
pub open spec fn facet_part(kind: Seq<char>, value: Seq<char>) -> Seq<char> {
    "[\""@ + kind + ":"@ + value + "\"]"@
}

/// The facet parts a filter set produces, in order: project type, then
/// each category, then each game version.
pub open spec fn facet_parts(f: SearchFacets) -> Seq<Seq<char>> {
    (match f.project_type {
        Option::Some(t) => seq![facet_part("project_types"@, project_type_str(t))],
        Option::None => Seq::empty(),
    }) + f.categories@.map_values(|c: String| facet_part("categories"@, c@))
        + f.game_versions@.map_values(|v: String| facet_part("game_versions"@, v@))
}

/// The parts joined with commas.
pub open spec fn join_comma(parts: Seq<Seq<char>>) -> Seq<char>
    decreases parts.len(),
{
    if parts.len() == 0 {
        Seq::empty()
    } else if parts.len() == 1 {
        parts[0]
    } else {
        join_comma(parts.drop_last()) + ","@ + parts.last()
    }
}

/// The `facets` query parameter a filter set produces: the joined parts in
/// one outer JSON array, or the empty string when there is no filter.
pub open spec fn facets_string(f: SearchFacets) -> Seq<char> {
    if facet_parts(f).len() == 0 {
        Seq::empty()
    } else {
        "["@ + join_comma(facet_parts(f)) + "]"@
    }
}

proof fn lemma_join_comma_push(parts: Seq<Seq<char>>, p: Seq<char>)
    ensures
        join_comma(parts.push(p)) == if parts.len() == 0 {
            p
        } else {
            join_comma(parts) + ","@ + p
        },
{
    assert(parts.push(p).drop_last() =~= parts);
    assert(parts.push(p).last() == p);
    if parts.len() == 0 {
        assert(parts.push(p)[0] == p);
    }
}

/// Append one facet part for `kind:value` to the running string, with a
/// comma when parts precede it.
fn push_facet(s: &mut String, any: bool, kind: &str, value: &str)
    ensures
        final(s)@ == old(s)@ + (if any {
            ","@
        } else {
            Seq::<char>::empty()
        }) + facet_part(kind@, value@),
{
    if any {
        s.append(",");
    }
    s.append("[\"");
    s.append(kind);
    s.append(":");
    s.append(value);
    s.append("\"]");
    proof {
        assert(s@ =~= old(s)@ + (if any {
            ","@
        } else {
            Seq::<char>::empty()
        }) + facet_part(kind@, value@));
    }
}

impl SearchFacets {
    /// Encode the filters in this registry's nested-JSON-array facet
    /// grammar: `[]`-wrapped, comma-joined one-element arrays, or the
    /// empty string when no filter is set.
    pub fn to_facets_string(&self) -> (r: String)
        ensures
            r@ == facets_string(*self),
    {
        let mut body = String::new();
        let ghost built0: Seq<Seq<char>> = Seq::empty();
        proof {
            assert(body@ =~= join_comma(built0));
        }
        match &self.project_type {
            Some(t) => {
                proof {
                    lemma_join_comma_push(built0, facet_part("project_types"@, project_type_str(*t)));
                }
                push_facet(&mut body, false, "project_types", t.as_str());
            },
            None => {},
        }
        let ghost built1: Seq<Seq<char>> = match self.project_type {
            Option::Some(t) => seq![facet_part("project_types"@, project_type_str(t))],
            Option::None => Seq::empty(),
        };
        proof {
            if self.project_type is Some {
                assert(built0.push(
                    facet_part("project_types"@, project_type_str(self.project_type.unwrap())),
                ) =~= built1);
            } else {
                assert(built0 =~= built1);
            }
            assert(body@ == join_comma(built1));
        }
        let mut any: bool = match &self.project_type {
            Some(_t) => true,
            None => false,
        };
        let ghost cats = self.categories@.map_values(|c: String| facet_part("categories"@, c@));
        let nc = self.categories.len();
        let mut i: usize = 0;
        while i < nc
            invariant
                i <= nc,
                nc == self.categories@.len(),
                cats == self.categories@.map_values(|c: String| facet_part("categories"@, c@)),
                any == (built1.len() + i > 0),
                body@ == join_comma(built1 + cats.subrange(0, i as int)),
            decreases nc - i,
        {
            proof {
                lemma_join_comma_push(
                    built1 + cats.subrange(0, i as int),
                    facet_part("categories"@, self.categories@[i as int]@),
                );
                assert((built1 + cats.subrange(0, i as int)).len() == built1.len() + i);
            }
            push_facet(&mut body, any, "categories", self.categories[i].as_str());
            any = true;
            proof {
                assert((built1 + cats.subrange(0, i as int)).push(
                    facet_part("categories"@, self.categories@[i as int]@),
                ) =~= built1 + cats.subrange(0, i + 1 as int));
            }
            i = i + 1;
        }
        let ghost built2 = built1 + cats;
        proof {
            assert(cats.subrange(0, nc as int) =~= cats);
            assert(built1 + cats.subrange(0, nc as int) =~= built2);
        }
        let ghost gvs = self.game_versions@.map_values(
            |v: String| facet_part("game_versions"@, v@),
        );
        let ng = self.game_versions.len();
        let mut j: usize = 0;
        while j < ng
            invariant
                j <= ng,
                ng == self.game_versions@.len(),
                gvs == self.game_versions@.map_values(
                    |v: String| facet_part("game_versions"@, v@),
                ),
                any == (built2.len() + j > 0),
                body@ == join_comma(built2 + gvs.subrange(0, j as int)),
            decreases ng - j,
        {
            proof {
                lemma_join_comma_push(
                    built2 + gvs.subrange(0, j as int),
                    facet_part("game_versions"@, self.game_versions@[j as int]@),
                );
                assert((built2 + gvs.subrange(0, j as int)).len() == built2.len() + j);
            }
            push_facet(&mut body, any, "game_versions", self.game_versions[j].as_str());
            any = true;
            proof {
                assert((built2 + gvs.subrange(0, j as int)).push(
                    facet_part("game_versions"@, self.game_versions@[j as int]@),
                ) =~= built2 + gvs.subrange(0, j + 1 as int));
            }
            j = j + 1;
        }
        proof {
            assert(gvs.subrange(0, ng as int) =~= gvs);
            assert(built2 + gvs =~= facet_parts(*self));
        }
        if !any {
            proof {
                assert(facet_parts(*self).len() == 0);
                assert(facets_string(*self) =~= Seq::<char>::empty());
            }
            String::new()
        } else {
            let mut out = String::from_str("[");
            out.append(body.as_str());
            out.append("]");
            proof {
                assert(facet_parts(*self).len() > 0);
                assert(out@ =~= facets_string(*self));
            }
            out
        }
    }
}

/// The base of every URL of this registry's API.
pub open spec fn api_base() -> Seq<char> {
    "https://api.modrinth.com/v2"@
}

/// The search URL for a query, filters, page size and offset: the query
/// and the facet string ride percent-encoded, and the facet parameter is
/// omitted when no filter is set.
pub open spec fn search_url_spec(
    query: Seq<char>,
    facets: Seq<char>,
    limit: u32,
    offset: u32,
) -> Seq<char> {
    api_base() + "/search?query="@ + percent_encode(encode_utf8(query)) + "&limit="@ + dec_of(
        limit as nat,
    ) + "&offset="@ + dec_of(offset as nat) + (if facets.len() == 0 {
        Seq::<char>::empty()
    } else {
        "&facets="@ + percent_encode(encode_utf8(facets))
    })
}

/// Build the search URL for this registry.
pub fn search_url(query: &str, facets: &SearchFacets, limit: u32, offset: u32) -> (r: String)
    ensures
        r@ == search_url_spec(query@, facets_string(*facets), limit, offset),
{
    let mut url = String::from_str("https://api.modrinth.com/v2");
    url.append("/search?query=");
    let encoded = url_encode(query);
    url.append(encoded.as_str());
    url.append("&limit=");
    let lim = u64_to_dec(limit as u64);
    url.append(lim.as_str());
    url.append("&offset=");
    let off = u64_to_dec(offset as u64);
    url.append(off.as_str());
    let facets_str = facets.to_facets_string();
    if facets_str.as_str().unicode_len() > 0 {
        url.append("&facets=");
        let enc = url_encode(facets_str.as_str());
        url.append(enc.as_str());
    }
    proof {
        assert(url@ =~= search_url_spec(query@, facets_string(*facets), limit, offset));
    }
    url
}

/// The URL of one project.
pub open spec fn project_url_spec(id: Seq<char>) -> Seq<char> {
    api_base() + "/project/"@ + percent_encode(encode_utf8(id))
}

/// Build the URL of one project.
pub fn project_url(id_or_slug: &str) -> (r: String)
    ensures
        r@ == project_url_spec(id_or_slug@),
{
    let mut url = String::from_str("https://api.modrinth.com/v2");
    url.append("/project/");
    let enc = url_encode(id_or_slug);
    url.append(enc.as_str());
    proof {
        assert(url@ =~= project_url_spec(id_or_slug@));
    }
    url
}

/// The URL listing a project's versions, with the registry's optional
/// server-side game-version and loader filters.
pub open spec fn versions_url_spec(
    id: Seq<char>,
    game_version: Option<Seq<char>>,
    loader: Option<Seq<char>>,
) -> Seq<char> {
    let base = api_base() + "/project/"@ + percent_encode(encode_utf8(id)) + "/version"@;
    let first = match game_version {
        Option::Some(g) => base + "?game_versions=[\""@ + g + "\"]"@,
        Option::None => base,
    };
    match loader {
        Option::Some(l) => first + (if game_version is Some {
            "&"@
        } else {
            "?"@
        }) + "loaders=[\""@ + l + "\"]"@,
        Option::None => first,
    }
}

/// Build the URL listing a project's versions.
pub fn versions_url(id_or_slug: &str, game_version: Option<&str>, loader: Option<&str>) -> (r:
    String)
    ensures
        r@ == versions_url_spec(
            id_or_slug@,
            crate::resolver::opt_view(game_version),
            crate::resolver::opt_view(loader),
        ),
{
    let mut url = String::from_str("https://api.modrinth.com/v2");
    url.append("/project/");
    let enc = url_encode(id_or_slug);
    url.append(enc.as_str());
    url.append("/version");
    let mut has_query: bool = false;
    match game_version {
        Some(g) => {
            url.append("?game_versions=[\"");
            url.append(g);
            url.append("\"]");
            has_query = true;
        },
        None => {},
    }
    match loader {
        Some(l) => {
            if has_query {
                url.append("&");
            } else {
                url.append("?");
            }
            url.append("loaders=[\"");
            url.append(l);
            url.append("\"]");
        },
        None => {},
    }
    proof {
        assert(url@ =~= versions_url_spec(
            id_or_slug@,
            crate::resolver::opt_view(game_version),
            crate::resolver::opt_view(loader),
        ));
    }
    url
}

/// The channel a version-type string denotes: `release` and `beta` name
/// their channels, anything else counts as alpha.
pub open spec fn channel_of(s: Seq<char>) -> model::ReleaseChannel {
    if s == "release"@ {
        model::ReleaseChannel::Release
    } else if s == "beta"@ {
        model::ReleaseChannel::Beta
    } else {
        model::ReleaseChannel::Alpha
    }
}

/// The file a registry file row translates to: the URL always present,
/// and both advertised digests carried over with SHA-1 first.
pub open spec fn file_translates(orig: VersionFile, out: model::VersionFile) -> bool {
    out.url == Option::Some(out.url.unwrap()) && out.url.unwrap()@ == orig.url@ && out.file_name@
        == orig.filename@ && out.size == orig.size && out.primary == orig.primary
        && sha1_advert(out.hashes@) == Option::Some(orig.hashes.sha1@)
}

/// Translate one file row into the canonical model.
fn convert_file(f: &VersionFile) -> (r: model::VersionFile)
    ensures
        file_translates(*f, r),
{
    let mut hashes: Vec<model::FileHashEntry> = Vec::new();
    hashes.push(
        model::FileHashEntry { algo: String::from_str("sha1"), value: f.hashes.sha1.clone() },
    );
    hashes.push(
        model::FileHashEntry { algo: String::from_str("sha512"), value: f.hashes.sha512.clone() },
    );
    let r = model::VersionFile {
        url: Some(f.url.clone()),
        file_name: f.filename.clone(),
        size: f.size,
        primary: f.primary,
        hashes,
    };
    proof {
        assert(r.hashes@[0].algo@ == "sha1"@);
        assert(sha1_advert(r.hashes@) == Option::Some(f.hashes.sha1@));
    }
    r
}

/// A registry version translates to a canonical version: identity and
/// compatibility metadata carried over, the channel mapped from the
/// version-type string, and every file translated in order.
pub open spec fn version_translates(orig: Version, out: model::ContentVersion) -> bool {
    out.id@ == orig.id@ && out.platform == Platform::Modrinth && out.parent_item_id@
        == orig.project_id@ && out.display_name@ == orig.name@ && out.release_channel == channel_of(
        orig.version_type@,
    ) && out.publish_date@ == orig.date_published@ && out.supported_game_versions@
        == orig.game_versions@ && out.supported_loaders@ == orig.loaders@ && out.files@.len()
        == orig.files@.len() && (forall|i: int|
        0 <= i < orig.files@.len() ==> file_translates(orig.files@[i], #[trigger] out.files@[i]))
}

/// Translate a registry version into the canonical model.
pub fn to_content_version(v: &Version) -> (r: model::ContentVersion)
    ensures
        version_translates(*v, r),
{
    let channel = if crate::text::str_eq(v.version_type.as_str(), "release") {
        model::ReleaseChannel::Release
    } else if crate::text::str_eq(v.version_type.as_str(), "beta") {
        model::ReleaseChannel::Beta
    } else {
        model::ReleaseChannel::Alpha
    };
    let mut files: Vec<model::VersionFile> = Vec::new();
    let n = v.files.len();
    let mut i: usize = 0;
    while i < n
        invariant
            i <= n,
            n == v.files@.len(),
            files@.len() == i,
            forall|k: int|
                0 <= k < i ==> file_translates(v.files@[k], #[trigger] files@[k]),
        decreases n - i,
    {
        files.push(convert_file(&v.files[i]));
        i = i + 1;
    }
    model::ContentVersion {
        id: v.id.clone(),
        platform: Platform::Modrinth,
        parent_item_id: v.project_id.clone(),
        display_name: v.name.clone(),
        release_channel: channel,
        publish_date: v.date_published.clone(),
        supported_game_versions: copy_strings(&v.game_versions),
        supported_loaders: copy_strings(&v.loaders),
        files,
    }
}

/// A search hit translates to a canonical item.
pub open spec fn hit_translates(orig: SearchHit, out: model::ContentItem) -> bool {
    out.id@ == orig.project_id@ && out.platform == Platform::Modrinth && out.title@ == orig.title@
        && out.summary@ == orig.description@ && out.content_type == (match orig.project_type {
        ProjectType::Mod => model::ContentType::Mod,
        ProjectType::Modpack => model::ContentType::ModPack,
        ProjectType::Resourcepack => model::ContentType::ResourcePack,
        ProjectType::Shader => model::ContentType::ShaderPack,
    }) && out.download_count == orig.downloads && out.categories@ == orig.categories@
}

/// Translate a search hit into the canonical model.
pub fn hit_to_item(h: &SearchHit) -> (r: model::ContentItem)
    ensures
        hit_translates(*h, r),
{
    model::ContentItem {
        id: h.project_id.clone(),
        platform: Platform::Modrinth,
        title: h.title.clone(),
        summary: h.description.clone(),
        content_type: match h.project_type {
            ProjectType::Mod => model::ContentType::Mod,
            ProjectType::Modpack => model::ContentType::ModPack,
            ProjectType::Resourcepack => model::ContentType::ResourcePack,
            ProjectType::Shader => model::ContentType::ShaderPack,
        },
        download_count: h.downloads,
        categories: copy_strings(&h.categories),
    }
}

/// The hits whose categories name the wanted loader: this registry cannot
/// filter searches by loader server-side (loaders ride in the categories
/// of a hit), so the filter is applied client-side, never silently
/// dropped.
pub open spec fn hits_with_loader(hits: Seq<SearchHit>, loader: Seq<char>) -> Seq<SearchHit>
    decreases hits.len(),
{
    if hits.len() == 0 {
        Seq::empty()
    } else if crate::resolver::strings_contain(hits[0].categories@, loader) {
        seq![hits[0]] + hits_with_loader(hits.drop_first(), loader)
    } else {
        hits_with_loader(hits.drop_first(), loader)
    }
}

/// Keep the search hits whose categories name the wanted loader.
pub fn filter_hits_by_loader(hits: Vec<SearchHit>, loader: &str) -> (r: Vec<SearchHit>)
    ensures
        r@ == hits_with_loader(hits@, loader@),
{
    let ghost whole = hits@;
    let mut rest = hits;
    let mut out: Vec<SearchHit> = Vec::new();
    proof {
        assert(out@ + hits_with_loader(rest@, loader@) =~= hits_with_loader(whole, loader@));
    }
    while rest.len() > 0
        invariant
            hits_with_loader(whole, loader@) == out@ + hits_with_loader(rest@, loader@),
        decreases rest@.len(),
    {
        let ghost prev = rest@;
        let keep = crate::resolver::strings_have(&rest[0].categories, loader);
        let e = rest.remove(0);
        proof {
            assert(rest@ =~= prev.drop_first());
        }
        if keep {
            proof {
                assert(out@.push(e) + hits_with_loader(prev.drop_first(), loader@) =~= out@ + (seq![
                    prev[0],
                ] + hits_with_loader(prev.drop_first(), loader@)));
            }
            out.push(e);
        }
    }
    proof {
        assert(hits_with_loader(rest@, loader@) =~= Seq::<SearchHit>::empty());
        assert(out@ + Seq::<SearchHit>::empty() =~= out@);
    }
    out
}

/// The index of the file a version installs: the first marked primary,
/// else the first.
pub fn get_primary_file(version: &Version) -> (r: Option<usize>)
    ensures
        match r {
            Some(i) => i < version.files@.len() && (version.files@[i as int].primary || (i == 0
                && forall|k: int| 0 <= k < version.files@.len() ==> !(#[trigger] version.files@[k].primary)))
                && forall|k: int| 0 <= k < i ==> !(#[trigger] version.files@[k].primary),
            None => version.files@.len() == 0,
        },
{
    let n = version.files.len();
    if n == 0 {
        return None;
    }
    let mut i: usize = 0;
    while i < n
        invariant
            i <= n,
            n == version.files@.len(),
            forall|k: int| 0 <= k < i ==> !(#[trigger] version.files@[k].primary),
        decreases n - i,
    {
        if version.files[i].primary {
            return Some(i);
        }
        i = i + 1;
    }
    Some(0)
}

} // verus!
