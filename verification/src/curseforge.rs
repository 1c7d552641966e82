//! The CurseForge-like registry adapter: its data shapes, its flat
//! query-parameter filter grammar (this registry can filter searches by
//! loader server-side), its URL building, and the translation of its files
//! into the canonical model. This registry mixes loader names into a
//! file's game-version list and advertises SHA-1 and MD5 digests by
//! numeric code; translation sorts both out, surfacing SHA-1 as the
//! cross-platform hash. The HTTP transfer and JSON decoding live in the
//! shell.

use vstd::prelude::*;
use vstd::string::StringExecFns;
use crate::model;
use crate::model::Platform;
use crate::store::sha1_advert;
use crate::text::dec_of;
use crate::text::lower_of;
use crate::text::percent_encode;
use crate::text::str_eq;
use crate::text::to_lowercase;
use crate::text::u64_to_dec;
use crate::text::url_encode;
use vstd::utf8::encode_utf8;

verus! {

broadcast use vstd::string::group_string_axioms;

/// The class id this registry gives mods.
pub const CLASS_MODS: u32 = 6;

/// The class id this registry gives resource packs.
pub const CLASS_RESOURCEPACKS: u32 = 12;

/// The class id this registry gives shader packs.
pub const CLASS_SHADERS: u32 = 6552;

/// The class id this registry gives modpacks.
pub const CLASS_MODPACKS: u32 = 4471;

/// A project (mod) as this registry describes it.
#[derive(Debug, Clone)]
pub struct Mod {
    pub id: u32,
    pub game_id: u32,
    pub name: String,
    pub slug: String,
    pub summary: String,
    pub links: ModLinks,
    pub status: u32,
    pub download_count: u64,
    pub is_featured: bool,
    pub primary_category_id: u32,
    pub class_id: Option<u32>,
    pub categories: Vec<Category>,
    pub authors: Vec<Author>,
    pub logo: Option<ModAsset>,
    pub screenshots: Vec<ModAsset>,
    pub main_file_id: u32,
    pub latest_files: Vec<File>,
    pub latest_files_indexes: Vec<FileIndex>,
    pub date_created: String,
    pub date_modified: String,
    pub date_released: String,
    pub allow_mod_distribution: Option<bool>,
    pub game_popularity_rank: u32,
    pub is_available: bool,
    pub thumbs_up_count: u32,
}

/// Project links.
#[derive(Debug, Clone)]
pub struct ModLinks {
    pub website_url: Option<String>,
    pub wiki_url: Option<String>,
    pub issues_url: Option<String>,
    pub source_url: Option<String>,
}

/// Category information.
#[derive(Debug, Clone)]
pub struct Category {
    pub id: u32,
    pub game_id: u32,
    pub name: String,
    pub slug: String,
    pub url: String,
    pub icon_url: String,
    pub date_modified: String,
    pub is_class: Option<bool>,
    pub class_id: Option<u32>,
    pub parent_category_id: Option<u32>,
    pub display_index: Option<u32>,
}

/// Author information.
#[derive(Debug, Clone)]
pub struct Author {
    pub id: u32,
    pub name: String,
    pub url: String,
}

/// A project asset (logo, screenshot).
#[derive(Debug, Clone)]
pub struct ModAsset {
    pub id: u32,
    pub mod_id: u32,
    pub title: String,
    pub description: String,
    pub thumbnail_url: String,
    pub url: String,
}

/// A file (release) as this registry describes it.
#[derive(Debug, Clone)]
pub struct File {
    pub id: u32,
    pub game_id: u32,
    pub mod_id: u32,
    pub is_available: bool,
    pub display_name: String,
    pub file_name: String,
    pub release_type: u32,
    pub file_status: u32,
    pub hashes: Vec<FileHash>,
    pub file_date: String,
    pub file_length: u64,
    pub download_count: u64,
    pub download_url: Option<String>,
    pub game_versions: Vec<String>,
    pub sortable_game_versions: Vec<SortableGameVersion>,
    pub dependencies: Vec<FileDependency>,
    pub expose_as_alternative: Option<bool>,
    pub parent_project_file_id: Option<u32>,
    pub alternate_file_id: Option<u32>,
    pub is_server_pack: Option<bool>,
    pub server_pack_file_id: Option<u32>,
    pub file_fingerprint: u64,
    pub modules: Vec<FileModule>,
}

/// One advertised digest: the hex value and a numeric algorithm code,
/// 1 for SHA-1 and 2 for MD5.
#[derive(Debug, Clone)]
pub struct FileHash {
    pub value: String,
    pub algo: u32,
}

/// Sortable game version info.
#[derive(Debug, Clone)]
pub struct SortableGameVersion {
    pub game_version_name: String,
    pub game_version_padded: String,
    pub game_version: String,
    pub game_version_release_date: String,
    pub game_version_type_id: Option<u32>,
}

/// A dependency between files.
#[derive(Debug, Clone)]
pub struct FileDependency {
    pub mod_id: u32,
    pub relation_type: u32,
}

/// A module inside a file (for modpacks).
#[derive(Debug, Clone)]
pub struct FileModule {
    pub name: String,
    pub fingerprint: u64,
}

/// A quick-lookup index entry of a project's files.
#[derive(Debug, Clone)]
pub struct FileIndex {
    pub game_version: String,
    pub file_id: u32,
    pub filename: String,
    pub release_type: u32,
    pub game_version_type_id: Option<u32>,
    pub mod_loader: Option<u32>,
}

/// A page of search results.
#[derive(Debug, Clone)]
pub struct SearchResponse {
    pub data: Vec<Mod>,
    pub pagination: Pagination,
}

/// A single-project response.
#[derive(Debug, Clone)]
pub struct ModResponse {
    pub data: Mod,
}

/// A page of files.
#[derive(Debug, Clone)]
pub struct FilesResponse {
    pub data: Vec<File>,
    pub pagination: Pagination,
}

/// A single-file response.
#[derive(Debug, Clone)]
pub struct FileResponse {
    pub data: File,
}

/// Pagination info.
#[derive(Debug, Clone)]
pub struct Pagination {
    pub index: u32,
    pub page_size: u32,
    pub result_count: u32,
    pub total_count: u32,
}

/// The mod loaders this registry filters by, each with a numeric code.
#[derive(Clone, Copy, Debug, PartialEq, Eq, Structural)]
pub enum ModLoaderType {
    Any,
    Forge,
    Cauldron,
    LiteLoader,
    Fabric,
    Quilt,
    NeoForge,
}

/// The numeric code this registry gives a loader.
pub open spec fn loader_code(t: ModLoaderType) -> u32 {
    match t {
        ModLoaderType::Any => 0,
        ModLoaderType::Forge => 1,
        ModLoaderType::Cauldron => 2,
        ModLoaderType::LiteLoader => 3,
        ModLoaderType::Fabric => 4,
        ModLoaderType::Quilt => 5,
        ModLoaderType::NeoForge => 6,
    }
}

/// The loader a (case-folded) name denotes; unknown names mean any loader.
pub open spec fn parse_loader_spec(low: Seq<char>) -> ModLoaderType {
    if low == "forge"@ {
        ModLoaderType::Forge
    } else if low == "fabric"@ {
        ModLoaderType::Fabric
    } else if low == "quilt"@ {
        ModLoaderType::Quilt
    } else if low == "neoforge"@ {
        ModLoaderType::NeoForge
    } else if low == "liteloader"@ {
        ModLoaderType::LiteLoader
    } else if low == "cauldron"@ {
        ModLoaderType::Cauldron
    } else {
        ModLoaderType::Any
    }
}

impl ModLoaderType {
    /// The numeric code this registry gives this loader.
    pub fn as_u32(&self) -> (r: u32)
        ensures
            r == loader_code(*self),
    {
        match self {
            ModLoaderType::Any => 0,
            ModLoaderType::Forge => 1,
            ModLoaderType::Cauldron => 2,
            ModLoaderType::LiteLoader => 3,
            ModLoaderType::Fabric => 4,
            ModLoaderType::Quilt => 5,
            ModLoaderType::NeoForge => 6,
        }
    }

    /// Parse a loader name, ignoring case; unknown names mean any loader.
    pub fn parse(s: &str) -> (r: ModLoaderType)
        ensures
            r == parse_loader_spec(lower_of(s@)),
    {
        let low = to_lowercase(s);
        let l = low.as_str();
        if str_eq(l, "forge") {
            ModLoaderType::Forge
        } else if str_eq(l, "fabric") {
            ModLoaderType::Fabric
        } else if str_eq(l, "quilt") {
            ModLoaderType::Quilt
        } else if str_eq(l, "neoforge") {
            ModLoaderType::NeoForge
        } else if str_eq(l, "liteloader") {
            ModLoaderType::LiteLoader
        } else if str_eq(l, "cauldron") {
            ModLoaderType::Cauldron
        } else {
            ModLoaderType::Any
        }
    }
}

/// Sort fields for search, each with a numeric code.
#[derive(Clone, Copy, Debug, PartialEq, Eq, Structural)]
pub enum SearchSortField {
    Featured,
    Popularity,
    LastUpdated,
    Name,
    Author,
    TotalDownloads,
    Category,
    GameVersion,
}

/// The numeric code this registry gives a sort field.
pub open spec fn sort_code(t: SearchSortField) -> u32 {
    match t {
        SearchSortField::Featured => 1,
        SearchSortField::Popularity => 2,
        SearchSortField::LastUpdated => 3,
        SearchSortField::Name => 4,
        SearchSortField::Author => 5,
        SearchSortField::TotalDownloads => 6,
        SearchSortField::Category => 7,
        SearchSortField::GameVersion => 8,
    }
}

impl SearchSortField {
    /// The numeric code this registry gives this sort field.
    pub fn as_u32(&self) -> (r: u32)
        ensures
            r == sort_code(*self),
    {
        match self {
            SearchSortField::Featured => 1,
            SearchSortField::Popularity => 2,
            SearchSortField::LastUpdated => 3,
            SearchSortField::Name => 4,
            SearchSortField::Author => 5,
            SearchSortField::TotalDownloads => 6,
            SearchSortField::Category => 7,
            SearchSortField::GameVersion => 8,
        }
    }
}

/// The first advertised digest with this algorithm code among a file's
/// digests: 1 is SHA-1, 2 is MD5.
pub open spec fn cf_algo(hs: Seq<FileHash>, code: u32) -> Option<Seq<char>>
    decreases hs.len(),
{
    if hs.len() == 0 {
        Option::None
    } else if hs[0].algo == code {
        Option::Some(hs[0].value@)
    } else {
        cf_algo(hs.drop_first(), code)
    }
}

/// The first advertised SHA-1 among a file's digests.
pub open spec fn cf_sha1(hs: Seq<FileHash>) -> Option<Seq<char>> {
    cf_algo(hs, 1)
}

/// The first digest with this algorithm code, as an owned string.
fn find_algo(hs: &Vec<FileHash>, code: u32) -> (r: Option<String>)
    ensures
        match r {
            Some(s) => cf_algo(hs@, code) == Option::Some(s@),
            None => cf_algo(hs@, code) is None,
        },
{
    let n = hs.len();
    let mut i: usize = 0;
    proof {
        assert(hs@.subrange(0, n as int) =~= hs@);
    }
    while i < n
        invariant
            i <= n,
            n == hs@.len(),
            cf_algo(hs@, code) == cf_algo(hs@.subrange(i as int, n as int), code),
        decreases n - i,
    {
        proof {
            assert(hs@.subrange(i as int, n as int)[0] == hs@[i as int]);
            assert(hs@.subrange(i as int, n as int).drop_first() =~= hs@.subrange(
                i + 1 as int,
                n as int,
            ));
        }
        if hs[i].algo == code {
            return Some(hs[i].value.clone());
        }
        i = i + 1;
    }
    proof {
        assert(hs@.subrange(n as int, n as int).len() == 0);
    }
    None
}

/// The SHA-1 digest this registry advertises for a file, if any.
pub fn get_sha1_hash<'a>(file: &'a File) -> (r: Option<&'a str>)
    ensures
        match r {
            Some(s) => cf_sha1(file.hashes@) == Option::Some(s@),
            None => cf_sha1(file.hashes@) is None,
        },
{
    let n = file.hashes.len();
    let mut i: usize = 0;
    proof {
        assert(file.hashes@.subrange(0, n as int) =~= file.hashes@);
    }
    while i < n
        invariant
            i <= n,
            n == file.hashes@.len(),
            cf_algo(file.hashes@, 1) == cf_algo(file.hashes@.subrange(i as int, n as int), 1),
        decreases n - i,
    {
        proof {
            assert(file.hashes@.subrange(i as int, n as int)[0] == file.hashes@[i as int]);
            assert(file.hashes@.subrange(i as int, n as int).drop_first() =~= file.hashes@.subrange(
                i + 1 as int,
                n as int,
            ));
        }
        if file.hashes[i].algo == 1 {
            return Some(file.hashes[i].value.as_str());
        }
        i = i + 1;
    }
    proof {
        assert(file.hashes@.subrange(n as int, n as int).len() == 0);
    }
    None
}

/// The base of every URL of this registry's API.
pub open spec fn api_base() -> Seq<char> {
    "https://api.curseforge.com/v1"@
}

/// The search URL: flat query parameters, the query percent-encoded, each
/// optional filter appended as its own parameter.
pub open spec fn search_url_spec(
    query: Seq<char>,
    class_id: Option<u32>,
    game_version: Option<Seq<char>>,
    mod_loader: Option<ModLoaderType>,
    page_size: u32,
    index: u32,
    sort: Option<SearchSortField>,
) -> Seq<char> {
    api_base() + "/mods/search?gameId=432&searchFilter="@ + percent_encode(encode_utf8(query))
        + "&pageSize="@ + dec_of(page_size as nat) + "&index="@ + dec_of(index as nat) + (
    match class_id {
        Option::Some(c) => "&classId="@ + dec_of(c as nat),
        Option::None => Seq::<char>::empty(),
    }) + (match game_version {
        Option::Some(g) => "&gameVersion="@ + g,
        Option::None => Seq::<char>::empty(),
    }) + (match mod_loader {
        Option::Some(l) => "&modLoaderType="@ + dec_of(loader_code(l) as nat),
        Option::None => Seq::<char>::empty(),
    }) + (match sort {
        Option::Some(f) => "&sortField="@ + dec_of(sort_code(f) as nat) + "&sortOrder=desc"@,
        Option::None => Seq::<char>::empty(),
    })
}

/// Build the search URL for this registry.
#[verifier::rlimit(60)]
pub fn search_url(
    query: &str,
    class_id: Option<u32>,
    game_version: Option<&str>,
    mod_loader: Option<ModLoaderType>,
    page_size: u32,
    index: u32,
    sort: Option<SearchSortField>,
) -> (r: String)
    ensures
        r@ == search_url_spec(
            query@,
            class_id,
            crate::resolver::opt_view(game_version),
            mod_loader,
            page_size,
            index,
            sort,
        ),
{
    let mut url = String::from_str("https://api.curseforge.com/v1");
    url.append("/mods/search?gameId=432&searchFilter=");
    let enc = url_encode(query);
    url.append(enc.as_str());
    url.append("&pageSize=");
    let ps = u64_to_dec(page_size as u64);
    url.append(ps.as_str());
    url.append("&index=");
    let ix = u64_to_dec(index as u64);
    url.append(ix.as_str());
    match class_id {
        Some(c) => {
            url.append("&classId=");
            let cd = u64_to_dec(c as u64);
            url.append(cd.as_str());
        },
        None => {},
    }
    match game_version {
        Some(g) => {
            url.append("&gameVersion=");
            url.append(g);
        },
        None => {},
    }
    match mod_loader {
        Some(l) => {
            url.append("&modLoaderType=");
            let lc = u64_to_dec(l.as_u32() as u64);
            url.append(lc.as_str());
        },
        None => {},
    }
    match sort {
        Some(f) => {
            url.append("&sortField=");
            let sc = u64_to_dec(f.as_u32() as u64);
            url.append(sc.as_str());
            url.append("&sortOrder=desc");
        },
        None => {},
    }
    proof {
        assert(url@ =~= search_url_spec(
            query@,
            class_id,
            crate::resolver::opt_view(game_version),
            mod_loader,
            page_size,
            index,
            sort,
        ));
    }
    url
}

/// The URL of one project.
pub open spec fn mod_url_spec(mod_id: u32) -> Seq<char> {
    api_base() + "/mods/"@ + dec_of(mod_id as nat)
}

/// Build the URL of one project.
pub fn mod_url(mod_id: u32) -> (r: String)
    ensures
        r@ == mod_url_spec(mod_id),
{
    let mut url = String::from_str("https://api.curseforge.com/v1");
    url.append("/mods/");
    let ids = u64_to_dec(mod_id as u64);
    url.append(ids.as_str());
    proof {
        assert(url@ =~= mod_url_spec(mod_id));
    }
    url
}

/// The URL listing a project's files, with the registry's server-side
/// game-version and loader filters.
pub open spec fn mod_files_url_spec(
    mod_id: u32,
    game_version: Option<Seq<char>>,
    mod_loader: Option<ModLoaderType>,
    page_size: u32,
    index: u32,
) -> Seq<char> {
    api_base() + "/mods/"@ + dec_of(mod_id as nat) + "/files?pageSize="@ + dec_of(page_size as nat)
        + "&index="@ + dec_of(index as nat) + (match game_version {
        Option::Some(g) => "&gameVersion="@ + g,
        Option::None => Seq::<char>::empty(),
    }) + (match mod_loader {
        Option::Some(l) => "&modLoaderType="@ + dec_of(loader_code(l) as nat),
        Option::None => Seq::<char>::empty(),
    })
}

/// Build the URL listing a project's files.
pub fn mod_files_url(
    mod_id: u32,
    game_version: Option<&str>,
    mod_loader: Option<ModLoaderType>,
    page_size: u32,
    index: u32,
) -> (r: String)
    ensures
        r@ == mod_files_url_spec(
            mod_id,
            crate::resolver::opt_view(game_version),
            mod_loader,
            page_size,
            index,
        ),
{
    let mut url = String::from_str("https://api.curseforge.com/v1");
    url.append("/mods/");
    let ids = u64_to_dec(mod_id as u64);
    url.append(ids.as_str());
    url.append("/files?pageSize=");
    let ps = u64_to_dec(page_size as u64);
    url.append(ps.as_str());
    url.append("&index=");
    let ix = u64_to_dec(index as u64);
    url.append(ix.as_str());
    match game_version {
        Some(g) => {
            url.append("&gameVersion=");
            url.append(g);
        },
        None => {},
    }
    match mod_loader {
        Some(l) => {
            url.append("&modLoaderType=");
            let lc = u64_to_dec(l.as_u32() as u64);
            url.append(lc.as_str());
        },
        None => {},
    }
    proof {
        assert(url@ =~= mod_files_url_spec(
            mod_id,
            crate::resolver::opt_view(game_version),
            mod_loader,
            page_size,
            index,
        ));
    }
    url
}

/// The URL of one file of a project.
pub open spec fn file_url_spec(mod_id: u32, file_id: u32) -> Seq<char> {
    api_base() + "/mods/"@ + dec_of(mod_id as nat) + "/files/"@ + dec_of(file_id as nat)
}

/// Build the URL of one file of a project.
pub fn file_url(mod_id: u32, file_id: u32) -> (r: String)
    ensures
        r@ == file_url_spec(mod_id, file_id),
{
    let mut url = String::from_str("https://api.curseforge.com/v1");
    url.append("/mods/");
    let idm = u64_to_dec(mod_id as u64);
    url.append(idm.as_str());
    url.append("/files/");
    let idf = u64_to_dec(file_id as u64);
    url.append(idf.as_str());
    proof {
        assert(url@ =~= file_url_spec(mod_id, file_id));
    }
    url
}

/// A name this registry mixes into game-version lists that really names a
/// loader.
pub open spec fn is_loader_name(s: Seq<char>) -> bool {
    lower_of(s) == "forge"@ || lower_of(s) == "fabric"@ || lower_of(s) == "quilt"@ || lower_of(s)
        == "neoforge"@ || lower_of(s) == "liteloader"@ || lower_of(s) == "cauldron"@
}

/// Whether a game-version entry really names a loader.
fn name_is_loader(s: &String) -> (r: bool)
    ensures
        r == is_loader_name(s@),
{
    let low = to_lowercase(s.as_str());
    let l = low.as_str();
    str_eq(l, "forge") || str_eq(l, "fabric") || str_eq(l, "quilt") || str_eq(l, "neoforge")
        || str_eq(l, "liteloader") || str_eq(l, "cauldron")
}

/// The case-folded loader names a mixed game-version list carries.
pub open spec fn loader_views(gvs: Seq<String>) -> Seq<Seq<char>>
    decreases gvs.len(),
{
    if gvs.len() == 0 {
        Seq::empty()
    } else if is_loader_name(gvs[0]@) {
        seq![lower_of(gvs[0]@)] + loader_views(gvs.drop_first())
    } else {
        loader_views(gvs.drop_first())
    }
}

/// The real game versions a mixed game-version list carries.
pub open spec fn version_views(gvs: Seq<String>) -> Seq<Seq<char>>
    decreases gvs.len(),
{
    if gvs.len() == 0 {
        Seq::empty()
    } else if is_loader_name(gvs[0]@) {
        version_views(gvs.drop_first())
    } else {
        seq![gvs[0]@] + version_views(gvs.drop_first())
    }
}

/// The views of a string vector.
pub open spec fn views_of(v: Seq<String>) -> Seq<Seq<char>> {
    v.map_values(|s: String| s@)
}

/// Split a mixed game-version list into case-folded loader names and real
/// game versions, keeping order.
pub fn split_game_versions(gvs: &Vec<String>) -> (r: (Vec<String>, Vec<String>))
    ensures
        views_of(r.0@) == loader_views(gvs@),
        views_of(r.1@) == version_views(gvs@),
{
    let n = gvs.len();
    let mut loaders: Vec<String> = Vec::new();
    let mut versions: Vec<String> = Vec::new();
    let mut i: usize = 0;
    proof {
        assert(gvs@.subrange(0, n as int) =~= gvs@);
        assert(views_of(loaders@) + loader_views(gvs@.subrange(0, n as int)) =~= loader_views(
            gvs@,
        ));
        assert(views_of(versions@) + version_views(gvs@.subrange(0, n as int)) =~= version_views(
            gvs@,
        ));
    }
    while i < n
        invariant
            i <= n,
            n == gvs@.len(),
            loader_views(gvs@) == views_of(loaders@) + loader_views(
                gvs@.subrange(i as int, n as int),
            ),
            version_views(gvs@) == views_of(versions@) + version_views(
                gvs@.subrange(i as int, n as int),
            ),
        decreases n - i,
    {
        proof {
            assert(gvs@.subrange(i as int, n as int)[0] == gvs@[i as int]);
            assert(gvs@.subrange(i as int, n as int).drop_first() =~= gvs@.subrange(
                i + 1 as int,
                n as int,
            ));
        }
        let entry = &gvs[i];
        if name_is_loader(entry) {
            let low = to_lowercase(entry.as_str());
            proof {
                assert(views_of(loaders@.push(low)) =~= views_of(loaders@) + seq![low@]);
                assert(views_of(loaders@.push(low)) + loader_views(
                    gvs@.subrange(i + 1 as int, n as int),
                ) =~= views_of(loaders@) + (seq![lower_of(gvs@[i as int]@)] + loader_views(
                    gvs@.subrange(i + 1 as int, n as int),
                )));
            }
            loaders.push(low);
        } else {
            let v = entry.clone();
            proof {
                assert(views_of(versions@.push(v)) =~= views_of(versions@) + seq![v@]);
                assert(views_of(versions@.push(v)) + version_views(
                    gvs@.subrange(i + 1 as int, n as int),
                ) =~= views_of(versions@) + (seq![gvs@[i as int]@] + version_views(
                    gvs@.subrange(i + 1 as int, n as int),
                )));
            }
            versions.push(v);
        }
        i = i + 1;
    }
    proof {
        assert(loader_views(gvs@.subrange(n as int, n as int)) =~= Seq::<Seq<char>>::empty());
        assert(version_views(gvs@.subrange(n as int, n as int)) =~= Seq::<Seq<char>>::empty());
        assert(views_of(loaders@) + Seq::<Seq<char>>::empty() =~= views_of(loaders@));
        assert(views_of(versions@) + Seq::<Seq<char>>::empty() =~= views_of(versions@));
    }
    (loaders, versions)
}

/// The channel a numeric release type denotes: 1 is release, 2 is beta,
/// anything else counts as alpha.
pub open spec fn cf_channel(release_type: u32) -> model::ReleaseChannel {
    if release_type == 1 {
        model::ReleaseChannel::Release
    } else if release_type == 2 {
        model::ReleaseChannel::Beta
    } else {
        model::ReleaseChannel::Alpha
    }
}

/// A registry file translates to a canonical version: numeric ids become
/// decimal strings, the mixed game-version list is split into loaders and
/// versions, the channel is mapped from the numeric release type, and the
/// single file carries the advertised SHA-1 under the canonical name. A
/// missing download URL (distribution disabled) is carried as a missing
/// URL.
pub open spec fn file_translates(orig: File, out: model::ContentVersion) -> bool {
    out.id@ == dec_of(orig.id as nat) && out.platform == Platform::CurseForge
        && out.parent_item_id@ == dec_of(orig.mod_id as nat) && out.display_name@
        == orig.display_name@ && out.release_channel == cf_channel(orig.release_type)
        && out.publish_date@ == orig.file_date@ && views_of(out.supported_game_versions@)
        == version_views(orig.game_versions@) && views_of(out.supported_loaders@) == loader_views(
        orig.game_versions@,
    ) && out.files@.len() == 1 && out.files@[0].primary && (match (out.files@[0].url, orig.download_url) {
        (Option::Some(u), Option::Some(v)) => u@ == v@,
        (Option::None, Option::None) => true,
        _ => false,
    }) && out.files@[0].file_name@ == orig.file_name@ && out.files@[0].size == orig.file_length
        && sha1_advert(out.files@[0].hashes@) == cf_sha1(orig.hashes@)
}

/// Translate a registry file into the canonical model.
pub fn file_to_content(f: &File) -> (r: model::ContentVersion)
    ensures
        file_translates(*f, r),
{
    let mut hashes: Vec<model::FileHashEntry> = Vec::new();
    let sha1 = find_algo(&f.hashes, 1);
    let md5 = find_algo(&f.hashes, 2);
    let ghost sha1_spec = cf_algo(f.hashes@, 1);
    let mut has_sha1: bool = false;
    match sha1 {
        Some(v) => {
            hashes.push(model::FileHashEntry { algo: String::from_str("sha1"), value: v });
            has_sha1 = true;
        },
        None => {},
    }
    match md5 {
        Some(v) => {
            hashes.push(model::FileHashEntry { algo: String::from_str("md5"), value: v });
        },
        None => {},
    }
    proof {
        reveal_strlit("sha1");
        reveal_strlit("md5");
        assert("md5"@.len() == 3);
        assert("sha1"@.len() == 4);
        assert("md5"@ != "sha1"@);
        if has_sha1 {
            assert(hashes@[0].algo@ == "sha1"@);
            assert(sha1_advert(hashes@) == Option::Some(hashes@[0].value@));
        } else {
            assert(sha1_advert(Seq::<model::FileHashEntry>::empty()) is None);
            if hashes@.len() > 0 {
                assert(hashes@[0].algo@ == "md5"@);
                assert(hashes@.drop_first() =~= Seq::<model::FileHashEntry>::empty());
                assert(sha1_advert(hashes@.drop_first()) is None);
            } else {
                assert(hashes@ =~= Seq::<model::FileHashEntry>::empty());
            }
            assert(sha1_advert(hashes@) is None);
        }
        assert(sha1_advert(hashes@) == cf_sha1(f.hashes@));
    }
    let file = model::VersionFile {
        url: crate::model::copy_opt_string(&f.download_url),
        file_name: f.file_name.clone(),
        size: f.file_length,
        primary: true,
        hashes,
    };
    let mut files: Vec<model::VersionFile> = Vec::new();
    files.push(file);
    let split = split_game_versions(&f.game_versions);
    let channel = if f.release_type == 1 {
        model::ReleaseChannel::Release
    } else if f.release_type == 2 {
        model::ReleaseChannel::Beta
    } else {
        model::ReleaseChannel::Alpha
    };
    model::ContentVersion {
        id: u64_to_dec(f.id as u64),
        platform: Platform::CurseForge,
        parent_item_id: u64_to_dec(f.mod_id as u64),
        display_name: f.display_name.clone(),
        release_channel: channel,
        publish_date: f.file_date.clone(),
        supported_game_versions: split.1,
        supported_loaders: split.0,
        files,
    }
}

/// The names of a category list.
pub open spec fn category_names(cs: Seq<Category>) -> Seq<Seq<char>> {
    cs.map_values(|c: Category| c.name@)
}

/// The canonical content type a class id denotes; unknown class ids count
/// as mods.
pub open spec fn class_content_type(class_id: Option<u32>) -> model::ContentType {
    match class_id {
        Option::Some(c) => if c == CLASS_RESOURCEPACKS {
            model::ContentType::ResourcePack
        } else if c == CLASS_SHADERS {
            model::ContentType::ShaderPack
        } else if c == CLASS_MODPACKS {
            model::ContentType::ModPack
        } else {
            model::ContentType::Mod
        },
        Option::None => model::ContentType::Mod,
    }
}

/// A registry project translates to a canonical item.
pub open spec fn mod_translates(orig: Mod, out: model::ContentItem) -> bool {
    out.id@ == dec_of(orig.id as nat) && out.platform == Platform::CurseForge && out.title@
        == orig.name@ && out.summary@ == orig.summary@ && out.content_type == class_content_type(
        orig.class_id,
    ) && out.download_count == orig.download_count && views_of(out.categories@) == category_names(
        orig.categories@,
    )
}

/// Translate a registry project into the canonical model.
pub fn mod_to_item(m: &Mod) -> (r: model::ContentItem)
    ensures
        mod_translates(*m, r),
{
    let content_type = match m.class_id {
        Some(c) => {
            if c == CLASS_RESOURCEPACKS {
                model::ContentType::ResourcePack
            } else if c == CLASS_SHADERS {
                model::ContentType::ShaderPack
            } else if c == CLASS_MODPACKS {
                model::ContentType::ModPack
            } else {
                model::ContentType::Mod
            }
        },
        None => model::ContentType::Mod,
    };
    let nc = m.categories.len();
    let mut categories: Vec<String> = Vec::new();
    let mut i: usize = 0;
    while i < nc
        invariant
            i <= nc,
            nc == m.categories@.len(),
            categories@.len() == i,
            forall|k: int| 0 <= k < i ==> #[trigger] categories@[k]@ == m.categories@[k].name@,
        decreases nc - i,
    {
        categories.push(m.categories[i].name.clone());
        i = i + 1;
    }
    proof {
        assert(views_of(categories@) =~= category_names(m.categories@));
    }
    model::ContentItem {
        id: u64_to_dec(m.id as u64),
        platform: Platform::CurseForge,
        title: m.name.clone(),
        summary: m.summary.clone(),
        content_type,
        download_count: m.download_count,
        categories,
    }
}

/// One game version with its numeric type, flattened out of the grouped
/// response this registry returns.
#[derive(Debug, Clone)]
pub struct GameVersion {
    pub version: String,
    pub version_type: u32,
}

/// A group of game versions sharing one numeric type, as the registry
/// returns them.
#[derive(Debug, Clone)]
pub struct GameVersionGroup {
    pub version_type: u32,
    pub versions: Vec<String>,
}

/// The (version, type) pairs one group contributes.
pub open spec fn group_views(g: GameVersionGroup) -> Seq<(Seq<char>, u32)> {
    g.versions@.map_values(|s: String| (s@, g.version_type))
}

/// The (version, type) pairs a grouped response flattens to, in order.
pub open spec fn flat_views(gs: Seq<GameVersionGroup>) -> Seq<(Seq<char>, u32)>
    decreases gs.len(),
{
    if gs.len() == 0 {
        Seq::empty()
    } else {
        group_views(gs[0]) + flat_views(gs.drop_first())
    }
}

/// Flatten the registry's grouped game versions into one list, keeping
/// order.
pub fn flatten_game_versions(groups: &Vec<GameVersionGroup>) -> (r: Vec<GameVersion>)
    ensures
        r@.map_values(|v: GameVersion| (v.version@, v.version_type)) == flat_views(groups@),
{
    let n = groups.len();
    let mut out: Vec<GameVersion> = Vec::new();
    let mut i: usize = 0;
    proof {
        assert(groups@.subrange(0, n as int) =~= groups@);
        assert(out@.map_values(|v: GameVersion| (v.version@, v.version_type)) + flat_views(
            groups@.subrange(0, n as int),
        ) =~= flat_views(groups@));
    }
    while i < n
        invariant
            i <= n,
            n == groups@.len(),
            flat_views(groups@) == out@.map_values(|v: GameVersion| (v.version@, v.version_type))
                + flat_views(groups@.subrange(i as int, n as int)),
        decreases n - i,
    {
        proof {
            assert(groups@.subrange(i as int, n as int)[0] == groups@[i as int]);
            assert(groups@.subrange(i as int, n as int).drop_first() =~= groups@.subrange(
                i + 1 as int,
                n as int,
            ));
        }
        let g = &groups[i];
        let m = g.versions.len();
        let mut j: usize = 0;
        while j < m
            invariant
                j <= m,
                m == groups@[i as int].versions@.len(),
                i < n,
                n == groups@.len(),
                g == &groups[i as int],
                flat_views(groups@) == out@.map_values(
                    |v: GameVersion| (v.version@, v.version_type),
                ) + group_views(groups@[i as int]).subrange(
                    j as int,
                    groups@[i as int].versions@.len() as int,
                ) + flat_views(groups@.subrange(i + 1 as int, n as int)),
            decreases m - j,
        {
            let entry = GameVersion { version: g.versions[j].clone(), version_type: g.version_type };
            proof {
                assert(out@.push(entry).map_values(|v: GameVersion| (v.version@, v.version_type))
                    =~= out@.map_values(|v: GameVersion| (v.version@, v.version_type)) + seq![
                    (entry.version@, entry.version_type),
                ]);
                assert(group_views(groups@[i as int])[j as int] == (
                    groups@[i as int].versions@[j as int]@,
                    groups@[i as int].version_type,
                ));
                assert(group_views(groups@[i as int]).subrange(
                    j as int,
                    groups@[i as int].versions@.len() as int,
                ) =~= seq![(entry.version@, entry.version_type)] + group_views(
                    groups@[i as int],
                ).subrange(j + 1 as int, groups@[i as int].versions@.len() as int));
                assert(out@.map_values(|v: GameVersion| (v.version@, v.version_type)) + seq![
                    (entry.version@, entry.version_type),
                ] + group_views(groups@[i as int]).subrange(
                    j + 1 as int,
                    groups@[i as int].versions@.len() as int,
                ) + flat_views(groups@.subrange(i + 1 as int, n as int)) =~= out@.map_values(
                    |v: GameVersion| (v.version@, v.version_type),
                ) + (seq![(entry.version@, entry.version_type)] + group_views(
                    groups@[i as int],
                ).subrange(j + 1 as int, groups@[i as int].versions@.len() as int)) + flat_views(
                    groups@.subrange(i + 1 as int, n as int),
                ));
            }
            out.push(entry);

            j = j + 1;
        }
        proof {
            assert(group_views(groups@[i as int]).subrange(
                m as int,
                groups@[i as int].versions@.len() as int,
            ) =~= Seq::<(Seq<char>, u32)>::empty());
            assert(out@.map_values(|v: GameVersion| (v.version@, v.version_type)) + Seq::<
                (Seq<char>, u32),
            >::empty() + flat_views(groups@.subrange(i + 1 as int, n as int)) =~= out@.map_values(
                |v: GameVersion| (v.version@, v.version_type),
            ) + flat_views(groups@.subrange(i + 1 as int, n as int)));
            assert(group_views(groups@[i as int]).subrange(
                0,
                groups@[i as int].versions@.len() as int,
            ) =~= group_views(groups@[i as int]));
        }
        i = i + 1;
    }
    proof {
        assert(flat_views(groups@.subrange(n as int, n as int)) =~= Seq::<(Seq<char>, u32)>::empty());
        assert(out@.map_values(|v: GameVersion| (v.version@, v.version_type)) + Seq::<
            (Seq<char>, u32),
        >::empty() =~= out@.map_values(|v: GameVersion| (v.version@, v.version_type)));
    }
    out
}

} // verus!
