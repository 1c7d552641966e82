//! The content-addressed store: artifacts are keyed by the SHA-1 of their
//! bytes, computed locally — never taken from registry metadata — so that
//! equal hashes guarantee byte-identical content. Ingesting bytes whose
//! advertised digest disagrees with the computed one fails and leaves the
//! store untouched; ingesting bytes already present reuses the entry. The
//! network transfer itself belongs to the shell around the library: the
//! planning step picks the file and URL, and the ingest step is handed the
//! fetched bytes.

use vstd::prelude::*;
use vstd::string::StringExecFns;
use crate::model::ContentRef;
use crate::model::ContentType;
use crate::model::ContentVersion;
use crate::model::FileHashEntry;
use crate::model::RefSource;
use crate::model::source_eq;
use crate::model::VersionFile;
use crate::error::LauncherError;
use crate::text::hex_of;
use crate::text::sha1_digest;
use crate::text::sha1_of;
use crate::text::str_eq;
use crate::text::to_hex;

verus! {

/// One stored artifact: its hash key, original file name, size, kind and
/// provenance.
#[derive(Debug, Clone)]
pub struct StoreEntry {
    pub hash: String,
    pub file_name: String,
    pub size: u64,
    pub content_type: ContentType,
    pub source: RefSource,
}

/// The in-memory model of the on-disk store: one entry per distinct hash.
#[derive(Debug, Clone)]
pub struct ContentStore {
    pub entries: Vec<StoreEntry>,
}

/// Whether the store holds an entry under this hash.
pub open spec fn store_has(entries: Seq<StoreEntry>, h: Seq<char>) -> bool {
    exists|i: int| 0 <= i < entries.len() && #[trigger] entries[i].hash@ == h
}

/// How many entries the store holds under this hash.
pub open spec fn hash_count(entries: Seq<StoreEntry>, h: Seq<char>) -> nat
    decreases entries.len(),
{
    if entries.len() == 0 {
        0
    } else {
        hash_count(entries.drop_last(), h) + (if entries.last().hash@ == h {
            1nat
        } else {
            0nat
        })
    }
}

/// No two entries share a hash: the store's dedup invariant.
pub open spec fn store_wf(s: ContentStore) -> bool {
    forall|i: int, j: int|
        0 <= i < j < s.entries@.len() ==> #[trigger] s.entries@[i].hash@ != #[trigger] s.entries@[j].hash@
}

/// The store after ingesting an entry: unchanged when its hash is already
/// present, else the entry is appended.
pub open spec fn store_after(entries: Seq<StoreEntry>, e: StoreEntry) -> Seq<StoreEntry> {
    if store_has(entries, e.hash@) {
        entries
    } else {
        entries.push(e)
    }
}

proof fn lemma_hash_count_push(entries: Seq<StoreEntry>, e: StoreEntry, h: Seq<char>)
    ensures
        hash_count(entries.push(e), h) == hash_count(entries, h) + (if e.hash@ == h {
            1nat
        } else {
            0nat
        }),
{
    assert(entries.push(e).drop_last() =~= entries);
    assert(entries.push(e).last() == e);
}

proof fn lemma_hash_count_zero(entries: Seq<StoreEntry>, h: Seq<char>)
    ensures
        (hash_count(entries, h) == 0) <==> !store_has(entries, h),
    decreases entries.len(),
{
    if entries.len() > 0 {
        lemma_hash_count_zero(entries.drop_last(), h);
        if store_has(entries.drop_last(), h) {
            let w = choose|i: int|
                0 <= i < entries.drop_last().len() && #[trigger] entries.drop_last()[i].hash@ == h;
            assert(entries[w].hash@ == h);
        }
        if entries.last().hash@ == h {
            assert(entries[entries.len() - 1].hash@ == h);
        }
        if store_has(entries, h) && !store_has(entries.drop_last(), h) && entries.last().hash@
            != h {
            let w = choose|i: int| 0 <= i < entries.len() && #[trigger] entries[i].hash@ == h;
            assert(entries.drop_last()[w].hash@ == h);
        }
    }
}

proof fn lemma_wf_hash_count_at_most_one(s: ContentStore, h: Seq<char>)
    requires
        store_wf(s),
    ensures
        hash_count(s.entries@, h) <= 1,
{
    lemma_wf_count_rec(s.entries@, h);
}

proof fn lemma_wf_count_rec(entries: Seq<StoreEntry>, h: Seq<char>)
    requires
        forall|i: int, j: int|
            0 <= i < j < entries.len() ==> #[trigger] entries[i].hash@ != #[trigger] entries[j].hash@,
    ensures
        hash_count(entries, h) <= 1,
        store_has(entries, h) ==> hash_count(entries, h) == 1,
    decreases entries.len(),
{
    lemma_hash_count_zero(entries, h);
    if entries.len() > 0 {
        let head = entries.drop_last();
        assert forall|i: int, j: int| 0 <= i < j < head.len() implies #[trigger] head[i].hash@
            != #[trigger] head[j].hash@ by {
            assert(head[i] == entries[i]);
            assert(head[j] == entries[j]);
        }
        lemma_wf_count_rec(head, h);
        lemma_hash_count_zero(head, h);
        if entries.last().hash@ == h {
            if store_has(head, h) {
                let w = choose|i: int| 0 <= i < head.len() && #[trigger] head[i].hash@ == h;
                assert(entries[w].hash@ == entries[entries.len() - 1].hash@);
                assert(false);
            }
        }
        if store_has(entries, h) {
            let w = choose|i: int| 0 <= i < entries.len() && #[trigger] entries[i].hash@ == h;
            if w < entries.len() - 1 {
                assert(head[w].hash@ == h);
            }
        }
    }
}

/// Law: ingesting the same hash twice leaves the store as after the first
/// ingest, and the store then holds exactly one entry under that hash.
pub proof fn lemma_store_dedup(s: ContentStore, e1: StoreEntry, e2: StoreEntry)
    requires
        store_wf(s),
        e1.hash@ == e2.hash@,
    ensures
        store_after(store_after(s.entries@, e1), e2) == store_after(s.entries@, e1),
        hash_count(store_after(store_after(s.entries@, e1), e2), e1.hash@) == 1,
{
    let after1 = store_after(s.entries@, e1);
    if store_has(s.entries@, e1.hash@) {
        lemma_wf_hash_count_at_most_one(s, e1.hash@);
        lemma_hash_count_zero(s.entries@, e1.hash@);
        lemma_wf_count_rec(s.entries@, e1.hash@);
        assert(store_has(after1, e2.hash@));
    } else {
        lemma_hash_count_zero(s.entries@, e1.hash@);
        lemma_hash_count_push(s.entries@, e1, e1.hash@);
        assert(s.entries@.push(e1)[s.entries@.len() as int].hash@ == e1.hash@);
        assert(store_has(after1, e2.hash@));
    }
}

/// The index of the first file marked primary, if any.
pub open spec fn first_primary(files: Seq<VersionFile>) -> Option<int>
    decreases files.len(),
{
    if files.len() == 0 {
        Option::None
    } else if files[0].primary {
        Option::Some(0)
    } else {
        match first_primary(files.drop_first()) {
            Option::Some(i) => Option::Some(i + 1),
            Option::None => Option::None,
        }
    }
}

/// The file a version installs: the first file marked primary, else the
/// first file.
pub open spec fn primary_index(files: Seq<VersionFile>) -> int {
    match first_primary(files) {
        Option::Some(i) => i,
        Option::None => 0,
    }
}

proof fn lemma_first_primary_found(files: Seq<VersionFile>, i: int)
    requires
        0 <= i < files.len(),
        files[i].primary,
        forall|k: int| 0 <= k < i ==> !(#[trigger] files[k].primary),
    ensures
        first_primary(files) == Option::Some(i),
    decreases i,
{
    if i > 0 {
        assert forall|k: int| 0 <= k < i - 1 implies !(#[trigger] files.drop_first()[k].primary) by {
            assert(files.drop_first()[k] == files[k + 1]);
        }
        assert(files.drop_first()[i - 1] == files[i]);
        lemma_first_primary_found(files.drop_first(), i - 1);
    }
}

proof fn lemma_first_primary_missing(files: Seq<VersionFile>)
    requires
        forall|k: int| 0 <= k < files.len() ==> !(#[trigger] files[k].primary),
    ensures
        first_primary(files) == Option::<int>::None,
    decreases files.len(),
{
    if files.len() > 0 {
        assert forall|k: int|
            0 <= k < files.drop_first().len() implies !(#[trigger] files.drop_first()[k].primary) by {
            assert(files.drop_first()[k] == files[k + 1]);
        }
        lemma_first_primary_missing(files.drop_first());
    }
}

/// The index of the file a version installs.
pub fn select_primary(files: &Vec<VersionFile>) -> (r: usize)
    requires
        files@.len() > 0,
    ensures
        r < files@.len(),
        r as int == primary_index(files@),
{
    let n = files.len();
    let mut i: usize = 0;
    while i < n
        invariant
            i <= n,
            n == files@.len(),
            forall|k: int| 0 <= k < i ==> !(#[trigger] files@[k].primary),
        decreases n - i,
    {
        if files[i].primary {
            proof {
                lemma_first_primary_found(files@, i as int);
            }
            return i;
        }
        i = i + 1;
    }
    proof {
        lemma_first_primary_missing(files@);
    }
    0
}

/// The first advertised SHA-1 digest among a file's hashes, if any.
pub open spec fn sha1_advert(hs: Seq<FileHashEntry>) -> Option<Seq<char>>
    decreases hs.len(),
{
    if hs.len() == 0 {
        Option::None
    } else if hs[0].algo@ == "sha1"@ {
        Option::Some(hs[0].value@)
    } else {
        sha1_advert(hs.drop_first())
    }
}

/// The advertised SHA-1 digest of a file, if the registry exposed one.
pub fn find_sha1(hs: &Vec<FileHashEntry>) -> (r: Option<String>)
    ensures
        match r {
            Some(s) => sha1_advert(hs@) == Option::Some(s@),
            None => sha1_advert(hs@) == Option::<Seq<char>>::None,
        },
{
    let n = hs.len();
    let mut i: usize = 0;
    proof {
        assert(hs@.subrange(0, n as int) =~= hs@);
    }
    while i < n
        invariant
            i <= n,
            n == hs@.len(),
            sha1_advert(hs@) == sha1_advert(hs@.subrange(i as int, n as int)),
        decreases n - i,
    {
        proof {
            assert(hs@.subrange(i as int, n as int)[0] == hs@[i as int]);
            assert(hs@.subrange(i as int, n as int).drop_first() =~= hs@.subrange(
                i + 1 as int,
                n as int,
            ));
        }
        if str_eq(hs[i].algo.as_str(), "sha1") {
            return Some(hs[i].value.clone());
        }
        i = i + 1;
    }
    proof {
        assert(hs@.subrange(n as int, n as int).len() == 0);
    }
    None
}

/// What the shell must fetch to install a version: the primary file's URL
/// and name, its size, and the advertised SHA-1 if any.
#[derive(Debug, Clone)]
pub struct DownloadPlan {
    pub url: String,
    pub file_name: String,
    pub size: u64,
    pub advertised_sha1: Option<String>,
}

/// Pick the primary file of a version and return what to fetch. Fails with
/// `DistributionDisabled` exactly when the primary file carries no URL.
pub fn plan_download(version: &ContentVersion) -> (r: Result<DownloadPlan, LauncherError>)
    requires
        version.files@.len() > 0,
    ensures
        match r {
            Ok(plan) => {
                let pf = version.files@[primary_index(version.files@)];
                pf.url is Some && plan.url@ == pf.url.unwrap()@ && plan.file_name@ == pf.file_name@
                    && plan.size == pf.size && (match plan.advertised_sha1 {
                    Some(a) => sha1_advert(pf.hashes@) == Option::Some(a@),
                    None => sha1_advert(pf.hashes@) == Option::<Seq<char>>::None,
                })
            },
            Err(e) => e == LauncherError::DistributionDisabled
                && version.files@[primary_index(version.files@)].url is None,
        },
{
    let i = select_primary(&version.files);
    let pf = &version.files[i];
    let url = match &pf.url {
        Some(u) => u.clone(),
        None => {
            return Err(LauncherError::DistributionDisabled);
        },
    };
    let advertised = find_sha1(&pf.hashes);
    Ok(DownloadPlan { url, file_name: pf.file_name.clone(), size: pf.size, advertised_sha1: advertised })
}

/// Whether the store already holds an entry under this hash.
fn has_hash(entries: &Vec<StoreEntry>, h: &String) -> (r: bool)
    ensures
        r == store_has(entries@, h@),
{
    let n = entries.len();
    let mut i: usize = 0;
    while i < n
        invariant
            i <= n,
            n == entries@.len(),
            forall|k: int| 0 <= k < i ==> #[trigger] entries@[k].hash@ != h@,
        decreases n - i,
    {
        if str_eq(entries[i].hash.as_str(), h.as_str()) {
            return true;
        }
        i = i + 1;
    }
    false
}

/// The hex SHA-1 the store computes for these bytes.
pub open spec fn computed_hash(bytes: Seq<u8>) -> Seq<char> {
    hex_of(sha1_of(bytes))
}

/// Ingest fetched bytes for a version into the store. The hash of the
/// bytes is computed locally; when the registry advertised a SHA-1 for the
/// primary file and it differs, the ingest fails with `HashMismatch` and
/// the store is untouched. Otherwise the entry is deduplicated by hash and
/// a reference carrying the locally computed hash is returned.
pub fn download_to_store(
    store: &mut ContentStore,
    version: &ContentVersion,
    content_type: ContentType,
    bytes: &Vec<u8>,
) -> (r: Result<ContentRef, LauncherError>)
    requires
        version.files@.len() > 0,
        store_wf(*old(store)),
    ensures
        store_wf(*final(store)),
        ({
            let pf = version.files@[primary_index(version.files@)];
            let computed = computed_hash(bytes@);
            if sha1_advert(pf.hashes@) is Some && sha1_advert(pf.hashes@) != Option::Some(
                computed,
            ) {
                r == Result::<ContentRef, LauncherError>::Err(LauncherError::HashMismatch)
                    && *final(store) == *old(store)
            } else {
                match r {
                    Ok(cref) => cref.hash is Some && cref.hash.unwrap()@ == computed && cref.name@
                        == version.display_name@ && cref.version is Some && cref.version.unwrap()@
                        == version.id@ && cref.file_name is Some && cref.file_name.unwrap()@
                        == pf.file_name@ && source_eq(
                        cref.source,
                        RefSource::Registry {
                            platform: version.platform,
                            project_id: version.parent_item_id,
                            version_id: version.id,
                        },
                    ) && final(store).entries@ == store_after(
                        old(store).entries@,
                        final(store).entries@.last(),
                    ) && store_has(final(store).entries@, computed) && hash_count(
                        final(store).entries@,
                        computed,
                    ) == 1 && (!store_has(old(store).entries@, computed) ==> ({
                        let e = final(store).entries@.last();
                        e.hash@ == computed && e.file_name@ == pf.file_name@ && e.size == pf.size
                            && e.content_type == content_type && source_eq(
                            e.source,
                            RefSource::Registry {
                                platform: version.platform,
                                project_id: version.parent_item_id,
                                version_id: version.id,
                            },
                        )
                    })),
                    Err(_) => false,
                }
            }
        }),
{
    let i = select_primary(&version.files);
    let pf = &version.files[i];
    let digest = sha1_digest(bytes);
    let computed = to_hex(&digest);
    let advertised = find_sha1(&pf.hashes);
    if let Some(a) = &advertised {
        if !str_eq(a.as_str(), computed.as_str()) {
            return Err(LauncherError::HashMismatch);
        }
    }
    let entry = StoreEntry {
        hash: computed.clone(),
        file_name: pf.file_name.clone(),
        size: pf.size,
        content_type,
        source: RefSource::Registry {
            platform: version.platform,
            project_id: version.parent_item_id.clone(),
            version_id: version.id.clone(),
        },
    };
    let cref = ContentRef {
        name: version.display_name.clone(),
        hash: Some(computed.clone()),
        version: Some(version.id.clone()),
        source: RefSource::Registry {
            platform: version.platform,
            project_id: version.parent_item_id.clone(),
            version_id: version.id.clone(),
        },
        file_name: Some(pf.file_name.clone()),
    };
    let exists_already = has_hash(&store.entries, &computed);
    if exists_already {
        proof {
            lemma_wf_count_rec(store.entries@, computed@);
            assert(store.entries@.last() == store.entries@[store.entries@.len() - 1]);
            assert(store_after(old(store).entries@, store.entries@.last()) =~= old(
                store,
            ).entries@);
        }
        return Ok(cref);
    }
    proof {
        assert(!store_has(store.entries@, computed@));
        assert(entry.hash@ == computed@);
        lemma_hash_count_push(store.entries@, entry, computed@);
        lemma_hash_count_zero(store.entries@, computed@);
        assert(store.entries@.push(entry)[store.entries@.len() as int] == entry);
        assert forall|a: int, b: int|
            0 <= a < b < store.entries@.push(entry).len() implies #[trigger] store.entries@.push(
            entry,
        )[a].hash@ != #[trigger] store.entries@.push(entry)[b].hash@ by {
            if b < store.entries@.len() {
                assert(store.entries@.push(entry)[a] == store.entries@[a]);
                assert(store.entries@.push(entry)[b] == store.entries@[b]);
            } else {
                assert(store.entries@.push(entry)[a] == store.entries@[a]);
                assert(store.entries@.push(entry)[b] == entry);
            }
        }
    }
    store.entries.push(entry);
    proof {
        assert(store.entries@.last() == store.entries@[store.entries@.len() - 1]);
        assert(store_after(old(store).entries@, store.entries@.last()) =~= store.entries@);
    }
    Ok(cref)
}

/// Ingest bytes imported out of band (a local file or a raw URL) under
/// their locally computed hash, with the given display name, file name and
/// provenance. Deduplicated by hash exactly like a registry download.
pub fn import_bytes(
    store: &mut ContentStore,
    name: &str,
    file_name: &str,
    content_type: ContentType,
    source: RefSource,
    bytes: &Vec<u8>,
) -> (r: ContentRef)
    requires
        store_wf(*old(store)),
    ensures
        store_wf(*final(store)),
        r.hash is Some && r.hash.unwrap()@ == computed_hash(bytes@),
        r.name@ == name@,
        r.version is None,
        r.file_name is Some && r.file_name.unwrap()@ == file_name@,
        source_eq(r.source, source),
        final(store).entries@ == store_after(old(store).entries@, final(store).entries@.last()),
        store_has(final(store).entries@, computed_hash(bytes@)),
        hash_count(final(store).entries@, computed_hash(bytes@)) == 1,
        !store_has(old(store).entries@, computed_hash(bytes@)) ==> ({
            let e = final(store).entries@.last();
            e.hash@ == computed_hash(bytes@) && e.file_name@ == file_name@ && e.size
                == bytes@.len() && e.content_type == content_type && source_eq(e.source, source)
        }),
{
    let digest = sha1_digest(bytes);
    let computed = to_hex(&digest);
    let cref = ContentRef {
        name: String::from_str(name),
        hash: Some(computed.clone()),
        version: None,
        source: crate::model::copy_ref_source(&source),
        file_name: Some(String::from_str(file_name)),
    };
    let entry = StoreEntry {
        hash: computed.clone(),
        file_name: String::from_str(file_name),
        size: bytes.len() as u64,
        content_type,
        source,
    };
    let exists_already = has_hash(&store.entries, &computed);
    if exists_already {
        proof {
            lemma_wf_count_rec(store.entries@, computed@);
            assert(store.entries@.last() == store.entries@[store.entries@.len() - 1]);
            assert(store_after(old(store).entries@, store.entries@.last()) =~= old(
                store,
            ).entries@);
        }
        return cref;
    }
    proof {
        assert(!store_has(store.entries@, computed@));
        assert(entry.hash@ == computed@);
        lemma_hash_count_push(store.entries@, entry, computed@);
        lemma_hash_count_zero(store.entries@, computed@);
        assert(store.entries@.push(entry)[store.entries@.len() as int] == entry);
        assert forall|a: int, b: int|
            0 <= a < b < store.entries@.push(entry).len() implies #[trigger] store.entries@.push(
            entry,
        )[a].hash@ != #[trigger] store.entries@.push(entry)[b].hash@ by {
            if b < store.entries@.len() {
                assert(store.entries@.push(entry)[a] == store.entries@[a]);
                assert(store.entries@.push(entry)[b] == store.entries@[b]);
            } else {
                assert(store.entries@.push(entry)[a] == store.entries@[a]);
                assert(store.entries@.push(entry)[b] == entry);
            }
        }
    }
    store.entries.push(entry);
    proof {
        assert(store.entries@.last() == store.entries@[store.entries@.len() - 1]);
        assert(store_after(old(store).entries@, store.entries@.last()) =~= store.entries@);
    }
    cref
}

} // verus!
