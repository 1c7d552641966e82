//! Profiles and their reconciliation. A profile owns three identity-keyed
//! content lists (mods, resource packs, shader packs); the operations here
//! are pure with respect to the rest of the profile: upsert replaces in
//! place or appends, remove drops by hash or case-folded name, diff compares
//! content identities across the union of the three lists, and the catalog
//! operations (create, clone, delete) are keyed by profile id. Persistence
//! is the caller's concern: every operation here mutates in-memory values.

use vstd::prelude::*;
use crate::model::ContentRef;
use crate::model::content_ref_eq;
use crate::model::copy_content_refs;
use crate::model::copy_opt_string;
use crate::model::copy_strings;
use crate::model::opt_str_eq;
use crate::model::ref_eq;
use crate::model::ref_identity;
use crate::model::ref_identity_string;
use crate::error::LauncherError;
use crate::text::lower_of;
use crate::text::str_eq;
use crate::text::to_lowercase;

verus! {

/// The mod loader a profile runs: its kind and version.
#[derive(Debug, Clone)]
pub struct Loader {
    pub loader_type: String,
    pub version: String,
}

/// Java runtime settings of a profile.
#[derive(Debug, Clone)]
pub struct Runtime {
    pub java: Option<String>,
    pub memory: Option<String>,
    pub args: Vec<String>,
}

/// One launcher profile: id, game version, loader, runtime settings and the
/// three content lists.
#[derive(Debug, Clone)]
pub struct Profile {
    pub id: String,
    pub mc_version: String,
    pub loader: Option<Loader>,
    pub runtime: Runtime,
    pub mods: Vec<ContentRef>,
    pub resourcepacks: Vec<ContentRef>,
    pub shaderpacks: Vec<ContentRef>,
}

/// The list after an upsert: the first entry sharing the new reference's
/// identity is replaced in place; with no such entry the reference is
/// appended.
pub open spec fn upsert_seq(s: Seq<ContentRef>, r: ContentRef) -> Seq<ContentRef>
    decreases s.len(),
{
    if s.len() == 0 {
        seq![r]
    } else if ref_identity(s[0]) == ref_identity(r) {
        seq![r] + s.drop_first()
    } else {
        seq![s[0]] + upsert_seq(s.drop_first(), r)
    }
}

/// Whether an upsert changes the list: true when the reference is appended,
/// and when it replaces an entry that differed from it.
pub open spec fn upsert_changed(s: Seq<ContentRef>, r: ContentRef) -> bool
    decreases s.len(),
{
    if s.len() == 0 {
        true
    } else if ref_identity(s[0]) == ref_identity(r) {
        !ref_eq(s[0], r)
    } else {
        upsert_changed(s.drop_first(), r)
    }
}

proof fn lemma_upsert_found(s: Seq<ContentRef>, r: ContentRef, i: int)
    requires
        0 <= i < s.len(),
        forall|k: int| 0 <= k < i ==> ref_identity(#[trigger] s[k]) != ref_identity(r),
        ref_identity(s[i]) == ref_identity(r),
    ensures
        upsert_seq(s, r) == s.update(i, r),
        upsert_changed(s, r) == !ref_eq(s[i], r),
    decreases i,
{
    if i == 0 {
        assert(seq![r] + s.drop_first() =~= s.update(0, r));
    } else {
        assert forall|k: int| 0 <= k < i - 1 implies ref_identity(#[trigger] s.drop_first()[k])
            != ref_identity(r) by {
            assert(s.drop_first()[k] == s[k + 1]);
        }
        lemma_upsert_found(s.drop_first(), r, i - 1);
        assert(seq![s[0]] + s.drop_first().update(i - 1, r) =~= s.update(i, r));
    }
}

proof fn lemma_upsert_missing(s: Seq<ContentRef>, r: ContentRef)
    requires
        forall|k: int| 0 <= k < s.len() ==> ref_identity(#[trigger] s[k]) != ref_identity(r),
    ensures
        upsert_seq(s, r) == s.push(r),
        upsert_changed(s, r),
    decreases s.len(),
{
    if s.len() == 0 {
        assert(upsert_seq(s, r) =~= s.push(r));
    } else {
        assert forall|k: int| 0 <= k < s.drop_first().len() implies ref_identity(
            #[trigger] s.drop_first()[k],
        ) != ref_identity(r) by {
            assert(s.drop_first()[k] == s[k + 1]);
        }
        lemma_upsert_missing(s.drop_first(), r);
        assert(seq![s[0]] + s.drop_first().push(r) =~= s.push(r));
    }
}

/// Law: upserting the same reference a second time changes nothing — the
/// list is as after the first upsert and the reported change is false.
pub proof fn lemma_upsert_idempotent(s: Seq<ContentRef>, r: ContentRef)
    ensures
        upsert_seq(upsert_seq(s, r), r) == upsert_seq(s, r),
        !upsert_changed(upsert_seq(s, r), r),
    decreases s.len(),
{
    if s.len() == 0 {
        assert(upsert_seq(seq![r] + Seq::<ContentRef>::empty(), r) =~= seq![r]
            + Seq::<ContentRef>::empty());
        assert(upsert_seq(s, r) =~= seq![r] + Seq::<ContentRef>::empty());
        assert((seq![r] + Seq::<ContentRef>::empty())[0] == r);
        assert((seq![r] + Seq::<ContentRef>::empty()).drop_first()
            =~= Seq::<ContentRef>::empty());
        assert(upsert_seq(upsert_seq(s, r), r) =~= upsert_seq(s, r));
    } else if ref_identity(s[0]) == ref_identity(r) {
        let t = seq![r] + s.drop_first();
        assert(t[0] == r);
        assert(t.drop_first() =~= s.drop_first());
        assert(upsert_seq(t, r) =~= seq![r] + t.drop_first());
        assert(upsert_seq(upsert_seq(s, r), r) =~= upsert_seq(s, r));
    } else {
        lemma_upsert_idempotent(s.drop_first(), r);
        let t = seq![s[0]] + upsert_seq(s.drop_first(), r);
        assert(t[0] == s[0]);
        assert(t.drop_first() =~= upsert_seq(s.drop_first(), r));
        assert(upsert_seq(t, r) =~= seq![s[0]] + upsert_seq(t.drop_first(), r));
    }
}

/// Upsert a reference into one list: replace the first entry with the same
/// identity in place, else append.
fn upsert_ref(list: &mut Vec<ContentRef>, r: ContentRef) -> (changed: bool)
    ensures
        final(list)@ == upsert_seq(old(list)@, r),
        changed == upsert_changed(old(list)@, r),
{
    let rid = ref_identity_string(&r);
    let n = list.len();
    let mut i: usize = 0;
    while i < n
        invariant
            i <= n,
            n == list@.len(),
            list@ == old(list)@,
            rid@ == ref_identity(r),
            forall|k: int| 0 <= k < i ==> ref_identity(#[trigger] list@[k]) != ref_identity(r),
        decreases n - i,
    {
        let eid = ref_identity_string(&list[i]);
        if eid == rid {
            let same = content_ref_eq(&list[i], &r);
            proof {
                lemma_upsert_found(list@, r, i as int);
            }
            list.set(i, r);
            return !same;
        }
        i = i + 1;
    }
    proof {
        lemma_upsert_missing(list@, r);
    }
    list.push(r);
    true
}

/// Upsert into the mods list; the rest of the profile is untouched.
pub fn upsert_mod(profile: &mut Profile, content_ref: ContentRef) -> (changed: bool)
    ensures
        final(profile).mods@ == upsert_seq(old(profile).mods@, content_ref),
        changed == upsert_changed(old(profile).mods@, content_ref),
        final(profile).id == old(profile).id,
        final(profile).mc_version == old(profile).mc_version,
        final(profile).loader == old(profile).loader,
        final(profile).runtime == old(profile).runtime,
        final(profile).resourcepacks == old(profile).resourcepacks,
        final(profile).shaderpacks == old(profile).shaderpacks,
{
    upsert_ref(&mut profile.mods, content_ref)
}

/// Upsert into the resource pack list; the rest of the profile is untouched.
pub fn upsert_resourcepack(profile: &mut Profile, content_ref: ContentRef) -> (changed: bool)
    ensures
        final(profile).resourcepacks@ == upsert_seq(old(profile).resourcepacks@, content_ref),
        changed == upsert_changed(old(profile).resourcepacks@, content_ref),
        final(profile).id == old(profile).id,
        final(profile).mc_version == old(profile).mc_version,
        final(profile).loader == old(profile).loader,
        final(profile).runtime == old(profile).runtime,
        final(profile).mods == old(profile).mods,
        final(profile).shaderpacks == old(profile).shaderpacks,
{
    upsert_ref(&mut profile.resourcepacks, content_ref)
}

/// Upsert into the shader pack list; the rest of the profile is untouched.
pub fn upsert_shaderpack(profile: &mut Profile, content_ref: ContentRef) -> (changed: bool)
    ensures
        final(profile).shaderpacks@ == upsert_seq(old(profile).shaderpacks@, content_ref),
        changed == upsert_changed(old(profile).shaderpacks@, content_ref),
        final(profile).id == old(profile).id,
        final(profile).mc_version == old(profile).mc_version,
        final(profile).loader == old(profile).loader,
        final(profile).runtime == old(profile).runtime,
        final(profile).mods == old(profile).mods,
        final(profile).resourcepacks == old(profile).resourcepacks,
{
    upsert_ref(&mut profile.shaderpacks, content_ref)
}

/// An entry matches a removal target when its hash is exactly the target,
/// or its name equals the target ignoring case.
pub open spec fn target_matches(e: ContentRef, target: Seq<char>) -> bool {
    (match e.hash {
        Some(h) => h@ == target,
        None => false,
    }) || lower_of(e.name@) == lower_of(target)
}

/// The list with every entry matching the target removed.
pub open spec fn remove_seq(s: Seq<ContentRef>, target: Seq<char>) -> Seq<ContentRef>
    decreases s.len(),
{
    if s.len() == 0 {
        Seq::empty()
    } else if target_matches(s[0], target) {
        remove_seq(s.drop_first(), target)
    } else {
        seq![s[0]] + remove_seq(s.drop_first(), target)
    }
}

/// Whether an entry of `e` matches the removal target.
fn entry_matches_target(e: &ContentRef, target: &str, target_lower: &String) -> (r: bool)
    requires
        target_lower@ == lower_of(target@),
    ensures
        r == target_matches(*e, target@),
{
    let hash_hit = match &e.hash {
        Some(h) => str_eq(h.as_str(), target),
        None => false,
    };
    if hash_hit {
        true
    } else {
        let name_lower = to_lowercase(e.name.as_str());
        name_lower == *target_lower
    }
}

/// Remove every entry matching the target from one list; report whether
/// anything was removed.
fn remove_ref(list: &mut Vec<ContentRef>, target: &str) -> (changed: bool)
    ensures
        final(list)@ == remove_seq(old(list)@, target@),
        changed == exists|k: int|
            0 <= k < old(list)@.len() && target_matches(#[trigger] old(list)@[k], target@),
{
    let target_lower = to_lowercase(target);
    let n = list.len();
    let mut out: Vec<ContentRef> = Vec::new();
    let mut changed: bool = false;
    let mut i: usize = 0;
    proof {
        assert(list@.subrange(0, n as int) =~= list@);
        assert(out@ + remove_seq(list@.subrange(0, n as int), target@) =~= remove_seq(
            list@,
            target@,
        ));
    }
    while i < n
        invariant
            i <= n,
            n == list@.len(),
            list@ == old(list)@,
            target_lower@ == lower_of(target@),
            remove_seq(list@, target@) == out@ + remove_seq(
                list@.subrange(i as int, n as int),
                target@,
            ),
            changed == exists|k: int|
                0 <= k < i && target_matches(#[trigger] list@[k], target@),
        decreases n - i,
    {
        proof {
            assert(list@.subrange(i as int, n as int).drop_first() =~= list@.subrange(
                i + 1 as int,
                n as int,
            ));
            assert(list@.subrange(i as int, n as int)[0] == list@[i as int]);
        }
        let is_match = entry_matches_target(&list[i], target, &target_lower);
        if is_match {
            changed = true;
        } else {
            let e = crate::model::copy_content_ref(&list[i]);
            proof {
                assert(seq![list@[i as int]] + remove_seq(
                    list@.subrange(i + 1 as int, n as int),
                    target@,
                ) == remove_seq(list@.subrange(i as int, n as int), target@));
            }
            out.push(e);
        }
        i = i + 1;
    }
    proof {
        assert(list@.subrange(n as int, n as int) =~= Seq::<ContentRef>::empty());
        assert(out@ + Seq::<ContentRef>::empty() =~= out@);
    }
    *list = out;
    changed
}

/// Remove by hash or case-folded name from the mods list.
pub fn remove_mod(profile: &mut Profile, target: &str) -> (changed: bool)
    ensures
        final(profile).mods@ == remove_seq(old(profile).mods@, target@),
        changed == exists|k: int|
            0 <= k < old(profile).mods@.len() && target_matches(
                #[trigger] old(profile).mods@[k],
                target@,
            ),
        final(profile).id == old(profile).id,
        final(profile).mc_version == old(profile).mc_version,
        final(profile).loader == old(profile).loader,
        final(profile).runtime == old(profile).runtime,
        final(profile).resourcepacks == old(profile).resourcepacks,
        final(profile).shaderpacks == old(profile).shaderpacks,
{
    remove_ref(&mut profile.mods, target)
}

/// Remove by hash or case-folded name from the resource pack list.
pub fn remove_resourcepack(profile: &mut Profile, target: &str) -> (changed: bool)
    ensures
        final(profile).resourcepacks@ == remove_seq(old(profile).resourcepacks@, target@),
        changed == exists|k: int|
            0 <= k < old(profile).resourcepacks@.len() && target_matches(
                #[trigger] old(profile).resourcepacks@[k],
                target@,
            ),
        final(profile).id == old(profile).id,
        final(profile).mc_version == old(profile).mc_version,
        final(profile).loader == old(profile).loader,
        final(profile).runtime == old(profile).runtime,
        final(profile).mods == old(profile).mods,
        final(profile).shaderpacks == old(profile).shaderpacks,
{
    remove_ref(&mut profile.resourcepacks, target)
}

/// Remove by hash or case-folded name from the shader pack list.
pub fn remove_shaderpack(profile: &mut Profile, target: &str) -> (changed: bool)
    ensures
        final(profile).shaderpacks@ == remove_seq(old(profile).shaderpacks@, target@),
        changed == exists|k: int|
            0 <= k < old(profile).shaderpacks@.len() && target_matches(
                #[trigger] old(profile).shaderpacks@[k],
                target@,
            ),
        final(profile).id == old(profile).id,
        final(profile).mc_version == old(profile).mc_version,
        final(profile).loader == old(profile).loader,
        final(profile).runtime == old(profile).runtime,
        final(profile).mods == old(profile).mods,
        final(profile).resourcepacks == old(profile).resourcepacks,
{
    remove_ref(&mut profile.shaderpacks, target)
}

/// The set of content identities of a reference list.
pub open spec fn idents_of(s: Seq<ContentRef>) -> Set<Seq<char>> {
    Set::new(|id: Seq<char>| exists|i: int| 0 <= i < s.len() && ref_identity(#[trigger] s[i]) == id)
}

/// All content identities of a profile, across its three lists.
pub open spec fn profile_idents(p: Profile) -> Set<Seq<char>> {
    idents_of(p.mods@).union(idents_of(p.resourcepacks@)).union(idents_of(p.shaderpacks@))
}

/// The set of character sequences held by a string vector.
pub open spec fn strs_set(v: Seq<String>) -> Set<Seq<char>> {
    Set::new(|id: Seq<char>| exists|i: int| 0 <= i < v.len() && #[trigger] v[i]@ == id)
}

/// No two entries of the vector hold the same characters.
pub open spec fn strs_nodup(v: Seq<String>) -> bool {
    forall|i: int, j: int| 0 <= i < j < v.len() ==> #[trigger] v[i]@ != #[trigger] v[j]@
}

/// Whether some entry of `v` holds the characters of `s`.
fn vec_contains_string(v: &Vec<String>, s: &String) -> (r: bool)
    ensures
        r == strs_set(v@).contains(s@),
{
    let n = v.len();
    let mut i: usize = 0;
    while i < n
        invariant
            i <= n,
            n == v@.len(),
            forall|k: int| 0 <= k < i ==> #[trigger] v@[k]@ != s@,
        decreases n - i,
    {
        if v[i] == *s {
            return true;
        }
        i = i + 1;
    }
    false
}

/// Append the identities of one list to `out`, skipping ones already there.
fn push_idents(out: &mut Vec<String>, list: &Vec<ContentRef>)
    requires
        strs_nodup(old(out)@),
    ensures
        strs_nodup(final(out)@),
        strs_set(final(out)@) == strs_set(old(out)@).union(idents_of(list@)),
{
    let n = list.len();
    let mut i: usize = 0;
    proof {
        assert(strs_set(out@) =~= strs_set(out@).union(idents_of(list@.subrange(0, 0))));
    }
    while i < n
        invariant
            i <= n,
            n == list@.len(),
            strs_nodup(out@),
            strs_set(out@) == strs_set(old(out)@).union(idents_of(list@.subrange(0, i as int))),
        decreases n - i,
    {
        let id = ref_identity_string(&list[i]);
        let already = vec_contains_string(out, &id);
        proof {
            assert(forall|k: int|
                0 <= k < i ==> #[trigger] list@.subrange(0, i as int)[k] == list@[k]);
            assert forall|x: Seq<char>|
                idents_of(list@.subrange(0, i + 1 as int)).contains(x) implies idents_of(
                list@.subrange(0, i as int),
            ).contains(x) || x == ref_identity(list@[i as int]) by {
                let w = choose|w: int|
                    0 <= w < i + 1 && ref_identity(
                        #[trigger] list@.subrange(0, i + 1 as int)[w],
                    ) == x;
                if w < i {
                    assert(list@.subrange(0, i as int)[w] == list@.subrange(0, i + 1 as int)[w]);
                }
            }
            assert forall|x: Seq<char>|
                idents_of(list@.subrange(0, i as int)).contains(x) implies idents_of(
                list@.subrange(0, i + 1 as int),
            ).contains(x) by {
                let w = choose|w: int|
                    0 <= w < i && ref_identity(#[trigger] list@.subrange(0, i as int)[w]) == x;
                assert(list@.subrange(0, i + 1 as int)[w] == list@.subrange(0, i as int)[w]);
            }
            assert(idents_of(list@.subrange(0, i + 1 as int)).contains(
                ref_identity(list@[i as int]),
            )) by {
                assert(list@.subrange(0, i + 1 as int)[i as int] == list@[i as int]);
            }
        }
        if !already {
            proof {
                assert forall|x: Seq<char>|
                    strs_set(out@.push(id)).contains(x) implies strs_set(out@).contains(x) || x
                    == id@ by {
                    let w = choose|w: int|
                        0 <= w < out@.len() + 1 && #[trigger] out@.push(id)[w]@ == x;
                    if w < out@.len() {
                        assert(out@.push(id)[w] == out@[w]);
                    }
                }
                assert forall|x: Seq<char>| strs_set(out@).contains(x) implies strs_set(
                    out@.push(id),
                ).contains(x) by {
                    let w = choose|w: int| 0 <= w < out@.len() && #[trigger] out@[w]@ == x;
                    assert(out@.push(id)[w] == out@[w]);
                }
                assert(strs_set(out@.push(id)).contains(id@)) by {
                    assert(out@.push(id)[out@.len() as int] == id);
                }
                assert(strs_set(out@.push(id)) =~= strs_set(out@).insert(id@));
                assert(forall|k: int| 0 <= k < out@.len() ==> #[trigger] out@.push(id)[k] == out@[k]);
            }
            out.push(id);
            proof {
                assert(strs_set(out@) =~= strs_set(old(out)@).union(
                    idents_of(list@.subrange(0, i + 1 as int)),
                ));
            }
        } else {
            proof {
                assert(strs_set(out@) =~= strs_set(old(out)@).union(
                    idents_of(list@.subrange(0, i + 1 as int)),
                ));
            }
        }
        i = i + 1;
    }
    proof {
        assert(list@.subrange(0, n as int) =~= list@);
    }
}

/// The distinct content identities of a profile, in first-seen order.
pub fn collect_idents(p: &Profile) -> (v: Vec<String>)
    ensures
        strs_nodup(v@),
        strs_set(v@) == profile_idents(*p),
{
    let mut out: Vec<String> = Vec::new();
    proof {
        assert(strs_nodup(out@));
    }
    push_idents(&mut out, &p.mods);
    push_idents(&mut out, &p.resourcepacks);
    push_idents(&mut out, &p.shaderpacks);
    proof {
        assert(strs_set(Seq::<String>::empty()) =~= Set::<Seq<char>>::empty());
        assert(strs_set(out@) =~= profile_idents(*p));
    }
    out
}

/// Diff two profiles by content identity across the union of their three
/// lists: identities only in `a`, only in `b`, and in both. List kind and
/// ordering are ignored.
pub fn diff_profiles(a: &Profile, b: &Profile) -> (r: (Vec<String>, Vec<String>, Vec<String>))
    ensures
        strs_nodup(r.0@),
        strs_nodup(r.1@),
        strs_nodup(r.2@),
        strs_set(r.0@) == profile_idents(*a).difference(profile_idents(*b)),
        strs_set(r.1@) == profile_idents(*b).difference(profile_idents(*a)),
        strs_set(r.2@) == profile_idents(*a).intersect(profile_idents(*b)),
{
    let ids_a = collect_idents(a);
    let ids_b = collect_idents(b);
    let (only_a, both) = partition_by_membership(&ids_a, &ids_b);
    let (only_b, _both_again) = partition_by_membership(&ids_b, &ids_a);
    proof {
        assert(strs_set(only_a@) =~= profile_idents(*a).difference(profile_idents(*b)));
        assert(strs_set(only_b@) =~= profile_idents(*b).difference(profile_idents(*a)));
        assert(strs_set(both@) =~= profile_idents(*a).intersect(profile_idents(*b)));
    }
    (only_a, only_b, both)
}

/// Split `v` into the entries absent from `other` and those present in it.
fn partition_by_membership(v: &Vec<String>, other: &Vec<String>) -> (r: (Vec<String>, Vec<String>))
    requires
        strs_nodup(v@),
    ensures
        strs_nodup(r.0@),
        strs_nodup(r.1@),
        strs_set(r.0@) == strs_set(v@).difference(strs_set(other@)),
        strs_set(r.1@) == strs_set(v@).intersect(strs_set(other@)),
{
    let n = v.len();
    let mut absent: Vec<String> = Vec::new();
    let mut present: Vec<String> = Vec::new();
    let mut i: usize = 0;
    proof {
        assert(strs_set(absent@) =~= strs_set(v@.subrange(0, 0)).difference(strs_set(other@)));
        assert(strs_set(present@) =~= strs_set(v@.subrange(0, 0)).intersect(strs_set(other@)));
    }
    while i < n
        invariant
            i <= n,
            n == v@.len(),
            strs_nodup(v@),
            strs_nodup(absent@),
            strs_nodup(present@),
            strs_set(absent@) == strs_set(v@.subrange(0, i as int)).difference(strs_set(other@)),
            strs_set(present@) == strs_set(v@.subrange(0, i as int)).intersect(strs_set(other@)),
        decreases n - i,
    {
        let id = v[i].clone();
        let hit = vec_contains_string(other, &id);
        proof {
            assert forall|x: Seq<char>|
                strs_set(v@.subrange(0, i + 1 as int)).contains(x) implies strs_set(
                v@.subrange(0, i as int),
            ).contains(x) || x == v@[i as int]@ by {
                let w = choose|w: int|
                    0 <= w < i + 1 && #[trigger] v@.subrange(0, i + 1 as int)[w]@ == x;
                if w < i {
                    assert(v@.subrange(0, i as int)[w] == v@.subrange(0, i + 1 as int)[w]);
                }
            }
            assert forall|x: Seq<char>|
                strs_set(v@.subrange(0, i as int)).contains(x) implies strs_set(
                v@.subrange(0, i + 1 as int),
            ).contains(x) by {
                let w = choose|w: int| 0 <= w < i && #[trigger] v@.subrange(0, i as int)[w]@ == x;
                assert(v@.subrange(0, i + 1 as int)[w] == v@.subrange(0, i as int)[w]);
            }
            assert(strs_set(v@.subrange(0, i + 1 as int)).contains(v@[i as int]@)) by {
                assert(v@.subrange(0, i + 1 as int)[i as int] == v@[i as int]);
            }
            // The new identity was not seen among the first i entries.
            assert(!strs_set(v@.subrange(0, i as int)).contains(v@[i as int]@)) by {
                if strs_set(v@.subrange(0, i as int)).contains(v@[i as int]@) {
                    let w = choose|w: int|
                        0 <= w < i && #[trigger] v@.subrange(0, i as int)[w]@ == v@[i as int]@;
                    assert(v@[w]@ == v@[i as int]@);
                }
            }
        }
        if hit {
            proof {
                lemma_push_set(present@, id, v@[i as int]@);
                assert(!strs_set(present@).contains(id@));
            }
            present.push(id);
            proof {
                assert(strs_set(present@) =~= strs_set(v@.subrange(0, i + 1 as int)).intersect(
                    strs_set(other@),
                ));
                assert(strs_set(absent@) =~= strs_set(v@.subrange(0, i + 1 as int)).difference(
                    strs_set(other@),
                ));
            }
        } else {
            proof {
                lemma_push_set(absent@, id, v@[i as int]@);
                assert(!strs_set(absent@).contains(id@));
            }
            absent.push(id);
            proof {
                assert(strs_set(absent@) =~= strs_set(v@.subrange(0, i + 1 as int)).difference(
                    strs_set(other@),
                ));
                assert(strs_set(present@) =~= strs_set(v@.subrange(0, i + 1 as int)).intersect(
                    strs_set(other@),
                ));
            }
        }
        i = i + 1;
    }
    proof {
        assert(v@.subrange(0, n as int) =~= v@);
    }
    (absent, present)
}

proof fn lemma_push_set(s: Seq<String>, x: String, xv: Seq<char>)
    requires
        x@ == xv,
    ensures
        strs_set(s.push(x)) == strs_set(s).insert(xv),
        forall|k: int| 0 <= k < s.len() ==> #[trigger] s.push(x)[k] == s[k],
{
    assert forall|y: Seq<char>| strs_set(s.push(x)).contains(y) implies strs_set(s).insert(
        xv,
    ).contains(y) by {
        let w = choose|w: int| 0 <= w < s.len() + 1 && #[trigger] s.push(x)[w]@ == y;
        if w < s.len() {
            assert(s.push(x)[w] == s[w]);
        }
    }
    assert forall|y: Seq<char>| strs_set(s).insert(xv).contains(y) implies strs_set(
        s.push(x),
    ).contains(y) by {
        if y == xv {
            assert(s.push(x)[s.len() as int]@ == y);
        } else {
            let w = choose|w: int| 0 <= w < s.len() && #[trigger] s[w]@ == y;
            assert(s.push(x)[w] == s[w]);
        }
    }
    assert(strs_set(s.push(x)) =~= strs_set(s).insert(xv));
}

/// Law: diffing a profile against itself leaves nothing on either side and
/// reports every one of its content identities as shared.
pub proof fn lemma_diff_profiles_self(p: Profile)
    ensures
        profile_idents(p).difference(profile_idents(p)) =~= Set::<Seq<char>>::empty(),
        profile_idents(p).intersect(profile_idents(p)) =~= profile_idents(p),
{
}

/// Two optional loaders agree field for field.
pub open spec fn loader_eq(a: Option<Loader>, b: Option<Loader>) -> bool {
    match (a, b) {
        (Option::Some(x), Option::Some(y)) => x.loader_type@ == y.loader_type@ && x.version@
            == y.version@,
        (Option::None, Option::None) => true,
        _ => false,
    }
}

/// Two runtimes agree field for field.
pub open spec fn runtime_eq(a: Runtime, b: Runtime) -> bool {
    opt_str_eq(a.java, b.java) && opt_str_eq(a.memory, b.memory) && a.args@ == b.args@
}

/// Two profiles agree field for field, comparing strings by characters and
/// lists entry for entry.
pub open spec fn eq_profile(a: Profile, b: Profile) -> bool {
    a.id@ == b.id@ && a.mc_version@ == b.mc_version@ && loader_eq(a.loader, b.loader)
        && runtime_eq(a.runtime, b.runtime) && a.mods@ == b.mods@ && a.resourcepacks@
        == b.resourcepacks@ && a.shaderpacks@ == b.shaderpacks@
}

/// A copy of an optional loader holding the same value.
pub fn copy_loader(a: &Option<Loader>) -> (o: Option<Loader>)
    ensures
        o == *a,
{
    match a {
        Option::Some(l) => Option::Some(
            Loader { loader_type: l.loader_type.clone(), version: l.version.clone() },
        ),
        Option::None => Option::None,
    }
}

/// A copy of a runtime agreeing field for field.
pub fn copy_runtime(a: &Runtime) -> (o: Runtime)
    ensures
        runtime_eq(*a, o),
{
    Runtime {
        java: copy_opt_string(&a.java),
        memory: copy_opt_string(&a.memory),
        args: copy_strings(&a.args),
    }
}

/// A deep copy of a profile agreeing field for field.
pub fn copy_profile(p: &Profile) -> (o: Profile)
    ensures
        eq_profile(*p, o),
{
    Profile {
        id: p.id.clone(),
        mc_version: p.mc_version.clone(),
        loader: copy_loader(&p.loader),
        runtime: copy_runtime(&p.runtime),
        mods: copy_content_refs(&p.mods),
        resourcepacks: copy_content_refs(&p.resourcepacks),
        shaderpacks: copy_content_refs(&p.shaderpacks),
    }
}

/// The in-memory set of persisted profiles, keyed by id. The shell around
/// the library loads it from disk and writes it back after a successful
/// mutation.
#[derive(Debug, Clone)]
pub struct ProfileCatalog {
    pub profiles: Vec<Profile>,
}

/// No two profiles of the catalog share an id.
pub open spec fn catalog_wf(c: ProfileCatalog) -> bool {
    forall|i: int, j: int|
        0 <= i < j < c.profiles@.len() ==> #[trigger] c.profiles@[i].id@ != #[trigger] c.profiles@[j].id@
}

/// Whether the catalog holds a profile with this id.
pub open spec fn catalog_has(c: ProfileCatalog, id: Seq<char>) -> bool {
    exists|i: int| 0 <= i < c.profiles@.len() && #[trigger] c.profiles@[i].id@ == id
}

/// The index of the profile with this id, if any.
fn find_profile_index(c: &ProfileCatalog, id: &str) -> (r: Option<usize>)
    ensures
        match r {
            Some(i) => i < c.profiles@.len() && c.profiles@[i as int].id@ == id@,
            None => !catalog_has(*c, id@),
        },
{
    let n = c.profiles.len();
    let mut i: usize = 0;
    while i < n
        invariant
            i <= n,
            n == c.profiles@.len(),
            forall|k: int| 0 <= k < i ==> #[trigger] c.profiles@[k].id@ != id@,
        decreases n - i,
    {
        if str_eq(c.profiles[i].id.as_str(), id) {
            return Some(i);
        }
        i = i + 1;
    }
    None
}

/// Borrow the profile with this id, if any.
pub fn get_profile<'a>(c: &'a ProfileCatalog, id: &str) -> (r: Option<&'a Profile>)
    ensures
        match r {
            Some(p) => catalog_has(*c, id@) && p.id@ == id@ && exists|i: int|
                0 <= i < c.profiles@.len() && c.profiles@[i] == *p,
            None => !catalog_has(*c, id@),
        },
{
    match find_profile_index(c, id) {
        Some(i) => {
            proof {
                assert(c.profiles@[i as int].id@ == id@);
            }
            Some(&c.profiles[i])
        },
        None => None,
    }
}

/// The ids of all profiles, in catalog order.
pub fn list_profiles(c: &ProfileCatalog) -> (r: Vec<String>)
    ensures
        r@.len() == c.profiles@.len(),
        forall|i: int| 0 <= i < r@.len() ==> #[trigger] r@[i]@ == c.profiles@[i].id@,
{
    let n = c.profiles.len();
    let mut out: Vec<String> = Vec::new();
    let mut i: usize = 0;
    while i < n
        invariant
            i <= n,
            n == c.profiles@.len(),
            out@.len() == i,
            forall|k: int| 0 <= k < i ==> #[trigger] out@[k]@ == c.profiles@[k].id@,
        decreases n - i,
    {
        out.push(c.profiles[i].id.clone());
        i = i + 1;
    }
    out
}

/// Create a new, empty profile under this id and persist it in the catalog.
/// Fails with `AlreadyExists` when the id is taken; the catalog is then
/// unchanged.
pub fn create_profile(
    c: &mut ProfileCatalog,
    id: &str,
    mc_version: &str,
    loader: Option<Loader>,
    runtime: Runtime,
) -> (r: Result<Profile, LauncherError>)
    requires
        catalog_wf(*old(c)),
    ensures
        catalog_wf(*final(c)),
        catalog_has(*old(c), id@) ==> r == Result::<Profile, LauncherError>::Err(
            LauncherError::AlreadyExists,
        ) && *final(c) == *old(c),
        !catalog_has(*old(c), id@) ==> match r {
            Ok(p) => p.id@ == id@ && p.mc_version@ == mc_version@ && loader_eq(p.loader, loader)
                && runtime_eq(p.runtime, runtime) && p.mods@.len() == 0 && p.resourcepacks@.len()
                == 0 && p.shaderpacks@.len() == 0 && final(c).profiles@.len() == old(c).profiles@.len() + 1 && (forall|k: int|
                0 <= k < old(c).profiles@.len() ==> #[trigger] final(c).profiles@[k] == old(c).profiles@[k]) && eq_profile(final(c).profiles@.last(), p),
            Err(_) => false,
        },
{
    if let Some(_i) = find_profile_index(c, id) {
        return Err(LauncherError::AlreadyExists);
    }
    let p = Profile {
        id: String::from_str(id),
        mc_version: String::from_str(mc_version),
        loader,
        runtime,
        mods: Vec::new(),
        resourcepacks: Vec::new(),
        shaderpacks: Vec::new(),
    };
    let stored = copy_profile(&p);
    proof {
        assert(forall|k: int|
            0 <= k < c.profiles@.len() ==> #[trigger] c.profiles@.push(stored)[k]
                == c.profiles@[k]);
        assert(c.profiles@.push(stored).last() == stored);
    }
    c.profiles.push(stored);
    Ok(p)
}

/// Deep-copy the profile under `src` to a new profile `dst`, lists and
/// loader and runtime settings included. Fails with `ProfileNotFound` when
/// `src` is absent and with `AlreadyExists` when `dst` is taken; the
/// catalog is then unchanged.
pub fn clone_profile(c: &mut ProfileCatalog, src: &str, dst: &str) -> (r: Result<
    Profile,
    LauncherError,
>)
    requires
        catalog_wf(*old(c)),
    ensures
        catalog_wf(*final(c)),
        !catalog_has(*old(c), src@) ==> r == Result::<Profile, LauncherError>::Err(
            LauncherError::ProfileNotFound,
        ) && *final(c) == *old(c),
        catalog_has(*old(c), src@) && catalog_has(*old(c), dst@) ==> r == Result::<
            Profile,
            LauncherError,
        >::Err(LauncherError::AlreadyExists) && *final(c) == *old(c),
        catalog_has(*old(c), src@) && !catalog_has(*old(c), dst@) ==> match r {
            Ok(p) => p.id@ == dst@ && (forall|i: int|
                0 <= i < old(c).profiles@.len() && #[trigger] old(c).profiles@[i].id@ == src@
                    ==> p.mc_version@ == old(c).profiles@[i].mc_version@ && loader_eq(
                    p.loader,
                    old(c).profiles@[i].loader,
                ) && runtime_eq(p.runtime, old(c).profiles@[i].runtime) && p.mods@ == old(c).profiles@[i].mods@ && p.resourcepacks@ == old(c).profiles@[i].resourcepacks@
                    && p.shaderpacks@ == old(c).profiles@[i].shaderpacks@) && final(c).profiles@.len() == old(c).profiles@.len() + 1 && (forall|k: int|
                0 <= k < old(c).profiles@.len() ==> #[trigger] final(c).profiles@[k] == old(c).profiles@[k]) && eq_profile(final(c).profiles@.last(), p),
            Err(_) => false,
        },
{
    let src_index = match find_profile_index(c, src) {
        Some(i) => i,
        None => {
            return Err(LauncherError::ProfileNotFound);
        },
    };
    if let Some(_i) = find_profile_index(c, dst) {
        return Err(LauncherError::AlreadyExists);
    }
    let mut p = copy_profile(&c.profiles[src_index]);
    p.id = String::from_str(dst);
    let stored = copy_profile(&p);
    proof {
        assert(forall|k: int|
            0 <= k < c.profiles@.len() ==> #[trigger] c.profiles@.push(stored)[k]
                == c.profiles@[k]);
        assert(c.profiles@.push(stored).last() == stored);
    }
    c.profiles.push(stored);
    Ok(p)
}

/// Remove the profile under this id; report whether one was removed.
pub fn delete_profile(c: &mut ProfileCatalog, id: &str) -> (removed: bool)
    requires
        catalog_wf(*old(c)),
    ensures
        catalog_wf(*final(c)),
        removed == catalog_has(*old(c), id@),
        !removed ==> *final(c) == *old(c),
        removed ==> exists|i: int|
            0 <= i < old(c).profiles@.len() && old(c).profiles@[i].id@ == id@ && final(c).profiles@
                == old(c).profiles@.remove(i),
{
    match find_profile_index(c, id) {
        Some(i) => {
            let _gone = c.profiles.remove(i);
            proof {
                assert forall|a: int, b: int|
                    0 <= a < b < c.profiles@.len() implies #[trigger] c.profiles@[a].id@
                    != #[trigger] c.profiles@[b].id@ by {
                    if a < i as int {
                        assert(c.profiles@[a] == old(c).profiles@[a]);
                    } else {
                        assert(c.profiles@[a] == old(c).profiles@[a + 1]);
                    }
                    if b < i as int {
                        assert(c.profiles@[b] == old(c).profiles@[b]);
                    } else {
                        assert(c.profiles@[b] == old(c).profiles@[b + 1]);
                    }
                }
            }
            true
        },
        None => false,
    }
}

} // verus!
