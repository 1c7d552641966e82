//! The version resolver: given a list of canonical versions in upstream
//! order (newest first) and optional game-version and loader constraints,
//! pick exactly one version. Compatible versions whose channel is `Release`
//! win over every other compatible version; within a channel class the
//! first in upstream order wins — no secondary sort is applied beyond what
//! the registry already guarantees.

use vstd::prelude::*;
use crate::model::ContentVersion;
use crate::model::ReleaseChannel;
use crate::error::LauncherError;
use crate::text::str_eq;

verus! {

/// Whether some entry of the string list holds exactly these characters.
pub open spec fn strings_contain(v: Seq<String>, s: Seq<char>) -> bool {
    exists|i: int| 0 <= i < v.len() && #[trigger] v[i]@ == s
}

/// The view of an optional string slice.
pub open spec fn opt_view(o: Option<&str>) -> Option<Seq<char>> {
    match o {
        Option::Some(s) => Option::Some(s@),
        Option::None => Option::None,
    }
}

/// A version is compatible when it supports the requested game version (a
/// version listing no game versions supports them all) and the requested
/// loader (a version listing no loaders runs under any).
pub open spec fn version_compatible(
    v: ContentVersion,
    game_version: Option<Seq<char>>,
    loader: Option<Seq<char>>,
) -> bool {
    (match game_version {
        Option::Some(g) => v.supported_game_versions@.len() == 0 || strings_contain(
            v.supported_game_versions@,
            g,
        ),
        Option::None => true,
    }) && (match loader {
        Option::Some(l) => v.supported_loaders@.len() == 0 || strings_contain(
            v.supported_loaders@,
            l,
        ),
        Option::None => true,
    })
}

/// Some version in the list is compatible.
pub open spec fn has_compatible(
    s: Seq<ContentVersion>,
    game_version: Option<Seq<char>>,
    loader: Option<Seq<char>>,
) -> bool {
    exists|i: int| 0 <= i < s.len() && version_compatible(#[trigger] s[i], game_version, loader)
}

/// Some compatible version in the list is on the release channel.
pub open spec fn has_compatible_release(
    s: Seq<ContentVersion>,
    game_version: Option<Seq<char>>,
    loader: Option<Seq<char>>,
) -> bool {
    exists|i: int|
        0 <= i < s.len() && version_compatible(#[trigger] s[i], game_version, loader) && s[i].release_channel
            == ReleaseChannel::Release
}

/// What resolution returns: the first compatible release in upstream order
/// when one exists, else the first compatible version of any channel.
pub open spec fn resolves_to(
    s: Seq<ContentVersion>,
    game_version: Option<Seq<char>>,
    loader: Option<Seq<char>>,
    v: ContentVersion,
) -> bool {
    exists|i: int|
        0 <= i < s.len() && #[trigger] s[i] == v && version_compatible(v, game_version, loader) && (
        if v.release_channel == ReleaseChannel::Release {
            forall|j: int|
                0 <= j < i ==> !(version_compatible(#[trigger] s[j], game_version, loader)
                    && s[j].release_channel == ReleaseChannel::Release)
        } else {
            !has_compatible_release(s, game_version, loader) && forall|j: int|
                0 <= j < i ==> !version_compatible(#[trigger] s[j], game_version, loader)
        })
}

/// Law: where any compatible release exists, resolution never returns a
/// beta or alpha version.
pub proof fn lemma_channel_preference(
    s: Seq<ContentVersion>,
    game_version: Option<Seq<char>>,
    loader: Option<Seq<char>>,
    v: ContentVersion,
)
    requires
        resolves_to(s, game_version, loader, v),
        has_compatible_release(s, game_version, loader),
    ensures
        v.release_channel == ReleaseChannel::Release,
{
}

/// Law: of two compatible versions of an item, one on the release channel
/// and one on beta, resolution returns the release one — whichever order
/// the registry listed them in.
pub proof fn lemma_release_preferred_over_beta(
    s: Seq<ContentVersion>,
    game_version: Option<Seq<char>>,
    loader: Option<Seq<char>>,
    v1: ContentVersion,
    v2: ContentVersion,
    v: ContentVersion,
)
    requires
        s =~= seq![v1, v2] || s =~= seq![v2, v1],
        version_compatible(v1, game_version, loader),
        version_compatible(v2, game_version, loader),
        v1.release_channel == ReleaseChannel::Release,
        v2.release_channel == ReleaseChannel::Beta,
        resolves_to(s, game_version, loader, v),
    ensures
        v == v1,
{
    assert(s[0] == v1 || s[1] == v1);
    assert(has_compatible_release(s, game_version, loader)) by {
        if s[0] == v1 {
            assert(version_compatible(s[0], game_version, loader));
        } else {
            assert(version_compatible(s[1], game_version, loader));
        }
    }
    lemma_channel_preference(s, game_version, loader, v);
}

/// Whether some entry of `v` holds exactly the characters of `needle`.
pub fn strings_have(v: &Vec<String>, needle: &str) -> (r: bool)
    ensures
        r == strings_contain(v@, needle@),
{
    let n = v.len();
    let mut i: usize = 0;
    while i < n
        invariant
            i <= n,
            n == v@.len(),
            forall|k: int| 0 <= k < i ==> #[trigger] v@[k]@ != needle@,
        decreases n - i,
    {
        if str_eq(v[i].as_str(), needle) {
            return true;
        }
        i = i + 1;
    }
    false
}

/// Whether this version meets the optional constraints.
pub fn is_compatible(
    v: &ContentVersion,
    game_version: Option<&str>,
    loader: Option<&str>,
) -> (r: bool)
    ensures
        r == version_compatible(*v, opt_view(game_version), opt_view(loader)),
{
    let game_ok = match game_version {
        Some(g) => v.supported_game_versions.len() == 0 || strings_have(
            &v.supported_game_versions,
            g,
        ),
        None => true,
    };
    let loader_ok = match loader {
        Some(l) => v.supported_loaders.len() == 0 || strings_have(&v.supported_loaders, l),
        None => true,
    };
    game_ok && loader_ok
}

/// Pick the version a request resolves to: filter by game version and
/// loader, prefer the release channel, and within the winning class return
/// the first in upstream order. Fails with `NoCompatibleVersion` exactly
/// when nothing passes the filter.
pub fn resolve_latest<'a>(
    versions: &'a Vec<ContentVersion>,
    game_version: Option<&str>,
    loader: Option<&str>,
) -> (r: Result<&'a ContentVersion, LauncherError>)
    ensures
        match r {
            Ok(v) => resolves_to(versions@, opt_view(game_version), opt_view(loader), *v),
            Err(e) => e == LauncherError::NoCompatibleVersion && !has_compatible(
                versions@,
                opt_view(game_version),
                opt_view(loader),
            ),
        },
{
    let ghost gv = opt_view(game_version);
    let ghost ld = opt_view(loader);
    let n = versions.len();
    let mut i: usize = 0;
    while i < n
        invariant
            i <= n,
            n == versions@.len(),
            gv == opt_view(game_version),
            ld == opt_view(loader),
            forall|k: int|
                0 <= k < i ==> !(version_compatible(#[trigger] versions@[k], gv, ld)
                    && versions@[k].release_channel == ReleaseChannel::Release),
        decreases n - i,
    {
        let compat = is_compatible(&versions[i], game_version, loader);
        let is_release = match versions[i].release_channel {
            ReleaseChannel::Release => true,
            _ => false,
        };
        if compat && is_release {
            return Ok(&versions[i]);
        }
        i = i + 1;
    }
    assert(!has_compatible_release(versions@, gv, ld));
    let mut j: usize = 0;
    while j < n
        invariant
            j <= n,
            n == versions@.len(),
            gv == opt_view(game_version),
            ld == opt_view(loader),
            !has_compatible_release(versions@, gv, ld),
            forall|k: int| 0 <= k < j ==> !version_compatible(#[trigger] versions@[k], gv, ld),
        decreases n - j,
    {
        let compat = is_compatible(&versions[j], game_version, loader);
        if compat {
            if versions[j].release_channel == ReleaseChannel::Release {
                proof {
                    assert(version_compatible(versions@[j as int], gv, ld)
                        && versions@[j as int].release_channel == ReleaseChannel::Release);
                    assert(false);
                }
            }
            return Ok(&versions[j]);
        }
        j = j + 1;
    }
    Err(LauncherError::NoCompatibleVersion)
}

} // verus!
