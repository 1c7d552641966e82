//! Small decision helpers used by the command layer: parsing the
//! `type@version` loader notation, platform and content-type names, and
//! picking a version by id from a fetched list.

use vstd::prelude::*;
use vstd::string::StrSliceExecFns;
use vstd::string::StringExecFns;
use crate::model::ContentType;
use crate::model::ContentVersion;
use crate::model::Platform;
use crate::profile::Loader;
use crate::text::find_char;
use crate::text::find_index;
use crate::text::lemma_find_index_at;
use crate::text::lemma_find_index_none;
use crate::text::chars_of;
use crate::text::lower_of;
use crate::text::str_eq;
use crate::text::to_lowercase;

verus! {

/// Parse `type@version` into a loader; both halves must be nonempty.
pub fn parse_loader(s: &str) -> (r: Option<Loader>)
    ensures
        match r {
            Some(l) => exists|i: int|
                0 < i < s@.len() - 1 && find_index(s@, '@') == Option::Some(i) && l.loader_type@
                    == s@.subrange(0, i) && l.version@ == s@.subrange(i + 1, s@.len() as int),
            None => match find_index(s@, '@') {
                Option::Some(i) => i == 0 || i == s@.len() - 1,
                Option::None => true,
            },
        },
{
    let v = chars_of(s);
    let n = v.len();
    match find_char(&v, 0, '@') {
        Some(i) => {
            proof {
                lemma_find_index_at(v@, '@', i as int);
            }
            if i == 0 || i == n - 1 {
                None
            } else {
                let loader_type = String::from_str(s.substring_char(0, i));
                let version = String::from_str(s.substring_char(i + 1, n));
                Some(Loader { loader_type, version })
            }
        },
        None => {
            proof {
                lemma_find_index_none(v@, '@');
            }
            None
        },
    }
}

/// The platform a (case-folded) name denotes.
pub open spec fn platform_spec(low: Seq<char>) -> Option<Platform> {
    if low == "modrinth"@ {
        Option::Some(Platform::Modrinth)
    } else if low == "curseforge"@ {
        Option::Some(Platform::CurseForge)
    } else {
        Option::None
    }
}

/// Parse a platform name, ignoring case.
pub fn parse_platform(s: &str) -> (r: Option<Platform>)
    ensures
        r == platform_spec(lower_of(s@)),
{
    let low = to_lowercase(s);
    let l = low.as_str();
    if str_eq(l, "modrinth") {
        Some(Platform::Modrinth)
    } else if str_eq(l, "curseforge") {
        Some(Platform::CurseForge)
    } else {
        None
    }
}

/// The content type a (case-folded) name denotes.
pub open spec fn content_type_spec(low: Seq<char>) -> Option<ContentType> {
    if low == "mod"@ {
        Option::Some(ContentType::Mod)
    } else if low == "resourcepack"@ {
        Option::Some(ContentType::ResourcePack)
    } else if low == "shader"@ || low == "shaderpack"@ {
        Option::Some(ContentType::ShaderPack)
    } else if low == "modpack"@ {
        Option::Some(ContentType::ModPack)
    } else {
        Option::None
    }
}

/// Parse a content-type name, ignoring case.
pub fn parse_content_type(s: &str) -> (r: Option<ContentType>)
    ensures
        r == content_type_spec(lower_of(s@)),
{
    let low = to_lowercase(s);
    let l = low.as_str();
    if str_eq(l, "mod") {
        Some(ContentType::Mod)
    } else if str_eq(l, "resourcepack") {
        Some(ContentType::ResourcePack)
    } else if str_eq(l, "shader") || str_eq(l, "shaderpack") {
        Some(ContentType::ShaderPack)
    } else if str_eq(l, "modpack") {
        Some(ContentType::ModPack)
    } else {
        None
    }
}

/// A version is addressed by its id or its display name.
pub open spec fn version_named(v: ContentVersion, wanted: Seq<char>) -> bool {
    v.id@ == wanted || v.display_name@ == wanted
}

/// The index of the first version addressed by `wanted`, if any.
pub fn find_version(versions: &Vec<ContentVersion>, wanted: &str) -> (r: Option<usize>)
    ensures
        match r {
            Some(i) => i < versions@.len() && version_named(versions@[i as int], wanted@) && forall|
                k: int,
            | 0 <= k < i ==> !version_named(#[trigger] versions@[k], wanted@),
            None => forall|k: int|
                0 <= k < versions@.len() ==> !version_named(#[trigger] versions@[k], wanted@),
        },
{
    let n = versions.len();
    let mut i: usize = 0;
    while i < n
        invariant
            i <= n,
            n == versions@.len(),
            forall|k: int| 0 <= k < i ==> !version_named(#[trigger] versions@[k], wanted@),
        decreases n - i,
    {
        if str_eq(versions[i].id.as_str(), wanted) || str_eq(
            versions[i].display_name.as_str(),
            wanted,
        ) {
            return Some(i);
        }
        i = i + 1;
    }
    None
}

} // verus!
