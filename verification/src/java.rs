//! Java version logic: parsing `java -version` output, extracting the major
//! version from both old (`1.8.0`) and new (`17.0.2`) version schemes,
//! mapping a Minecraft version to the Java major it needs, and the version
//! comparison that drives that mapping. Running the `java` executable and
//! walking the filesystem for candidates belongs to the shell; everything
//! that decides is here.

use vstd::prelude::*;
use vstd::string::StrSliceExecFns;
use vstd::string::StringExecFns;
use crate::text::chars_of;
use crate::text::find_char;
use crate::text::find_index;
use crate::text::lemma_find_index_at;
use crate::text::lemma_find_index_none;
use crate::text::lower_of;
use crate::text::parse_u32_chars;
use crate::text::parse_u32_spec;
use crate::text::seq_contains;
use crate::text::str_contains;
use crate::text::subvec;
use crate::text::to_lowercase;

verus! {

/// Information about a detected Java installation.
#[derive(Debug, Clone)]
pub struct JavaInstallation {
    /// Absolute path to the java executable.
    pub path: String,
    /// Full version string (e.g. `17.0.2`).
    pub version: Option<String>,
    /// Major version number (e.g. 17).
    pub major: Option<u32>,
    /// Vendor or distribution name, if detected.
    pub vendor: Option<String>,
    /// Architecture (e.g. `aarch64`, `x86_64`), if detected.
    pub arch: Option<String>,
    /// Whether the executable ran successfully.
    pub is_valid: bool,
}

/// Result of validating a Java path.
#[derive(Debug, Clone)]
pub struct JavaValidation {
    pub is_valid: bool,
    pub version: Option<String>,
    pub major: Option<u32>,
    pub vendor: Option<String>,
    pub arch: Option<String>,
    pub error: Option<String>,
}

/// Minimum Java version required from one Minecraft version on.
#[derive(Debug, Clone)]
pub struct JavaRequirement {
    pub mc_version_min: String,
    pub java_major: u32,
}

/// What parsed fields `java -version` output yields.
#[derive(Debug, Clone)]
pub struct JavaVersionInfo {
    pub version: String,
    pub major: u32,
    pub vendor: Option<String>,
    pub arch: Option<String>,
}

/// The known requirement table, newest Minecraft version first. The
/// comparison chain in `get_required_java_version` follows this table.
pub fn java_requirements() -> (r: Vec<JavaRequirement>)
    ensures
        r@.len() == 4,
        r@[0].mc_version_min@ == "1.20.5"@ && r@[0].java_major == 21,
        r@[1].mc_version_min@ == "1.18"@ && r@[1].java_major == 17,
        r@[2].mc_version_min@ == "1.17"@ && r@[2].java_major == 16,
        r@[3].mc_version_min@ == "1.0"@ && r@[3].java_major == 8,
{
    let mut r: Vec<JavaRequirement> = Vec::new();
    r.push(JavaRequirement { mc_version_min: String::from_str("1.20.5"), java_major: 21 });
    r.push(JavaRequirement { mc_version_min: String::from_str("1.18"), java_major: 17 });
    r.push(JavaRequirement { mc_version_min: String::from_str("1.17"), java_major: 16 });
    r.push(JavaRequirement { mc_version_min: String::from_str("1.0"), java_major: 8 });
    r
}

/// The end of the dot-separated component beginning at `start`: the index
/// of the next `.`, or the end of the string.
pub open spec fn dot_end(s: Seq<char>, start: int) -> int {
    match find_index(s.subrange(start, s.len() as int), '.') {
        Option::Some(d) => start + d,
        Option::None => s.len() as int,
    }
}

/// The major Java version a version string denotes: the first component,
/// except that the old `1.x` scheme denotes `x`; an unparsable first
/// component denotes 0.
pub open spec fn major_of(s: Seq<char>) -> u32 {
    let e1 = dot_end(s, 0);
    match parse_u32_spec(s.subrange(0, e1)) {
        Option::Some(n) => if n == 1 && e1 < s.len() {
            let e2 = dot_end(s, e1 + 1);
            match parse_u32_spec(s.subrange(e1 + 1, e2)) {
                Option::Some(m) => m,
                Option::None => 1,
            }
        } else {
            n
        },
        Option::None => 0,
    }
}

/// A snapshot version such as `24w14a`: at least five characters, exactly
/// one `w`, and a two-digit year before it.
pub open spec fn is_snapshot_spec(s: Seq<char>) -> bool {
    s.len() >= 5 && (match find_index(s, 'w') {
        Option::Some(i) => find_index(s.subrange(i + 1, s.len() as int), 'w') is None && (
        match parse_u32_spec(s.subrange(0, i)) {
            Option::Some(y) => 11 <= y <= 99,
            Option::None => false,
        }),
        Option::None => false,
    })
}

/// The value of an optional number, defaulting to zero.
pub open spec fn opt_or_zero(o: Option<u32>) -> u32 {
    match o {
        Option::Some(n) => n,
        Option::None => 0,
    }
}

/// The (major, minor, patch) triple a Minecraft version string denotes.
/// A snapshot such as `24w14a` counts as `1.<year>.99`, newer than any
/// release of its era, so snapshots get modern Java requirements.
pub open spec fn mc_triple(s: Seq<char>) -> (u32, u32, u32) {
    if is_snapshot_spec(s) {
        match find_index(s, 'w') {
            Option::Some(i) => match parse_u32_spec(s.subrange(0, i)) {
                Option::Some(y) => (1u32, y, 99u32),
                Option::None => (1u32, 99u32, 0u32),
            },
            Option::None => (1u32, 99u32, 0u32),
        }
    } else {
        let e1 = dot_end(s, 0);
        let major = opt_or_zero(parse_u32_spec(s.subrange(0, e1)));
        if e1 < s.len() {
            let e2 = dot_end(s, e1 + 1);
            let minor = opt_or_zero(parse_u32_spec(s.subrange(e1 + 1, e2)));
            if e2 < s.len() {
                let e3 = dot_end(s, e2 + 1);
                (major, minor, opt_or_zero(parse_u32_spec(s.subrange(e2 + 1, e3))))
            } else {
                (major, minor, 0u32)
            }
        } else {
            (major, 0u32, 0u32)
        }
    }
}

/// How two Minecraft version strings compare: -1, 0 or 1 by their triples.
pub open spec fn mc_cmp(a: Seq<char>, b: Seq<char>) -> int {
    let ta = mc_triple(a);
    let tb = mc_triple(b);
    if ta == tb {
        0
    } else if ta.0 < tb.0 || (ta.0 == tb.0 && (ta.1 < tb.1 || (ta.1 == tb.1 && ta.2 < tb.2))) {
        -1int
    } else {
        1int
    }
}

/// The Java major a Minecraft version requires.
pub open spec fn required_java_spec(v: Seq<char>) -> u32 {
    if mc_cmp(v, "1.20.5"@) >= 0 {
        21u32
    } else if mc_cmp(v, "1.18"@) >= 0 {
        17u32
    } else if mc_cmp(v, "1.17"@) >= 0 {
        16u32
    } else {
        8u32
    }
}

/// The end of the dot-separated component beginning at `start`.
fn dot_end_exec(v: &Vec<char>, start: usize) -> (e: usize)
    requires
        start <= v@.len(),
    ensures
        start <= e <= v@.len(),
        e as int == dot_end(v@, start as int),
{
    let ghost ss = v@.subrange(start as int, v@.len() as int);
    match find_char(v, start, '.') {
        Some(i) => {
            proof {
                assert(ss[i - start] == v@[i as int]);
                assert forall|k: int| 0 <= k < i - start implies ss[k] != '.' by {
                    assert(ss[k] == v@[start + k]);
                }
                lemma_find_index_at(ss, '.', i - start);
            }
            i
        },
        None => {
            proof {
                assert forall|k: int| 0 <= k < ss.len() implies ss[k] != '.' by {
                    assert(ss[k] == v@[start + k]);
                }
                lemma_find_index_none(ss, '.');
            }
            v.len()
        },
    }
}

/// Check whether a version string is a snapshot (e.g. `24w14a`).
pub fn is_snapshot_version(version: &str) -> (r: bool)
    ensures
        r == is_snapshot_spec(version@),
{
    let v = chars_of(version);
    if v.len() < 5 {
        return false;
    }
    match find_char(&v, 0, 'w') {
        Some(i) => {
            proof {
                lemma_find_index_at(v@, 'w', i as int);
            }
            let ghost ss = v@.subrange(i + 1 as int, v@.len() as int);
            let second = find_char(&v, i + 1, 'w');
            match second {
                Some(j) => {
                    proof {
                        assert(ss[j - i - 1] == v@[j as int]);
                        assert forall|k: int| 0 <= k < j - i - 1 implies ss[k] != 'w' by {
                            assert(ss[k] == v@[i + 1 + k]);
                        }
                        lemma_find_index_at(ss, 'w', j - i - 1);
                    }
                    false
                },
                None => {
                    proof {
                        assert forall|k: int| 0 <= k < ss.len() implies ss[k] != 'w' by {
                            assert(ss[k] == v@[i + 1 + k]);
                        }
                        lemma_find_index_none(ss, 'w');
                    }
                    let year_part = subvec(&v, 0, i);
                    match parse_u32_chars(&year_part) {
                        Some(y) => 11 <= y && y <= 99,
                        None => false,
                    }
                },
            }
        },
        None => {
            proof {
                lemma_find_index_none(v@, 'w');
            }
            false
        },
    }
}

/// The (major, minor, patch) triple of a Minecraft version string.
fn mc_parse(s: &str) -> (r: (u32, u32, u32))
    ensures
        r == mc_triple(s@),
{
    let v = chars_of(s);
    let snapshot = is_snapshot_version(s);
    if snapshot {
        match find_char(&v, 0, 'w') {
            Some(i) => {
                proof {
                    lemma_find_index_at(v@, 'w', i as int);
                }
                let year_part = subvec(&v, 0, i);
                match parse_u32_chars(&year_part) {
                    Some(y) => (1, y, 99),
                    None => (1, 99, 0),
                }
            },
            None => {
                proof {
                    lemma_find_index_none(v@, 'w');
                    assert(false);
                }
                (1, 99, 0)
            },
        }
    } else {
        let n = v.len();
        let e1 = dot_end_exec(&v, 0);
        let p1 = subvec(&v, 0, e1);
        let major = match parse_u32_chars(&p1) {
            Some(m) => m,
            None => 0,
        };
        if e1 < n {
            let e2 = dot_end_exec(&v, e1 + 1);
            let p2 = subvec(&v, e1 + 1, e2);
            let minor = match parse_u32_chars(&p2) {
                Some(m) => m,
                None => 0,
            };
            if e2 < n {
                let e3 = dot_end_exec(&v, e2 + 1);
                let p3 = subvec(&v, e2 + 1, e3);
                let patch = match parse_u32_chars(&p3) {
                    Some(m) => m,
                    None => 0,
                };
                (major, minor, patch)
            } else {
                (major, minor, 0)
            }
        } else {
            (major, 0, 0)
        }
    }
}

/// Compare two Minecraft version strings: -1 when `a` is older than `b`,
/// 0 when equal, 1 when newer. Snapshots count as newer than any release
/// of their era.
pub fn compare_mc_versions(a: &str, b: &str) -> (r: i32)
    ensures
        r as int == mc_cmp(a@, b@),
{
    let ta = mc_parse(a);
    let tb = mc_parse(b);
    if ta.0 == tb.0 && ta.1 == tb.1 && ta.2 == tb.2 {
        0
    } else if ta.0 < tb.0 || (ta.0 == tb.0 && (ta.1 < tb.1 || (ta.1 == tb.1 && ta.2 < tb.2))) {
        -1
    } else {
        1
    }
}

/// The minimum Java major required for a Minecraft version. Unknown or
/// ancient versions default to Java 8.
pub fn get_required_java_version(mc_version: &str) -> (r: u32)
    ensures
        r == required_java_spec(mc_version@),
{
    if compare_mc_versions(mc_version, "1.20.5") >= 0 {
        21
    } else if compare_mc_versions(mc_version, "1.18") >= 0 {
        17
    } else if compare_mc_versions(mc_version, "1.17") >= 0 {
        16
    } else {
        8
    }
}

/// Whether a Java major version can run a Minecraft version.
pub fn is_java_compatible(java_major: u32, mc_version: &str) -> (r: bool)
    ensures
        r == (java_major >= required_java_spec(mc_version@)),
{
    java_major >= get_required_java_version(mc_version)
}

/// The major Java version denoted by a version string such as `17.0.2` or
/// `1.8.0_321` (old scheme: the second component).
pub fn parse_major_version(version: &str) -> (r: u32)
    ensures
        r == major_of(version@),
{
    let v = chars_of(version);
    let n = v.len();
    let e1 = dot_end_exec(&v, 0);
    let p1 = subvec(&v, 0, e1);
    match parse_u32_chars(&p1) {
        Some(m) => {
            if m == 1 && e1 < n {
                let e2 = dot_end_exec(&v, e1 + 1);
                let p2 = subvec(&v, e1 + 1, e2);
                match parse_u32_chars(&p2) {
                    Some(second) => second,
                    None => 1,
                }
            } else {
                m
            }
        },
        None => 0,
    }
}

/// The quoted version inside a `java -version` line, if any: the text
/// between the first two double quotes.
pub open spec fn extract_version_spec(line: Seq<char>) -> Option<Seq<char>> {
    match find_index(line, '"') {
        Option::Some(a) => match find_index(line.subrange(a + 1, line.len() as int), '"') {
            Option::Some(b) => Option::Some(line.subrange(a + 1, a + 1 + b)),
            Option::None => Option::None,
        },
        Option::None => Option::None,
    }
}

/// Extract the quoted version string from a `java -version` line.
pub fn extract_version_string(line: &str) -> (r: Option<String>)
    ensures
        match r {
            Some(s) => extract_version_spec(line@) == Option::Some(s@),
            None => extract_version_spec(line@) is None,
        },
{
    let v = chars_of(line);
    let n = v.len();
    match find_char(&v, 0, '"') {
        Some(a) => {
            assert(a < n);
            proof {
                lemma_find_index_at(v@, '"', a as int);
            }
            let ghost ss = v@.subrange(a + 1 as int, v@.len() as int);
            match find_char(&v, a + 1, '"') {
                Some(b) => {
                    proof {
                        assert(ss[b - a - 1] == v@[b as int]);
                        assert forall|k: int| 0 <= k < b - a - 1 implies ss[k] != '"' by {
                            assert(ss[k] == v@[a + 1 + k]);
                        }
                        lemma_find_index_at(ss, '"', b - a - 1);
                    }
                    let piece = line.substring_char(a + 1, b);
                    Some(String::from_str(piece))
                },
                None => {
                    proof {
                        assert forall|k: int| 0 <= k < ss.len() implies ss[k] != '"' by {
                            assert(ss[k] == v@[a + 1 + k]);
                        }
                        lemma_find_index_none(ss, '"');
                    }
                    None
                },
            }
        },
        None => {
            proof {
                lemma_find_index_none(v@, '"');
            }
            None
        },
    }
}

/// The vendor a (case-folded) `java -version` output denotes.
pub open spec fn vendor_spec(low: Seq<char>) -> Option<Seq<char>> {
    if seq_contains(low, "temurin"@) || seq_contains(low, "adoptium"@) {
        Option::Some("Eclipse Temurin"@)
    } else if seq_contains(low, "zulu"@) {
        Option::Some("Azul Zulu"@)
    } else if seq_contains(low, "corretto"@) {
        Option::Some("Amazon Corretto"@)
    } else if seq_contains(low, "graalvm"@) {
        Option::Some("GraalVM"@)
    } else if seq_contains(low, "microsoft"@) {
        Option::Some("Microsoft"@)
    } else if seq_contains(low, "openjdk"@) {
        Option::Some("OpenJDK"@)
    } else if seq_contains(low, "oracle"@) || seq_contains(low, "java(tm)"@) {
        Option::Some("Oracle"@)
    } else {
        Option::None
    }
}

/// Detect the Java vendor from `java -version` output, ignoring case.
pub fn detect_vendor(output: &str) -> (r: Option<String>)
    ensures
        match r {
            Some(s) => vendor_spec(lower_of(output@)) == Option::Some(s@),
            None => vendor_spec(lower_of(output@)) is None,
        },
{
    let low = to_lowercase(output);
    let l = low.as_str();
    if str_contains(l, "temurin") || str_contains(l, "adoptium") {
        Some(String::from_str("Eclipse Temurin"))
    } else if str_contains(l, "zulu") {
        Some(String::from_str("Azul Zulu"))
    } else if str_contains(l, "corretto") {
        Some(String::from_str("Amazon Corretto"))
    } else if str_contains(l, "graalvm") {
        Some(String::from_str("GraalVM"))
    } else if str_contains(l, "microsoft") {
        Some(String::from_str("Microsoft"))
    } else if str_contains(l, "openjdk") {
        Some(String::from_str("OpenJDK"))
    } else if str_contains(l, "oracle") || str_contains(l, "java(tm)") {
        Some(String::from_str("Oracle"))
    } else {
        None
    }
}

/// The architecture a (case-folded) `java -version` output denotes.
pub open spec fn arch_spec(low: Seq<char>) -> Option<Seq<char>> {
    if seq_contains(low, "aarch64"@) || seq_contains(low, "arm64"@) {
        Option::Some("aarch64"@)
    } else if seq_contains(low, "x86_64"@) || seq_contains(low, "amd64"@) {
        Option::Some("x86_64"@)
    } else if seq_contains(low, "x86"@) || seq_contains(low, "i386"@) || seq_contains(
        low,
        "i686"@,
    ) {
        Option::Some("x86"@)
    } else {
        Option::None
    }
}

/// Detect the machine architecture from `java -version` output.
pub fn detect_architecture(output: &str) -> (r: Option<String>)
    ensures
        match r {
            Some(s) => arch_spec(lower_of(output@)) == Option::Some(s@),
            None => arch_spec(lower_of(output@)) is None,
        },
{
    let low = to_lowercase(output);
    let l = low.as_str();
    if str_contains(l, "aarch64") || str_contains(l, "arm64") {
        Some(String::from_str("aarch64"))
    } else if str_contains(l, "x86_64") || str_contains(l, "amd64") {
        Some(String::from_str("x86_64"))
    } else if str_contains(l, "x86") || str_contains(l, "i386") || str_contains(l, "i686") {
        Some(String::from_str("x86"))
    } else {
        None
    }
}

/// The first line of a block of output, with a trailing carriage return
/// stripped.
pub open spec fn first_line(s: Seq<char>) -> Seq<char> {
    let e = match find_index(s, '\n') {
        Option::Some(i) => i,
        Option::None => s.len() as int,
    };
    let l = s.subrange(0, e);
    if l.len() > 0 && l.last() == '\r' {
        l.drop_last()
    } else {
        l
    }
}

/// Parse the interesting fields out of `java -version` output: the quoted
/// version on the first line, the major it denotes, and the vendor and
/// architecture named anywhere in the output. Yields nothing when no
/// quoted version is present.
pub fn parse_java_version_output(output: &str) -> (r: Option<JavaVersionInfo>)
    ensures
        match r {
            Some(info) => extract_version_spec(first_line(output@)) == Option::Some(info.version@)
                && info.major == major_of(info.version@) && (match info.vendor {
                Some(s) => vendor_spec(lower_of(output@)) == Option::Some(s@),
                None => vendor_spec(lower_of(output@)) is None,
            }) && (match info.arch {
                Some(s) => arch_spec(lower_of(output@)) == Option::Some(s@),
                None => arch_spec(lower_of(output@)) is None,
            }),
            None => extract_version_spec(first_line(output@)) is None,
        },
{
    let v = chars_of(output);
    let line_end = match find_char(&v, 0, '\n') {
        Some(i) => {
            proof {
                lemma_find_index_at(v@, '\n', i as int);
            }
            i
        },
        None => {
            proof {
                lemma_find_index_none(v@, '\n');
            }
            v.len()
        },
    };
    let line_chars = subvec(&v, 0, line_end);
    let stripped_end = if line_end > 0 && line_chars[line_end - 1] == '\r' {
        line_end - 1
    } else {
        line_end
    };
    let line = output.substring_char(0, stripped_end);
    proof {
        assert(line@ =~= first_line(output@));
    }
    let version = match extract_version_string(line) {
        Some(s) => s,
        None => {
            return None;
        },
    };
    let major = parse_major_version(version.as_str());
    let vendor = detect_vendor(output);
    let arch = detect_architecture(output);
    Some(JavaVersionInfo { version, major, vendor, arch })
}

} // verus!
