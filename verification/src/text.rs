//! String primitives shared by the whole library: character extraction,
//! equality, case folding, substring search, decimal and hex formatting,
//! percent-encoding and the SHA-1 digest. The few operations that must run
//! outside the verifier (Unicode case folding, UTF-8 decoding, the digest
//! itself) are trusted wrappers with the narrowest contract the outside
//! source supports; everything else is verified here.

use vstd::prelude::*;
use vstd::string::StrSliceExecFns;
use vstd::string::StringExecFns;
use vstd::string::StringSliceAdditionalSpecFns;

verus! {

/// The characters of `s`, in order, as a vector.
pub fn chars_of(s: &str) -> (v: Vec<char>)
    ensures
        v@ == s@,
{
    let n = s.unicode_len();
    let mut v: Vec<char> = Vec::new();
    let mut i: usize = 0;
    while i < n
        invariant
            i <= n,
            n == s@.len(),
            v@ == s@.subrange(0, i as int),
        decreases n - i,
    {
        v.push(s.get_char(i));
        assert(v@ =~= s@.subrange(0, i + 1 as int));
        i = i + 1;
    }
    assert(v@ =~= s@);
    v
}

/// Character-for-character equality of two string slices.
pub fn str_eq(a: &str, b: &str) -> (r: bool)
    ensures
        r == (a@ == b@),
{
    let sa = String::from_str(a);
    let sb = String::from_str(b);
    sa == sb
}

/// What `str::to_lowercase` returns: a function of the characters alone.
pub uninterp spec fn lower_of(s: Seq<char>) -> Seq<char>;

/// Relies on str::to_lowercase: the Unicode lowercase form of the input,
/// determined by the input characters alone.
#[verifier::external_body]
pub fn to_lowercase(s: &str) -> (r: String)
    ensures
        r@ == lower_of(s@),
{
    s.to_lowercase()
}

/// What `str::to_uppercase` returns: a function of the characters alone.
pub uninterp spec fn upper_of(s: Seq<char>) -> Seq<char>;

/// Relies on str::to_uppercase: the Unicode uppercase form of the input,
/// determined by the input characters alone.
#[verifier::external_body]
pub fn to_uppercase(s: &str) -> (r: String)
    ensures
        r@ == upper_of(s@),
{
    s.to_uppercase()
}

/// `needle` occurs as a contiguous run inside `hay`.
pub open spec fn seq_contains(hay: Seq<char>, needle: Seq<char>) -> bool {
    exists|i: int|
        0 <= i <= hay.len() - needle.len() && #[trigger] hay.subrange(i, i + needle.len() as int)
            == needle
}

/// Whether the characters of `needle` occur contiguously inside `hay`.
pub fn contains_chars(hay: &Vec<char>, needle: &Vec<char>) -> (r: bool)
    ensures
        r == seq_contains(hay@, needle@),
{
    let hn = hay.len();
    let nn = needle.len();
    if nn > hn {
        assert(!seq_contains(hay@, needle@));
        return false;
    }
    let mut i: usize = 0;
    while i <= hn - nn
        invariant
            0 <= i <= hn - nn + 1,
            nn <= hn,
            hn == hay@.len(),
            nn == needle@.len(),
            forall|k: int|
                0 <= k < i ==> #[trigger] hay@.subrange(k, k + needle@.len() as int) != needle@,
        decreases hn + 1 - i,
    {
        let mut j: usize = 0;
        let mut matched: bool = true;
        while j < nn
            invariant
                0 <= j <= nn,
                i + nn <= hn,
                hn == hay@.len(),
                nn == needle@.len(),
                matched == (forall|k: int| 0 <= k < j ==> hay@[i + k] == needle@[k]),
            decreases nn - j,
        {
            if hay[i + j] != needle[j] {
                matched = false;
                assert(hay@[i + j as int] != needle@[j as int]);
                j = nn;
            } else {
                assert(matched ==> forall|k: int|
                    0 <= k < j + 1 ==> hay@[i + k] == needle@[k]);
                j = j + 1;
            }
        }
        if matched {
            assert(hay@.subrange(i as int, i + needle@.len() as int) =~= needle@);
            return true;
        }
        proof {
            let k = choose|k: int| 0 <= k < needle@.len() && hay@[i + k] != needle@[k];
            assert(hay@.subrange(i as int, i + needle@.len() as int)[k] == hay@[i + k]);
        }
        i = i + 1;
    }
    false
}

/// Whether the characters of `needle` occur contiguously inside `hay`,
/// both given as string slices.
pub fn str_contains(hay: &str, needle: &str) -> (r: bool)
    ensures
        r == seq_contains(hay@, needle@),
{
    let h = chars_of(hay);
    let n = chars_of(needle);
    contains_chars(&h, &n)
}

/// The bytes read as characters, one per byte.
pub open spec fn ascii_chars(bs: Seq<u8>) -> Seq<char> {
    Seq::new(bs.len(), |i: int| bs[i] as char)
}

/// Relies on String::from_utf8: ASCII bytes decode to the same characters,
/// one per byte.
#[verifier::external_body]
pub fn ascii_to_string(bytes: Vec<u8>) -> (r: String)
    requires
        forall|i: int| 0 <= i < bytes@.len() ==> bytes@[i] < 128,
    ensures
        r@ == ascii_chars(bytes@),
{
    String::from_utf8(bytes).unwrap_or_default()
}

/// The ASCII digit for a value below ten.
pub open spec fn dec_digit(n: nat) -> char
    recommends
        n < 10,
{
    ((48 + n) as u8) as char
}

/// The decimal form of `n`, most significant digit first.
pub open spec fn dec_of(n: nat) -> Seq<char>
    decreases n,
{
    if n < 10 {
        seq![dec_digit(n)]
    } else {
        dec_of(n / 10) + seq![dec_digit(n % 10)]
    }
}

/// `c` is an ASCII decimal digit.
pub open spec fn char_is_digit(c: char) -> bool {
    (c as u32) >= 48 && (c as u32) < 58
}

proof fn lemma_dec_of_ascii(n: nat)
    ensures
        dec_of(n).len() >= 1,
        forall|i: int| 0 <= i < dec_of(n).len() ==> char_is_digit(#[trigger] dec_of(n)[i]),
    decreases n,
{
    if n >= 10 {
        lemma_dec_of_ascii(n / 10);
    }
}

/// The characters of a digit-byte sequence read back to front.
pub open spec fn digits_rev_chars(bs: Seq<u8>) -> Seq<char>
    decreases bs.len(),
{
    if bs.len() == 0 {
        Seq::empty()
    } else {
        seq![bs.last() as char] + digits_rev_chars(bs.drop_last())
    }
}

proof fn lemma_digits_rev_chars_index(bs: Seq<u8>)
    ensures
        digits_rev_chars(bs).len() == bs.len(),
        forall|k: int|
            0 <= k < bs.len() ==> #[trigger] digits_rev_chars(bs)[k] == bs[bs.len() - 1 - k] as char,
    decreases bs.len(),
{
    if bs.len() > 0 {
        lemma_digits_rev_chars_index(bs.drop_last());
    }
}

/// The decimal form of `n` as a string.
pub fn u64_to_dec(n: u64) -> (r: String)
    ensures
        r@ == dec_of(n as nat),
{
    let mut rev: Vec<u8> = Vec::new();
    let mut m: u64 = n;
    proof {
        assert(dec_of(n as nat) =~= dec_of(n as nat) + digits_rev_chars(rev@));
    }
    // Digits of n, least significant first.
    while m >= 10
        invariant
            forall|i: int| 0 <= i < rev@.len() ==> 48 <= #[trigger] rev@[i] < 58,
            dec_of(n as nat) == dec_of(m as nat) + digits_rev_chars(rev@),
        decreases m,
    {
        let d: u8 = (m % 10) as u8;
        proof {
            assert(dec_of(m as nat) == dec_of((m / 10) as nat) + seq![dec_digit((m % 10) as nat)]);
            assert(rev@.push((48 + d) as u8).drop_last() =~= rev@);
            assert(digits_rev_chars(rev@.push((48 + d) as u8)) =~= seq![dec_digit(d as nat)]
                + digits_rev_chars(rev@));
            assert(dec_of(m as nat) + digits_rev_chars(rev@) =~= dec_of((m / 10) as nat)
                + digits_rev_chars(rev@.push((48 + d) as u8)));
        }
        rev.push(48 + d);
        m = m / 10;
    }
    let d: u8 = m as u8;
    proof {
        assert(dec_of(m as nat) =~= seq![dec_digit(m as nat)]);
        assert(rev@.push((48 + d) as u8).drop_last() =~= rev@);
        assert(digits_rev_chars(rev@.push((48 + d) as u8)) =~= seq![dec_digit(d as nat)]
            + digits_rev_chars(rev@));
        assert(dec_of(n as nat) =~= digits_rev_chars(rev@.push((48 + d) as u8)));
    }
    rev.push(48 + d);
    let mut out: Vec<u8> = Vec::new();
    let total = rev.len();
    let mut i: usize = 0;
    while i < total
        invariant
            i <= total,
            total == rev@.len(),
            forall|k: int| 0 <= k < rev@.len() ==> 48 <= #[trigger] rev@[k] < 58,
            out@.len() == i,
            forall|k: int| 0 <= k < i ==> out@[k] == rev@[total - 1 - k],
        decreases total - i,
    {
        out.push(rev[total - 1 - i]);
        i = i + 1;
    }
    let r = ascii_to_string(out);
    proof {
        lemma_digits_rev_chars_index(rev@);
        assert(r@ =~= digits_rev_chars(rev@));
    }
    r
}

/// The value of a run of ASCII digits, most significant first.
pub open spec fn digits_val(s: Seq<char>) -> nat
    decreases s.len(),
{
    if s.len() == 0 {
        0
    } else {
        digits_val(s.drop_last()) * 10 + ((s.last() as u32 - 48) as nat)
    }
}

/// Every character of `s` is an ASCII digit.
pub open spec fn all_digits(s: Seq<char>) -> bool {
    forall|i: int| 0 <= i < s.len() ==> char_is_digit(#[trigger] s[i])
}

/// What parsing `s` as an unsigned 32-bit decimal yields: an optional
/// leading `+`, then at least one digit, and a value that fits.
pub open spec fn parse_u32_spec(s: Seq<char>) -> Option<u32> {
    let body = if s.len() > 0 && s[0] == '+' {
        s.drop_first()
    } else {
        s
    };
    if body.len() > 0 && all_digits(body) && digits_val(body) <= u32::MAX {
        Some(digits_val(body) as u32)
    } else {
        None
    }
}

/// Parse a run of characters as an unsigned 32-bit decimal number.
#[verifier::rlimit(30)]
pub fn parse_u32_chars(s: &Vec<char>) -> (r: Option<u32>)
    ensures
        r == parse_u32_spec(s@),
{
    let ghost whole: Seq<char> = s@;
    let n = s.len();
    let mut start: usize = 0;
    if n > 0 && s[0] == '+' {
        start = 1;
    }
    let ghost body: Seq<char> = if s@.len() > 0 && s@[0] == '+' {
        s@.drop_first()
    } else {
        s@
    };
    assert(body =~= s@.subrange(start as int, n as int));
    if start == n {
        return None;
    }
    let mut acc: u64 = 0;
    let mut over: bool = false;
    let mut i: usize = start;
    while i < n
        invariant
            start <= i <= n,
            n == s@.len(),
            body == s@.subrange(start as int, n as int),
            body == (if s@.len() > 0 && s@[0] == '+' {
                s@.drop_first()
            } else {
                s@
            }),
            all_digits(s@.subrange(start as int, i as int)),
            !over ==> acc == digits_val(s@.subrange(start as int, i as int)) && acc <= u32::MAX,
            over ==> digits_val(s@.subrange(start as int, i as int)) > u32::MAX,
        decreases n - i,
    {
        let c = s[i];
        let cv: u32 = c as u32;
        if !(cv >= 48 && cv < 58) {
            assert(!char_is_digit(s@[i as int]));
            assert(body[i - start] == s@[i as int]);
            assert(!all_digits(body));
            return None;
        }
        proof {
            assert(s@.subrange(start as int, i + 1 as int).drop_last() =~= s@.subrange(
                start as int,
                i as int,
            ));
        }
        let d: u64 = (cv - 48) as u64;
        if over {
            proof {
                assert(digits_val(s@.subrange(start as int, i + 1 as int)) == digits_val(
                    s@.subrange(start as int, i as int),
                ) * 10 + (s@[i as int] as u32 - 48));
            }
        } else {
            let next: u64 = acc * 10 + d;
            if next > 0xffff_ffff {
                over = true;
            } else {
                acc = next;
            }
            proof {
                assert(digits_val(s@.subrange(start as int, i + 1 as int)) == digits_val(
                    s@.subrange(start as int, i as int),
                ) * 10 + (s@[i as int] as u32 - 48));
            }
        }
        assert(all_digits(s@.subrange(start as int, i + 1 as int)));
        i = i + 1;
    }
    proof {
        assert(s@.subrange(start as int, i as int) =~= body);
    }
    if over {
        None
    } else {
        Some(acc as u32)
    }
}

/// The lower-case hex digit for a value below sixteen.
pub open spec fn hex_digit(n: u8) -> char
    recommends
        n < 16,
{
    if n < 10 {
        ((48 + n) as u8) as char
    } else {
        ((87 + n) as u8) as char
    }
}

/// The lower-case hex form of the bytes, two digits per byte.
pub open spec fn hex_of(bytes: Seq<u8>) -> Seq<char>
    decreases bytes.len(),
{
    if bytes.len() == 0 {
        Seq::empty()
    } else {
        hex_of(bytes.drop_last()) + seq![
            hex_digit(bytes.last() / 16),
            hex_digit(bytes.last() % 16),
        ]
    }
}

/// The lower-case hex form of the bytes as a string.
pub fn to_hex(bytes: &Vec<u8>) -> (r: String)
    ensures
        r@ == hex_of(bytes@),
{
    let mut out: Vec<u8> = Vec::new();
    let n = bytes.len();
    let mut i: usize = 0;
    while i < n
        invariant
            i <= n,
            n == bytes@.len(),
            forall|k: int| 0 <= k < out@.len() ==> #[trigger] out@[k] < 128,
            ascii_chars(out@) == hex_of(bytes@.subrange(0, i as int)),
        decreases n - i,
    {
        let b: u8 = bytes[i];
        let hi: u8 = b / 16;
        let lo: u8 = b % 16;
        let hb: u8 = if hi < 10 {
            48 + hi
        } else {
            87 + hi
        };
        let lb: u8 = if lo < 10 {
            48 + lo
        } else {
            87 + lo
        };
        proof {
            assert(bytes@.subrange(0, i + 1 as int).drop_last() =~= bytes@.subrange(0, i as int));
            assert(ascii_chars(out@.push(hb).push(lb)) =~= ascii_chars(out@) + seq![
                hb as char,
                lb as char,
            ]);
            assert(hb as char == hex_digit(bytes@[i as int] / 16));
            assert(lb as char == hex_digit(bytes@[i as int] % 16));
        }
        out.push(hb);
        out.push(lb);
        assert(ascii_chars(out@) =~= hex_of(bytes@.subrange(0, i + 1 as int)));
        i = i + 1;
    }
    proof {
        assert(bytes@.subrange(0, n as int) =~= bytes@);
    }
    ascii_to_string(out)
}

/// `b` needs no percent-escape in a URL: ASCII alphanumeric or `-`, `.`,
/// `_`, `~`.
pub open spec fn url_safe_byte(b: u8) -> bool {
    (48 <= b && b < 58) || (65 <= b && b < 91) || (97 <= b && b < 123) || b == 45 || b == 46 || b
        == 95 || b == 126
}

/// The upper-case hex digit for a value below sixteen.
pub open spec fn hex_digit_upper(n: u8) -> char
    recommends
        n < 16,
{
    if n < 10 {
        ((48 + n) as u8) as char
    } else {
        ((55 + n) as u8) as char
    }
}

/// The percent-encoded form of the bytes: safe bytes stand as themselves,
/// every other byte becomes `%` and two upper-case hex digits.
pub open spec fn percent_encode(bytes: Seq<u8>) -> Seq<char>
    decreases bytes.len(),
{
    if bytes.len() == 0 {
        Seq::empty()
    } else {
        percent_encode(bytes.drop_last()) + (if url_safe_byte(bytes.last()) {
            seq![bytes.last() as char]
        } else {
            seq![
                '%',
                hex_digit_upper(bytes.last() / 16),
                hex_digit_upper(bytes.last() % 16),
            ]
        })
    }
}

/// Relies on urlencoding::encode: percent-encodes every byte of the UTF-8
/// form except ASCII alphanumerics and `-`, `.`, `_`, `~`, with upper-case
/// hex digits.
#[verifier::external_body]
pub fn url_encode(s: &str) -> (r: String)
    ensures
        r@ == percent_encode(s.spec_bytes()),
{
    urlencoding::encode(s).into_owned()
}

/// What the SHA-1 digest of a byte sequence is: a function of the bytes
/// alone.
pub uninterp spec fn sha1_of(bytes: Seq<u8>) -> Seq<u8>;

/// Relies on sha1::Sha1::digest (RustCrypto): the 20-byte SHA-1 digest of
/// the input, determined by the input bytes alone.
#[verifier::external_body]
pub fn sha1_digest(bytes: &Vec<u8>) -> (r: Vec<u8>)
    ensures
        r@ == sha1_of(bytes@),
        r@.len() == 20,
{
    <sha1::Sha1 as sha1::Digest>::digest(bytes.as_slice()).to_vec()
}

/// Relies on std::time::SystemTime::now: seconds since the Unix epoch.
/// Nothing is promised of the value.
#[verifier::external_body]
pub fn now_epoch_secs() -> u64 {
    std::time::SystemTime::now().duration_since(std::time::UNIX_EPOCH).map(|d| d.as_secs()).unwrap_or(0)
}

/// The index of the first occurrence of `c` in `s`, if any.
pub open spec fn find_index(s: Seq<char>, c: char) -> Option<int>
    decreases s.len(),
{
    if s.len() == 0 {
        Option::None
    } else if s[0] == c {
        Option::Some(0)
    } else {
        match find_index(s.drop_first(), c) {
            Option::Some(i) => Option::Some(i + 1),
            Option::None => Option::None,
        }
    }
}

pub proof fn lemma_find_index_at(s: Seq<char>, c: char, i: int)
    requires
        0 <= i < s.len(),
        s[i] == c,
        forall|k: int| 0 <= k < i ==> s[k] != c,
    ensures
        find_index(s, c) == Option::Some(i),
    decreases i,
{
    if i > 0 {
        assert(s.drop_first()[i - 1] == s[i]);
        assert forall|k: int| 0 <= k < i - 1 implies s.drop_first()[k] != c by {
            assert(s.drop_first()[k] == s[k + 1]);
        }
        lemma_find_index_at(s.drop_first(), c, i - 1);
    }
}

pub proof fn lemma_find_index_none(s: Seq<char>, c: char)
    requires
        forall|k: int| 0 <= k < s.len() ==> s[k] != c,
    ensures
        find_index(s, c) == Option::<int>::None,
    decreases s.len(),
{
    if s.len() > 0 {
        assert forall|k: int| 0 <= k < s.drop_first().len() implies s.drop_first()[k] != c by {
            assert(s.drop_first()[k] == s[k + 1]);
        }
        lemma_find_index_none(s.drop_first(), c);
    }
}

/// A copy of the characters of `v` between `a` and `b`.
pub fn subvec(v: &Vec<char>, a: usize, b: usize) -> (r: Vec<char>)
    requires
        a <= b <= v@.len(),
    ensures
        r@ == v@.subrange(a as int, b as int),
{
    let mut r: Vec<char> = Vec::new();
    let mut i: usize = a;
    while i < b
        invariant
            a <= i <= b,
            b <= v@.len(),
            r@ == v@.subrange(a as int, i as int),
        decreases b - i,
    {
        r.push(v[i]);
        assert(r@ =~= v@.subrange(a as int, i + 1 as int));
        i = i + 1;
    }
    r
}

/// The first occurrence of `c` in `v` at or after `from`, if any.
pub fn find_char(v: &Vec<char>, from: usize, c: char) -> (r: Option<usize>)
    ensures
        match r {
            Some(i) => from <= i < v@.len() && v@[i as int] == c && forall|k: int|
                from <= k < i ==> v@[k] != c,
            None => forall|k: int| from <= k < v@.len() ==> v@[k] != c,
        },
{
    let n = v.len();
    let mut i: usize = from;
    while i < n
        invariant
            from <= i <= n || (from > n && i == from),
            n == v@.len(),
            forall|k: int| from <= k < i ==> v@[k] != c,
        decreases n - i,
    {
        if v[i] == c {
            return Some(i);
        }
        i = i + 1;
    }
    None
}

} // verus!
