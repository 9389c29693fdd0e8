//! Character-level text operations with exact specifications.
use vstd::prelude::*;
use vstd::string::*;

verus! {

/// Whether `s` ends with `suffix`.
pub open spec fn seq_ends_with(s: Seq<char>, suffix: Seq<char>) -> bool {
    suffix.len() <= s.len() && s.subrange(s.len() - suffix.len(), s.len() as int) == suffix
}

/// Whether `s` starts with `prefix`.
pub open spec fn seq_starts_with(s: Seq<char>, prefix: Seq<char>) -> bool {
    prefix.len() <= s.len() && s.subrange(0, prefix.len() as int) == prefix
}

/// Whether `needle` occurs as a contiguous part of `s`.
pub open spec fn seq_contains(s: Seq<char>, needle: Seq<char>) -> bool {
    exists|i: int|
        0 <= i && i + needle.len() <= s.len() && #[trigger] s.subrange(i, i + needle.len())
            == needle
}

/// Whether `c` is one of the ASCII decimal digits `0` to `9`.
pub open spec fn is_ascii_digit(c: char) -> bool {
    '0' <= c && c <= '9'
}

/// Whether every character of `s` is an ASCII decimal digit (true of the empty text).
pub open spec fn all_ascii_digits(s: Seq<char>) -> bool {
    forall|i: int| 0 <= i < s.len() ==> is_ascii_digit(#[trigger] s[i])
}

/// `s` with every trailing repetition of `pat` removed; an empty pattern removes nothing.
pub open spec fn strip_suffix_repeated(s: Seq<char>, pat: Seq<char>) -> Seq<char>
    decreases s.len(),
{
    if pat.len() > 0 && seq_ends_with(s, pat) {
        strip_suffix_repeated(s.subrange(0, s.len() - pat.len()), pat)
    } else {
        s
    }
}

/// The characters of `s`, one by one.
pub fn chars_of(s: &str) -> (v: Vec<char>)
    ensures
        v@ == s@,
{
    let n = s.unicode_len();
    let mut v: Vec<char> = Vec::new();
    for i in 0..n
        invariant
            n == s@.len(),
            v@ == s@.subrange(0, i as int),
    {
        v.push(s.get_char(i));
        assert(v@ =~= s@.subrange(0, i + 1));
    }
    assert(v@ =~= s@);
    v
}

/// Whether two texts hold the same characters.
pub fn text_eq(a: &str, b: &str) -> (r: bool)
    ensures
        r == (a@ == b@),
{
    let x: String = a.to_owned();
    let y: String = b.to_owned();
    x == y
}

/// Whether `s` ends with `suffix`.
pub fn ends_with(s: &str, suffix: &str) -> (r: bool)
    ensures
        r == seq_ends_with(s@, suffix@),
{
    let n = s.unicode_len();
    let m = suffix.unicode_len();
    if m > n {
        return false;
    }
    let tail = s.substring_char(n - m, n);
    text_eq(tail, suffix)
}

/// Whether `s` starts with `prefix`.
pub fn starts_with(s: &str, prefix: &str) -> (r: bool)
    ensures
        r == seq_starts_with(s@, prefix@),
{
    let n = s.unicode_len();
    let m = prefix.unicode_len();
    if m > n {
        return false;
    }
    let head = s.substring_char(0, m);
    text_eq(head, prefix)
}

/// Whether every character of `s` is an ASCII decimal digit.
pub fn is_all_ascii_digits(s: &str) -> (r: bool)
    ensures
        r == all_ascii_digits(s@),
{
    let cs = chars_of(s);
    let n = cs.len();
    for i in 0..n
        invariant
            n == cs@.len(),
            cs@ == s@,
            forall|j: int| 0 <= j < i ==> is_ascii_digit(#[trigger] s@[j]),
    {
        let c = cs[i];
        if !('0' <= c && c <= '9') {
            return false;
        }
    }
    true
}

/// Whether `needle` occurs in `s`.
pub fn contains(s: &str, needle: &str) -> (r: bool)
    ensures
        r == seq_contains(s@, needle@),
{
    let hay = chars_of(s);
    let pat = chars_of(needle);
    let n = hay.len();
    let m = pat.len();
    if m > n {
        proof {
            assert forall|i: int|
                0 <= i && i + needle@.len() <= s@.len() implies #[trigger] s@.subrange(
                i,
                i + needle@.len(),
            ) != needle@ by {}
        }
        return false;
    }
    let mut i: usize = 0;
    while i <= n - m
        invariant
            hay@ == s@,
            pat@ == needle@,
            n == hay@.len(),
            m == pat@.len(),
            m <= n,
            i <= n - m + 1,
            forall|k: int| 0 <= k < i ==> #[trigger] s@.subrange(k, k + m) != needle@,
        decreases n - m + 1 - i,
    {
        let mut j: usize = 0;
        let mut same = true;
        while j < m
            invariant
                hay@ == s@,
                pat@ == needle@,
                n == hay@.len(),
                m == pat@.len(),
                i + m <= n,
                j <= m,
                same == (forall|t: int| 0 <= t < j ==> hay@[i + t] == pat@[t]),
            decreases m - j,
        {
            if hay[i + j] != pat[j] {
                same = false;
            }
            j += 1;
        }
        if same {
            assert(s@.subrange(i as int, i + m) =~= needle@);
            return true;
        }
        assert(s@.subrange(i as int, i + m)[0] == s@[i as int]);
        assert(s@.subrange(i as int, i + m) != needle@) by {
            let t = choose|t: int| 0 <= t < m && hay@[i + t] != pat@[t];
            assert(s@.subrange(i as int, i + m)[t] == hay@[i + t]);
        }
        i += 1;
    }
    false
}

/// `s` with every trailing repetition of `pat` removed.
pub fn trim_end_matches(s: &str, pat: &str) -> (r: String)
    ensures
        r@ == strip_suffix_repeated(s@, pat@),
{
    let m = pat.unicode_len();
    let mut end = s.unicode_len();
    if m == 0 {
        return s.to_owned();
    }
    assert(s@.subrange(0, end as int) =~= s@);
    loop
        invariant
            m == pat@.len(),
            m > 0,
            end <= s@.len(),
            strip_suffix_repeated(s@.subrange(0, end as int), pat@) == strip_suffix_repeated(
                s@,
                pat@,
            ),
        ensures
            end <= s@.len(),
            strip_suffix_repeated(s@.subrange(0, end as int), pat@) == strip_suffix_repeated(
                s@,
                pat@,
            ),
            strip_suffix_repeated(s@.subrange(0, end as int), pat@) == s@.subrange(0, end as int),
        decreases end,
    {
        if m > end {
            break;
        }
        let tail = s.substring_char(end - m, end);
        let cur = Ghost(s@.subrange(0, end as int));
        assert(cur@.subrange(cur@.len() - m, cur@.len() as int) =~= tail@);
        if !text_eq(tail, pat) {
            break;
        }
        assert(cur@.subrange(0, cur@.len() - m) =~= s@.subrange(0, end - m));
        end = end - m;
    }
    s.substring_char(0, end).to_owned()
}

/// The text that `str::trim` gives back for a text: the Unicode whitespace at both
/// ends taken away.
pub uninterp spec fn trimmed(s: Seq<char>) -> Seq<char>;

/// The text that `str::to_uppercase` gives back for a text: each character mapped to
/// its Unicode uppercase form.
pub uninterp spec fn uppercased(s: Seq<char>) -> Seq<char>;

/// Calls `str::trim`. The contract names its result `trimmed(s@)` and says nothing of
/// which characters count as whitespace: that is the Unicode property White_Space.
#[verifier::external_body]
pub(crate) fn trim<'a>(s: &'a str) -> (r: &'a str)
    ensures
        r@ == trimmed(s@),
{
    s.trim()
}

/// Calls `str::to_uppercase`. The contract names its result `uppercased(s@)`; the
/// Unicode case mapping itself is not stated.
#[verifier::external_body]
pub(crate) fn to_uppercase(s: &str) -> (r: String)
    ensures
        r@ == uppercased(s@),
{
    s.to_uppercase()
}

/// `uppercased(trimmed(s))`: the text with surrounding whitespace removed, in capitals.
pub open spec fn canonical(s: Seq<char>) -> Seq<char> {
    uppercased(trimmed(s))
}

/// The canonical form of a code or symbol: `s.trim().to_uppercase()`.
pub fn canonicalize(s: &str) -> (r: String)
    ensures
        r@ == canonical(s@),
{
    to_uppercase(trim(s))
}

/// The digits are exactly the ten characters `0` to `9`.
pub proof fn lemma_ascii_digits_are_the_ten_digits(c: char)
    ensures
        is_ascii_digit(c) <==> (c == '0' || c == '1' || c == '2' || c == '3' || c == '4' || c
            == '5' || c == '6' || c == '7' || c == '8' || c == '9'),
{
    assert('0' as u32 == 48 && '9' as u32 == 57);
    assert('1' as u32 == 49 && '2' as u32 == 50 && '3' as u32 == 51 && '4' as u32 == 52);
    assert('5' as u32 == 53 && '6' as u32 == 54 && '7' as u32 == 55 && '8' as u32 == 56);
}

} // verus!
