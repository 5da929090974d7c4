//! Character-level text primitives: identifier and label syntax, ASCII case
//! folding, trimming and substring search, each with an exact specification
//! over the character sequence of the string.

use vstd::prelude::*;

verus! {

/// ASCII whitespace, the characters stripped by trimming.
pub open spec fn is_ws_char(c: char) -> bool {
    c == ' ' || c == '\t' || c == '\n' || c == '\r'
}

/// A hexadecimal digit of either case.
pub open spec fn is_hex_digit_char(c: char) -> bool {
    ('0' <= c && c <= '9') || ('a' <= c && c <= 'f') || ('A' <= c && c <= 'F')
}

/// Canonical 8-4-4-4-12 form: 36 characters, hyphens at positions
/// 8, 13, 18 and 23, hex digits everywhere else.
pub open spec fn is_uuid_seq(s: Seq<char>) -> bool {
    s.len() == 36 && forall|i: int|
        0 <= i < 36 ==> if i == 8 || i == 13 || i == 18 || i == 23 {
            s[i] == '-'
        } else {
            is_hex_digit_char(#[trigger] s[i])
        }
}

/// An edge-type name: non-empty, upper-case letters, digits and underscores.
pub open spec fn is_edge_type_seq(s: Seq<char>) -> bool {
    s.len() > 0 && forall|i: int|
        0 <= i < s.len() ==> ('A' <= #[trigger] s[i] && s[i] <= 'Z') || ('0' <= s[i] && s[i]
            <= '9') || s[i] == '_'
}

/// A graph label: non-empty, letters, digits and underscores.
pub open spec fn is_label_seq(s: Seq<char>) -> bool {
    s.len() > 0 && forall|i: int|
        0 <= i < s.len() ==> ('A' <= #[trigger] s[i] && s[i] <= 'Z') || ('a' <= s[i] && s[i]
            <= 'z') || ('0' <= s[i] && s[i] <= '9') || s[i] == '_'
}

/// Lower-cases one ASCII letter and leaves every other character alone.
pub open spec fn lower_char(c: char) -> char {
    if 'A' <= c && c <= 'Z' {
        (c as u8 + 32) as char
    } else {
        c
    }
}

/// ASCII lower-casing of a whole sequence.
pub open spec fn lower_seq(s: Seq<char>) -> Seq<char> {
    s.map_values(|c: char| lower_char(c))
}

pub open spec fn spec_starts_with(s: Seq<char>, p: Seq<char>) -> bool {
    p.len() <= s.len() && s.subrange(0, p.len() as int) == p
}

pub open spec fn spec_ends_with(s: Seq<char>, p: Seq<char>) -> bool {
    p.len() <= s.len() && s.subrange(s.len() - p.len(), s.len() as int) == p
}

/// Only whitespace, so trimming would leave nothing.
pub open spec fn is_blank_seq(s: Seq<char>) -> bool {
    forall|i: int| 0 <= i < s.len() ==> is_ws_char(#[trigger] s[i])
}

/// Index of the first character that is not whitespace (the length if all are).
pub open spec fn trim_start_idx(s: Seq<char>) -> int
    decreases s.len(),
{
    if s.len() == 0 {
        0
    } else if !is_ws_char(s[0]) {
        0
    } else {
        1 + trim_start_idx(s.drop_first())
    }
}

/// One past the last character that is not whitespace (0 if all are).
pub open spec fn trim_end_idx(s: Seq<char>) -> int
    decreases s.len(),
{
    if s.len() == 0 {
        0
    } else if !is_ws_char(s[s.len() - 1]) {
        s.len() as int
    } else {
        trim_end_idx(s.drop_last())
    }
}

/// The sequence with leading and trailing whitespace removed.
pub open spec fn trim_seq(s: Seq<char>) -> Seq<char> {
    if trim_start_idx(s) >= trim_end_idx(s) {
        Seq::empty()
    } else {
        s.subrange(trim_start_idx(s), trim_end_idx(s))
    }
}

/// The needle occurs contiguously somewhere in the haystack.
pub open spec fn spec_contains(hay: Seq<char>, needle: Seq<char>) -> bool {
    exists|i: int|
        0 <= i && i + needle.len() <= hay.len() && #[trigger] hay.subrange(i, i + needle.len())
            == needle
}

/// Relies on `String::push`: appends exactly the given character.
#[verifier::external_body]
pub(crate) fn push_char(s: &mut String, c: char)
    ensures
        final(s)@ == old(s)@.push(c),
{
    s.push(c)
}

/// View-level equality of two string slices.
pub fn str_eq(a: &str, b: &str) -> (r: bool)
    ensures
        r == (a@ == b@),
{
    let sa = a.to_owned();
    let sb = b.to_owned();
    sa == sb
}

/// Number of characters in the slice.
pub fn char_len(s: &str) -> (n: usize)
    ensures
        n == s@.len(),
{
    s.unicode_len()
}

pub fn starts_with_str(s: &str, p: &str) -> (r: bool)
    ensures
        r == spec_starts_with(s@, p@),
{
    let n = s.unicode_len();
    let m = p.unicode_len();
    if m > n {
        return false;
    }
    let mut i: usize = 0;
    while i < m
        invariant
            i <= m,
            m <= n,
            n == s@.len(),
            m == p@.len(),
            forall|j: int| 0 <= j < i ==> s@[j] == p@[j],
        decreases m - i,
    {
        if s.get_char(i) != p.get_char(i) {
            assert(s@.subrange(0, m as int)[i as int] != p@[i as int]);
            return false;
        }
        i += 1;
    }
    assert(s@.subrange(0, m as int) =~= p@);
    true
}

pub fn ends_with_str(s: &str, p: &str) -> (r: bool)
    ensures
        r == spec_ends_with(s@, p@),
{
    let n = s.unicode_len();
    let m = p.unicode_len();
    if m > n {
        return false;
    }
    let off = n - m;
    let mut i: usize = 0;
    while i < m
        invariant
            i <= m,
            off == n - m,
            m <= n,
            n == s@.len(),
            m == p@.len(),
            forall|j: int| 0 <= j < i ==> s@[off + j] == p@[j],
        decreases m - i,
    {
        if s.get_char(off + i) != p.get_char(i) {
            assert(s@.subrange(n - m, n as int)[i as int] != p@[i as int]);
            return false;
        }
        i += 1;
    }
    assert(s@.subrange(n - m, n as int) =~= p@);
    true
}

/// Whether the string is a well-formed identifier in canonical UUID form.
pub fn is_valid_uuid(s: &str) -> (r: bool)
    ensures
        r == is_uuid_seq(s@),
{
    let n = s.unicode_len();
    if n != 36 {
        return false;
    }
    let mut i: usize = 0;
    while i < 36
        invariant
            i <= 36,
            s@.len() == 36,
            forall|j: int|
                0 <= j < i ==> if j == 8 || j == 13 || j == 18 || j == 23 {
                    s@[j] == '-'
                } else {
                    is_hex_digit_char(#[trigger] s@[j])
                },
        decreases 36 - i,
    {
        let c = s.get_char(i);
        let ok = if i == 8 || i == 13 || i == 18 || i == 23 {
            c == '-'
        } else {
            ('0' <= c && c <= '9') || ('a' <= c && c <= 'f') || ('A' <= c && c <= 'F')
        };
        if !ok {
            return false;
        }
        i += 1;
    }
    true
}

/// Whether every character is whitespace (true for the empty string).
pub fn is_blank(s: &str) -> (r: bool)
    ensures
        r == is_blank_seq(s@),
{
    let n = s.unicode_len();
    let mut i: usize = 0;
    while i < n
        invariant
            i <= n,
            n == s@.len(),
            forall|j: int| 0 <= j < i ==> is_ws_char(#[trigger] s@[j]),
        decreases n - i,
    {
        let c = s.get_char(i);
        if !(c == ' ' || c == '\t' || c == '\n' || c == '\r') {
            return false;
        }
        i += 1;
    }
    true
}

proof fn lemma_trim_start_bounds(s: Seq<char>)
    ensures
        0 <= trim_start_idx(s) <= s.len(),
        forall|j: int| 0 <= j < trim_start_idx(s) ==> is_ws_char(#[trigger] s[j]),
        trim_start_idx(s) < s.len() ==> !is_ws_char(s[trim_start_idx(s)]),
    decreases s.len(),
{
    if s.len() > 0 && is_ws_char(s[0]) {
        lemma_trim_start_bounds(s.drop_first());
        assert forall|j: int| 0 <= j < trim_start_idx(s) implies is_ws_char(#[trigger] s[j]) by {
            if j > 0 {
                assert(s.drop_first()[j - 1] == s[j]);
            }
        }
    }
}

proof fn lemma_trim_end_bounds(s: Seq<char>)
    ensures
        0 <= trim_end_idx(s) <= s.len(),
        forall|j: int| trim_end_idx(s) <= j < s.len() ==> is_ws_char(#[trigger] s[j]),
        trim_end_idx(s) > 0 ==> !is_ws_char(s[trim_end_idx(s) - 1]),
    decreases s.len(),
{
    if s.len() > 0 && is_ws_char(s[s.len() - 1]) {
        lemma_trim_end_bounds(s.drop_last());
        assert forall|j: int| trim_end_idx(s) <= j < s.len() implies is_ws_char(
            #[trigger] s[j],
        ) by {
            if j < s.len() - 1 {
                assert(s.drop_last()[j] == s[j]);
            }
        }
    }
}

/// A whitespace prefix of length `a` whose next character is not whitespace
/// pins down `trim_start_idx`.
proof fn lemma_trim_start_idx_is(s: Seq<char>, a: int)
    requires
        0 <= a <= s.len(),
        forall|j: int| 0 <= j < a ==> is_ws_char(#[trigger] s[j]),
        a < s.len() ==> !is_ws_char(s[a]),
    ensures
        trim_start_idx(s) == a,
    decreases s.len(),
{
    if s.len() > 0 && is_ws_char(s[0]) {
        assert forall|j: int| 0 <= j < a - 1 implies is_ws_char(#[trigger] s.drop_first()[j]) by {
            assert(s.drop_first()[j] == s[j + 1]);
        }
        if a - 1 < s.drop_first().len() {
            assert(s.drop_first()[a - 1] == s[a]);
        }
        lemma_trim_start_idx_is(s.drop_first(), a - 1);
    }
}

proof fn lemma_trim_end_idx_is(s: Seq<char>, b: int)
    requires
        0 <= b <= s.len(),
        forall|j: int| b <= j < s.len() ==> is_ws_char(#[trigger] s[j]),
        b > 0 ==> !is_ws_char(s[b - 1]),
    ensures
        trim_end_idx(s) == b,
    decreases s.len(),
{
    if s.len() > 0 && is_ws_char(s[s.len() - 1]) {
        assert forall|j: int| b <= j < s.drop_last().len() implies is_ws_char(
            #[trigger] s.drop_last()[j],
        ) by {
            assert(s.drop_last()[j] == s[j]);
        }
        if b > 0 {
            assert(s.drop_last()[b - 1] == s[b - 1]);
        }
        lemma_trim_end_idx_is(s.drop_last(), b);
    }
}

/// The string with leading and trailing whitespace removed.
pub fn trim_str(s: &str) -> (r: String)
    ensures
        r@ == trim_seq(s@),
{
    let n = s.unicode_len();
    let mut a: usize = 0;
    while a < n
        invariant
            a <= n,
            n == s@.len(),
            forall|j: int| 0 <= j < a ==> is_ws_char(#[trigger] s@[j]),
        ensures
            a <= n,
            forall|j: int| 0 <= j < a ==> is_ws_char(#[trigger] s@[j]),
            a < n ==> !is_ws_char(s@[a as int]),
        decreases n - a,
    {
        let c = s.get_char(a);
        if !(c == ' ' || c == '\t' || c == '\n' || c == '\r') {
            break;
        }
        a += 1;
    }
    if a == n {
        proof {
            lemma_trim_start_idx_is(s@, n as int);
            lemma_trim_end_bounds(s@);
            assert(trim_seq(s@) =~= Seq::<char>::empty());
        }
        return String::new();
    }
    proof {
        lemma_trim_start_idx_is(s@, a as int);
    }
    let mut b: usize = n;
    while b > a
        invariant
            a < b <= n,
            a < n,
            n == s@.len(),
            !is_ws_char(s@[a as int]),
            forall|j: int| b <= j < n ==> is_ws_char(#[trigger] s@[j]),
        ensures
            a < b <= n,
            !is_ws_char(s@[b - 1]),
            forall|j: int| b <= j < n ==> is_ws_char(#[trigger] s@[j]),
        decreases b,
    {
        let c = s.get_char(b - 1);
        if !(c == ' ' || c == '\t' || c == '\n' || c == '\r') {
            break;
        }
        b -= 1;
    }
    proof {
        lemma_trim_end_idx_is(s@, b as int);
    }
    let out = s.substring_char(a, b);
    out.to_owned()
}

/// ASCII lower-casing: upper-case letters are folded, everything else kept.
pub fn to_ascii_lower(s: &str) -> (r: String)
    ensures
        r@ == lower_seq(s@),
{
    let n = s.unicode_len();
    let mut out = String::new();
    let mut i: usize = 0;
    while i < n
        invariant
            i <= n,
            n == s@.len(),
            out@ =~= lower_seq(s@.subrange(0, i as int)),
        decreases n - i,
    {
        let c = s.get_char(i);
        let lowered: char = if 'A' <= c && c <= 'Z' {
            (c as u8 + 32) as char
        } else {
            c
        };
        assert(lowered == lower_char(s@[i as int]));
        push_char(&mut out, lowered);
        proof {
            assert(s@.subrange(0, i + 1).drop_last() =~= s@.subrange(0, i as int));
            assert(out@ =~= lower_seq(s@.subrange(0, i + 1)));
        }
        i += 1;
    }
    proof {
        assert(s@.subrange(0, n as int) =~= s@);
    }
    out
}

/// Substring search: whether `needle` occurs contiguously in `hay`.
pub fn contains_str(hay: &str, needle: &str) -> (r: bool)
    ensures
        r == spec_contains(hay@, needle@),
{
    let n = hay.unicode_len();
    let m = needle.unicode_len();
    if m > n {
        return false;
    }
    if m == 0 {
        proof {
            assert(hay@.subrange(0, 0 + needle@.len() as int) =~= needle@);
        }
        return true;
    }
    let mut i: usize = 0;
    while i <= n - m
        invariant
            0 < m <= n,
            n == hay@.len(),
            m == needle@.len(),
            i <= n - m + 1,
            forall|k: int| 0 <= k < i ==> #[trigger] hay@.subrange(k, k + m) != needle@,
        decreases n - m + 1 - i,
    {
        let mut j: usize = 0;
        let mut all = true;
        while j < m
            invariant_except_break
                all,
                forall|t: int| 0 <= t < j ==> hay@[i + t] == needle@[t],
            invariant
                j <= m,
                i + m <= n,
                n == hay@.len(),
                m == needle@.len(),
            ensures
                i + m <= n,
                all ==> forall|t: int| 0 <= t < m ==> hay@[i + t] == needle@[t],
                !all ==> hay@.subrange(i as int, i + m) != needle@,
            decreases m - j,
        {
            if hay.get_char(i + j) != needle.get_char(j) {
                all = false;
                proof {
                    assert(hay@.subrange(i as int, i + m)[j as int] != needle@[j as int]);
                }
                break;
            }
            j += 1;
        }
        if all {
            proof {
                assert(hay@.subrange(i as int, i + m) =~= needle@);
            }
            return true;
        }
        i += 1;
    }
    false
}

/// ASCII case-insensitive equality of two strings.
pub fn eq_ignore_case_str(a: &str, b: &str) -> (r: bool)
    ensures
        r == (lower_seq(a@) == lower_seq(b@)),
{
    let n = a.unicode_len();
    let m = b.unicode_len();
    if n != m {
        proof {
            assert(lower_seq(a@).len() != lower_seq(b@).len());
        }
        return false;
    }
    let mut i: usize = 0;
    while i < n
        invariant
            i <= n,
            n == a@.len(),
            n == b@.len(),
            forall|j: int| 0 <= j < i ==> lower_char(a@[j]) == lower_char(b@[j]),
        decreases n - i,
    {
        let ca = a.get_char(i);
        let cb = b.get_char(i);
        let la: char = if 'A' <= ca && ca <= 'Z' {
            (ca as u8 + 32) as char
        } else {
            ca
        };
        let lb: char = if 'A' <= cb && cb <= 'Z' {
            (cb as u8 + 32) as char
        } else {
            cb
        };
        if la != lb {
            proof {
                assert(lower_seq(a@)[i as int] != lower_seq(b@)[i as int]);
            }
            return false;
        }
        i += 1;
    }
    proof {
        assert(lower_seq(a@) =~= lower_seq(b@));
    }
    true
}

/// Appends one string to another, in place.
pub fn append_str(s: &mut String, t: &str)
    ensures
        final(s)@ == old(s)@ + t@,
{
    s.append(t);
}

/// Whether the string is a well-formed edge-type name.
pub fn is_valid_edge_type_str(s: &str) -> (r: bool)
    ensures
        r == is_edge_type_seq(s@),
{
    let n = s.unicode_len();
    if n == 0 {
        return false;
    }
    let mut i: usize = 0;
    while i < n
        invariant
            i <= n,
            n == s@.len(),
            forall|j: int|
                0 <= j < i ==> ('A' <= #[trigger] s@[j] && s@[j] <= 'Z') || ('0' <= s@[j] && s@[j]
                    <= '9') || s@[j] == '_',
        decreases n - i,
    {
        let c = s.get_char(i);
        if !(('A' <= c && c <= 'Z') || ('0' <= c && c <= '9') || c == '_') {
            return false;
        }
        i += 1;
    }
    true
}

/// Whether the string is a well-formed label.
pub fn is_valid_label_str(s: &str) -> (r: bool)
    ensures
        r == is_label_seq(s@),
{
    let n = s.unicode_len();
    if n == 0 {
        return false;
    }
    let mut i: usize = 0;
    while i < n
        invariant
            i <= n,
            n == s@.len(),
            forall|j: int|
                0 <= j < i ==> ('A' <= #[trigger] s@[j] && s@[j] <= 'Z') || ('a' <= s@[j] && s@[j]
                    <= 'z') || ('0' <= s@[j] && s@[j] <= '9') || s@[j] == '_',
        decreases n - i,
    {
        let c = s.get_char(i);
        if !(('A' <= c && c <= 'Z') || ('a' <= c && c <= 'z') || ('0' <= c && c <= '9') || c
            == '_') {
            return false;
        }
        i += 1;
    }
    true
}

} // verus!
