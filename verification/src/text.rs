//! Character-level string helpers shared by the query, schema and error modules.

use vstd::prelude::*;

verus! {

/// Appends one character to a string.
///
/// Trusted wrapper around `String::push`; its documentation says the
/// character is appended to the end of the string, which is all this claims.
#[verifier::external_body]
pub(crate) fn push_char(s: &mut String, c: char)
    ensures
        final(s)@ == old(s)@.push(c),
{
    s.push(c);
}

/// Copies the characters of a string slice into a vector.
pub fn str_to_chars(s: &str) -> (out: Vec<char>)
    ensures
        out@ == s@,
{
    let mut out: Vec<char> = Vec::new();
    for c in it: s.chars()
        invariant
            out@ == it.seq().take(it.index() as int),
            it.seq() == s@,
    {
        out.push(c);
    }
    out
}

/// Builds a string from a slice of characters.
pub fn chars_to_string(chars: &[char]) -> (out: String)
    ensures
        out@ == chars@,
{
    let mut out = String::new();
    let n = chars.len();
    let mut i: usize = 0;
    while i < n
        invariant
            n == chars@.len(),
            i <= n,
            out@ == chars@.take(i as int),
        decreases n - i,
    {
        push_char(&mut out, chars[i]);
        i = i + 1;
        assert(out@ =~= chars@.take(i as int));
    }
    assert(chars@.take(n as int) =~= chars@);
    out
}

/// Appends a string slice to a string.
pub fn push_str(s: &mut String, t: &str)
    ensures
        final(s)@ == old(s)@ + t@,
{
    s.append(t);
}

/// Returns an owned copy of a string slice.
pub fn owned(t: &str) -> (out: String)
    ensures
        out@ == t@,
{
    t.to_owned()
}

/// Whether two string slices hold the same characters.
pub fn str_eq(a: &str, b: &str) -> (res: bool)
    ensures
        res == (a@ == b@),
{
    let x = str_to_chars(a);
    let y = str_to_chars(b);
    chars_eq(x.as_slice(), y.as_slice())
}

/// Whether two character slices are equal.
pub fn chars_eq(a: &[char], b: &[char]) -> (res: bool)
    ensures
        res == (a@ == b@),
{
    if a.len() != b.len() {
        return false;
    }
    let n = a.len();
    let mut i: usize = 0;
    while i < n
        invariant
            n == a@.len(),
            n == b@.len(),
            i <= n,
            forall|j: int| 0 <= j < i ==> a@[j] == b@[j],
        decreases n - i,
    {
        if a[i] != b[i] {
            return false;
        }
        i = i + 1;
    }
    assert(a@ =~= b@);
    true
}

/// ASCII letters.
pub open spec fn is_ascii_alpha(c: char) -> bool {
    ('A' <= c && c <= 'Z') || ('a' <= c && c <= 'z')
}

/// ASCII digits.
pub open spec fn is_ascii_digit(c: char) -> bool {
    '0' <= c && c <= '9'
}

/// ASCII letters and digits.
pub open spec fn is_ascii_alnum(c: char) -> bool {
    is_ascii_alpha(c) || is_ascii_digit(c)
}

/// Characters allowed after the first one of a plain identifier.
pub open spec fn is_ident_char(c: char) -> bool {
    is_ascii_alnum(c) || c == '_'
}

/// Characters allowed as the first one of a plain identifier.
pub open spec fn is_ident_start(c: char) -> bool {
    is_ascii_alpha(c) || c == '_'
}

/// A plain identifier: an ASCII letter or `_`, then ASCII letters, digits or `_`.
pub open spec fn is_plain_identifier(s: Seq<char>) -> bool {
    &&& s.len() > 0
    &&& is_ident_start(s[0])
    &&& forall|i: int| 1 <= i < s.len() ==> is_ident_char(#[trigger] s[i])
}

/// ASCII lowercase mapping of one character.
pub open spec fn ascii_lower(c: char) -> char {
    if 'A' <= c && c <= 'Z' {
        ((c as u32) + 32) as char
    } else {
        c
    }
}

/// ASCII uppercase mapping of one character.
pub open spec fn ascii_upper(c: char) -> char {
    if 'a' <= c && c <= 'z' {
        ((c as u32) - 32) as char
    } else {
        c
    }
}

/// ASCII lowercase mapping of a sequence.
pub open spec fn lower_seq(s: Seq<char>) -> Seq<char> {
    s.map_values(|c: char| ascii_lower(c))
}

/// ASCII uppercase mapping of a sequence.
pub open spec fn upper_seq(s: Seq<char>) -> Seq<char> {
    s.map_values(|c: char| ascii_upper(c))
}

pub fn char_is_ascii_alpha(c: char) -> (res: bool)
    ensures
        res == is_ascii_alpha(c),
{
    ('A' <= c && c <= 'Z') || ('a' <= c && c <= 'z')
}

pub fn char_is_ascii_digit(c: char) -> (res: bool)
    ensures
        res == is_ascii_digit(c),
{
    '0' <= c && c <= '9'
}

pub fn char_is_ident_char(c: char) -> (res: bool)
    ensures
        res == is_ident_char(c),
{
    char_is_ascii_alpha(c) || char_is_ascii_digit(c) || c == '_'
}

pub fn char_to_ascii_lower(c: char) -> (res: char)
    ensures
        res == ascii_lower(c),
{
    if 'A' <= c && c <= 'Z' {
        let b: u8 = c as u8;
        assert(b as u32 == c as u32);
        ((b + 32) as u8) as char
    } else {
        c
    }
}

pub fn char_to_ascii_upper(c: char) -> (res: char)
    ensures
        res == ascii_upper(c),
{
    if 'a' <= c && c <= 'z' {
        let b: u8 = c as u8;
        assert(b as u32 == c as u32);
        ((b - 32) as u8) as char
    } else {
        c
    }
}

/// ASCII-lowercases a character slice.
pub fn to_ascii_lower(s: &[char]) -> (out: Vec<char>)
    ensures
        out@ == lower_seq(s@),
{
    let mut out: Vec<char> = Vec::new();
    let n = s.len();
    let mut i: usize = 0;
    while i < n
        invariant
            n == s@.len(),
            i <= n,
            out@ =~= lower_seq(s@.take(i as int)),
        decreases n - i,
    {
        out.push(char_to_ascii_lower(s[i]));
        i = i + 1;
        assert(s@.take(i as int).drop_last() =~= s@.take(i - 1));
    }
    assert(s@.take(n as int) =~= s@);
    out
}

/// ASCII-uppercases a character slice.
pub fn to_ascii_upper(s: &[char]) -> (out: Vec<char>)
    ensures
        out@ == upper_seq(s@),
{
    let mut out: Vec<char> = Vec::new();
    let n = s.len();
    let mut i: usize = 0;
    while i < n
        invariant
            n == s@.len(),
            i <= n,
            out@ =~= upper_seq(s@.take(i as int)),
        decreases n - i,
    {
        out.push(char_to_ascii_upper(s[i]));
        i = i + 1;
        assert(s@.take(i as int).drop_last() =~= s@.take(i - 1));
    }
    assert(s@.take(n as int) =~= s@);
    out
}

/// `needle` occurs in `hay` starting at position `i`.
pub open spec fn occurs_at(hay: Seq<char>, needle: Seq<char>, i: int) -> bool {
    0 <= i && i + needle.len() <= hay.len() && hay.subrange(i, i + needle.len()) == needle
}

/// `needle` occurs somewhere in `hay`.
pub open spec fn seq_contains(hay: Seq<char>, needle: Seq<char>) -> bool {
    exists|i: int| occurs_at(hay, needle, i)
}

/// A sequence occurs in any concatenation that has it in the middle.
pub proof fn lemma_contains_middle(a: Seq<char>, b: Seq<char>, c: Seq<char>)
    ensures
        seq_contains(a + b + c, b),
{
    assert((a + b + c).subrange(a.len() as int, (a.len() + b.len()) as int) =~= b);
    assert(occurs_at(a + b + c, b, a.len() as int));
}

/// Whether `needle` occurs in `hay` at position `i`.
fn matches_at(hay: &[char], needle: &[char], i: usize) -> (res: bool)
    requires
        i + needle@.len() <= hay@.len(),
    ensures
        res == occurs_at(hay@, needle@, i as int),
{
    let m = needle.len();
    let mut j: usize = 0;
    while j < m
        invariant
            m == needle@.len(),
            i + m <= hay.len(),
            j <= m,
            forall|k: int| 0 <= k < j ==> hay@[i + k] == needle@[k],
        decreases m - j,
    {
        if hay[i + j] != needle[j] {
            assert(hay@.subrange(i as int, i + m)[j as int] != needle@[j as int]);
            return false;
        }
        j = j + 1;
    }
    assert(hay@.subrange(i as int, i + m) =~= needle@);
    true
}

/// Finds the first position at which `needle` occurs in `hay`.
pub fn find_chars(hay: &[char], needle: &[char]) -> (res: Option<usize>)
    ensures
        match res {
            Some(i) => occurs_at(hay@, needle@, i as int) && forall|j: int|
                0 <= j < i ==> !occurs_at(hay@, needle@, j),
            None => !seq_contains(hay@, needle@),
        },
{
    if needle.len() > hay.len() {
        return None;
    }
    let last = hay.len() - needle.len();
    let mut i: usize = 0;
    while i <= last
        invariant_except_break
            last + needle@.len() == hay@.len(),
            i <= last,
            forall|j: int| 0 <= j < i ==> !occurs_at(hay@, needle@, j),
        ensures
            forall|j: int| 0 <= j <= last ==> !occurs_at(hay@, needle@, j),
        decreases last + 1 - i,
    {
        if matches_at(hay, needle, i) {
            return Some(i);
        }
        if i == last {
            break;
        }
        i = i + 1;
    }
    assert forall|j: int| !occurs_at(hay@, needle@, j) by {
        if occurs_at(hay@, needle@, j) {
            assert(j <= last);
        }
    }
    None
}

/// Whether `needle` occurs in `hay`.
pub fn contains_chars(hay: &[char], needle: &[char]) -> (res: bool)
    ensures
        res == seq_contains(hay@, needle@),
{
    match find_chars(hay, needle) {
        Some(i) => true,
        None => false,
    }
}

/// Whether the string slice `needle` occurs in the character slice `hay`.
pub fn contains_str(hay: &[char], needle: &str) -> (res: bool)
    ensures
        res == seq_contains(hay@, needle@),
{
    let n = str_to_chars(needle);
    contains_chars(hay, n.as_slice())
}

/// Decimal digits of a natural number, most significant first.
pub open spec fn decimal(n: nat) -> Seq<char>
    decreases n,
{
    if n < 10 {
        seq![digit_char(n)]
    } else {
        decimal(n / 10).push(digit_char(n % 10))
    }
}

/// The character of one decimal digit.
pub open spec fn digit_char(d: nat) -> char {
    (('0' as u32) + d) as char
}

fn digit_to_char(d: u64) -> (c: char)
    requires
        d < 10,
    ensures
        c == digit_char(d as nat),
{
    let b: u8 = d as u8;
    ((b + 48) as u8) as char
}

/// Decimal rendering of an unsigned integer, as `to_string` prints it.
pub fn u64_to_decimal(n: u64) -> (out: String)
    ensures
        out@ == decimal(n as nat),
{
    u128_to_decimal(n as u128)
}

/// Decimal rendering of an unsigned 128-bit integer, as `to_string` prints it.
pub fn u128_to_decimal(n: u128) -> (out: String)
    ensures
        out@ == decimal(n as nat),
{
    let digits = u128_digits(n);
    chars_to_string(digits.as_slice())
}

fn u128_digits(n: u128) -> (out: Vec<char>)
    ensures
        out@ == decimal(n as nat),
    decreases n,
{
    if n < 10 {
        let mut v: Vec<char> = Vec::new();
        v.push(digit_to_char(n as u64));
        assert(v@ =~= decimal(n as nat));
        v
    } else {
        let mut v = u128_digits(n / 10);
        v.push(digit_to_char((n % 10) as u64));
        v
    }
}

/// Every character is an ASCII digit.
pub open spec fn all_ascii_digits(s: Seq<char>) -> bool {
    forall|i: int| 0 <= i < s.len() ==> is_ascii_digit(#[trigger] s[i])
}

/// The value of a run of decimal digits, most significant first.
pub open spec fn digits_value(s: Seq<char>) -> int
    decreases s.len(),
{
    if s.len() == 0 {
        0
    } else {
        digits_value(s.drop_last()) * 10 + (s.last() as int - '0' as int)
    }
}

/// The integer a text spells: an optional `-` followed by one or more
/// decimal digits.
pub open spec fn integer_text_value(s: Seq<char>) -> Option<int> {
    if s.len() > 0 && s[0] == '-' {
        if s.len() > 1 && all_ascii_digits(s.skip(1)) {
            Some(-digits_value(s.skip(1)))
        } else {
            None
        }
    } else if s.len() > 0 && all_ascii_digits(s) {
        Some(digits_value(s))
    } else {
        None
    }
}

/// The `i64` a text spells, when it spells an integer in range.
pub open spec fn i64_text_value(s: Seq<char>) -> Option<i64> {
    match integer_text_value(s) {
        Some(v) => if i64::MIN <= v <= i64::MAX {
            Some(v as i64)
        } else {
            None
        },
        None => None,
    }
}

/// The value of the digits `s[start..]` when they are all digits, there is
/// at least one, and the value is at most 2^63.
fn capped_digits_value(s: &[char], start: usize) -> (res: Option<u64>)
    requires
        start <= s@.len(),
    ensures
        match res {
            Some(v) => start < s@.len() && all_ascii_digits(s@.skip(start as int)) && v
                == digits_value(s@.skip(start as int)) && v <= 0x8000_0000_0000_0000,
            None => !(start < s@.len() && all_ascii_digits(s@.skip(start as int)) && digits_value(
                s@.skip(start as int),
            ) <= 0x8000_0000_0000_0000),
        },
{
    let n = s.len();
    let mut val: u128 = 0;
    let mut big = false;
    let mut i: usize = start;
    while i < n
        invariant
            n == s@.len(),
            start <= i <= n,
            all_ascii_digits(s@.subrange(start as int, i as int)),
            !big ==> val == digits_value(s@.subrange(start as int, i as int)) && val
                <= 0x8000_0000_0000_0000,
            big ==> digits_value(s@.subrange(start as int, i as int)) > 0x8000_0000_0000_0000,
        decreases n - i,
    {
        let c = s[i];
        if !(c >= '0' && c <= '9') {
            assert(s@.skip(start as int)[i - start] == c);
            return None;
        }
        let ghost before = s@.subrange(start as int, i as int);
        let ghost after = s@.subrange(start as int, i + 1);
        assert(after.drop_last() =~= before);
        assert(after.last() == c);
        let d: u128 = (c as u32 - 48) as u128;
        if !big {
            let next: u128 = val * 10 + d;
            if next > 0x8000_0000_0000_0000 {
                big = true;
            } else {
                val = next;
            }
        }
        i = i + 1;
        assert(all_ascii_digits(after)) by {
            assert forall|k: int| 0 <= k < after.len() implies is_ascii_digit(#[trigger] after[k]) by {
                if k < before.len() {
                    assert(after[k] == before[k]);
                }
            }
        }
    }
    assert(s@.subrange(start as int, n as int) =~= s@.skip(start as int));
    if i == start || big {
        None
    } else {
        Some(val as u64)
    }
}

/// Reads the `i64` a text spells: an optional `-` and decimal digits whose
/// value is in range.
pub fn parse_i64_text(text: &str) -> (res: Option<i64>)
    ensures
        res == i64_text_value(text@),
{
    let chars = str_to_chars(text);
    let n = chars.len();
    if n > 0 && chars[0] == '-' {
        match capped_digits_value(chars.as_slice(), 1) {
            Some(v) => {
                let neg: i128 = -(v as i128);
                Some(neg as i64)
            },
            None => None,
        }
    } else {
        assert(chars@.skip(0) =~= chars@);
        match capped_digits_value(chars.as_slice(), 0) {
            Some(v) => if v <= 0x7fff_ffff_ffff_ffff {
                Some(v as i64)
            } else {
                None
            },
            None => None,
        }
    }
}

/// Decimal rendering of a signed integer, as `to_string` prints it.
pub open spec fn signed_decimal(n: int) -> Seq<char> {
    if n < 0 {
        seq!['-'] + decimal((-n) as nat)
    } else {
        decimal(n as nat)
    }
}

/// Decimal rendering of a signed integer, as `to_string` prints it.
pub fn i64_to_decimal(n: i64) -> (out: String)
    ensures
        out@ == signed_decimal(n as int),
{
    if n < 0 {
        let magnitude: u64 = if n == i64::MIN {
            9223372036854775808u64
        } else {
            (-n) as u64
        };
        let mut out = String::new();
        push_char(&mut out, '-');
        let digits = u128_digits(magnitude as u128);
        let mut i: usize = 0;
        while i < digits.len()
            invariant
                out@ == seq!['-'] + digits@.take(i as int),
                i <= digits@.len(),
            decreases digits.len() - i,
        {
            push_char(&mut out, digits[i]);
            i = i + 1;
            assert(out@ =~= seq!['-'] + digits@.take(i as int));
        }
        assert(digits@.take(digits@.len() as int) =~= digits@);
        out
    } else {
        u64_to_decimal(n as u64)
    }
}

/// Unicode `White_Space` characters, as `char::is_whitespace` classifies them.
pub open spec fn is_unicode_whitespace(c: char) -> bool {
    let u = c as u32;
    (0x09 <= u && u <= 0x0d) || u == 0x20 || u == 0x85 || u == 0xa0 || u == 0x1680 || (0x2000
        <= u && u <= 0x200a) || u == 0x2028 || u == 0x2029 || u == 0x202f || u == 0x205f || u
        == 0x3000
}

pub fn char_is_whitespace(c: char) -> (res: bool)
    ensures
        res == is_unicode_whitespace(c),
{
    let u = c as u32;
    (0x09 <= u && u <= 0x0d) || u == 0x20 || u == 0x85 || u == 0xa0 || u == 0x1680 || (0x2000
        <= u && u <= 0x200a) || u == 0x2028 || u == 0x2029 || u == 0x202f || u == 0x205f || u
        == 0x3000
}

/// Number of leading whitespace characters, as `str::trim_start` removes them.
pub open spec fn leading_ws_len(s: Seq<char>) -> nat
    decreases s.len(),
{
    if s.len() > 0 && is_unicode_whitespace(s[0]) {
        1 + leading_ws_len(s.drop_first())
    } else {
        0
    }
}

pub proof fn lemma_leading_ws_len_bound(s: Seq<char>)
    ensures
        leading_ws_len(s) <= s.len(),
        forall|i: int| 0 <= i < leading_ws_len(s) ==> is_unicode_whitespace(#[trigger] s[i]),
        leading_ws_len(s) < s.len() ==> !is_unicode_whitespace(s[leading_ws_len(s) as int]),
    decreases s.len(),
{
    if s.len() > 0 && is_unicode_whitespace(s[0]) {
        lemma_leading_ws_len_bound(s.drop_first());
        assert forall|i: int| 0 <= i < leading_ws_len(s) implies is_unicode_whitespace(
            #[trigger] s[i],
        ) by {
            if i > 0 {
                assert(s[i] == s.drop_first()[i - 1]);
            }
        }
    }
}

/// The leading whitespace of a sequence is exactly its whitespace prefix up to
/// the first other character.
pub proof fn lemma_leading_ws_len_unique(s: Seq<char>, k: int)
    requires
        0 <= k <= s.len(),
        forall|i: int| 0 <= i < k ==> is_unicode_whitespace(#[trigger] s[i]),
        k < s.len() ==> !is_unicode_whitespace(s[k]),
    ensures
        leading_ws_len(s) == k,
    decreases k,
{
    if k > 0 {
        assert(is_unicode_whitespace(s[0]));
        assert forall|i: int| 0 <= i < k - 1 implies is_unicode_whitespace(
            #[trigger] s.drop_first()[i],
        ) by {
            assert(s.drop_first()[i] == s[i + 1]);
        }
        if k - 1 < s.drop_first().len() {
            assert(s.drop_first()[k - 1] == s[k]);
        }
        lemma_leading_ws_len_unique(s.drop_first(), k - 1);
    }
}

/// Counts the leading whitespace characters of a character slice.
pub fn count_leading_ws(s: &[char]) -> (n: usize)
    ensures
        n == leading_ws_len(s@),
{
    let len = s.len();
    let mut i: usize = 0;
    while i < len && char_is_whitespace(s[i])
        invariant
            len == s@.len(),
            i <= len,
            forall|j: int| 0 <= j < i ==> is_unicode_whitespace(#[trigger] s@[j]),
        decreases len - i,
    {
        i = i + 1;
    }
    proof {
        lemma_leading_ws_len_unique(s@, i as int);
    }
    i
}

/// Copies the characters of `s` from position `start` on.
pub fn skip_chars(s: &[char], start: usize) -> (out: Vec<char>)
    requires
        start <= s@.len(),
    ensures
        out@ == s@.skip(start as int),
{
    let mut out: Vec<char> = Vec::new();
    let len = s.len();
    let mut i: usize = start;
    while i < len
        invariant
            len == s@.len(),
            start <= i <= len,
            out@ == s@.subrange(start as int, i as int),
        decreases len - i,
    {
        out.push(s[i]);
        i = i + 1;
        assert(out@ =~= s@.subrange(start as int, i as int));
    }
    assert(s@.subrange(start as int, len as int) =~= s@.skip(start as int));
    out
}

/// Copies the first `count` characters of `s`.
pub fn take_chars(s: &[char], count: usize) -> (out: Vec<char>)
    requires
        count <= s@.len(),
    ensures
        out@ == s@.take(count as int),
{
    let mut out: Vec<char> = Vec::new();
    let mut i: usize = 0;
    while i < count
        invariant
            count <= s@.len(),
            i <= count,
            out@ == s@.take(i as int),
        decreases count - i,
    {
        out.push(s[i]);
        i = i + 1;
        assert(out@ =~= s@.take(i as int));
    }
    out
}

/// `i` is the first position at which `needle` occurs in `hay`.
pub open spec fn first_occurrence(hay: Seq<char>, needle: Seq<char>, i: int) -> bool {
    occurs_at(hay, needle, i) && forall|j: int| 0 <= j < i ==> !occurs_at(hay, needle, j)
}

/// Finds `needle` in `hay` ignoring ASCII case; the position is a character index.
pub fn find_case_insensitive(hay: &[char], needle: &str) -> (res: Option<usize>)
    ensures
        match res {
            Some(i) => first_occurrence(upper_seq(hay@), upper_seq(needle@), i as int),
            None => !seq_contains(upper_seq(hay@), upper_seq(needle@)),
        },
{
    let h = to_ascii_upper(hay);
    let n0 = str_to_chars(needle);
    let n = to_ascii_upper(n0.as_slice());
    find_chars(h.as_slice(), n.as_slice())
}

/// The first occurrence of a needle is unique.
pub proof fn lemma_first_occurrence_unique(hay: Seq<char>, needle: Seq<char>, i: int, j: int)
    requires
        first_occurrence(hay, needle, i),
        first_occurrence(hay, needle, j),
    ensures
        i == j,
{
    if i < j {
        assert(!occurs_at(hay, needle, i));
    } else if j < i {
        assert(!occurs_at(hay, needle, j));
    }
}

/// The position of the first occurrence of `needle` in `hay`, when there is one.
pub open spec fn first_index(hay: Seq<char>, needle: Seq<char>) -> int {
    choose|i: int| first_occurrence(hay, needle, i)
}

/// Identifies the chosen first index with a known first occurrence.
pub proof fn lemma_first_index(hay: Seq<char>, needle: Seq<char>, i: int)
    requires
        first_occurrence(hay, needle, i),
    ensures
        first_index(hay, needle) == i,
{
    let k = first_index(hay, needle);
    assert(first_occurrence(hay, needle, k));
    lemma_first_occurrence_unique(hay, needle, i, k);
}

/// A needle that occurs in a haystack has a first occurrence.
pub proof fn lemma_first_occurrence_exists(hay: Seq<char>, needle: Seq<char>, i: int)
    requires
        occurs_at(hay, needle, i),
    ensures
        exists|k: int| first_occurrence(hay, needle, k),
    decreases i,
{
    if exists|j: int| 0 <= j < i && occurs_at(hay, needle, j) {
        let j = choose|j: int| 0 <= j < i && occurs_at(hay, needle, j);
        lemma_first_occurrence_exists(hay, needle, j);
    } else {
        assert(first_occurrence(hay, needle, i));
    }
}

} // verus!
