//! Write-path managed scalar values such as fill-on-save timestamps.

use vstd::prelude::*;

use crate::text::{
    chars_to_string, find_chars, first_index, first_occurrence, lemma_first_index, occurs_at, owned,
    push_char, push_str, seq_contains, skip_chars, str_to_chars, take_chars,
};

verus! {

/// An ASCII decimal digit.
pub open spec fn is_ascii_digit(c: char) -> bool {
    0x30 <= c as u32 <= 0x39
}

/// Every character is an ASCII decimal digit.
pub open spec fn all_digits(s: Seq<char>) -> bool {
    forall|i: int| 0 <= i < s.len() ==> is_ascii_digit(#[trigger] s[i])
}

/// A year as RFC 3339 output prints it: four digits, or a sign and at least
/// four digits for years outside `0..=9999`.
pub open spec fn is_year_text(year: Seq<char>) -> bool {
    ||| year.len() == 4 && all_digits(year)
    ||| year.len() >= 5 && (year[0] == '+' || year[0] == '-') && all_digits(year.skip(1))
}

/// A date and a time up to the seconds, `YYYY-MM-DDTHH:MM:SS`.
pub open spec fn is_timestamp_head(head: Seq<char>) -> bool {
    let n = head.len() as int;
    &&& n >= 19
    &&& is_year_text(head.take(n - 15))
    &&& head[n - 15] == '-' && head[n - 12] == '-' && head[n - 9] == 'T'
    &&& head[n - 6] == ':' && head[n - 3] == ':'
    &&& all_digits(head.subrange(n - 14, n - 12)) && all_digits(head.subrange(n - 11, n - 9))
    &&& all_digits(head.subrange(n - 8, n - 6)) && all_digits(head.subrange(n - 5, n - 3))
    &&& all_digits(head.skip(n - 2))
}

/// A UTC timestamp: date and time, then the fractional digits after a `.`
/// when there are any, then `Z`.
pub open spec fn utc_timestamp(head: Seq<char>, digits: Seq<char>) -> Seq<char> {
    if digits.len() == 0 {
        head + seq!['Z']
    } else {
        head + seq!['.'] + digits + seq!['Z']
    }
}

/// `text` is a UTC time as SurrealDB prints one: RFC 3339 with the `Z`
/// offset, the seconds followed by no fraction or by three, six or nine digits.
pub open spec fn is_utc_timestamp_text(text: Seq<char>) -> bool {
    exists|head: Seq<char>, digits: Seq<char>|
        #![trigger utc_timestamp(head, digits)]
        is_timestamp_head(head) && all_digits(digits) && (digits.len() == 0 || digits.len() == 3
            || digits.len() == 6 || digits.len() == 9) && text == utc_timestamp(head, digits)
}

/// `token` is a UTC timestamp with exactly nine fractional digits.
pub open spec fn is_nine_digit_utc_token(token: Seq<char>) -> bool {
    exists|head: Seq<char>, digits: Seq<char>|
        #![trigger utc_timestamp(head, digits)]
        is_timestamp_head(head) && all_digits(digits) && digits.len() == 9 && token
            == utc_timestamp(head, digits)
}

/// The current UTC time as SurrealDB prints a datetime.
///
/// Trusted wrapper around `surrealdb_types::Datetime::now` and its `Display`
/// output, which is `to_rfc3339_opts(SecondsFormat::AutoSi, true)` of chrono:
/// the date and time, a fraction of three, six or nine digits only when the
/// nanoseconds are not zero, and `Z`. Which time it is depends on the clock,
/// so that shape is all that is claimed. `chrono::Utc::now` panics only when
/// the system clock reads before 1970 or beyond the years chrono represents.
#[verifier::external_body]
fn current_datetime_text() -> (out: String)
    ensures
        is_utc_timestamp_text(out@),
{
    surrealdb_types::Datetime::now().to_string()
}

/// `raw` is a text that reading the clock can give: what
/// [`current_datetime_text`] returned in a call.
pub closed spec fn clock_reading(raw: Seq<char>) -> bool {
    exists|s: String| s@ == raw && call_ensures(current_datetime_text, (), s)
}

/// What the clock reads is a UTC timestamp as SurrealDB prints one.
pub proof fn lemma_clock_reading_is_timestamp(raw: Seq<char>)
    requires
        clock_reading(raw),
    ensures
        is_utc_timestamp_text(raw),
{
    let s = choose|s: String| s@ == raw && call_ensures(current_datetime_text, (), s);
}

/// Opaque appdb-managed scalar used by `#[fill(...)]` fields.
///
/// The field stays pending until the Store write pipeline resolves it into a
/// concrete token such as the current timestamp.
#[derive(Debug, Clone, PartialEq, Eq, PartialOrd, Ord, Hash)]
pub struct AutoFill(Option<String>);

impl View for AutoFill {
    type V = Option<Seq<char>>;

    closed spec fn view(&self) -> Option<Seq<char>> {
        match self.0 {
            Some(s) => Some(s@),
            None => None,
        }
    }
}

impl Default for AutoFill {
    /// A pending value.
    fn default() -> (out: Self)
        ensures
            out@ is None,
    {
        AutoFill(None)
    }
}

impl AutoFill {
    /// Creates a pending value that will be resolved by the Store write path.
    pub fn pending() -> (out: Self)
        ensures
            out@ is None,
    {
        AutoFill(None)
    }

    /// Creates an already-resolved value that bypasses automatic filling.
    pub fn resolved(value: &str) -> (out: Self)
        ensures
            out@ == Some(value@),
    {
        AutoFill(Some(owned(value)))
    }

    /// Returns the resolved token when available.
    pub fn as_str(&self) -> (out: Option<&str>)
        ensures
            match out {
                Some(s) => self@ == Some(s@),
                None => self@ is None,
            },
    {
        match &self.0 {
            Some(s) => Some(s.as_str()),
            None => None,
        }
    }

    /// Returns the raw optional token.
    pub fn into_inner(self) -> (out: Option<String>)
        ensures
            match out {
                Some(s) => self@ == Some(s@),
                None => self@ is None,
            },
    {
        self.0
    }

    /// Returns whether the value still needs to be filled.
    pub fn is_pending(&self) -> (out: bool)
        ensures
            out == (self@ is None),
    {
        self.0.is_none()
    }

    /// Resolves the value only when it is still pending; `fill` is called at
    /// most once, and only then.
    pub fn fill_with_if_pending<F: FnOnce() -> String>(&mut self, fill: F)
        requires
            old(self)@ is None ==> fill.requires(()),
        ensures
            old(self)@ is Some ==> final(self)@ == old(self)@,
            old(self)@ is None ==> exists|v: String|
                fill.ensures((), v) && final(self)@ == Some(v@),
    {
        if self.is_pending() {
            let v = fill();
            let ghost gv = v;
            self.0 = Some(v);
            assert(fill.ensures((), gv) && self@ == Some(gv@));
        }
    }

    /// Resolves the value to the current UTC timestamp when it is still pending.
    ///
    /// The stored token is the clock text normalized by [`normalized_now_token`].
    pub fn fill_now_if_pending(&mut self)
        ensures
            old(self)@ is Some ==> final(self)@ == old(self)@,
            old(self)@ is None ==> exists|raw: Seq<char>|
                clock_reading(raw) && is_utc_timestamp_text(raw) && final(self)@ == Some(
                    normalized_token(raw),
                ),
            old(self)@ is None ==> (final(self)@ matches Some(t) && is_nine_digit_utc_token(t)),
    {
        if self.is_pending() {
            let read_clock = current_datetime_text;
            let raw = read_clock();
            let ghost clock = raw@;
            assert(clock_reading(clock)) by {
                assert(call_ensures(current_datetime_text, (), raw));
            }
            proof {
                lemma_clock_token_normalizes(clock);
            }
            let token = normalized_now_token(raw);
            self.0 = Some(token);
            assert(self@ == Some(normalized_token(clock)));
        }
    }
}

impl AutoFill {
    /// The text this value displays: the resolved token, or nothing while pending.
    pub fn to_string(&self) -> (out: String)
        ensures
            out@ == match self@ {
                Some(t) => t,
                None => Seq::<char>::empty(),
            },
    {
        match &self.0 {
            Some(s) => owned(s.as_str()),
            None => String::new(),
        }
    }
}

impl From<String> for AutoFill {
    fn from(value: String) -> (out: AutoFill) {
        AutoFill(Some(value))
    }
}

impl vstd::std_specs::convert::FromSpecImpl<String> for AutoFill {
    open spec fn obeys_from_spec() -> bool {
        true
    }

    closed spec fn from_spec(v: String) -> AutoFill {
        AutoFill(Some(v))
    }
}

impl From<Option<String>> for AutoFill {
    fn from(value: Option<String>) -> (out: AutoFill) {
        AutoFill(value)
    }
}

impl vstd::std_specs::convert::FromSpecImpl<Option<String>> for AutoFill {
    open spec fn obeys_from_spec() -> bool {
        true
    }

    closed spec fn from_spec(v: Option<String>) -> AutoFill {
        AutoFill(v)
    }
}

impl From<AutoFill> for Option<String> {
    fn from(value: AutoFill) -> (out: Option<String>) {
        value.0
    }
}

impl vstd::std_specs::convert::FromSpecImpl<AutoFill> for Option<String> {
    open spec fn obeys_from_spec() -> bool {
        true
    }

    closed spec fn from_spec(v: AutoFill) -> Option<String> {
        v.0
    }
}

/// UTF-8 byte width of one character.
pub open spec fn char_width(c: char) -> nat {
    let u = c as u32;
    if u < 0x80 {
        1
    } else if u < 0x800 {
        2
    } else if u < 0x10000 {
        3
    } else {
        4
    }
}

/// UTF-8 byte length of a character sequence, as `str::len` counts it.
pub open spec fn byte_len(s: Seq<char>) -> nat
    decreases s.len(),
{
    if s.len() == 0 {
        0
    } else {
        byte_len(s.drop_last()) + char_width(s.last())
    }
}

fn char_byte_width(c: char) -> (w: usize)
    ensures
        w == char_width(c),
{
    let u = c as u32;
    if u < 0x80 {
        1
    } else if u < 0x800 {
        2
    } else if u < 0x10000 {
        3
    } else {
        4
    }
}

/// Nine zero characters padding a fraction of `len` bytes.
pub open spec fn zero_padding(count: nat) -> Seq<char> {
    Seq::new(count, |i: int| '0')
}

/// The fractional digits of the token, fixed to nine bytes: padded with `0`
/// when shorter, cut to the prefix of exactly nine bytes when longer.
pub open spec fn nine_byte_fraction(frac: Seq<char>) -> Seq<char> {
    if byte_len(frac) < 9 {
        frac + zero_padding((9 - byte_len(frac)) as nat)
    } else if byte_len(frac) > 9 {
        frac.take(choose|k: int| 0 <= k <= frac.len() && byte_len(frac.take(k)) == 9)
    } else {
        frac
    }
}

/// Cutting the fraction to nine bytes lands on a character boundary.
pub open spec fn fraction_cuts_cleanly(frac: Seq<char>) -> bool {
    byte_len(frac) > 9 ==> exists|k: int| 0 <= k <= frac.len() && byte_len(frac.take(k)) == 9
}

/// The text between the last `Z` and the first `.` of a timestamp, if both are there.
pub open spec fn token_fraction(raw: Seq<char>) -> Option<Seq<char>> {
    if raw.len() > 0 && raw.last() == 'Z' && seq_contains(raw.drop_last(), seq!['.']) {
        Some(raw.drop_last().skip(first_index(raw.drop_last(), seq!['.']) + 1))
    } else {
        None
    }
}

/// Normalizes a UTC timestamp token to a fixed nine-digit fractional second.
///
/// Text that does not end in `Z` is kept as it is; a token without a
/// fraction gets `.000000000`; a fraction is padded or cut to nine bytes.
pub open spec fn normalized_token(raw: Seq<char>) -> Seq<char> {
    if raw.len() == 0 || raw.last() != 'Z' {
        raw
    } else {
        let prefix = raw.drop_last();
        if !seq_contains(prefix, seq!['.']) {
            prefix + ".000000000Z"@
        } else {
            let dot = first_index(prefix, seq!['.']);
            prefix.take(dot) + seq!['.'] + nine_byte_fraction(prefix.skip(dot + 1)) + seq!['Z']
        }
    }
}

/// Whether normalizing `raw` cuts its fraction on a character boundary.
pub open spec fn now_token_well_cut(raw: Seq<char>) -> bool {
    token_fraction(raw) matches Some(frac) ==> fraction_cuts_cleanly(frac)
}

proof fn lemma_byte_len_push(s: Seq<char>, c: char)
    ensures
        byte_len(s.push(c)) == byte_len(s) + char_width(c),
{
    assert(s.push(c).drop_last() =~= s);
}

proof fn lemma_byte_len_zero_padding(s: Seq<char>, n: nat)
    ensures
        byte_len(s + zero_padding(n)) == byte_len(s) + n,
    decreases n,
{
    if n > 0 {
        lemma_byte_len_zero_padding(s, (n - 1) as nat);
        assert(s + zero_padding(n) =~= (s + zero_padding((n - 1) as nat)).push('0'));
        lemma_byte_len_push(s + zero_padding((n - 1) as nat), '0');
    } else {
        assert(s + zero_padding(0) =~= s);
    }
}

/// A normalized fraction is exactly nine bytes long whenever it can be cut on
/// a character boundary: shorter fractions are padded with `0`, longer ones cut.
pub proof fn lemma_nine_byte_fraction_len(frac: Seq<char>)
    requires
        fraction_cuts_cleanly(frac),
    ensures
        byte_len(nine_byte_fraction(frac)) == 9,
{
    if byte_len(frac) < 9 {
        lemma_byte_len_zero_padding(frac, (9 - byte_len(frac)) as nat);
    }
}

proof fn lemma_digits_byte_len(s: Seq<char>)
    requires
        all_digits(s),
    ensures
        byte_len(s) == s.len(),
    decreases s.len(),
{
    if s.len() > 0 {
        assert(all_digits(s.drop_last()));
        lemma_digits_byte_len(s.drop_last());
        assert(is_ascii_digit(s[s.len() - 1]));
    }
}

proof fn lemma_head_has_no_dot(head: Seq<char>)
    requires
        is_timestamp_head(head),
    ensures
        forall|i: int| 0 <= i < head.len() ==> head[i] != '.',
{
    let n = head.len() as int;
    let year = head.take(n - 15);
    assert forall|i: int| 0 <= i < head.len() implies head[i] != '.' by {
        if i < n - 15 {
            assert(year[i] == head[i]);
            if year.len() == 4 {
                assert(is_ascii_digit(year[i]));
            } else if i > 0 {
                assert(year.skip(1)[i - 1] == head[i]);
                assert(is_ascii_digit(year.skip(1)[i - 1]));
            }
        } else if n - 14 <= i < n - 12 {
            assert(head.subrange(n - 14, n - 12)[i - (n - 14)] == head[i]);
            assert(is_ascii_digit(head.subrange(n - 14, n - 12)[i - (n - 14)]));
        } else if n - 11 <= i < n - 9 {
            assert(head.subrange(n - 11, n - 9)[i - (n - 11)] == head[i]);
            assert(is_ascii_digit(head.subrange(n - 11, n - 9)[i - (n - 11)]));
        } else if n - 8 <= i < n - 6 {
            assert(head.subrange(n - 8, n - 6)[i - (n - 8)] == head[i]);
            assert(is_ascii_digit(head.subrange(n - 8, n - 6)[i - (n - 8)]));
        } else if n - 5 <= i < n - 3 {
            assert(head.subrange(n - 5, n - 3)[i - (n - 5)] == head[i]);
            assert(is_ascii_digit(head.subrange(n - 5, n - 3)[i - (n - 5)]));
        } else if n - 2 <= i {
            assert(head.skip(n - 2)[i - (n - 2)] == head[i]);
            assert(is_ascii_digit(head.skip(n - 2)[i - (n - 2)]));
        }
    }
}

proof fn lemma_no_dot_not_contained(s: Seq<char>)
    requires
        forall|i: int| 0 <= i < s.len() ==> s[i] != '.',
    ensures
        !seq_contains(s, seq!['.']),
{
    if seq_contains(s, seq!['.']) {
        let i = choose|i: int| occurs_at(s, seq!['.'], i);
        assert(s.subrange(i, i + 1)[0] == s[i]);
    }
}

/// Normalizing a clock timestamp gives a token with exactly nine fractional
/// digits: no fraction becomes nine zeros, three or six digits are padded
/// with zeros, nine digits stay.
pub proof fn lemma_clock_token_normalizes(raw: Seq<char>)
    requires
        is_utc_timestamp_text(raw),
    ensures
        now_token_well_cut(raw),
        is_nine_digit_utc_token(normalized_token(raw)),
{
    let (head, digits) = choose|head: Seq<char>, digits: Seq<char>|
        is_timestamp_head(head) && all_digits(digits) && (digits.len() == 0 || digits.len() == 3
            || digits.len() == 6 || digits.len() == 9) && raw == utc_timestamp(head, digits);
    lemma_head_has_no_dot(head);
    assert(raw.last() == 'Z');
    if digits.len() == 0 {
        assert(raw.drop_last() =~= head);
        lemma_no_dot_not_contained(head);
        let zeros = zero_padding(9);
        reveal_strlit(".000000000Z");
        assert(normalized_token(raw) =~= utc_timestamp(head, zeros));
        assert(all_digits(zeros));
    } else {
        let prefix = raw.drop_last();
        let h = head.len() as int;
        assert(prefix =~= head + seq!['.'] + digits);
        assert(prefix.subrange(h, h + 1) =~= seq!['.']);
        assert forall|j: int| 0 <= j < h implies !occurs_at(prefix, seq!['.'], j) by {
            assert(prefix.subrange(j, j + 1)[0] == head[j]);
        }
        assert(first_occurrence(prefix, seq!['.'], h));
        lemma_first_index(prefix, seq!['.'], h);
        assert(prefix.take(h) =~= head);
        assert(prefix.skip(h + 1) =~= digits);
        lemma_digits_byte_len(digits);
        let fixed = nine_byte_fraction(digits);
        if digits.len() < 9 {
            assert(fixed =~= digits + zero_padding((9 - digits.len()) as nat));
            assert(all_digits(fixed));
        }
        assert(fixed.len() == 9);
        assert(normalized_token(raw) =~= utc_timestamp(head, fixed));
    }
}

/// Scans a fraction until its byte length passes nine; returns the number
/// of characters scanned, their byte length, and the cut of exactly nine bytes
/// if one was met.
fn scan_fraction(frac: &Vec<char>) -> (res: (usize, usize, Option<usize>))
    ensures
        res.0 <= frac@.len(),
        res.1 == byte_len(frac@.take(res.0 as int)),
        res.0 == frac@.len() || res.1 > 9,
        res.0 < frac@.len() ==> byte_len(frac@) > 9,
        res.2 matches Some(k) ==> 0 <= k <= frac@.len() && byte_len(frac@.take(k as int)) == 9,
        res.2 is None ==> forall|j: int| 0 <= j <= frac@.len() ==> byte_len(frac@.take(j)) != 9,
{
    let n = frac.len();
    let mut total: usize = 0;
    let mut i: usize = 0;
    let mut cut: Option<usize> = None;
    while i < n && total <= 9
        invariant
            n == frac@.len(),
            i <= n,
            total == byte_len(frac@.take(i as int)),
            total <= 13,
            cut matches Some(k) ==> k <= i && byte_len(frac@.take(k as int)) == 9,
            cut is None ==> forall|j: int| 0 <= j <= i ==> byte_len(frac@.take(j)) != 9,
        decreases n - i,
    {
        proof {
            assert(frac@.take(i + 1) =~= frac@.take(i as int).push(frac@[i as int]));
            lemma_byte_len_push(frac@.take(i as int), frac@[i as int]);
        }
        total = total + char_byte_width(frac[i]);
        i = i + 1;
        if total == 9 {
            cut = Some(i);
        }
    }
    assert(frac@.take(n as int) =~= frac@);
    proof {
        if i < n {
            lemma_byte_len_monotone(frac@, i as int, n as int);
        }
        if cut is None {
            assert forall|j: int| 0 <= j <= frac@.len() implies byte_len(frac@.take(j)) != 9 by {
                if j > i {
                    lemma_byte_len_monotone(frac@, i as int, j);
                }
            }
        }
    }
    (i, total, cut)
}

/// Pads or cuts a fraction to nine bytes.
fn fix_fraction(frac: &Vec<char>) -> (out: Vec<char>)
    requires
        fraction_cuts_cleanly(frac@),
    ensures
        out@ == nine_byte_fraction(frac@),
{
    let (i, total, cut) = scan_fraction(frac);
    if i == frac.len() && total < 9 {
        assert(frac@.take(i as int) =~= frac@);
        let mut out = frac.clone();
        let pad = 9 - total;
        let mut j: usize = 0;
        while j < pad
            invariant
                j <= pad,
                out@ == frac@ + zero_padding(j as nat),
            decreases pad - j,
        {
            out.push('0');
            j = j + 1;
            assert(out@ =~= frac@ + zero_padding(j as nat));
        }
        out
    } else if i == frac.len() && total == 9 {
        assert(frac@.take(i as int) =~= frac@);
        frac.clone()
    } else {
        assert(byte_len(frac@) > 9) by {
            if i == frac.len() {
                assert(frac@.take(i as int) =~= frac@);
            }
        }
        match cut {
            Some(k) => {
                let out = take_chars(frac.as_slice(), k);
                let ghost chosen = choose|c: int|
                    0 <= c <= frac@.len() && byte_len(frac@.take(c)) == 9;
                proof {
                    lemma_byte_len_prefix_unique(frac@, k as int, chosen);
                }
                out
            },
            None => {
                proof {
                    let w = choose|c: int| 0 <= c <= frac@.len() && byte_len(frac@.take(c)) == 9;
                    assert(byte_len(frac@.take(w)) != 9);
                }
                take_chars(frac.as_slice(), 0)
            },
        }
    }
}

proof fn lemma_byte_len_monotone(s: Seq<char>, a: int, b: int)
    requires
        0 <= a < b <= s.len(),
    ensures
        byte_len(s.take(a)) < byte_len(s.take(b)),
    decreases b - a,
{
    assert(s.take(b) =~= s.take(b - 1).push(s[b - 1]));
    lemma_byte_len_push(s.take(b - 1), s[b - 1]);
    if a < b - 1 {
        lemma_byte_len_monotone(s, a, b - 1);
    }
}

proof fn lemma_byte_len_prefix_unique(s: Seq<char>, a: int, b: int)
    requires
        0 <= a <= s.len(),
        0 <= b <= s.len(),
        byte_len(s.take(a)) == byte_len(s.take(b)),
    ensures
        s.take(a) == s.take(b),
{
    if a < b {
        lemma_byte_len_monotone(s, a, b);
    } else if b < a {
        lemma_byte_len_monotone(s, b, a);
    }
}

/// Normalizes a UTC timestamp token to a fixed nine-digit fractional second,
/// for example `2026-04-23T08:00:00.123Z` to `2026-04-23T08:00:00.123000000Z`.
pub fn normalized_now_token(raw: String) -> (out: String)
    requires
        now_token_well_cut(raw@),
    ensures
        out@ == normalized_token(raw@),
{
    let chars = str_to_chars(raw.as_str());
    let n = chars.len();
    if n == 0 || chars[n - 1] != 'Z' {
        return raw;
    }
    let prefix = take_chars(chars.as_slice(), n - 1);
    assert(prefix@ =~= raw@.drop_last());
    let dot_needle = vec!['.'];
    assert(dot_needle@ =~= seq!['.']);
    match find_chars(prefix.as_slice(), dot_needle.as_slice()) {
        None => {
            let mut out = chars_to_string(prefix.as_slice());
            push_str(&mut out, ".000000000Z");
            out
        },
        Some(dot) => {
            proof {
                lemma_first_index(prefix@, seq!['.'], dot as int);
            }
            let head = take_chars(prefix.as_slice(), dot);
            let frac = skip_chars(prefix.as_slice(), dot + 1);
            let digits = fix_fraction(&frac);
            let mut out = chars_to_string(head.as_slice());
            push_char(&mut out, '.');
            let tail = chars_to_string(digits.as_slice());
            push_str(&mut out, tail.as_str());
            push_char(&mut out, 'Z');
            assert(out@ =~= normalized_token(raw@));
            out
        },
    }
}

} // verus!
