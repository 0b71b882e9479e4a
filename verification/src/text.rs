//! Character-level text handling: whitespace trimming, splitting at a
//! separator, ASCII/Unicode lowercasing, and decimal/hexadecimal rendering
//! and parsing. Strings are modelled by their views, `Seq<char>`.
use vstd::prelude::*;

verus! {

// ---------------------------------------------------------------------------
// Specifications
// ---------------------------------------------------------------------------

/// The Unicode `White_Space` property, which `char::is_whitespace` and
/// `str::trim` use.
pub open spec fn is_white_space(c: char) -> bool {
    let u = c as u32;
    ||| (0x09 <= u && u <= 0x0d)
    ||| u == 0x20
    ||| u == 0x85
    ||| u == 0xa0
    ||| u == 0x1680
    ||| (0x2000 <= u && u <= 0x200a)
    ||| u == 0x2028
    ||| u == 0x2029
    ||| u == 0x202f
    ||| u == 0x205f
    ||| u == 0x3000
}

/// Number of leading white-space characters of `s`.
pub open spec fn lead_ws(s: Seq<char>) -> nat
    decreases s.len(),
{
    if s.len() > 0 && is_white_space(s[0]) {
        1 + lead_ws(s.drop_first())
    } else {
        0
    }
}

/// Number of trailing white-space characters of `s`.
pub open spec fn trail_ws(s: Seq<char>) -> nat
    decreases s.len(),
{
    if s.len() > 0 && is_white_space(s.last()) {
        1 + trail_ws(s.drop_last())
    } else {
        0
    }
}

/// `s` without its leading and trailing white space (`str::trim`).
pub open spec fn trim(s: Seq<char>) -> Seq<char> {
    let t = s.skip(lead_ws(s) as int);
    t.take(t.len() - trail_ws(t))
}

/// Index of the first `c` in `s`, or `s.len()` when there is none.
pub open spec fn first_index(s: Seq<char>, c: char) -> nat
    decreases s.len(),
{
    if s.len() == 0 {
        0
    } else if s[0] == c {
        0
    } else {
        1 + first_index(s.drop_first(), c)
    }
}

/// Index of the last `c` in `s`, or `-1` when there is none.
pub open spec fn last_index(s: Seq<char>, c: char) -> int
    decreases s.len(),
{
    if s.len() == 0 {
        -1
    } else if s.last() == c {
        s.len() - 1
    } else {
        last_index(s.drop_last(), c)
    }
}

/// The part of `s` before its first `c` (all of `s` when there is none);
/// this is what `s.split(c).next()` yields.
pub open spec fn before_first(s: Seq<char>, c: char) -> Seq<char> {
    s.take(first_index(s, c) as int)
}

/// The part of `s` after its last `c` (all of `s` when there is none);
/// this is what `s.rsplit(c).next()` yields.
pub open spec fn after_last(s: Seq<char>, c: char) -> Seq<char> {
    s.skip(last_index(s, c) + 1)
}

/// `s.split_once(c)`: the parts before and after the first `c`.
pub open spec fn split_once(s: Seq<char>, c: char) -> Option<(Seq<char>, Seq<char>)> {
    let i = first_index(s, c);
    if i < s.len() {
        Some((s.take(i as int), s.skip(i as int + 1)))
    } else {
        None
    }
}

/// `s.strip_prefix(p)`.
pub open spec fn strip_prefix(s: Seq<char>, p: Seq<char>) -> Option<Seq<char>> {
    if p.len() <= s.len() && s.take(p.len() as int) == p {
        Some(s.skip(p.len() as int))
    } else {
        None
    }
}

pub open spec fn is_ascii_char(c: char) -> bool {
    (c as u32) < 128
}

pub open spec fn all_ascii(s: Seq<char>) -> bool {
    forall|i: int| 0 <= i < s.len() ==> is_ascii_char(#[trigger] s[i])
}

pub open spec fn ascii_lower(c: char) -> char {
    if 'A' <= c && c <= 'Z' {
        ((c as u32) + 32) as char
    } else {
        c
    }
}

/// What `str::to_lowercase` returns for `s`.
pub uninterp spec fn unicode_lowercase(s: Seq<char>) -> Seq<char>;

/// Lowercase form of `s`: ASCII text maps `A`..`Z` to `a`..`z` and keeps
/// every other character; other text is lowercased by the standard library.
pub open spec fn lowercase(s: Seq<char>) -> Seq<char> {
    if all_ascii(s) {
        s.map_values(|c: char| ascii_lower(c))
    } else {
        unicode_lowercase(s)
    }
}

pub open spec fn is_digit(c: char) -> bool {
    '0' <= c && c <= '9'
}

pub open spec fn digit_value(c: char) -> nat {
    ((c as u32) - ('0' as u32)) as nat
}

pub open spec fn all_digits(s: Seq<char>) -> bool {
    forall|i: int| 0 <= i < s.len() ==> is_digit(#[trigger] s[i])
}

/// Value of a string of decimal digits.
pub open spec fn digits_value(s: Seq<char>) -> nat
    decreases s.len(),
{
    if s.len() == 0 {
        0
    } else {
        digits_value(s.drop_last()) * 10 + digit_value(s.last())
    }
}

/// What `str::parse` of an unsigned integer with maximum `max` gives: an
/// optional `+` followed by one or more decimal digits whose value is at
/// most `max`.
pub open spec fn parse_unsigned(s: Seq<char>, max: nat) -> Option<nat> {
    let d = if s.len() > 0 && s[0] == '+' {
        s.drop_first()
    } else {
        s
    };
    if d.len() > 0 && all_digits(d) && digits_value(d) <= max {
        Some(digits_value(d))
    } else {
        None
    }
}

pub open spec fn parse_u64(s: Seq<char>) -> Option<u64> {
    match parse_unsigned(s, u64::MAX as nat) {
        Some(v) => Some(v as u64),
        None => None,
    }
}

pub open spec fn parse_usize(s: Seq<char>) -> Option<usize> {
    match parse_unsigned(s, usize::MAX as nat) {
        Some(v) => Some(v as usize),
        None => None,
    }
}

pub open spec fn digit_char(d: nat) -> char {
    (('0' as u32) + d) as char
}

/// Decimal rendering of `n` without leading zeros.
pub open spec fn decimal_text(n: nat) -> Seq<char>
    decreases n,
{
    if n < 10 {
        seq![digit_char(n)]
    } else {
        decimal_text(n / 10).push(digit_char(n % 10))
    }
}

pub open spec fn hex_char(d: nat) -> char {
    if d < 10 {
        (('0' as u32) + d) as char
    } else {
        (('a' as u32) + (d - 10)) as char
    }
}

/// Lowercase hexadecimal rendering of `n` without leading zeros.
pub open spec fn hex_text(n: nat) -> Seq<char>
    decreases n,
{
    if n < 16 {
        seq![hex_char(n)]
    } else {
        hex_text(n / 16).push(hex_char(n % 16))
    }
}

/// `s` padded on the left with `'0'` up to `width` characters.
pub open spec fn zero_pad(s: Seq<char>, width: nat) -> Seq<char> {
    if s.len() < width {
        Seq::new((width - s.len()) as nat, |i: int| '0') + s
    } else {
        s
    }
}

/// `s` comes before `t` in the lexicographic order of their characters:
/// at the first position where they differ `s` has the smaller character,
/// or `s` is a proper prefix of `t`.
pub open spec fn lex_less(s: Seq<char>, t: Seq<char>) -> bool {
    exists|i: int|
        #![trigger s.take(i), t.take(i)]
        0 <= i <= s.len() && i <= t.len() && s.take(i) == t.take(i) && ((i == s.len() && i
            < t.len()) || (i < s.len() && i < t.len() && (s[i] as u32) < (t[i] as u32)))
}

/// `16` to the power `k`.
pub open spec fn pow16(k: nat) -> nat
    decreases k,
{
    if k == 0 {
        1
    } else {
        16 * pow16((k - 1) as nat)
    }
}

/// The last `k` lowercase hexadecimal digits of `n`, leading zeros kept.
pub open spec fn hex_fixed(n: nat, k: nat) -> Seq<char>
    decreases k,
{
    if k == 0 {
        Seq::empty()
    } else {
        hex_fixed(n / 16, (k - 1) as nat).push(hex_char(n % 16))
    }
}

// ---------------------------------------------------------------------------
// Lemmas
// ---------------------------------------------------------------------------

pub proof fn lemma_lead_ws(s: Seq<char>)
    ensures
        lead_ws(s) <= s.len(),
        forall|j: int| 0 <= j < lead_ws(s) ==> is_white_space(#[trigger] s[j]),
        lead_ws(s) < s.len() ==> !is_white_space(s[lead_ws(s) as int]),
    decreases s.len(),
{
    if s.len() > 0 && is_white_space(s[0]) {
        lemma_lead_ws(s.drop_first());
        assert forall|j: int| 0 <= j < lead_ws(s) implies is_white_space(#[trigger] s[j]) by {
            if j > 0 {
                assert(s[j] == s.drop_first()[j - 1]);
            }
        }
    }
}

pub proof fn lemma_trail_ws(s: Seq<char>)
    ensures
        trail_ws(s) <= s.len(),
        forall|j: int| s.len() - trail_ws(s) <= j < s.len() ==> is_white_space(#[trigger] s[j]),
        trail_ws(s) < s.len() ==> !is_white_space(s[s.len() - 1 - trail_ws(s)]),
    decreases s.len(),
{
    if s.len() > 0 && is_white_space(s.last()) {
        lemma_trail_ws(s.drop_last());
        assert forall|j: int| s.len() - trail_ws(s) <= j < s.len() implies is_white_space(
            #[trigger] s[j],
        ) by {
            if j < s.len() - 1 {
                assert(s[j] == s.drop_last()[j]);
            }
        }
        if trail_ws(s) < s.len() {
            assert(s[s.len() - 1 - trail_ws(s)] == s.drop_last()[s.drop_last().len() - 1
                - trail_ws(s.drop_last())]);
        }
    }
}

pub proof fn lemma_first_index(s: Seq<char>, c: char)
    ensures
        first_index(s, c) <= s.len(),
        first_index(s, c) < s.len() ==> s[first_index(s, c) as int] == c,
        forall|j: int| 0 <= j < first_index(s, c) ==> #[trigger] s[j] != c,
    decreases s.len(),
{
    if s.len() > 0 && s[0] != c {
        lemma_first_index(s.drop_first(), c);
        assert forall|j: int| 0 <= j < first_index(s, c) implies #[trigger] s[j] != c by {
            if j > 0 {
                assert(s[j] == s.drop_first()[j - 1]);
            }
        }
    }
}

pub proof fn lemma_last_index(s: Seq<char>, c: char)
    ensures
        -1 <= last_index(s, c) < s.len(),
        last_index(s, c) >= 0 ==> s[last_index(s, c)] == c,
        forall|j: int| last_index(s, c) < j < s.len() ==> #[trigger] s[j] != c,
    decreases s.len(),
{
    if s.len() > 0 && s.last() != c {
        lemma_last_index(s.drop_last(), c);
        assert forall|j: int| last_index(s, c) < j < s.len() implies #[trigger] s[j] != c by {
            if j < s.len() - 1 {
                assert(s[j] == s.drop_last()[j]);
            }
        }
    }
}

/// A scan that stops at the first `c` (or the end) finds `first_index`.
pub proof fn lemma_first_index_unique(s: Seq<char>, c: char, i: int)
    requires
        0 <= i <= s.len(),
        forall|j: int| 0 <= j < i ==> #[trigger] s[j] != c,
        i == s.len() || s[i] == c,
    ensures
        first_index(s, c) == i,
{
    lemma_first_index(s, c);
    let f = first_index(s, c) as int;
    if f < i {
        assert(s[f] != c);
    }
    if f > i {
        assert(s[i] != c);
    }
}

pub proof fn lemma_last_index_unique(s: Seq<char>, c: char, i: int)
    requires
        -1 <= i < s.len(),
        forall|j: int| i < j < s.len() ==> #[trigger] s[j] != c,
        i == -1 || s[i] == c,
    ensures
        last_index(s, c) == i,
{
    lemma_last_index(s, c);
    let l = last_index(s, c);
    if l > i {
        assert(s[l] != c);
    }
    if l < i {
        assert(s[i] != c);
    }
}

pub proof fn lemma_lead_ws_unique(s: Seq<char>, i: int)
    requires
        0 <= i <= s.len(),
        forall|j: int| 0 <= j < i ==> is_white_space(#[trigger] s[j]),
        i == s.len() || !is_white_space(s[i]),
    ensures
        lead_ws(s) == i,
{
    lemma_lead_ws(s);
    let f = lead_ws(s) as int;
    if f < i {
        assert(is_white_space(s[f]));
    }
    if f > i {
        assert(is_white_space(s[i]));
    }
}

pub proof fn lemma_trail_ws_unique(s: Seq<char>, k: int)
    requires
        0 <= k <= s.len(),
        forall|j: int| s.len() - k <= j < s.len() ==> is_white_space(#[trigger] s[j]),
        k == s.len() || !is_white_space(s[s.len() - 1 - k]),
    ensures
        trail_ws(s) == k,
{
    lemma_trail_ws(s);
    let t = trail_ws(s) as int;
    if t < k {
        assert(is_white_space(s[s.len() - 1 - t]));
    }
    if t > k {
        assert(is_white_space(s[s.len() - 1 - k]));
    }
}

pub proof fn lemma_digits_value_step(s: Seq<char>, k: int)
    requires
        0 <= k < s.len(),
    ensures
        digits_value(s.take(k + 1)) == digits_value(s.take(k)) * 10 + digit_value(s[k]),
{
    assert(s.take(k + 1).drop_last() =~= s.take(k));
}

/// A longer run of digits never has a smaller value.
pub proof fn lemma_digits_value_prefix(s: Seq<char>, k: int)
    requires
        0 <= k <= s.len(),
    ensures
        digits_value(s.take(k)) <= digits_value(s),
    decreases s.len() - k,
{
    if k < s.len() {
        lemma_digits_value_step(s, k);
        lemma_digits_value_prefix(s, k + 1);
    } else {
        assert(s.take(k) =~= s);
    }
}

// ---------------------------------------------------------------------------
// Executable functions
// ---------------------------------------------------------------------------

/// The characters of `s`, in order.
pub fn chars_of(s: &str) -> (v: Vec<char>)
    ensures
        v@ == s@,
{
    let mut v: Vec<char> = Vec::new();
    for c in iter: s.chars()
        invariant
            iter.seq() == s@,
            v@ == iter.seq().take(iter.index() as int),
    {
        v.push(c);
    }
    v
}

/// `String::push`: appends one character.
#[verifier::external_body]
fn string_push(s: &mut String, c: char)
    ensures
        final(s)@ == old(s)@.push(c),
{
    s.push(c)
}

/// A `String` holding the characters `cs`.
pub fn string_from_chars(cs: &[char]) -> (s: String)
    ensures
        s@ == cs@,
{
    let mut s = String::new();
    let mut i: usize = 0;
    while i < cs.len()
        invariant
            0 <= i <= cs@.len(),
            s@ == cs@.take(i as int),
        decreases cs@.len() - i,
    {
        string_push(&mut s, cs[i]);
        i = i + 1;
        assert(s@ =~= cs@.take(i as int));
    }
    assert(cs@.take(cs@.len() as int) =~= cs@);
    s
}

/// `str::to_lowercase`; its result is named `unicode_lowercase`.
#[verifier::external_body]
fn std_to_lowercase(s: &str) -> (r: String)
    ensures
        r@ == unicode_lowercase(s@),
{
    s.to_lowercase()
}

/// The characters of `s[from..to]`.
pub fn sub_chars(s: &[char], from: usize, to: usize) -> (v: Vec<char>)
    requires
        from <= to <= s@.len(),
    ensures
        v@ == s@.subrange(from as int, to as int),
{
    let mut v: Vec<char> = Vec::new();
    let mut i = from;
    while i < to
        invariant
            from <= i <= to <= s@.len(),
            v@ == s@.subrange(from as int, i as int),
        decreases to - i,
    {
        v.push(s[i]);
        i = i + 1;
    }
    v
}

/// Whether two character sequences are equal.
pub fn chars_eq(a: &[char], b: &[char]) -> (r: bool)
    ensures
        r == (a@ == b@),
{
    if a.len() != b.len() {
        return false;
    }
    let mut i: usize = 0;
    while i < a.len()
        invariant
            a@.len() == b@.len(),
            0 <= i <= a@.len(),
            forall|j: int| 0 <= j < i ==> a@[j] == b@[j],
        decreases a@.len() - i,
    {
        if a[i] != b[i] {
            return false;
        }
        i = i + 1;
    }
    assert(a@ =~= b@);
    true
}

/// Whether the characters `a` spell the string `b`.
pub fn chars_eq_str(a: &[char], b: &str) -> (r: bool)
    ensures
        r == (a@ == b@),
{
    let bv = chars_of(b);
    chars_eq(a, bv.as_slice())
}

/// Whether two strings are equal.
pub fn str_eq(a: &str, b: &str) -> (r: bool)
    ensures
        r == (a@ == b@),
{
    let av = chars_of(a);
    chars_eq_str(av.as_slice(), b)
}

/// `char::is_whitespace`.
pub fn is_whitespace_char(c: char) -> (r: bool)
    ensures
        r == is_white_space(c),
{
    let u = c as u32;
    (0x09 <= u && u <= 0x0d) || u == 0x20 || u == 0x85 || u == 0xa0 || u == 0x1680 || (0x2000
        <= u && u <= 0x200a) || u == 0x2028 || u == 0x2029 || u == 0x202f || u == 0x205f || u
        == 0x3000
}

/// Index of the first `c` in `s`, or `s.len()`.
pub fn find_first(s: &[char], c: char) -> (i: usize)
    ensures
        i == first_index(s@, c),
        i <= s@.len(),
{
    let mut i: usize = 0;
    while i < s.len()
        invariant
            0 <= i <= s@.len(),
            forall|j: int| 0 <= j < i ==> #[trigger] s@[j] != c,
        decreases s@.len() - i,
    {
        if s[i] == c {
            proof {
                lemma_first_index_unique(s@, c, i as int);
            }
            return i;
        }
        i = i + 1;
    }
    proof {
        lemma_first_index_unique(s@, c, i as int);
    }
    i
}

/// Index just after the last `c` in `s`, or `0` when there is none.
pub fn find_after_last(s: &[char], c: char) -> (i: usize)
    ensures
        i == last_index(s@, c) + 1,
        i <= s@.len(),
{
    let mut k: usize = s.len();
    while k > 0
        invariant
            0 <= k <= s@.len(),
            forall|j: int| k <= j < s@.len() ==> #[trigger] s@[j] != c,
        decreases k,
    {
        if s[k - 1] == c {
            proof {
                lemma_last_index_unique(s@, c, k - 1);
            }
            return k;
        }
        k = k - 1;
    }
    proof {
        lemma_last_index_unique(s@, c, -1);
    }
    0
}

/// `str::trim` on characters.
pub fn trim_chars(s: &[char]) -> (v: Vec<char>)
    ensures
        v@ == trim(s@),
{
    let mut a: usize = 0;
    while a < s.len() && is_whitespace_char(s[a])
        invariant
            0 <= a <= s@.len(),
            forall|j: int| 0 <= j < a ==> is_white_space(#[trigger] s@[j]),
        decreases s@.len() - a,
    {
        a = a + 1;
    }
    proof {
        lemma_lead_ws_unique(s@, a as int);
    }
    let ghost t = s@.skip(a as int);
    let mut b: usize = s.len();
    while b > a && is_whitespace_char(s[b - 1])
        invariant
            a <= b <= s@.len(),
            t == s@.skip(a as int),
            forall|j: int| b <= j < s@.len() ==> is_white_space(#[trigger] s@[j]),
        decreases b - a,
    {
        b = b - 1;
    }
    proof {
        let k = (s@.len() - b) as int;
        assert forall|j: int| t.len() - k <= j < t.len() implies is_white_space(#[trigger] t[j]) by {
            assert(t[j] == s@[j + a]);
        }
        if k < t.len() {
            assert(t[t.len() - 1 - k] == s@[b - 1]);
        }
        lemma_trail_ws_unique(t, k);
        assert(s@.subrange(a as int, b as int) =~= t.take(t.len() - trail_ws(t)));
    }
    sub_chars(s, a, b)
}

/// Lowercase form of `s`.
pub fn lowercase_chars(s: &[char]) -> (v: Vec<char>)
    ensures
        v@ == lowercase(s@),
{
    let mut i: usize = 0;
    let mut ascii = true;
    while i < s.len()
        invariant
            0 <= i <= s@.len(),
            ascii == (forall|j: int| 0 <= j < i ==> is_ascii_char(#[trigger] s@[j])),
        decreases s@.len() - i,
    {
        if (s[i] as u32) >= 128 {
            ascii = false;
        }
        i = i + 1;
    }
    if ascii {
        let mut v: Vec<char> = Vec::new();
        let mut k: usize = 0;
        while k < s.len()
            invariant
                0 <= k <= s@.len(),
                v@ == s@.take(k as int).map_values(|c: char| ascii_lower(c)),
            decreases s@.len() - k,
        {
            let c = s[k];
            let l = if 'A' <= c && c <= 'Z' {
                char_from_ascii_code(c as u32 + 32)
            } else {
                c
            };
            v.push(l);
            assert(s@.take(k + 1).map_values(|c: char| ascii_lower(c)) =~= s@.take(
                k as int,
            ).map_values(|c: char| ascii_lower(c)).push(ascii_lower(c)));
            k = k + 1;
        }
        assert(s@.take(s@.len() as int) =~= s@);
        v
    } else {
        let st = string_from_chars(s);
        let low = std_to_lowercase(st.as_str());
        chars_of(low.as_str())
    }
}

/// The character with ASCII code `u`.
fn char_from_ascii_code(u: u32) -> (c: char)
    requires
        u < 128,
    ensures
        c == u as char,
{
    let b = u as u8;
    b as char
}

/// Parses an unsigned decimal number no greater than `max`, as `str::parse`
/// does for an unsigned integer type whose largest value is `max`.
pub fn parse_decimal(s: &[char], max: u64) -> (r: Option<u64>)
    ensures
        match r {
            Some(v) => parse_unsigned(s@, max as nat) == Some(v as nat),
            None => parse_unsigned(s@, max as nat) is None,
        },
{
    let start: usize = if s.len() > 0 && s[0] == '+' {
        1
    } else {
        0
    };
    let ghost d = s@.skip(start as int);
    assert(d =~= (if s@.len() > 0 && s@[0] == '+' {
        s@.drop_first()
    } else {
        s@
    }));
    if start == s.len() {
        return None;
    }
    let mut acc: u64 = 0;
    let mut i: usize = start;
    while i < s.len()
        invariant
            start <= i <= s@.len(),
            d == s@.skip(start as int),
            d == (if s@.len() > 0 && s@[0] == '+' {
                s@.drop_first()
            } else {
                s@
            }),
            d.len() > 0,
            acc as nat == digits_value(d.take(i - start)),
            acc <= max,
            all_digits(d.take(i - start)),
        decreases s@.len() - i,
    {
        let c = s[i];
        if !('0' <= c && c <= '9') {
            assert(d[i - start] == c);
            assert(!all_digits(d));
            return None;
        }
        let dv = (c as u32 - '0' as u32) as u64;
        proof {
            assert(d[i - start] == c);
            lemma_digits_value_step(d, i - start);
            assert(d.take(i - start + 1).drop_last() =~= d.take(i - start));
        }
        if dv > max || acc > (max - dv) / 10 {
            proof {
                if dv <= max {
                    assert(acc * 10 + dv > max) by (nonlinear_arith)
                        requires
                            acc > (max - dv) / 10,
                            dv <= max,
                    ;
                }
                lemma_digits_value_prefix(d, i - start + 1);
            }
            return None;
        }
        proof {
            assert(acc * 10 + dv <= max) by (nonlinear_arith)
                requires
                    acc <= (max - dv) / 10,
                    dv <= max,
            ;
        }
        acc = acc * 10 + dv;
        i = i + 1;
        assert forall|j: int| 0 <= j < i - start implies is_digit(#[trigger] d.take(i - start)[j]) by {
            if j < i - 1 - start {
                assert(d.take(i - start)[j] == d.take(i - 1 - start)[j]);
            }
        }
    }
    assert(d.take(i - start) =~= d);
    Some(acc)
}

/// Appends the decimal rendering of `n` to `out`.
pub fn push_decimal(n: u64, out: &mut Vec<char>)
    ensures
        final(out)@ == old(out)@ + decimal_text(n as nat),
    decreases n,
{
    if n >= 10 {
        push_decimal(n / 10, out);
    }
    let d = (n % 10) as u32;
    let c = char_from_ascii_code('0' as u32 + d);
    out.push(c);
    proof {
        if n >= 10 {
            assert(decimal_text(n as nat) == decimal_text((n / 10) as nat).push(digit_char((n % 10) as nat)));
        }
    }
    assert(final(out)@ =~= old(out)@ + decimal_text(n as nat));
}

/// Appends the lowercase hexadecimal rendering of `n` to `out`.
pub fn push_hex(n: u128, out: &mut Vec<char>)
    ensures
        final(out)@ == old(out)@ + hex_text(n as nat),
    decreases n,
{
    if n >= 16 {
        push_hex(n / 16, out);
    }
    let d = (n % 16) as u32;
    let c = if d < 10 {
        char_from_ascii_code('0' as u32 + d)
    } else {
        char_from_ascii_code('a' as u32 + (d - 10))
    };
    out.push(c);
    assert(final(out)@ =~= old(out)@ + hex_text(n as nat));
}

/// Appends `n` in lowercase hexadecimal, zero-padded to `width` digits.
pub fn push_hex_padded(n: u128, width: usize, out: &mut Vec<char>)
    ensures
        final(out)@ == old(out)@ + zero_pad(hex_text(n as nat), width as nat),
{
    let mut digits: Vec<char> = Vec::new();
    push_hex(n, &mut digits);
    assert(digits@ =~= hex_text(n as nat));
    let ghost start = out@;
    if digits.len() < width {
        let pad = width - digits.len();
        let mut k: usize = 0;
        while k < pad
            invariant
                0 <= k <= pad,
                out@ == start + Seq::new(k as nat, |i: int| '0'),
            decreases pad - k,
        {
            out.push('0');
            k = k + 1;
            assert(out@ =~= start + Seq::new(k as nat, |i: int| '0'));
        }
    }
    let ghost mid = out@;
    let mut j: usize = 0;
    while j < digits.len()
        invariant
            0 <= j <= digits@.len(),
            out@ == mid + digits@.take(j as int),
        decreases digits@.len() - j,
    {
        out.push(digits[j]);
        j = j + 1;
        assert(out@ =~= mid + digits@.take(j as int));
    }
    assert(digits@.take(digits@.len() as int) =~= digits@);
    assert(out@ =~= start + zero_pad(hex_text(n as nat), width as nat));
}

/// Appends the characters `s` to `out`.
pub fn push_chars(out: &mut Vec<char>, s: &[char])
    ensures
        final(out)@ == old(out)@ + s@,
{
    let ghost start = out@;
    let mut i: usize = 0;
    while i < s.len()
        invariant
            0 <= i <= s@.len(),
            out@ == start + s@.take(i as int),
        decreases s@.len() - i,
    {
        out.push(s[i]);
        i = i + 1;
        assert(out@ =~= start + s@.take(i as int));
    }
    assert(s@.take(s@.len() as int) =~= s@);
}

/// Appends the characters of `s` to `out`.
pub fn push_str(out: &mut Vec<char>, s: &str)
    ensures
        final(out)@ == old(out)@ + s@,
{
    let cs = chars_of(s);
    push_chars(out, cs.as_slice());
}

} // verus!
