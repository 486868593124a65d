//! Character-level text helpers shared by the templating, slug and validation
//! code: whitespace trimming, ASCII classification, decimal rendering and
//! string building.
use vstd::prelude::*;

verus! {

/// Appends one character to a `String` (`String::push`). Claimed: the string
/// afterwards is the old one with the character at its end.
#[verifier::external_body]
pub(crate) fn push_char(s: &mut String, c: char)
    ensures
        final(s)@ == old(s)@.push(c),
{
    s.push(c);
}

/// Unicode `White_Space`, as `char::is_whitespace` documents it.
pub open spec fn is_ws(c: char) -> bool {
    ||| ('\u{9}' <= c && c <= '\u{d}')
    ||| c == ' '
    ||| c == '\u{85}'
    ||| c == '\u{a0}'
    ||| c == '\u{1680}'
    ||| ('\u{2000}' <= c && c <= '\u{200a}')
    ||| c == '\u{2028}'
    ||| c == '\u{2029}'
    ||| c == '\u{202f}'
    ||| c == '\u{205f}'
    ||| c == '\u{3000}'
}

pub fn is_whitespace(c: char) -> (r: bool)
    ensures
        r == is_ws(c),
{
    ('\u{9}' <= c && c <= '\u{d}') || c == ' ' || c == '\u{85}' || c == '\u{a0}' || c
        == '\u{1680}' || ('\u{2000}' <= c && c <= '\u{200a}') || c == '\u{2028}' || c
        == '\u{2029}' || c == '\u{202f}' || c == '\u{205f}' || c == '\u{3000}'
}

/// `s` with leading whitespace removed.
pub open spec fn trim_start(s: Seq<char>) -> Seq<char>
    decreases s.len(),
{
    if s.len() > 0 && is_ws(s[0]) {
        trim_start(s.drop_first())
    } else {
        s
    }
}

/// `s` with trailing whitespace removed.
pub open spec fn trim_end(s: Seq<char>) -> Seq<char>
    decreases s.len(),
{
    if s.len() > 0 && is_ws(s.last()) {
        trim_end(s.drop_last())
    } else {
        s
    }
}

/// `s` with leading and trailing whitespace removed (`str::trim`).
pub open spec fn trim(s: Seq<char>) -> Seq<char> {
    trim_end(trim_start(s))
}

pub open spec fn is_ascii_digit(c: char) -> bool {
    '0' <= c && c <= '9'
}

pub open spec fn is_ascii_lower(c: char) -> bool {
    'a' <= c && c <= 'z'
}

pub open spec fn is_ascii_upper(c: char) -> bool {
    'A' <= c && c <= 'Z'
}

pub open spec fn is_ascii_alnum(c: char) -> bool {
    is_ascii_digit(c) || is_ascii_lower(c) || is_ascii_upper(c)
}

/// ASCII lowercase of one character (`char::to_ascii_lowercase`).
pub open spec fn ascii_lower(c: char) -> char {
    if is_ascii_upper(c) {
        ((c as u32) + 32) as char
    } else {
        c
    }
}

pub fn is_ascii_alphanumeric(c: char) -> (r: bool)
    ensures
        r == is_ascii_alnum(c),
{
    ('0' <= c && c <= '9') || ('a' <= c && c <= 'z') || ('A' <= c && c <= 'Z')
}

pub fn to_ascii_lowercase(c: char) -> (r: char)
    ensures
        r == ascii_lower(c),
{
    if 'A' <= c && c <= 'Z' {
        let u: u32 = (c as u32) + 32;
        assert(u <= 0x7f);
        char_from_ascii(u)
    } else {
        c
    }
}

/// The character with an ASCII code point.
pub fn char_from_ascii(u: u32) -> (r: char)
    requires
        u <= 0x7f,
    ensures
        r == u as char,
        r as u32 == u,
{
    let b: u8 = u as u8;
    b as char
}

/// The characters of a string slice, in order.
pub fn chars_of(s: &str) -> (v: Vec<char>)
    ensures
        v@ == s@,
{
    let mut v: Vec<char> = Vec::new();
    for c in it: s.chars()
        invariant
            it.seq() == s@,
            v@ == s@.take(it.index() as int),
    {
        v.push(c);
    }
    assert(s@.take(s@.len() as int) == s@);
    v
}

/// A `String` holding exactly the characters of `v`.
pub fn string_of(v: &[char]) -> (s: String)
    ensures
        s@ == v@,
{
    let mut s = String::new();
    let mut i: usize = 0;
    while i < v.len()
        invariant
            i <= v@.len(),
            s@ == v@.take(i as int),
        decreases v@.len() - i,
    {
        push_char(&mut s, v[i]);
        i = i + 1;
        assert(v@.take(i as int) == v@.take((i - 1) as int).push(v@[i - 1]));
    }
    assert(v@.take(v@.len() as int) == v@);
    s
}

/// Whether two string slices hold the same characters.
pub fn str_eq(a: &str, b: &str) -> (r: bool)
    ensures
        r == (a@ == b@),
{
    let x = chars_of(a);
    let y = chars_of(b);
    chars_eq(x.as_slice(), y.as_slice())
}

/// Whether two character slices are equal.
pub fn chars_eq(x: &[char], y: &[char]) -> (r: bool)
    ensures
        r == (x@ == y@),
{
    if x.len() != y.len() {
        return false;
    }
    let mut i: usize = 0;
    while i < x.len()
        invariant
            x@.len() == y@.len(),
            i <= x@.len(),
            forall|k: int| 0 <= k < i ==> x@[k] == y@[k],
        decreases x@.len() - i,
    {
        if x[i] != y[i] {
            return false;
        }
        i = i + 1;
    }
    assert(x@ =~= y@);
    true
}

/// The ASCII digit for `d`, which is below ten.
pub open spec fn digit_char(d: nat) -> char {
    (48 + d) as char
}

/// Decimal digits of a natural number, most significant first, no padding.
pub open spec fn digits(n: nat) -> Seq<char>
    decreases n,
{
    if n < 10 {
        seq![digit_char(n)]
    } else {
        digits(n / 10).push(digit_char(n % 10))
    }
}

/// Decimal text of an integer, with a leading `-` when negative (`Display`).
pub open spec fn int_text(n: int) -> Seq<char> {
    if n < 0 {
        seq!['-'] + digits((-n) as nat)
    } else {
        digits(n as nat)
    }
}

/// Appends the decimal digits of `m`.
pub fn push_digits(s: &mut String, m: u64)
    ensures
        final(s)@ == old(s)@ + digits(m as nat),
    decreases m,
{
    if m >= 10 {
        push_digits(s, m / 10);
    }
    let d: u64 = m % 10;
    let c = char_from_ascii(48 + d as u32);
    push_char(s, c);
    proof {
        if m < 10 {
            assert(digits(m as nat) == seq![digit_char(m as nat)]);
        }
    }
}

/// Appends the decimal text of `n`.
pub fn push_int(s: &mut String, n: i64)
    ensures
        final(s)@ == old(s)@ + int_text(n as int),
{
    if n < 0 {
        push_char(s, '-');
        let m: u64 = (0i128 - n as i128) as u64;
        push_digits(s, m);
        assert(old(s)@ + int_text(n as int) == old(s)@.push('-') + digits(m as nat));
    } else {
        push_digits(s, n as u64);
    }
}

/// The decimal text of `n` as a new string.
pub fn int_string(n: i64) -> (r: String)
    ensures
        r@ == int_text(n as int),
{
    let mut s = String::new();
    push_int(&mut s, n);
    assert(Seq::<char>::empty() + int_text(n as int) == int_text(n as int));
    s
}

/// `p` occurs in `s` starting at `i`.
pub open spec fn matches_at(s: Seq<char>, p: Seq<char>, i: int) -> bool {
    0 <= i && i + p.len() <= s.len() && s.subrange(i, i + p.len()) == p
}

/// The first position at or after `i` where `p` occurs in `s`.
pub open spec fn find_from(s: Seq<char>, p: Seq<char>, i: int) -> Option<int>
    decreases s.len() - i + 1,
{
    if i < 0 || i + p.len() > s.len() {
        None
    } else if matches_at(s, p, i) {
        Some(i)
    } else {
        find_from(s, p, i + 1)
    }
}

/// The first position where `p` occurs in `s` (`str::find`, in characters).
pub open spec fn find(s: Seq<char>, p: Seq<char>) -> Option<int> {
    find_from(s, p, 0)
}

/// `s` with its first occurrence of `p` replaced by `r` (`str::replacen(p, r, 1)`).
pub open spec fn replace_first(s: Seq<char>, p: Seq<char>, r: Seq<char>) -> Seq<char> {
    match find(s, p) {
        Some(i) => s.take(i) + r + s.skip(i + p.len()),
        None => s,
    }
}

pub proof fn lemma_find_from_range(s: Seq<char>, p: Seq<char>, i: int)
    ensures
        find_from(s, p, i) matches Some(j) ==> i <= j && matches_at(s, p, j),
    decreases s.len() - i + 1,
{
    if !(i < 0 || i + p.len() > s.len()) && !matches_at(s, p, i) {
        lemma_find_from_range(s, p, i + 1);
    }
}

/// Whether `p` occurs in `x` at `i`.
pub fn matches_at_exec(x: &[char], p: &[char], i: usize) -> (r: bool)
    ensures
        r == matches_at(x@, p@, i as int),
{
    let xl = x.len();
    if i > xl || p.len() > xl - i {
        return false;
    }
    let mut k: usize = 0;
    while k < p.len()
        invariant
            xl == x@.len(),
            i + p@.len() <= x@.len(),
            i <= x@.len(),
            k <= p@.len(),
            forall|j: int| 0 <= j < k ==> x@[i + j] == p@[j],
        decreases p@.len() - k,
    {
        if x[i + k] != p[k] {
            assert(x@.subrange(i as int, i + p@.len())[k as int] != p@[k as int]);
            return false;
        }
        k = k + 1;
    }
    assert(x@.subrange(i as int, i + p@.len()) =~= p@);
    true
}

/// The first position where `p` occurs in `x`, if any.
pub fn find_chars(x: &[char], p: &[char]) -> (r: Option<usize>)
    ensures
        match find(x@, p@) {
            Some(i) => r == Some(i as usize),
            None => r.is_none(),
        },
{
    let xl = x.len();
    if p.len() > xl {
        return None;
    }
    if p.len() == 0 {
        assert(x@.subrange(0, 0) =~= p@);
        assert(matches_at(x@, p@, 0));
        return Some(0);
    }
    let last = x.len() - p.len();
    let mut i: usize = 0;
    while i <= last
        invariant
            xl == x@.len(),
            p@.len() > 0,
            last + p@.len() == x@.len(),
            i <= last + 1,
            find(x@, p@) == find_from(x@, p@, i as int),
        decreases last + 1 - i,
    {
        if matches_at_exec(x, p, i) {
            return Some(i);
        }
        i = i + 1;
    }
    None
}

/// Appends the characters `v[from..to]`.
pub fn push_range(s: &mut String, v: &[char], from: usize, to: usize)
    requires
        from <= to <= v@.len(),
    ensures
        final(s)@ == old(s)@ + v@.subrange(from as int, to as int),
{
    let mut i: usize = from;
    while i < to
        invariant
            from <= i <= to <= v@.len(),
            s@ == old(s)@ + v@.subrange(from as int, i as int),
        decreases to - i,
    {
        push_char(s, v[i]);
        i = i + 1;
        assert(v@.subrange(from as int, i as int) == v@.subrange(from as int, (i - 1) as int).push(
            v@[i - 1],
        ));
    }
}

/// `s` with its first occurrence of `pat` replaced by `rep`.
pub fn replace_first_str(s: &str, pat: &str, rep: &str) -> (r: String)
    ensures
        r@ == replace_first(s@, pat@, rep@),
{
    let x = chars_of(s);
    let p = chars_of(pat);
    let xl = x.len();
    let found = find_chars(x.as_slice(), p.as_slice());
    proof {
        lemma_find_from_range(x@, p@, 0);
    }
    match found {
        Some(i) => {
            proof {
                assert(find(x@, p@) is Some);
                let j = find(x@, p@)->0;
                assert(matches_at(x@, p@, j));
                assert(0 <= j <= xl);
                assert(j == i as int);
                assert(matches_at(x@, p@, i as int));
            }
            let mut out = String::new();
            push_range(&mut out, x.as_slice(), 0, i);
            out.append(rep);
            push_range(&mut out, x.as_slice(), i + p.len(), x.len());
            assert(x@.subrange(0, i as int) == x@.take(i as int));
            assert(x@.subrange((i + p@.len()) as int, x@.len() as int) == x@.skip(i + p@.len()));
            assert(Seq::<char>::empty() + x@.take(i as int) == x@.take(i as int));
            out
        },
        None => {
            let r = string_of(x.as_slice());
            r
        },
    }
}

/// The bounds of `v` without leading and trailing whitespace.
pub fn trim_bounds(v: &[char]) -> (r: (usize, usize))
    ensures
        r.0 <= r.1 <= v@.len(),
        v@.subrange(r.0 as int, r.1 as int) == trim(v@),
{
    let n = v.len();
    let mut a: usize = 0;
    assert(v@.skip(0) == v@);
    while a < n && is_whitespace(v[a])
        invariant
            n == v@.len(),
            a <= n,
            trim_start(v@) == trim_start(v@.skip(a as int)),
        decreases n - a,
    {
        assert(v@.skip(a as int).drop_first() == v@.skip(a + 1));
        a = a + 1;
    }
    let ghost t = v@.skip(a as int);
    assert(trim_start(t) == t);
    let mut b: usize = n;
    while b > a && is_whitespace(v[b - 1])
        invariant
            n == v@.len(),
            a <= b <= n,
            t == v@.skip(a as int),
            trim_end(t) == trim_end(v@.subrange(a as int, b as int)),
        decreases b,
    {
        assert(v@.subrange(a as int, b as int).drop_last() == v@.subrange(a as int, b - 1));
        b = b - 1;
    }
    assert(trim_end(v@.subrange(a as int, b as int)) == v@.subrange(a as int, b as int));
    assert(t == v@.subrange(a as int, n as int));
    (a, b)
}

/// A string slice with leading and trailing whitespace removed, as characters.
pub fn trimmed_chars(s: &str) -> (r: Vec<char>)
    ensures
        r@ == trim(s@),
{
    let v = chars_of(s);
    let (a, b) = trim_bounds(v.as_slice());
    let mut out: Vec<char> = Vec::new();
    let mut i: usize = a;
    while i < b
        invariant
            a <= i <= b <= v@.len(),
            out@ == v@.subrange(a as int, i as int),
        decreases b - i,
    {
        out.push(v[i]);
        i = i + 1;
        assert(out@ =~= v@.subrange(a as int, i as int));
    }
    out
}

/// A string slice with leading and trailing whitespace removed (`str::trim`).
pub fn trim_str(s: &str) -> (r: String)
    ensures
        r@ == trim(s@),
{
    let v = trimmed_chars(s);
    string_of(v.as_slice())
}

/// Number of characters of a string slice (`chars().count()`).
pub fn char_count(s: &str) -> (r: usize)
    ensures
        r == s@.len(),
{
    let v = chars_of(s);
    v.len()
}

/// `s` without any trailing `c` (`str::trim_end_matches(c)`).
pub open spec fn strip_trailing(s: Seq<char>, c: char) -> Seq<char>
    decreases s.len(),
{
    if s.len() > 0 && s.last() == c {
        strip_trailing(s.drop_last(), c)
    } else {
        s
    }
}

/// `s` without any trailing `c`.
pub fn trim_end_char(s: &str, c: char) -> (r: String)
    ensures
        r@ == strip_trailing(s@, c),
{
    let v = chars_of(s);
    let mut b: usize = v.len();
    assert(v@.take(v@.len() as int) == v@);
    while b > 0 && v[b - 1] == c
        invariant
            b <= v@.len(),
            strip_trailing(v@, c) == strip_trailing(v@.take(b as int), c),
        decreases b,
    {
        assert(v@.take(b as int).drop_last() == v@.take(b - 1));
        b = b - 1;
    }
    assert(v@.take(v@.len() as int) == v@);
    let mut out = String::new();
    push_range(&mut out, v.as_slice(), 0, b);
    assert(v@.subrange(0, b as int) == v@.take(b as int));
    assert(Seq::<char>::empty() + v@.take(b as int) == v@.take(b as int));
    out
}

/// The Unicode lowercase mapping of a string, as `str::to_lowercase` applies it.
pub uninterp spec fn lowercase(s: Seq<char>) -> Seq<char>;

/// The lowercase form of a string slice (`str::to_lowercase`). Claimed: the
/// result is `lowercase` of its characters; the mapping itself (Unicode case
/// data, context-dependent final sigma) is left unsaid.
#[verifier::external_body]
pub(crate) fn to_lowercase(s: &str) -> (r: String)
    ensures
        r@ == lowercase(s@),
{
    s.to_lowercase()
}

/// The value of a run of decimal digits.
pub open spec fn decimal_value(d: Seq<char>) -> int
    decreases d.len(),
{
    if d.len() == 0 {
        0
    } else {
        10 * decimal_value(d.drop_last()) + (d.last() as int - '0' as int)
    }
}

/// Every character is an ASCII digit.
pub open spec fn all_digits(d: Seq<char>) -> bool {
    forall|i: int| 0 <= i < d.len() ==> is_ascii_digit(#[trigger] d[i])
}

/// An integer as Rust's `FromStr` for integers reads it: an optional `+` (or,
/// for a signed type, `-`) and then one or more ASCII digits, nothing else.
pub open spec fn parse_decimal(p: Seq<char>, signed: bool) -> Option<int> {
    let neg = signed && p.len() > 0 && p[0] == '-';
    let plus = p.len() > 0 && p[0] == '+';
    let d = if neg || plus {
        p.drop_first()
    } else {
        p
    };
    if d.len() > 0 && all_digits(d) {
        Some(
            if neg {
                -decimal_value(d)
            } else {
                decimal_value(d)
            },
        )
    } else {
        None
    }
}

/// `v` when it lies within `[lo, hi]`.
pub open spec fn within(v: Option<int>, lo: int, hi: int) -> Option<int> {
    match v {
        Some(x) => if lo <= x <= hi {
            Some(x)
        } else {
            None
        },
        None => None,
    }
}

proof fn lemma_decimal_grows(d: Seq<char>, k: int)
    requires
        all_digits(d),
        0 <= k < d.len(),
    ensures
        0 <= decimal_value(d.take(k)) <= decimal_value(d.take(k + 1)),
        decimal_value(d.take(k + 1)) == 10 * decimal_value(d.take(k)) + (d[k] as int - '0' as int),
    decreases k,
{
    assert(d.take(k + 1).drop_last() == d.take(k));
    if k > 0 {
        lemma_decimal_grows(d, k - 1);
    } else {
        assert(d.take(0) =~= Seq::<char>::empty());
    }
}

/// The integer in `v` as `FromStr` reads it for a signed (or unsigned) type,
/// when it fits in an `i64`.
#[verifier::rlimit(40)]
#[verifier::spinoff_prover]
pub fn parse_integer(v: &[char], signed: bool) -> (r: Option<i64>)
    ensures
        (match r {
            Some(x) => Some(x as int),
            None => None,
        }) == within(parse_decimal(v@, signed), i64::MIN as int, i64::MAX as int),
{
    let n = v.len();
    let neg = signed && n > 0 && v[0] == '-';
    let plus = n > 0 && v[0] == '+';
    let start: usize = if neg || plus {
        1
    } else {
        0
    };
    let ghost d = if neg || plus {
        v@.drop_first()
    } else {
        v@
    };
    assert(d =~= v@.subrange(start as int, n as int));
    if start >= n {
        return None;
    }
    let mut i: usize = start;
    while i < n
        invariant
            start <= i <= n == v@.len(),
            d == v@.subrange(start as int, n as int),
            d == (if neg || plus {
                v@.drop_first()
            } else {
                v@
            }),
            neg == (signed && n > 0 && v@[0] == '-'),
            plus == (n > 0 && v@[0] == '+'),
            forall|k: int| start <= k < i ==> is_ascii_digit(#[trigger] v@[k]),
        decreases n - i,
    {
        if !('0' <= v[i] && v[i] <= '9') {
            assert(!is_ascii_digit(d[i - start]));
            return None;
        }
        i = i + 1;
    }
    assert(all_digits(d)) by {
        assert forall|k: int| 0 <= k < d.len() implies is_ascii_digit(#[trigger] d[k]) by {
            assert(d[k] == v@[k + start]);
        }
    }
    // Magnitude, up to 2^63; beyond that no i64 holds it.
    let limit: u64 = 9223372036854775808;
    let mut acc: u64 = 0;
    let mut over = false;
    let mut j: usize = start;
    assert(d.take(0) =~= Seq::<char>::empty());
    while j < n
        invariant
            start <= j <= n == v@.len(),
            d == v@.subrange(start as int, n as int),
            d == (if neg || plus {
                v@.drop_first()
            } else {
                v@
            }),
            neg == (signed && n > 0 && v@[0] == '-'),
            plus == (n > 0 && v@[0] == '+'),
            all_digits(d),
            limit == 9223372036854775808,
            !over ==> acc == decimal_value(d.take(j - start)) && acc <= limit,
            over ==> decimal_value(d.take(j - start)) > limit,
        decreases n - j,
    {
        proof {
            lemma_decimal_grows(d, j - start);
        }
        assert(d[j - start] == v@[j as int]);
        if !over {
            let digit: u64 = (v[j] as u32 - '0' as u32) as u64;
            if acc > (limit - digit) / 10 {
                over = true;
            } else {
                acc = acc * 10 + digit;
            }
        }
        j = j + 1;
    }
    assert(d.take(d.len() as int) == d);
    if over {
        return None;
    }
    if neg {
        if acc == limit {
            Some(i64::MIN)
        } else {
            Some(-(acc as i64))
        }
    } else {
        if acc == limit {
            None
        } else {
            Some(acc as i64)
        }
    }
}

/// The `u32` in a string slice, as `str::parse::<u32>` reads it.
pub fn parse_u32(s: &str) -> (r: Option<u32>)
    ensures
        (match r {
            Some(x) => Some(x as int),
            None => None,
        }) == within(parse_decimal(s@, false), 0, u32::MAX as int),
{
    let v = chars_of(s);
    match parse_integer(v.as_slice(), false) {
        Some(x) => if 0 <= x && x <= 4294967295 {
            Some(x as u32)
        } else {
            None
        },
        None => None,
    }
}

/// The `i32` in a string slice, as `str::parse::<i32>` reads it.
pub fn parse_i32(s: &str) -> (r: Option<i32>)
    ensures
        (match r {
            Some(x) => Some(x as int),
            None => None,
        }) == within(parse_decimal(s@, true), i32::MIN as int, i32::MAX as int),
{
    let v = chars_of(s);
    match parse_integer(v.as_slice(), true) {
        Some(x) => if -2147483648 <= x && x <= 2147483647 {
            Some(x as i32)
        } else {
            None
        },
        None => None,
    }
}

/// The `i64` in a string slice, as `str::parse::<i64>` reads it.
pub fn parse_i64(s: &str) -> (r: Option<i64>)
    ensures
        (match r {
            Some(x) => Some(x as int),
            None => None,
        }) == within(parse_decimal(s@, true), i64::MIN as int, i64::MAX as int),
{
    let v = chars_of(s);
    parse_integer(v.as_slice(), true)
}

/// The `Debug` rendering of a string: quoted, with quotes, backslashes and
/// non-printable characters escaped.
pub uninterp spec fn debug_str(s: Seq<char>) -> Seq<char>;

/// A string rendered as `{:?}` renders it (`<str as Debug>::fmt`). Claimed:
/// the result is `debug_str` of the characters; the escaping rules are left
/// unsaid.
#[verifier::external_body]
pub(crate) fn debug_quoted(s: &str) -> (r: String)
    ensures
        r@ == debug_str(s@),
{
    format!("{:?}", s)
}

/// The number of bytes UTF-8 encodes a character in.
pub open spec fn utf8_width(c: char) -> nat {
    if (c as u32) < 0x80 {
        1
    } else if (c as u32) < 0x800 {
        2
    } else if (c as u32) < 0x10000 {
        3
    } else {
        4
    }
}

/// The UTF-8 length of a string, in bytes (`str::len`).
pub open spec fn utf8_len(s: Seq<char>) -> nat
    decreases s.len(),
{
    if s.len() == 0 {
        0
    } else {
        utf8_len(s.drop_last()) + utf8_width(s.last())
    }
}

/// Whether a string is at least `n` bytes long in UTF-8.
pub fn utf8_at_least(s: &str, n: u64) -> (r: bool)
    requires
        0 < n <= 1024,
    ensures
        r == (utf8_len(s@) >= n),
{
    let v = chars_of(s);
    let mut acc: u64 = 0;
    let mut i: usize = 0;
    while i < v.len()
        invariant
            v@ == s@,
            i <= v@.len(),
            acc == utf8_len(v@.take(i as int)),
            acc < n,
            0 < n <= 1024,
        decreases v@.len() - i,
    {
        assert(v@.take(i + 1).drop_last() == v@.take(i as int));
        let c = v[i];
        let w: u64 = if (c as u32) < 0x80 {
            1
        } else if (c as u32) < 0x800 {
            2
        } else if (c as u32) < 0x10000 {
            3
        } else {
            4
        };
        acc = acc + w;
        i = i + 1;
        if acc >= n {
            proof {
                lemma_utf8_len_grows(v@, i as int);
            }
            return true;
        }
    }
    assert(v@.take(v@.len() as int) == v@);
    false
}

proof fn lemma_utf8_len_grows(s: Seq<char>, k: int)
    requires
        0 <= k <= s.len(),
    ensures
        utf8_len(s.take(k)) <= utf8_len(s),
    decreases s.len() - k,
{
    if k < s.len() {
        lemma_utf8_len_grows(s.drop_last(), k);
        assert(s.drop_last().take(k) == s.take(k));
    } else {
        assert(s.take(k) == s);
    }
}

/// `s` starts with `p`.
pub open spec fn has_prefix(s: Seq<char>, p: Seq<char>) -> bool {
    s.len() >= p.len() && s.take(p.len() as int) == p
}

pub fn starts_with(s: &str, p: &str) -> (r: bool)
    ensures
        r == has_prefix(s@, p@),
{
    let x = chars_of(s);
    let y = chars_of(p);
    if x.len() < y.len() {
        return false;
    }
    let mut i: usize = 0;
    while i < y.len()
        invariant
            x@ == s@,
            y@ == p@,
            y@.len() <= x@.len(),
            i <= y@.len(),
            forall|k: int| 0 <= k < i ==> x@[k] == y@[k],
        decreases y@.len() - i,
    {
        if x[i] != y[i] {
            assert(s@.take(p@.len() as int)[i as int] != p@[i as int]);
            return false;
        }
        i = i + 1;
    }
    assert(s@.take(p@.len() as int) =~= p@);
    true
}

} // verus!
