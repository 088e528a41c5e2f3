//! Character-sequence helpers shared by the parsers and formatters: decimal
//! digits, number rendering and parsing, ASCII case folding, trimming and
//! searching.
use vstd::prelude::*;

verus! {

/// Appends one character to a string (`String::push`).
#[verifier::external_body]
pub(crate) fn push_char(s: &mut String, c: char)
    ensures
        final(s)@ == old(s)@.push(c),
{
    s.push(c);
}

/// The characters of a string slice, in order.
pub fn chars_of(s: &str) -> (v: Vec<char>)
    ensures
        v@ == s@,
{
    let mut v: Vec<char> = Vec::new();
    for c in it: s.chars()
        invariant
            v@ == it.seq().take(it.index() as int),
            it.seq() == s@,
    {
        v.push(c);
    }
    v
}

/// Builds a string from a sequence of characters.
pub fn string_of(v: &Vec<char>) -> (s: String)
    ensures
        s@ == v@,
{
    let mut s = String::new();
    let mut i: usize = 0;
    while i < v.len()
        invariant
            i <= v.len(),
            s@ == v@.take(i as int),
        decreases v.len() - i,
    {
        push_char(&mut s, v[i]);
        assert(v@.take(i + 1) == v@.take(i as int).push(v@[i as int]));
        i = i + 1;
    }
    assert(v@.take(v.len() as int) == v@);
    s
}

/// Appends every character of `src` to `dst`.
pub fn extend_chars(dst: &mut Vec<char>, src: &Vec<char>)
    ensures
        final(dst)@ == old(dst)@ + src@,
{
    let mut i: usize = 0;
    while i < src.len()
        invariant
            i <= src.len(),
            dst@ == old(dst)@ + src@.take(i as int),
        decreases src.len() - i,
    {
        dst.push(src[i]);
        assert(src@.take(i + 1) == src@.take(i as int).push(src@[i as int]));
        i = i + 1;
    }
    assert(src@.take(src.len() as int) == src@);
}

/// Appends every character of `src` to `dst`.
pub fn extend_str(dst: &mut Vec<char>, src: &str)
    ensures
        final(dst)@ == old(dst)@ + src@,
{
    let v = chars_of(src);
    extend_chars(dst, &v);
}

/// `a` and `b` joined into one string.
pub fn concat2(a: &str, b: &str) -> (r: String)
    ensures
        r@ == a@ + b@,
{
    let mut v: Vec<char> = Vec::new();
    extend_str(&mut v, a);
    extend_str(&mut v, b);
    string_of(&v)
}

/// `a`, `b` and `c` joined into one string.
pub fn concat3(a: &str, b: &str, c: &str) -> (r: String)
    ensures
        r@ == a@ + b@ + c@,
{
    let mut v: Vec<char> = Vec::new();
    extend_str(&mut v, a);
    extend_str(&mut v, b);
    extend_str(&mut v, c);
    string_of(&v)
}

/// Whether two string slices hold the same characters.
pub fn str_eq(a: &str, b: &str) -> (r: bool)
    ensures
        r == (a@ == b@),
{
    let va = chars_of(a);
    let vb = chars_of(b);
    if va.len() != vb.len() {
        return false;
    }
    let mut i: usize = 0;
    while i < va.len()
        invariant
            i <= va.len(),
            va.len() == vb.len(),
            va@ == a@,
            vb@ == b@,
            forall|k: int| 0 <= k < i ==> va@[k] == vb@[k],
        decreases va.len() - i,
    {
        if va[i] != vb[i] {
            assert(a@[i as int] != b@[i as int]);
            return false;
        }
        i = i + 1;
    }
    assert(va@ =~= vb@);
    true
}

// ---------------------------------------------------------------------------
// Decimal digits

pub open spec fn is_digit(c: char) -> bool {
    48 <= (c as u32) && (c as u32) <= 57
}

pub open spec fn digit_value(c: char) -> nat {
    ((c as u32) - 48) as nat
}

pub open spec fn digit_char(d: nat) -> char {
    if d == 0 { '0' }
    else if d == 1 { '1' }
    else if d == 2 { '2' }
    else if d == 3 { '3' }
    else if d == 4 { '4' }
    else if d == 5 { '5' }
    else if d == 6 { '6' }
    else if d == 7 { '7' }
    else if d == 8 { '8' }
    else { '9' }
}

pub open spec fn all_digits(s: Seq<char>) -> bool {
    forall|i: int| 0 <= i < s.len() ==> is_digit(#[trigger] s[i])
}

/// The value of a string of decimal digits (most significant first).
pub open spec fn digits_value(s: Seq<char>) -> nat
    decreases s.len(),
{
    if s.len() == 0 {
        0
    } else {
        digits_value(s.drop_last()) * 10 + digit_value(s.last())
    }
}

/// The shortest decimal rendering of `n` (no sign, no leading zeros; `0` is "0").
pub open spec fn dec_digits(n: nat) -> Seq<char>
    decreases n,
{
    if n < 10 {
        seq![digit_char(n)]
    } else {
        dec_digits(n / 10).push(digit_char(n % 10))
    }
}

/// `s` left-padded with `'0'` up to `width` characters.
pub open spec fn pad_zeros(s: Seq<char>, width: nat) -> Seq<char> {
    if s.len() >= width {
        s
    } else {
        Seq::new((width - s.len()) as nat, |i: int| '0') + s
    }
}

/// Decimal rendering of `n`, zero-padded to at least `width` digits
/// (Rust's `{:0width$}` for an unsigned value).
pub open spec fn zero_padded(n: nat, width: nat) -> Seq<char> {
    pad_zeros(dec_digits(n), width)
}

/// Decimal rendering of a signed integer, with a leading `-` when negative
/// (Rust's `{}` for an integer).
pub open spec fn int_text(n: int) -> Seq<char> {
    if n < 0 {
        seq!['-'] + dec_digits((-n) as nat)
    } else {
        dec_digits(n as nat)
    }
}

pub proof fn lemma_digit_char(d: nat)
    requires
        d < 10,
    ensures
        is_digit(digit_char(d)),
        digit_value(digit_char(d)) == d,
{
}

pub proof fn lemma_dec_digits(n: nat)
    ensures
        dec_digits(n).len() > 0,
        all_digits(dec_digits(n)),
        digits_value(dec_digits(n)) == n,
    decreases n,
{
    if n < 10 {
        lemma_digit_char(n);
        assert(dec_digits(n).drop_last() =~= Seq::<char>::empty());
        assert(digits_value(Seq::<char>::empty()) == 0);
    } else {
        lemma_dec_digits(n / 10);
        lemma_digit_char(n % 10);
        let d = dec_digits(n);
        assert((n / 10) * 10 + n % 10 == n) by (nonlinear_arith);
        assert(d.drop_last() == dec_digits(n / 10));
        assert forall|i: int| 0 <= i < d.len() implies is_digit(#[trigger] d[i]) by {
            if i < d.len() - 1 {
                assert(d[i] == dec_digits(n / 10)[i]);
            }
        }
    }
}

pub proof fn lemma_zeros_value(k: nat)
    ensures
        all_digits(Seq::new(k, |i: int| '0')),
        digits_value(Seq::new(k, |i: int| '0')) == 0,
    decreases k,
{
    if k > 0 {
        lemma_zeros_value((k - 1) as nat);
        assert(Seq::new(k, |i: int| '0').drop_last() =~= Seq::new((k - 1) as nat, |i: int| '0'));
    }
}

pub proof fn lemma_digits_value_concat_zeros(k: nat, s: Seq<char>)
    ensures
        digits_value(Seq::new(k, |i: int| '0') + s) == digits_value(s),
    decreases s.len(),
{
    let z = Seq::new(k, |i: int| '0');
    if s.len() == 0 {
        lemma_zeros_value(k);
        assert(z + s == z);
    } else {
        lemma_digits_value_concat_zeros(k, s.drop_last());
        assert((z + s).drop_last() == z + s.drop_last());
        assert((z + s).last() == s.last());
    }
}

pub proof fn lemma_all_digits_concat(a: Seq<char>, b: Seq<char>)
    requires
        all_digits(a),
        all_digits(b),
    ensures
        all_digits(a + b),
{
    assert forall|i: int| 0 <= i < (a + b).len() implies is_digit(#[trigger] (a + b)[i]) by {
        if i < a.len() {
            assert((a + b)[i] == a[i]);
        } else {
            assert((a + b)[i] == b[i - a.len()]);
        }
    }
}

pub fn digit_to_char(d: u32) -> (c: char)
    requires
        d < 10,
    ensures
        c == digit_char(d as nat),
{
    if d == 0 { '0' }
    else if d == 1 { '1' }
    else if d == 2 { '2' }
    else if d == 3 { '3' }
    else if d == 4 { '4' }
    else if d == 5 { '5' }
    else if d == 6 { '6' }
    else if d == 7 { '7' }
    else if d == 8 { '8' }
    else { '9' }
}

/// Decimal digits of an unsigned 128-bit value.
pub fn u128_digits(n: u128) -> (v: Vec<char>)
    ensures
        v@ == dec_digits(n as nat),
    decreases n,
{
    if n < 10 {
        let mut v = Vec::new();
        v.push(digit_to_char(n as u32));
        v
    } else {
        let mut v = u128_digits(n / 10);
        v.push(digit_to_char((n % 10) as u32));
        v
    }
}

/// Decimal digits of `n`, left-padded with zeros to `width`.
pub fn zero_padded_digits(n: u128, width: usize) -> (v: Vec<char>)
    ensures
        v@ == zero_padded(n as nat, width as nat),
{
    let digits = u128_digits(n);
    if digits.len() >= width {
        digits
    } else {
        let mut v: Vec<char> = Vec::new();
        let pad = width - digits.len();
        let mut i: usize = 0;
        while i < pad
            invariant
                i <= pad,
                v@ == Seq::new(i as nat, |k: int| '0'),
            decreases pad - i,
        {
            v.push('0');
            i = i + 1;
            assert(v@ =~= Seq::new(i as nat, |k: int| '0'));
        }
        extend_chars(&mut v, &digits);
        v
    }
}

/// Decimal text of an unsigned 64-bit value.
pub fn u64_text(n: u64) -> (s: String)
    ensures
        s@ == dec_digits(n as nat),
{
    let v = u128_digits(n as u128);
    string_of(&v)
}

/// Decimal text of a signed 64-bit value.
pub fn i64_text(n: i64) -> (v: Vec<char>)
    ensures
        v@ == int_text(n as int),
{
    if n < 0 {
        let mut v: Vec<char> = Vec::new();
        v.push('-');
        let mag: u128 = (0i128 - n as i128) as u128;
        let d = u128_digits(mag);
        extend_chars(&mut v, &d);
        v
    } else {
        u128_digits(n as u128)
    }
}

// ---------------------------------------------------------------------------
// Parsing integers the way `str::parse` does

pub proof fn lemma_digits_value_monotone(s: Seq<char>, i: int, j: int)
    requires
        0 <= i <= j <= s.len(),
    ensures
        digits_value(s.take(i)) <= digits_value(s.take(j)),
    decreases j - i,
{
    if i < j {
        lemma_digits_value_monotone(s, i, j - 1);
        assert(s.take(j).drop_last() == s.take(j - 1));
    }
}

/// Value of the digit string `s[lo..hi]` when it is all decimal digits and
/// at most `max`; `None` when some character is not a digit or the value
/// exceeds `max`.
pub open spec fn bounded_digits(s: Seq<char>, max: nat) -> Option<nat> {
    if all_digits(s) && digits_value(s) <= max {
        Some(digits_value(s))
    } else {
        None
    }
}

pub fn parse_digits(s: &Vec<char>, lo: usize, hi: usize, max: u128) -> (r: Option<u128>)
    requires
        lo <= hi <= s.len(),
        max >= 9,
    ensures
        match bounded_digits(s@.subrange(lo as int, hi as int), max as nat) {
            Some(v) => r == Some(v as u128),
            None => r is None,
        },
{
    let ghost t = s@.subrange(lo as int, hi as int);
    let mut acc: u128 = 0;
    let mut i: usize = lo;
    while i < hi
        invariant
            lo <= i <= hi <= s.len(),
            t == s@.subrange(lo as int, hi as int),
            all_digits(t.take(i - lo)),
            acc as nat == digits_value(t.take(i - lo)),
            acc <= max,
            max >= 9,
        decreases hi - i,
    {
        let c = s[i];
        let cu = c as u32;
        assert(t[i - lo] == c);
        assert(t.take(i - lo + 1).drop_last() == t.take(i - lo));
        if !(48 <= cu && cu <= 57) {
            assert(!all_digits(t)) by {
                assert(!is_digit(t[i - lo]));
            }
            return None;
        }
        let d: u128 = (cu - 48) as u128;
        if acc > (max - d) / 10 {
            assert(acc * 10 + d > max) by (nonlinear_arith)
                requires
                    acc > (max - d) / 10,
                    d <= max,
                    d <= 9,
                    acc <= max,
            {
            }
            proof {
                lemma_digits_value_monotone(t, i - lo + 1, t.len() as int);
                assert(t.take(t.len() as int) == t);
            }
            return None;
        }
        assert(acc * 10 + d <= max) by (nonlinear_arith)
            requires
                acc <= (max - d) / 10,
                d <= 9,
        {
        }
        assert(is_digit(c));
        acc = acc * 10 + d;
        i = i + 1;
        assert(all_digits(t.take(i - lo))) by {
            assert forall|k: int| 0 <= k < t.take(i - lo).len() implies is_digit(
                #[trigger] t.take(i - lo)[k],
            ) by {
                if k < i - lo - 1 {
                    assert(t.take(i - lo)[k] == t.take(i - lo - 1)[k]);
                } else {
                    assert(t.take(i - lo)[k] == t[i - lo - 1]);
                }
            }
        }
    }
    assert(t.take(hi - lo) == t);
    Some(acc)
}

/// `str::parse::<uN>()`: an optional `+`, then one or more decimal digits,
/// whose value fits below `max`.
pub open spec fn parse_unsigned(s: Seq<char>, max: nat) -> Option<nat> {
    let body = if s.len() > 0 && s[0] == '+' { s.drop_first() } else { s };
    if body.len() == 0 {
        None
    } else {
        bounded_digits(body, max)
    }
}

/// The decimal rendering of a number is read back as that number.
pub proof fn lemma_parse_unsigned_dec_digits(n: nat, max: nat)
    requires
        n <= max,
    ensures
        parse_unsigned(dec_digits(n), max) == Some(n),
{
    lemma_dec_digits(n);
    let d = dec_digits(n);
    assert(is_digit(d[0]));
}

pub fn parse_unsigned_range(s: &Vec<char>, lo: usize, hi: usize, max: u128) -> (r: Option<u128>)
    requires
        lo <= hi <= s.len(),
        max >= 9,
    ensures
        match parse_unsigned(s@.subrange(lo as int, hi as int), max as nat) {
            Some(v) => r == Some(v as u128),
            None => r is None,
        },
{
    let ghost t = s@.subrange(lo as int, hi as int);
    let mut start = lo;
    if lo < hi && s[lo] == '+' {
        start = lo + 1;
        assert(t.drop_first() == s@.subrange(start as int, hi as int));
    }
    if start == hi {
        return None;
    }
    parse_digits(s, start, hi, max)
}

/// `str::parse::<u8>()`.
pub fn parse_u8(s: &Vec<char>) -> (r: Option<u8>)
    ensures
        match parse_unsigned(s@, 255) {
            Some(v) => r == Some(v as u8),
            None => r is None,
        },
{
    assert(s@.subrange(0, s@.len() as int) == s@);
    match parse_unsigned_range(s, 0, s.len(), 255) {
        Some(v) => Some(v as u8),
        None => None,
    }
}

/// `str::parse::<u64>()`.
pub fn parse_u64(s: &Vec<char>) -> (r: Option<u64>)
    ensures
        match parse_unsigned(s@, u64::MAX as nat) {
            Some(v) => r == Some(v as u64),
            None => r is None,
        },
{
    assert(s@.subrange(0, s@.len() as int) == s@);
    match parse_unsigned_range(s, 0, s.len(), u64::MAX as u128) {
        Some(v) => Some(v as u64),
        None => None,
    }
}

/// `str::parse::<i128>()`: an optional `+` or `-`, then one or more decimal
/// digits, whose signed value fits in an `i128`.
pub open spec fn parse_i128(s: Seq<char>) -> Option<int> {
    if s.len() > 0 && s[0] == '-' {
        let body = s.drop_first();
        if body.len() == 0 {
            None
        } else {
            match bounded_digits(body, 0x8000_0000_0000_0000_0000_0000_0000_0000) {
                Some(v) => Some(-v),
                None => None,
            }
        }
    } else {
        match parse_unsigned(s, 0x7fff_ffff_ffff_ffff_ffff_ffff_ffff_ffff) {
            Some(v) => Some(v as int),
            None => None,
        }
    }
}

pub fn parse_i128_chars(s: &Vec<char>) -> (r: Option<i128>)
    ensures
        match parse_i128(s@) {
            Some(v) => r == Some(v as i128),
            None => r is None,
        },
{
    if s.len() > 0 && s[0] == '-' {
        if s.len() == 1 {
            return None;
        }
        assert(s@.drop_first() == s@.subrange(1, s@.len() as int));
        match parse_digits(s, 1, s.len(), 0x8000_0000_0000_0000_0000_0000_0000_0000) {
            Some(v) => {
                if v == 0x8000_0000_0000_0000_0000_0000_0000_0000 {
                    Some(i128::MIN)
                } else {
                    Some(0i128 - v as i128)
                }
            },
            None => None,
        }
    } else {
        assert(s@.subrange(0, s@.len() as int) == s@);
        match parse_unsigned_range(s, 0, s.len(), 0x7fff_ffff_ffff_ffff_ffff_ffff_ffff_ffff) {
            Some(v) => Some(v as i128),
            None => None,
        }
    }
}

// ---------------------------------------------------------------------------
// Case folding, trimming, searching

pub open spec fn ascii_lower(c: char) -> char {
    if 'A' <= c && c <= 'Z' {
        ((c as u32) + 32) as char
    } else {
        c
    }
}

/// `str::to_ascii_lowercase`: ASCII upper-case letters mapped to lower case,
/// everything else unchanged.
pub open spec fn ascii_lowercase(s: Seq<char>) -> Seq<char> {
    Seq::new(s.len(), |i: int| ascii_lower(s[i]))
}

pub fn to_ascii_lower(c: char) -> (r: char)
    ensures
        r == ascii_lower(c),
{
    if 'A' <= c && c <= 'Z' {
        let lower: u8 = (c as u32 + 32) as u8;
        lower as char
    } else {
        c
    }
}

/// `char::is_whitespace`: the characters with the Unicode `White_Space`
/// property (the ASCII tab, line feed, vertical tab, form feed, carriage
/// return and space, and U+0085, U+00A0, U+1680, U+2000..=U+200A, U+2028,
/// U+2029, U+202F, U+205F and U+3000).
pub open spec fn unicode_white_space(c: char) -> bool {
    let u = c as u32;
    ||| (9 <= u && u <= 13)
    ||| u == 32
    ||| u == 0x85
    ||| u == 0xa0
    ||| u == 0x1680
    ||| (0x2000 <= u && u <= 0x200a)
    ||| u == 0x2028
    ||| u == 0x2029
    ||| u == 0x202f
    ||| u == 0x205f
    ||| u == 0x3000
}

pub fn is_white_space(c: char) -> (b: bool)
    ensures
        b == unicode_white_space(c),
{
    let u = c as u32;
    (9 <= u && u <= 13) || u == 32 || u == 0x85 || u == 0xa0 || u == 0x1680 || (0x2000 <= u
        && u <= 0x200a) || u == 0x2028 || u == 0x2029 || u == 0x202f || u == 0x205f || u
        == 0x3000
}

/// Leading characters with the Unicode `White_Space` property removed.
pub open spec fn trim_start(s: Seq<char>) -> Seq<char>
    decreases s.len(),
{
    if s.len() > 0 && unicode_white_space(s[0]) {
        trim_start(s.drop_first())
    } else {
        s
    }
}

/// Trailing characters with the Unicode `White_Space` property removed.
pub open spec fn trim_end(s: Seq<char>) -> Seq<char>
    decreases s.len(),
{
    if s.len() > 0 && unicode_white_space(s.last()) {
        trim_end(s.drop_last())
    } else {
        s
    }
}

/// `str::trim`.
pub open spec fn trim(s: Seq<char>) -> Seq<char> {
    trim_end(trim_start(s))
}

/// Index of the first occurrence of `c` in `s`, if any.
pub open spec fn find_char(s: Seq<char>, c: char) -> Option<int>
    decreases s.len(),
{
    if s.len() == 0 {
        None
    } else if s[0] == c {
        Some(0)
    } else {
        match find_char(s.drop_first(), c) {
            Some(i) => Some(i + 1),
            None => None,
        }
    }
}

pub open spec fn has_prefix(s: Seq<char>, p: Seq<char>) -> bool {
    p.len() <= s.len() && s.take(p.len() as int) == p
}

pub open spec fn has_suffix(s: Seq<char>, p: Seq<char>) -> bool {
    p.len() <= s.len() && s.skip(s.len() - p.len()) == p
}

pub open spec fn contains_at(s: Seq<char>, p: Seq<char>, i: int) -> bool {
    0 <= i && i + p.len() <= s.len() && s.subrange(i, i + p.len()) == p
}

pub open spec fn contains_seq(s: Seq<char>, p: Seq<char>) -> bool {
    exists|i: int| contains_at(s, p, i)
}

/// The part of `s` before the first `c` (all of `s` when there is none):
/// the first item of `str::split(c)`.
pub open spec fn before_char(s: Seq<char>, c: char) -> Seq<char> {
    match find_char(s, c) {
        Some(k) => s.take(k),
        None => s,
    }
}

proof fn lemma_trim_start_skip(s: Seq<char>, k: int)
    requires
        0 <= k <= s.len(),
        forall|i: int| 0 <= i < k ==> unicode_white_space(#[trigger] s[i]),
        k == s.len() || !unicode_white_space(s[k]),
    ensures
        trim_start(s) == s.skip(k),
    decreases k,
{
    if k == 0 {
        assert(s.skip(0) == s);
    } else {
        assert forall|i: int| 0 <= i < k - 1 implies unicode_white_space(#[trigger] s.drop_first()[i]) by {
            assert(s.drop_first()[i] == s[i + 1]);
        }
        lemma_trim_start_skip(s.drop_first(), k - 1);
        assert(s.drop_first().skip(k - 1) == s.skip(k));
    }
}

proof fn lemma_trim_end_take(s: Seq<char>, m: int)
    requires
        0 <= m <= s.len(),
        forall|i: int| m <= i < s.len() ==> unicode_white_space(#[trigger] s[i]),
        m == 0 || !unicode_white_space(s[m - 1]),
    ensures
        trim_end(s) == s.take(m),
    decreases s.len() - m,
{
    if m == s.len() {
        assert(s.take(m) == s);
    } else {
        assert forall|i: int| m <= i < s.drop_last().len() implies unicode_white_space(
            #[trigger] s.drop_last()[i],
        ) by {
            assert(s.drop_last()[i] == s[i]);
        }
        lemma_trim_end_take(s.drop_last(), m);
        assert(s.drop_last().take(m) == s.take(m));
    }
}

/// Bounds `(a, b)` such that `v[a..b]` is `v[lo..hi]` trimmed of white space
/// at both ends.
pub fn trim_range(v: &Vec<char>, lo: usize, hi: usize) -> (r: (usize, usize))
    requires
        lo <= hi <= v.len(),
    ensures
        lo <= r.0 <= r.1 <= hi,
        v@.subrange(r.0 as int, r.1 as int) == trim(v@.subrange(lo as int, hi as int)),
{
    let ghost s = v@.subrange(lo as int, hi as int);
    let mut a = lo;
    while a < hi && is_white_space(v[a])
        invariant
            lo <= a <= hi <= v.len(),
            s == v@.subrange(lo as int, hi as int),
            forall|i: int| 0 <= i < a - lo ==> unicode_white_space(#[trigger] s[i]),
        decreases hi - a,
    {
        a = a + 1;
    }
    proof {
        lemma_trim_start_skip(s, a - lo);
        assert(s.skip(a - lo) == v@.subrange(a as int, hi as int));
    }
    let ghost u = v@.subrange(a as int, hi as int);
    let mut b = hi;
    while b > a && is_white_space(v[b - 1])
        invariant
            lo <= a <= b <= hi <= v.len(),
            u == v@.subrange(a as int, hi as int),
            forall|i: int| b - a <= i < u.len() ==> unicode_white_space(#[trigger] u[i]),
        decreases b - a,
    {
        b = b - 1;
    }
    proof {
        lemma_trim_end_take(u, b - a);
        assert(u.take(b - a) == v@.subrange(a as int, b as int));
    }
    (a, b)
}

pub proof fn lemma_find_char(s: Seq<char>, c: char)
    ensures
        match find_char(s, c) {
            Some(k) => 0 <= k < s.len() && s[k] == c && forall|j: int| 0 <= j < k ==> s[j] != c,
            None => forall|j: int| 0 <= j < s.len() ==> s[j] != c,
        },
    decreases s.len(),
{
    if s.len() > 0 {
        lemma_find_char(s.drop_first(), c);
        if s[0] != c {
            assert forall|j: int| 0 < j < s.len() implies s[j] == s.drop_first()[j - 1] by {}
        }
    }
}

/// Index of the first `c` in `v[lo..hi]` (an absolute index into `v`).
pub fn find_char_in(v: &Vec<char>, lo: usize, hi: usize, c: char) -> (r: Option<usize>)
    requires
        lo <= hi <= v.len(),
    ensures
        match find_char(v@.subrange(lo as int, hi as int), c) {
            Some(k) => r == Some((lo + k) as usize) && lo <= lo + k < hi,
            None => r is None,
        },
{
    proof {
        lemma_find_char(v@.subrange(lo as int, hi as int), c);
    }
    let ghost s = v@.subrange(lo as int, hi as int);
    let mut i = lo;
    while i < hi
        invariant
            lo <= i <= hi <= v.len(),
            s == v@.subrange(lo as int, hi as int),
            find_char(s, c) == match find_char(v@.subrange(i as int, hi as int), c) {
                Some(j) => Some(j + (i - lo)),
                None => None,
            },
        decreases hi - i,
    {
        assert(v@.subrange(i as int, hi as int).drop_first() == v@.subrange(i + 1, hi as int));
        if v[i] == c {
            return Some(i);
        }
        i = i + 1;
    }
    None
}

/// The characters of `v[lo..hi]`.
pub fn slice_chars(v: &Vec<char>, lo: usize, hi: usize) -> (r: Vec<char>)
    requires
        lo <= hi <= v.len(),
    ensures
        r@ == v@.subrange(lo as int, hi as int),
{
    let mut r: Vec<char> = Vec::new();
    let mut i = lo;
    while i < hi
        invariant
            lo <= i <= hi <= v.len(),
            r@ == v@.subrange(lo as int, i as int),
        decreases hi - i,
    {
        r.push(v[i]);
        assert(v@.subrange(lo as int, i + 1) == v@.subrange(lo as int, i as int).push(v@[i as int]));
        i = i + 1;
    }
    r
}

/// Whether `v[i..i + p.len()]` equals `p`.
fn matches_at(v: &Vec<char>, p: &Vec<char>, i: usize) -> (r: bool)
    requires
        i + p.len() <= v.len(),
    ensures
        r == contains_at(v@, p@, i as int),
{
    let mut k: usize = 0;
    while k < p.len()
        invariant
            k <= p.len(),
            i + p.len() <= v.len(),
            forall|j: int| 0 <= j < k ==> v@[i + j] == p@[j],
        decreases p.len() - k,
    {
        if v[i + k] != p[k] {
            assert(v@.subrange(i as int, i + p.len())[k as int] != p@[k as int]);
            return false;
        }
        k = k + 1;
    }
    assert(v@.subrange(i as int, i + p.len()) =~= p@);
    true
}

/// `str::ends_with`.
pub fn ends_with_str(s: &str, suffix: &str) -> (r: bool)
    ensures
        r == has_suffix(s@, suffix@),
{
    let v = chars_of(s);
    let p = chars_of(suffix);
    if p.len() > v.len() {
        return false;
    }
    let start = v.len() - p.len();
    let r = matches_at(&v, &p, start);
    assert(v@.subrange(start as int, v@.len() as int) == v@.skip(start as int));
    r
}

/// `str::contains` for a string pattern.
pub fn contains_str(s: &str, pattern: &str) -> (r: bool)
    ensures
        r == contains_seq(s@, pattern@),
{
    let v = chars_of(s);
    let p = chars_of(pattern);
    if p.len() > v.len() {
        return false;
    }
    let last = v.len() - p.len();
    let mut i: usize = 0;
    loop
        invariant
            p.len() <= v.len(),
            last == v.len() - p.len(),
            i <= last,
            v@ == s@,
            p@ == pattern@,
            forall|j: int| 0 <= j < i ==> !contains_at(v@, p@, j),
        ensures
            forall|j: int| 0 <= j <= last ==> !contains_at(v@, p@, j),
        decreases last - i,
    {
        if matches_at(&v, &p, i) {
            return true;
        }
        if i == last {
            break;
        }
        i = i + 1;
    }
    assert forall|j: int| !contains_at(v@, p@, j) by {
        if 0 <= j && j + p@.len() <= v@.len() {
            assert(j <= last);
        }
    }
    false
}

/// `str::strip_prefix` for a string prefix.
pub fn strip_prefix_str<'a>(s: &'a str, prefix: &str) -> (r: Option<&'a str>)
    ensures
        match r {
            Some(t) => has_prefix(s@, prefix@) && t@ == s@.skip(prefix@.len() as int),
            None => !has_prefix(s@, prefix@),
        },
{
    let v = chars_of(s);
    let p = chars_of(prefix);
    if p.len() > v.len() {
        return None;
    }
    if matches_at(&v, &p, 0) {
        assert(v@.subrange(0, p@.len() as int) == v@.take(p@.len() as int));
        let n = v.len();
        let t = s.substring_char(p.len(), n);
        assert(v@.subrange(p@.len() as int, n as int) == v@.skip(p@.len() as int));
        Some(t)
    } else {
        assert(v@.subrange(0, p@.len() as int) == v@.take(p@.len() as int));
        None
    }
}

} // verus!
