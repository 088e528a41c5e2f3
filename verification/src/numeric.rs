//! Exact decimal values for `decimal`/`numeric`/`money` parameters and
//! columns: an unscaled integer and a scale, parsed from and rendered to
//! base-10 text without any floating-point intermediate.
use vstd::prelude::*;

use crate::text::{
    concat3, extend_str, lemma_digits_value_monotone,
    all_digits, chars_of, dec_digits, digits_value, extend_chars,
    find_char, find_char_in, is_digit, pad_zeros, parse_i128, parse_i128_chars, parse_unsigned,
    slice_chars, string_of, trim, trim_range, u128_digits, unicode_white_space,
    zero_padded_digits, lemma_dec_digits, lemma_zeros_value, lemma_digits_value_concat_zeros,
    lemma_all_digits_concat, lemma_find_char, trim_start, trim_end,
};

verus! {

/// A decimal number `value / 10^scale`.
pub struct NumericValue {
    pub value: i128,
    pub scale: u8,
}

/// Why a decimal string could not be turned into a `NumericValue`.
pub enum NumericError {
    /// More fractional digits than the declared scale; `text` is the input
    /// after trimming and removing its sign.
    TooManyFractionalDigits { text: String, scale: u8 },
    /// The digits (integer part followed by the zero-padded fraction) are
    /// not a valid `i128`.
    InvalidDigits(String),
}

/// The length of the leading run of decimal digits.
pub open spec fn first_non_digit(s: Seq<char>) -> nat
    decreases s.len(),
{
    if s.len() > 0 && is_digit(s[0]) {
        1 + first_non_digit(s.drop_first())
    } else {
        0
    }
}

/// The message of the error `str::parse::<i128>` reports for a text it
/// rejects (`ParseIntError`'s `Display`): after an optional sign, an empty
/// text or sign alone is refused, digits whose value leaves the `i128`
/// range before the first non-digit overflow, and any other text has an
/// invalid digit.
pub open spec fn int_parse_error_text(s: Seq<char>) -> Seq<char> {
    let neg = s.len() > 0 && s[0] == '-';
    let body = if s.len() > 0 && (s[0] == '+' || s[0] == '-') {
        s.drop_first()
    } else {
        s
    };
    let prefix = body.take(first_non_digit(body) as int);
    if s.len() == 0 {
        "cannot parse integer from empty string"@
    } else if body.len() == 0 {
        "invalid digit found in string"@
    } else if neg && digits_value(prefix) > 0x8000_0000_0000_0000_0000_0000_0000_0000 {
        "number too small to fit in target type"@
    } else if !neg && digits_value(prefix) > 0x7fff_ffff_ffff_ffff_ffff_ffff_ffff_ffff {
        "number too large to fit in target type"@
    } else {
        "invalid digit found in string"@
    }
}

proof fn lemma_first_non_digit(s: Seq<char>, j: int)
    requires
        0 <= j <= s.len(),
        all_digits(s.take(j)),
    ensures
        first_non_digit(s) >= j,
        first_non_digit(s) <= s.len(),
        j == s.len() ==> first_non_digit(s) == j,
        j < s.len() && !is_digit(s[j]) ==> first_non_digit(s) == j,
    decreases j,
{
    if j > 0 {
        assert(is_digit(s.take(j)[0]));
        let t = s.drop_first();
        assert forall|i: int| 0 <= i < t.take(j - 1).len() implies is_digit(#[trigger] t.take(j - 1)[i]) by {
            assert(t.take(j - 1)[i] == s.take(j)[i + 1]);
        }
        if j < s.len() {
            assert(t[j - 1] == s[j]);
        }
        lemma_first_non_digit(t, j - 1);
    } else {
        lemma_first_non_digit_bounded(s);
    }
}

proof fn lemma_first_non_digit_bounded(s: Seq<char>)
    ensures
        first_non_digit(s) <= s.len(),
    decreases s.len(),
{
    if s.len() > 0 {
        lemma_first_non_digit_bounded(s.drop_first());
    }
}

/// The `ParseIntError` message for a text that `str::parse::<i128>` rejects
/// (`int_parse_error_text`).
fn int_parse_error(v: &Vec<char>) -> (r: String)
    ensures
        r@ == int_parse_error_text(v@),
{
    if v.len() == 0 {
        return "cannot parse integer from empty string".to_owned();
    }
    let neg = v[0] == '-';
    let start: usize = if v[0] == '+' || v[0] == '-' {
        1
    } else {
        0
    };
    let ghost body = v@.skip(start as int);
    assert(start == 1 ==> body == v@.drop_first());
    assert(start == 0 ==> body == v@);
    if start == v.len() {
        return "invalid digit found in string".to_owned();
    }
    let bound: u128 = if neg {
        0x8000_0000_0000_0000_0000_0000_0000_0000
    } else {
        0x7fff_ffff_ffff_ffff_ffff_ffff_ffff_ffff
    };
    let mut acc: u128 = 0;
    let mut i: usize = start;
    assert(body.take(0) =~= Seq::<char>::empty());
    while i < v.len()
        invariant
            start <= i <= v.len(),
            start <= 1,
            v@.len() > 0,
            neg == (v@[0] == '-'),
            start == 1 <==> (v@[0] == '+' || v@[0] == '-'),
            bound == if neg {
                0x8000_0000_0000_0000_0000_0000_0000_0000u128
            } else {
                0x7fff_ffff_ffff_ffff_ffff_ffff_ffff_ffffu128
            },
            body == v@.skip(start as int),
            body == if v@[0] == '+' || v@[0] == '-' {
                v@.drop_first()
            } else {
                v@
            },
            all_digits(body.take(i - start)),
            acc as nat == digits_value(body.take(i - start)),
            acc <= bound,
            bound >= 9,
        decreases v.len() - i,
    {
        let c = v[i];
        let cu = c as u32;
        assert(body[i - start] == c);
        assert(body.take(i - start + 1).drop_last() == body.take(i - start));
        if !(48 <= cu && cu <= 57) {
            proof {
                lemma_first_non_digit(body, i - start);
            }
            return "invalid digit found in string".to_owned();
        }
        let d: u128 = (cu - 48) as u128;
        assert(is_digit(c));
        assert(all_digits(body.take(i - start + 1))) by {
            assert forall|k: int| 0 <= k < body.take(i - start + 1).len() implies is_digit(
                #[trigger] body.take(i - start + 1)[k],
            ) by {
                if k < i - start {
                    assert(body.take(i - start + 1)[k] == body.take(i - start)[k]);
                }
            }
        }
        if acc > (bound - d) / 10 {
            assert(acc * 10 + d > bound) by (nonlinear_arith)
                requires
                    acc > (bound - d) / 10,
                    d <= bound,
                    d <= 9,
            {
            }
            proof {
                lemma_first_non_digit(body, i - start + 1);
                let k = first_non_digit(body) as int;
                lemma_digits_value_monotone(body, i - start + 1, k);
            }
            if neg {
                return "number too small to fit in target type".to_owned();
            } else {
                return "number too large to fit in target type".to_owned();
            }
        }
        assert(acc * 10 + d <= bound) by (nonlinear_arith)
            requires
                acc <= (bound - d) / 10,
                d <= 9,
        {
        }
        acc = acc * 10 + d;
        i = i + 1;
    }
    proof {
        lemma_first_non_digit(body, i - start);
        assert(body.take(body.len() as int) == body);
    }
    "invalid digit found in string".to_owned()
}

/// The message of a decimal-parsing error.
pub open spec fn numeric_error_text(e: NumericError) -> Seq<char> {
    match e {
        NumericError::TooManyFractionalDigits { text, scale } => "value '"@ + text@
            + "' has more fractional digits than the declared scale ("@ + dec_digits(scale as nat)
            + ")"@,
        NumericError::InvalidDigits(d) => int_parse_error_text(d@),
    }
}

impl NumericError {
    /// The error's message (`numeric_error_text`).
    pub fn message(&self) -> (r: String)
        ensures
            r@ == numeric_error_text(*self),
    {
        match self {
            NumericError::TooManyFractionalDigits { text, scale } => {
                let mut v: Vec<char> = Vec::new();
                extend_str(&mut v, "value '");
                extend_str(&mut v, text.as_str());
                extend_str(&mut v, "' has more fractional digits than the declared scale (");
                let d = u128_digits(*scale as u128);
                extend_chars(&mut v, &d);
                extend_str(&mut v, ")");
                string_of(&v)
            },
            NumericError::InvalidDigits(d) => {
                let v = chars_of(d.as_str());
                int_parse_error(&v)
            },
        }
    }
}

/// The UTF-8 encoded length of one character.
pub open spec fn utf8_width(c: char) -> nat {
    let u = c as u32;
    if u < 0x80 {
        1
    } else if u < 0x800 {
        2
    } else if u < 0x10000 {
        3
    } else {
        4
    }
}

/// The UTF-8 encoded length of a string (`str::len`).
pub open spec fn utf8_len(s: Seq<char>) -> nat
    decreases s.len(),
{
    if s.len() == 0 {
        0
    } else {
        utf8_len(s.drop_last()) + utf8_width(s.last())
    }
}

/// Trimmed input with its sign removed, and whether it was negative.
pub open spec fn numeric_body(text: Seq<char>) -> (bool, Seq<char>) {
    let t = trim(text);
    if t.len() > 0 && t[0] == '-' {
        (true, t.drop_first())
    } else if t.len() > 0 && t[0] == '+' {
        (false, t.drop_first())
    } else {
        (false, t)
    }
}

/// The integer and fractional parts of the body, split at its first `.`.
pub open spec fn numeric_split(body: Seq<char>) -> (Seq<char>, Seq<char>) {
    match find_char(body, '.') {
        Some(k) => (body.take(k), body.skip(k + 1)),
        None => (body, Seq::empty()),
    }
}

/// The unscaled digit string: integer part, then the fraction right-padded
/// with zeros to `scale` digits.
pub open spec fn numeric_digits(text: Seq<char>, scale: nat) -> Seq<char> {
    let (int_part, frac) = numeric_split(numeric_body(text).1);
    int_part + frac + Seq::new((scale - frac.len()) as nat, |i: int| '0')
}

pub enum NumericOutcome {
    TooManyFractionalDigits,
    InvalidDigits,
    Value(int),
}

/// What `parse_numeric` makes of `text` at `scale`.
pub open spec fn numeric_outcome(text: Seq<char>, scale: nat) -> NumericOutcome {
    let (neg, body) = numeric_body(text);
    let (int_part, frac) = numeric_split(body);
    if utf8_len(frac) > scale {
        NumericOutcome::TooManyFractionalDigits
    } else {
        let digits = numeric_digits(text, scale);
        let unscaled = if digits.len() == 0 {
            Some(0int)
        } else {
            parse_i128(digits)
        };
        match unscaled {
            Some(u) => NumericOutcome::Value(if neg { -u } else { u }),
            None => NumericOutcome::InvalidDigits,
        }
    }
}

/// The inputs on which the sign flip overflows an `i128` (a negative sign in
/// front of digits that already denote `i128::MIN`).
pub open spec fn numeric_sign_overflows(text: Seq<char>, scale: nat) -> bool {
    numeric_outcome(text, scale) == NumericOutcome::Value(0x8000_0000_0000_0000_0000_0000_0000_0000)
}

pub open spec fn abs_int(v: int) -> nat {
    if v < 0 { (-v) as nat } else { v as nat }
}

/// The exact decimal rendering of a `NumericValue`: a `-` for negative
/// values, the integer digits (at least one), and for a positive scale a
/// `.` followed by exactly `scale` fractional digits.
pub open spec fn numeric_text(n: NumericValue) -> Seq<char> {
    let digits = dec_digits(abs_int(n.value as int));
    let scale = n.scale as nat;
    let body = if scale == 0 {
        digits
    } else {
        let p = pad_zeros(digits, scale + 1);
        p.take(p.len() - scale) + seq!['.'] + p.skip(p.len() - scale)
    };
    if n.value < 0 {
        seq!['-'] + body
    } else {
        body
    }
}

fn utf8_length(v: &Vec<char>, lo: usize, hi: usize) -> (r: usize)
    requires
        lo <= hi <= v.len(),
    ensures
        r as nat == utf8_len(v@.subrange(lo as int, hi as int)) || (r == usize::MAX
            && utf8_len(v@.subrange(lo as int, hi as int)) >= usize::MAX),
{
    let mut total: usize = 0;
    let mut i = lo;
    while i < hi
        invariant
            lo <= i <= hi <= v.len(),
            total as nat == utf8_len(v@.subrange(lo as int, i as int)),
        decreases hi - i,
    {
        let u = v[i] as u32;
        let w: usize = if u < 0x80 {
            1
        } else if u < 0x800 {
            2
        } else if u < 0x10000 {
            3
        } else {
            4
        };
        assert(v@.subrange(lo as int, i + 1).drop_last() == v@.subrange(lo as int, i as int));
        if total > usize::MAX - w {
            proof {
                lemma_utf8_len_prefix(v@.subrange(lo as int, hi as int), i + 1 - lo);
                assert(v@.subrange(lo as int, hi as int).take(i + 1 - lo) == v@.subrange(
                    lo as int,
                    i + 1,
                ));
            }
            return usize::MAX;
        }
        total = total + w;
        i = i + 1;
    }
    total
}

proof fn lemma_utf8_len_prefix(s: Seq<char>, k: int)
    requires
        0 <= k <= s.len(),
    ensures
        utf8_len(s.take(k)) <= utf8_len(s),
    decreases s.len() - k,
{
    if k < s.len() {
        lemma_utf8_len_prefix(s, k + 1);
        assert(s.take(k + 1).drop_last() == s.take(k));
    } else {
        assert(s.take(k) == s);
    }
}

/// What the unscaled digits of `text` at `scale` are: `Value(v)` with the
/// sign still to be applied.
pub open spec fn unscaled_outcome(text: Seq<char>, scale: nat) -> NumericOutcome {
    let (neg, body) = numeric_body(text);
    let (int_part, frac) = numeric_split(body);
    if utf8_len(frac) > scale {
        NumericOutcome::TooManyFractionalDigits
    } else {
        let digits = numeric_digits(text, scale);
        if digits.len() == 0 {
            NumericOutcome::Value(0)
        } else {
            match parse_i128(digits) {
                Some(u) => NumericOutcome::Value(u),
                None => NumericOutcome::InvalidDigits,
            }
        }
    }
}

pub open spec fn numeric_error_matches(text: Seq<char>, scale: u8, e: NumericError) -> bool {
    match unscaled_outcome(text, scale as nat) {
        NumericOutcome::TooManyFractionalDigits => e matches NumericError::TooManyFractionalDigits {
            text: t,
            scale: s,
        } && t@ == numeric_body(text).1 && s == scale,
        NumericOutcome::InvalidDigits => e matches NumericError::InvalidDigits(d) && d@
            == numeric_digits(text, scale as nat),
        NumericOutcome::Value(_) => false,
    }
}

/// The sign and the unscaled digits of a decimal string: the text is
/// trimmed, a leading `-` (or `+`) is taken as the sign, and the digits
/// before and after the first `.` are joined with the fraction zero-padded
/// to `scale`.
#[verifier::spinoff_prover]
#[verifier::rlimit(40)]
pub(crate) fn unscaled_digits(text: &str, scale: u8) -> (r: Result<(bool, i128), NumericError>)
    ensures
        match r {
            Ok((neg, u)) => unscaled_outcome(text@, scale as nat) == NumericOutcome::Value(
                u as int,
            ) && neg == numeric_body(text@).0,
            Err(e) => numeric_error_matches(text@, scale, e),
        },
{
    let v = chars_of(text);
    let (a, b) = trim_range(&v, 0, v.len());
    assert(v@.subrange(0, v@.len() as int) == v@);
    let mut neg = false;
    let mut s = a;
    if a < b && v[a] == '-' {
        neg = true;
        s = a + 1;
    } else if a < b && v[a] == '+' {
        s = a + 1;
    }
    assert(numeric_body(text@) == (neg, v@.subrange(s as int, b as int)));
    let ghost body = v@.subrange(s as int, b as int);
    let (ip_end, fp_start) = match find_char_in(&v, s, b, '.') {
        Some(k) => (k, k + 1),
        None => (b, b),
    };
    proof {
        match find_char(body, '.') {
            Some(k) => {
                assert(body.take(k) == v@.subrange(s as int, ip_end as int));
                assert(body.skip(k + 1) == v@.subrange(fp_start as int, b as int));
            },
            None => {
                assert(v@.subrange(fp_start as int, b as int) =~= Seq::<char>::empty());
            },
        }
    }
    assert(numeric_split(body) == (v@.subrange(s as int, ip_end as int), v@.subrange(
        fp_start as int,
        b as int,
    )));
    let frac_bytes = utf8_length(&v, fp_start, b);
    if frac_bytes > scale as usize {
        return Err(NumericError::TooManyFractionalDigits {
            text: string_of(&slice_chars(&v, s, b)),
            scale,
        });
    }
    let mut digits = slice_chars(&v, s, ip_end);
    let frac = slice_chars(&v, fp_start, b);
    proof {
        lemma_utf8_len_at_least_len(frac@);
    }
    extend_chars(&mut digits, &frac);
    let pad = scale as usize - frac.len();
    let mut i: usize = 0;
    let ghost base = digits@;
    while i < pad
        invariant
            i <= pad,
            digits@ == base + Seq::new(i as nat, |k: int| '0'),
        decreases pad - i,
    {
        digits.push('0');
        i = i + 1;
        assert(digits@ =~= base + Seq::new(i as nat, |k: int| '0'));
    }
    assert(digits@ == numeric_digits(text@, scale as nat));
    if digits.len() == 0 {
        return Ok((neg, 0));
    }
    match parse_i128_chars(&digits) {
        Some(u) => Ok((neg, u)),
        None => Err(NumericError::InvalidDigits(string_of(&digits))),
    }
}

/// Whether negating the digits of `text` overflows an `i128`
/// (`numeric_sign_overflows`): the digits denote `i128::MIN` and the text
/// is negative.
pub fn numeric_negation_overflows(text: &str, scale: u8) -> (r: bool)
    ensures
        r == numeric_sign_overflows(text@, scale as nat),
{
    match unscaled_digits(text, scale) {
        Ok((neg, u)) => neg && u == i128::MIN,
        Err(_) => false,
    }
}

/// Parses a base-10 decimal string (optionally signed, optionally with a
/// `.`) into a `NumericValue` of the given scale: the text is trimmed, a
/// leading `-` (or `+`) is taken as the sign, and the digits before and
/// after the first `.` are joined with the fraction zero-padded to `scale`.
pub fn parse_numeric(text: &str, scale: u8) -> (r: Result<NumericValue, NumericError>)
    requires
        numeric_outcome(text@, scale as nat) is Value ==> scale < 38,
        !numeric_sign_overflows(text@, scale as nat),
    ensures
        match numeric_outcome(text@, scale as nat) {
            NumericOutcome::Value(v) => r == Ok::<NumericValue, NumericError>(
                NumericValue { value: v as i128, scale },
            ),
            NumericOutcome::TooManyFractionalDigits => r matches Err(
                NumericError::TooManyFractionalDigits { text: t, scale: s },
            ) && t@ == numeric_body(text@).1 && s == scale,
            NumericOutcome::InvalidDigits => r matches Err(NumericError::InvalidDigits(d)) && d@
                == numeric_digits(text@, scale as nat),
        },
{
    match unscaled_digits(text, scale) {
        Ok((neg, unscaled)) => {
            let value: i128 = if neg {
                0i128 - unscaled
            } else {
                unscaled
            };
            Ok(NumericValue { value, scale })
        },
        Err(e) => Err(e),
    }
}

proof fn lemma_utf8_len_at_least_len(s: Seq<char>)
    ensures
        utf8_len(s) >= s.len(),
    decreases s.len(),
{
    if s.len() > 0 {
        lemma_utf8_len_at_least_len(s.drop_last());
    }
}

/// Renders a `NumericValue` as an exact decimal string: the sign appears
/// once, in front, and a positive scale always yields exactly `scale`
/// fractional digits with at least one integer digit (`-0.01`, `5.00`).
pub fn format_numeric(n: NumericValue) -> (r: String)
    ensures
        r@ == numeric_text(n),
{
    let scale = n.scale as usize;
    let value = n.value;
    let negative = value < 0;
    let magnitude: u128 = if value >= 0 {
        value as u128
    } else if value == i128::MIN {
        0x8000_0000_0000_0000_0000_0000_0000_0000
    } else {
        (0i128 - value) as u128
    };
    let mut out: Vec<char> = Vec::new();
    if negative {
        out.push('-');
    }
    if scale == 0 {
        let digits = u128_digits(magnitude);
        extend_chars(&mut out, &digits);
    } else {
        let padded = zero_padded_digits(magnitude, scale + 1);
        let split_at = padded.len() - scale;
        let int_part = slice_chars(&padded, 0, split_at);
        let frac_part = slice_chars(&padded, split_at, padded.len());
        assert(padded@.subrange(0, split_at as int) == padded@.take(split_at as int));
        assert(padded@.subrange(split_at as int, padded@.len() as int) == padded@.skip(
            split_at as int,
        ));
        extend_chars(&mut out, &int_part);
        out.push('.');
        extend_chars(&mut out, &frac_part);
    }
    proof {
        if negative {
            assert(out@ == seq!['-'] + (out@.drop_first()));
        }
    }
    string_of(&out)
}

proof fn lemma_ascii_digits_utf8(s: Seq<char>)
    requires
        all_digits(s),
    ensures
        utf8_len(s) == s.len(),
    decreases s.len(),
{
    if s.len() > 0 {
        assert(is_digit(s.last()));
        assert forall|i: int| 0 <= i < s.drop_last().len() implies is_digit(
            #[trigger] s.drop_last()[i],
        ) by {
            assert(s.drop_last()[i] == s[i]);
        }
        lemma_ascii_digits_utf8(s.drop_last());
    }
}

proof fn lemma_trim_keeps(s: Seq<char>)
    requires
        s.len() > 0,
        !unicode_white_space(s[0]),
        !unicode_white_space(s.last()),
    ensures
        trim(s) == s,
{
    assert(trim_start(s) == s);
    assert(trim_end(s) == s);
}

proof fn lemma_split_rendered(int_part: Seq<char>, frac: Seq<char>, scale: nat)
    requires
        all_digits(int_part),
        all_digits(frac),
        int_part.len() > 0,
        frac.len() == scale,
    ensures
        ({
            let body = if scale == 0 { int_part } else { int_part + seq!['.'] + frac };
            &&& numeric_split(body) == (int_part, frac)
            &&& is_digit(body[0])
            &&& is_digit(body.last())
        }),
{
    let body = if scale == 0 { int_part } else { int_part + seq!['.'] + frac };
    lemma_find_char(body, '.');
    if scale == 0 {
        assert(frac =~= Seq::<char>::empty());
        assert forall|j: int| 0 <= j < body.len() implies body[j] != '.' by {
            assert(is_digit(body[j]));
        }
    } else {
        assert(body[int_part.len() as int] == '.');
        assert forall|j: int| 0 <= j < int_part.len() implies body[j] != '.' by {
            assert(body[j] == int_part[j]);
            assert(is_digit(int_part[j]));
        }
        assert(body.take(int_part.len() as int) == int_part);
        assert(body.skip(int_part.len() as int + 1) == frac);
        assert(body[0] == int_part[0]);
        assert(body.last() == frac.last());
    }
}

proof fn lemma_padded_digits(mag: nat, scale: nat)
    ensures
        ({
            let p = pad_zeros(dec_digits(mag), scale + 1);
            &&& all_digits(p)
            &&& digits_value(p) == mag
            &&& p.len() >= scale + 1
        }),
{
    let digits = dec_digits(mag);
    lemma_dec_digits(mag);
    let p = pad_zeros(digits, scale + 1);
    let zl: nat = if digits.len() >= scale + 1 { 0 } else { (scale + 1 - digits.len()) as nat };
    let zs = Seq::new(zl, |i: int| '0');
    assert(p == zs + digits) by {
        if digits.len() >= scale + 1 {
            assert(zs + digits =~= digits);
        }
    }
    lemma_zeros_value(zl);
    lemma_all_digits_concat(zs, digits);
    lemma_digits_value_concat_zeros(zl, digits);
}

proof fn lemma_digit_parts(p: Seq<char>, k: int)
    requires
        all_digits(p),
        0 <= k <= p.len(),
    ensures
        all_digits(p.take(k)),
        all_digits(p.skip(k)),
        p.take(k) + p.skip(k) == p,
{
    assert forall|i: int| 0 <= i < p.take(k).len() implies is_digit(#[trigger] p.take(k)[i]) by {
        assert(p.take(k)[i] == p[i]);
    }
    assert forall|i: int| 0 <= i < p.skip(k).len() implies is_digit(#[trigger] p.skip(k)[i]) by {
        assert(p.skip(k)[i] == p[i + k]);
    }
}

/// Rendering a value and parsing the text back at the same scale gives the
/// same value: `format_numeric` and `parse_numeric` are inverse on every
/// value whose magnitude fits in an `i128` (all but `i128::MIN`).
pub proof fn law_numeric_round_trip(n: NumericValue)
    requires
        n.value != i128::MIN,
    ensures
        numeric_outcome(numeric_text(n), n.scale as nat) == NumericOutcome::Value(n.value as int),
{
    let mag = abs_int(n.value as int);
    let scale = n.scale as nat;
    let digits = dec_digits(mag);
    lemma_dec_digits(mag);
    lemma_padded_digits(mag, scale);
    let p = pad_zeros(digits, scale + 1);
    let text = numeric_text(n);
    // the integer and fractional digit runs of the rendering
    let (int_part, frac) = if scale == 0 {
        (digits, Seq::<char>::empty())
    } else {
        (p.take(p.len() - scale), p.skip(p.len() - scale))
    };
    if scale > 0 {
        lemma_digit_parts(p, p.len() - scale);
    }
    let body = if scale == 0 { int_part } else { int_part + seq!['.'] + frac };
    lemma_split_rendered(int_part, frac, scale);
    assert(numeric_body(text) == (n.value < 0, body)) by {
        if n.value < 0 {
            assert(text == seq!['-'] + body);
            assert(text.last() == body.last());
            lemma_trim_keeps(text);
            assert(text.drop_first() == body);
        } else {
            lemma_trim_keeps(text);
        }
    }
    lemma_ascii_digits_utf8(frac);
    let ds = numeric_digits(text, scale);
    assert(ds == int_part + frac) by {
        assert(Seq::new((scale - frac.len()) as nat, |i: int| '0') =~= Seq::<char>::empty());
        assert(int_part + frac + Seq::<char>::empty() == int_part + frac);
    }
    assert(all_digits(ds) && digits_value(ds) == mag) by {
        if scale == 0 {
            assert(digits + Seq::<char>::empty() == digits);
        }
    }
    assert(is_digit(ds[0])) by {
        assert(ds[0] == int_part[0]);
    }
    assert(parse_unsigned(ds, 0x7fff_ffff_ffff_ffff_ffff_ffff_ffff_ffff) == Some(mag));
    assert(parse_i128(ds) == Some(mag as int));
}

} // verus!
