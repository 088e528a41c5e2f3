//! Reading an `x-sql-type` string (the exact SQL Server type text such as
//! `nvarchar(256)` or `decimal(18,2)`): its base type name and its declared
//! precision and scale.
use vstd::prelude::*;

use crate::text::{
    dec_digits, is_digit, lemma_dec_digits,
    ascii_lower, ascii_lowercase, before_char, chars_of, find_char, find_char_in,
    lemma_find_char, parse_u8, parse_unsigned, slice_chars, string_of, to_ascii_lower, trim,
    trim_end, trim_range, trim_start, unicode_white_space,
};

verus! {

/// The base type: the text before the first `(`, trimmed of white space and
/// ASCII-lowercased (`"decimal(18,2)"` -> `"decimal"`).
pub open spec fn base_type_of(x: Seq<char>) -> Seq<char> {
    ascii_lowercase(trim(before_char(x, '(')))
}

/// The text between the first `(` and a final `)`, when the type has such
/// a suffix.
pub open spec fn type_arguments(x: Seq<char>) -> Option<Seq<char>> {
    match find_char(x, '(') {
        Some(k) => {
            let rest = x.skip(k + 1);
            if rest.len() > 0 && rest.last() == ')' {
                Some(rest.drop_last())
            } else {
                None
            }
        },
        None => None,
    }
}

/// The `(precision, scale)` a type declares: each comma-separated argument
/// is trimmed and read as a `u8`; a missing or unreadable precision is 18
/// and a missing or unreadable scale is 0 (SQL Server's `decimal` default).
pub open spec fn precision_scale_of(x: Seq<char>) -> (u8, u8) {
    match type_arguments(x) {
        None => (18, 0),
        Some(inner) => {
            let precision = match parse_unsigned(trim(before_char(inner, ',')), 255) {
                Some(v) => v as u8,
                None => 18u8,
            };
            let scale = match find_char(inner, ',') {
                Some(j) => match parse_unsigned(trim(before_char(inner.skip(j + 1), ',')), 255) {
                    Some(v) => v as u8,
                    None => 0u8,
                },
                None => 0u8,
            };
            (precision, scale)
        },
    }
}

/// Strips the `(...)` length/precision suffix, if any, and lowercases:
/// `"NVARCHAR(256)"` -> `"nvarchar"`.
pub fn base_type(x_sql_type: &str) -> (r: String)
    ensures
        r@ == base_type_of(x_sql_type@),
{
    let v = chars_of(x_sql_type);
    let end = match find_char_in(&v, 0, v.len(), '(') {
        Some(k) => k,
        None => v.len(),
    };
    proof {
        assert(v@.subrange(0, v@.len() as int) == v@);
        assert(v@.subrange(0, end as int) == before_char(v@, '('));
    }
    let (a, b) = trim_range(&v, 0, end);
    let mut out: Vec<char> = Vec::new();
    let mut i = a;
    while i < b
        invariant
            a <= i <= b <= v.len(),
            out@ == ascii_lowercase(v@.subrange(a as int, i as int)),
        decreases b - i,
    {
        out.push(to_ascii_lower(v[i]));
        i = i + 1;
        assert(out@ =~= ascii_lowercase(v@.subrange(a as int, i as int)));
    }
    string_of(&out)
}

fn parse_u8_trimmed(v: &Vec<char>, lo: usize, hi: usize) -> (r: Option<u8>)
    requires
        lo <= hi <= v.len(),
    ensures
        match parse_unsigned(trim(v@.subrange(lo as int, hi as int)), 255) {
            Some(n) => r == Some(n as u8),
            None => r is None,
        },
{
    let (a, b) = trim_range(v, lo, hi);
    let part = slice_chars(v, a, b);
    parse_u8(&part)
}

/// Extracts `(precision, scale)` from a `decimal(p,s)`/`numeric(p,s)` type,
/// defaulting to SQL Server's `(18, 0)` when the suffix is missing and each
/// number to its default when it is missing or unreadable.
pub fn precision_scale(x_sql_type: &str) -> (r: (u8, u8))
    ensures
        r == precision_scale_of(x_sql_type@),
{
    let v = chars_of(x_sql_type);
    let n = v.len();
    assert(v@.subrange(0, n as int) == v@);
    let open = match find_char_in(&v, 0, n, '(') {
        Some(k) => k,
        None => {
            return (18, 0);
        },
    };
    if n == open + 1 || v[n - 1] != ')' {
        assert(v@.skip(open + 1).len() == 0 || v@.skip(open + 1).last() == v@[n - 1]);
        return (18, 0);
    }
    let lo = open + 1;
    let hi = n - 1;
    let ghost inner = v@.subrange(lo as int, hi as int);
    assert(v@.skip(open + 1).drop_last() == inner);
    assert(type_arguments(v@) == Some(inner));
    let comma = find_char_in(&v, lo, hi, ',');
    let first_end = match comma {
        Some(j) => j,
        None => hi,
    };
    assert(v@.subrange(lo as int, first_end as int) == before_char(inner, ','));
    let precision = match parse_u8_trimmed(&v, lo, first_end) {
        Some(p) => p,
        None => 18,
    };
    let scale = match comma {
        Some(j) => {
            let lo2 = j + 1;
            let ghost rest = v@.subrange(lo2 as int, hi as int);
            assert(inner.skip(j + 1 - lo) == rest);
            let second_end = match find_char_in(&v, lo2, hi, ',') {
                Some(k) => k,
                None => hi,
            };
            assert(v@.subrange(lo2 as int, second_end as int) == before_char(rest, ','));
            match parse_u8_trimmed(&v, lo2, second_end) {
                Some(s) => s,
                None => 0,
            }
        },
        None => 0,
    };
    (precision, scale)
}

// ---------------------------------------------------------------------------
// Laws

proof fn lemma_trim_start_props(s: Seq<char>)
    ensures
        trim_start(s).len() == 0 || !unicode_white_space(trim_start(s)[0]),
        exists|k: int| 0 <= k <= s.len() && trim_start(s) == s.skip(k),
    decreases s.len(),
{
    if s.len() > 0 && unicode_white_space(s[0]) {
        lemma_trim_start_props(s.drop_first());
        let k = choose|k: int| 0 <= k <= s.drop_first().len() && trim_start(s.drop_first()) == s.drop_first().skip(k);
        assert(s.drop_first().skip(k) == s.skip(k + 1));
    } else {
        assert(s.skip(0) == s);
    }
}

proof fn lemma_trim_end_props(s: Seq<char>)
    ensures
        trim_end(s).len() == 0 || (!unicode_white_space(trim_end(s).last()) && trim_end(s)[0]
            == s[0]),
        exists|m: int| 0 <= m <= s.len() && trim_end(s) == s.take(m),
    decreases s.len(),
{
    if s.len() > 0 && unicode_white_space(s.last()) {
        lemma_trim_end_props(s.drop_last());
        let m = choose|m: int| 0 <= m <= s.drop_last().len() && trim_end(s.drop_last()) == s.drop_last().take(m);
        assert(s.drop_last().take(m) == s.take(m));
    } else {
        assert(s.take(s.len() as int) == s);
    }
}

proof fn lemma_trim_is_slice(s: Seq<char>)
    ensures
        trim(s).len() == 0 || (!unicode_white_space(trim(s)[0]) && !unicode_white_space(
            trim(s).last(),
        )),
        exists|a: int, b: int| 0 <= a <= b <= s.len() && trim(s) == s.subrange(a, b),
{
    lemma_trim_start_props(s);
    let k = choose|k: int| 0 <= k <= s.len() && trim_start(s) == s.skip(k);
    lemma_trim_end_props(trim_start(s));
    let m = choose|m: int| 0 <= m <= trim_start(s).len() && trim_end(trim_start(s)) == trim_start(s).take(m);
    assert(trim(s) == s.subrange(k, k + m));
}

proof fn lemma_lower_keeps_non_ws(c: char)
    requires
        !unicode_white_space(c),
    ensures
        !unicode_white_space(ascii_lower(c)),
        ascii_lower(ascii_lower(c)) == ascii_lower(c),
        ascii_lower(c) == '(' <==> c == '(',
{
}

/// The base type of a base type is itself: the result has no `(` suffix,
/// no surrounding white space and no upper-case ASCII letters left.
pub proof fn law_base_type_is_idempotent(x: Seq<char>)
    ensures
        base_type_of(base_type_of(x)) == base_type_of(x),
{
    let pre = before_char(x, '(');
    lemma_find_char(x, '(');
    assert forall|i: int| 0 <= i < pre.len() implies pre[i] != '(' by {
        assert(pre[i] == x[i]);
    }
    let t = trim(pre);
    lemma_trim_is_slice(pre);
    let (a, b) = choose|a: int, b: int| 0 <= a <= b <= pre.len() && t == pre.subrange(a, b);
    let r = ascii_lowercase(t);
    assert forall|i: int| 0 <= i < r.len() implies r[i] != '(' by {
        assert(t[i] == pre[a + i]);
        assert(t[i] != '(');
    }
    lemma_find_char(r, '(');
    assert(before_char(r, '(') == r);
    if r.len() > 0 {
        lemma_lower_keeps_non_ws(t[0]);
        lemma_lower_keeps_non_ws(t.last());
        assert(trim_start(r) == r);
        assert(trim_end(r) == r);
    } else {
        assert(trim(r) == r);
    }
    assert(trim(r) == r);
    assert forall|i: int| 0 <= i < r.len() implies ascii_lower(#[trigger] r[i]) == r[i] by {}
    assert(ascii_lowercase(r) =~= r);
}

proof fn lemma_small_number_arg(v: nat)
    requires
        v <= 255,
    ensures
        before_char(dec_digits(v), ',') == dec_digits(v),
        find_char(dec_digits(v), ',') is None,
        find_char(dec_digits(v), '(') is None,
        trim(dec_digits(v)) == dec_digits(v),
        parse_unsigned(dec_digits(v), 255) == Some(v),
{
    let d = dec_digits(v);
    lemma_dec_digits(v);
    lemma_find_char(d, ',');
    lemma_find_char(d, '(');
    assert(is_digit(d[0]));
    assert(is_digit(d.last()));
    if find_char(d, ',') is Some {
        let k = find_char(d, ',')->0;
        assert(is_digit(d[k]));
    }
    if find_char(d, '(') is Some {
        let k = find_char(d, '(')->0;
        assert(is_digit(d[k]));
    }
    assert(trim_start(d) == d);
    assert(trim_end(d) == d);
}

/// A type written as `<name>(<p>,<s>)`, with a name holding no `(` and `p`,
/// `s` in decimal, declares exactly precision `p` and scale `s`.
pub proof fn law_precision_scale_reads_declared_numbers(name: Seq<char>, p: u8, s: u8)
    requires
        forall|i: int| 0 <= i < name.len() ==> name[i] != '(',
    ensures
        precision_scale_of(
            name + seq!['('] + dec_digits(p as nat) + seq![','] + dec_digits(s as nat) + seq![')'],
        ) == (p, s),
{
    let dp = dec_digits(p as nat);
    let ds = dec_digits(s as nat);
    lemma_small_number_arg(p as nat);
    lemma_small_number_arg(s as nat);
    let x = name + seq!['('] + dp + seq![','] + ds + seq![')'];
    lemma_find_char(x, '(');
    assert(x[name.len() as int] == '(');
    assert forall|j: int| 0 <= j < name.len() implies x[j] != '(' by {
        assert(x[j] == name[j]);
    }
    assert(find_char(x, '(') == Some(name.len() as int));
    let inner = dp + seq![','] + ds;
    assert(x.skip(name.len() as int + 1) == inner + seq![')']);
    assert((inner + seq![')']).drop_last() == inner);
    assert(type_arguments(x) == Some(inner));
    lemma_find_char(inner, ',');
    lemma_find_char(dp, ',');
    assert(inner[dp.len() as int] == ',');
    assert forall|j: int| 0 <= j < dp.len() implies inner[j] != ',' by {
        assert(inner[j] == dp[j]);
    }
    assert(find_char(inner, ',') == Some(dp.len() as int));
    assert(inner.take(dp.len() as int) == dp);
    assert(inner.skip(dp.len() as int + 1) == ds);
}

} // verus!
