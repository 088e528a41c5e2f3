//! SQL Server identifiers and operation paths: the `[A-Za-z0-9_]` allow-list,
//! bracket quoting, and the `/<schema>/<name>` shape of an operation path.
use vstd::prelude::*;

use crate::errors::ApiError;
use crate::text::{chars_of, find_char, string_of};

verus! {

pub open spec fn is_ident_char(c: char) -> bool {
    let u = c as u32;
    (97 <= u && u <= 122) || (65 <= u && u <= 90) || (48 <= u && u <= 57) || u == 95
}

/// A non-empty string of ASCII letters, digits and underscores.
pub open spec fn valid_ident(s: Seq<char>) -> bool {
    s.len() > 0 && forall|i: int| 0 <= i < s.len() ==> is_ident_char(#[trigger] s[i])
}

/// The escaped form of one character: `]` is doubled.
pub open spec fn escape_char(c: char) -> Seq<char> {
    if c == ']' {
        seq![']', ']']
    } else {
        seq![c]
    }
}

/// `s` with every `]` doubled.
pub open spec fn escape_brackets(s: Seq<char>) -> Seq<char>
    decreases s.len(),
{
    if s.len() == 0 {
        Seq::empty()
    } else {
        escape_char(s[0]) + escape_brackets(s.drop_first())
    }
}

/// Reverses `escape_brackets`: a doubled `]` becomes one.
pub open spec fn unescape_brackets(s: Seq<char>) -> Seq<char>
    decreases s.len(),
{
    if s.len() == 0 {
        Seq::empty()
    } else if s.len() >= 2 && s[0] == ']' && s[1] == ']' {
        seq![']'] + unescape_brackets(s.skip(2))
    } else {
        seq![s[0]] + unescape_brackets(s.drop_first())
    }
}

/// A bracket-quoted SQL Server identifier.
pub open spec fn quoted(s: Seq<char>) -> Seq<char> {
    seq!['['] + escape_brackets(s) + seq![']']
}

/// `s` without its leading `/` characters.
pub open spec fn strip_leading_slashes(s: Seq<char>) -> Seq<char>
    decreases s.len(),
{
    if s.len() > 0 && s[0] == '/' {
        strip_leading_slashes(s.drop_first())
    } else {
        s
    }
}

/// The `(schema, name)` halves of a path around the first `/` that follows
/// its leading slashes, if there is such a `/`.
pub open spec fn split_path(path: Seq<char>) -> Option<(Seq<char>, Seq<char>)> {
    let t = strip_leading_slashes(path);
    match find_char(t, '/') {
        Some(k) => Some((t.take(k), t.skip(k + 1))),
        None => None,
    }
}

/// Whether the path has the `/<schema>/<name>` shape with both parts non-empty.
pub open spec fn path_has_shape(path: Seq<char>) -> bool {
    match split_path(path) {
        Some((schema, name)) => schema.len() > 0 && name.len() > 0,
        None => false,
    }
}

proof fn lemma_escape_concat(a: Seq<char>, b: Seq<char>)
    ensures
        escape_brackets(a + b) == escape_brackets(a) + escape_brackets(b),
    decreases a.len(),
{
    if a.len() == 0 {
        assert(a + b == b);
    } else {
        lemma_escape_concat(a.drop_first(), b);
        assert((a + b).drop_first() == a.drop_first() + b);
        assert((a + b)[0] == a[0]);
    }
}

proof fn lemma_escape_single(c: char)
    ensures
        escape_brackets(seq![c]) == escape_char(c),
{
    assert(seq![c].drop_first() == Seq::<char>::empty());
    assert(escape_brackets(seq![c].drop_first()) == Seq::<char>::empty());
    assert(escape_char(c) + Seq::<char>::empty() == escape_char(c));
}

/// Accepts exactly the non-empty identifiers made of ASCII letters, digits
/// and underscores, and hands them back unchanged.
pub fn validate_ident(ident: &str) -> (r: Result<&str, ApiError<'static>>)
    ensures
        match r {
            Ok(s) => valid_ident(ident@) && s@ == ident@,
            Err(e) => !valid_ident(ident@) && (e matches ApiError::InvalidIdentifier(t) && t@
                == ident@),
        },
{
    let v = chars_of(ident);
    if v.len() == 0 {
        return Err(ApiError::InvalidIdentifier(string_of(&v)));
    }
    let mut i: usize = 0;
    while i < v.len()
        invariant
            i <= v.len(),
            v@ == ident@,
            forall|k: int| 0 <= k < i ==> is_ident_char(#[trigger] v@[k]),
        decreases v.len() - i,
    {
        let u = v[i] as u32;
        if !((97 <= u && u <= 122) || (65 <= u && u <= 90) || (48 <= u && u <= 57) || u == 95) {
            assert(!is_ident_char(v@[i as int]));
            return Err(ApiError::InvalidIdentifier(string_of(&v)));
        }
        i = i + 1;
    }
    Ok(ident)
}

/// Brackets an identifier, doubling any embedded `]`.
pub fn quote_ident(ident: &str) -> (r: String)
    ensures
        r@ == quoted(ident@),
{
    let v = chars_of(ident);
    let mut out: Vec<char> = Vec::new();
    out.push('[');
    let mut i: usize = 0;
    while i < v.len()
        invariant
            i <= v.len(),
            out@ == seq!['['] + escape_brackets(v@.take(i as int)),
        decreases v.len() - i,
    {
        let c = v[i];
        proof {
            lemma_escape_concat(v@.take(i as int), seq![c]);
            lemma_escape_single(c);
            assert(v@.take(i + 1) == v@.take(i as int) + seq![c]);
        }
        if c == ']' {
            out.push(']');
            out.push(']');
        } else {
            out.push(c);
        }
        i = i + 1;
    }
    out.push(']');
    assert(v@.take(v.len() as int) == v@);
    string_of(&out)
}

/// Splits an operation path of the shape `/<schema>/<name>` (any number of
/// leading slashes) into its two identifiers. A path with no `/` after its
/// leading slashes, or with an empty schema or name, is `BadPath`; a part
/// outside the identifier allow-list is `InvalidIdentifier` (the schema is
/// checked first).
pub fn parse_path(path: &str) -> (r: Result<(&str, &str), ApiError<'static>>)
    ensures
        match r {
            Ok((schema, name)) => split_path(path@) == Some((schema@, name@)) && valid_ident(
                schema@,
            ) && valid_ident(name@),
            Err(ApiError::BadPath(p)) => !path_has_shape(path@) && p@ == path@,
            Err(ApiError::InvalidIdentifier(t)) => path_has_shape(path@) && ({
                let (schema, name) = split_path(path@)->0;
                ||| (!valid_ident(schema) && t@ == schema)
                ||| (valid_ident(schema) && !valid_ident(name) && t@ == name)
            }),
            Err(_) => false,
        },
{
    let v = chars_of(path);
    let n = v.len();
    let mut start: usize = 0;
    assert(v@.skip(0) == v@);
    while start < n && v[start] == '/'
        invariant
            start <= n == v@.len(),
            v@ == path@,
            strip_leading_slashes(v@.skip(start as int)) == strip_leading_slashes(v@),
        decreases n - start,
    {
        assert(v@.skip(start as int).drop_first() == v@.skip(start + 1));
        start = start + 1;
    }
    let ghost t = v@.skip(start as int);
    assert(strip_leading_slashes(t) == t);
    let mut k: usize = start;
    while k < n && v[k] != '/'
        invariant
            start <= k <= n == v@.len(),
            t == v@.skip(start as int),
            find_char(t, '/') == match find_char(v@.skip(k as int), '/') {
                Some(j) => Some(j + (k - start)),
                None => None,
            },
        decreases n - k,
    {
        assert(v@.skip(k as int).drop_first() == v@.skip(k + 1));
        k = k + 1;
    }
    if k == n {
        assert(v@.skip(k as int).len() == 0);
        return Err(ApiError::BadPath(string_of(&v)));
    }
    assert(v@.skip(k as int)[0] == '/');
    assert(find_char(t, '/') == Some((k - start) as int));
    assert(t.take(k - start) == v@.subrange(start as int, k as int));
    assert(t.skip(k - start + 1) == v@.subrange(k + 1, n as int));
    if k == start || k + 1 == n {
        return Err(ApiError::BadPath(string_of(&v)));
    }
    let schema = path.substring_char(start, k);
    let name = path.substring_char(k + 1, n);
    let schema = validate_ident(schema)?;
    let name = validate_ident(name)?;
    Ok((schema, name))
}

// ---------------------------------------------------------------------------
// Laws

proof fn lemma_unescape_escape(s: Seq<char>)
    ensures
        unescape_brackets(escape_brackets(s)) == s,
    decreases s.len(),
{
    if s.len() > 0 {
        lemma_unescape_escape(s.drop_first());
        let rest = escape_brackets(s.drop_first());
        let e = escape_brackets(s);
        assert(e == escape_char(s[0]) + rest);
        if s[0] == ']' {
            assert(e.skip(2) == rest);
        } else {
            assert(e.drop_first() == rest);
        }
        assert(s == seq![s[0]] + s.drop_first());
    }
}

/// Escaping never maps two different identifiers to the same text: the
/// doubled brackets can always be undone.
pub proof fn law_escape_is_injective(a: Seq<char>, b: Seq<char>)
    ensures
        unescape_brackets(escape_brackets(a)) == a,
        escape_brackets(a) == escape_brackets(b) ==> a == b,
{
    lemma_unescape_escape(a);
    lemma_unescape_escape(b);
}

/// An identifier that passes the allow-list is quoted as `[` + itself + `]`:
/// it holds no `]` to double.
pub proof fn law_quote_of_valid_ident(s: Seq<char>)
    requires
        valid_ident(s),
    ensures
        quoted(s) == seq!['['] + s + seq![']'],
{
    lemma_escape_no_bracket(s);
}

proof fn lemma_escape_no_bracket(s: Seq<char>)
    requires
        forall|i: int| 0 <= i < s.len() ==> is_ident_char(#[trigger] s[i]),
    ensures
        escape_brackets(s) == s,
    decreases s.len(),
{
    if s.len() > 0 {
        assert(is_ident_char(s[0]));
        assert forall|i: int| 0 <= i < s.drop_first().len() implies is_ident_char(
            #[trigger] s.drop_first()[i],
        ) by {
            assert(s.drop_first()[i] == s[i + 1]);
        }
        lemma_escape_no_bracket(s.drop_first());
        assert(s == seq![s[0]] + s.drop_first());
    }
}

proof fn lemma_find_char_concat(a: Seq<char>, b: Seq<char>, c: char)
    requires
        forall|i: int| 0 <= i < a.len() ==> a[i] != c,
    ensures
        find_char(a + b, c) == match find_char(b, c) {
            Some(j) => Some(j + a.len()),
            None => None,
        },
    decreases a.len(),
{
    if a.len() == 0 {
        assert(a + b == b);
    } else {
        assert((a + b).drop_first() == a.drop_first() + b);
        assert((a + b)[0] == a[0]);
        lemma_find_char_concat(a.drop_first(), b, c);
    }
}

/// A path built as `/` + schema + `/` + name from two valid identifiers is
/// split back into exactly those two identifiers.
pub proof fn law_parse_path_round_trip(schema: Seq<char>, name: Seq<char>)
    requires
        valid_ident(schema),
        valid_ident(name),
    ensures
        path_has_shape(seq!['/'] + schema + seq!['/'] + name),
        split_path(seq!['/'] + schema + seq!['/'] + name) == Some((schema, name)),
{
    let p = seq!['/'] + schema + seq!['/'] + name;
    let t = schema + seq!['/'] + name;
    assert(p.drop_first() == t);
    assert(is_ident_char(t[0]));
    assert(strip_leading_slashes(t) == t);
    assert(strip_leading_slashes(p) == t);
    assert forall|i: int| 0 <= i < schema.len() implies schema[i] != '/' by {
        assert(is_ident_char(schema[i]));
    }
    lemma_find_char_concat(schema, seq!['/'] + name, '/');
    assert(t == schema + (seq!['/'] + name));
    assert(find_char(seq!['/'] + name, '/') == Some(0int));
    assert(t.take(schema.len() as int) == schema);
    assert(t.skip(schema.len() as int + 1) == name);
}

} // verus!
