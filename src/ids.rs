//! Catalogue identifiers: plain numbers, `XC`-prefixed numbers and provider URLs.
use vstd::prelude::*;
use crate::text::{
    all_digits, chars_of, decimal_value, is_decimal, is_digit, trim, trim_bounds,
    digit_value,
};

verus! {

/// Why an identifier could not be read.
#[derive(Debug, PartialEq, Eq)]
pub enum ParseError {
    /// No accepted form matches; holds the input as given.
    Unrecognized(String),
    /// The digits denote a number above `u64::MAX`.
    Overflow,
}

pub open spec fn https_scheme() -> Seq<char> {
    seq!['h', 't', 't', 'p', 's', ':', '/', '/']
}

pub open spec fn http_scheme() -> Seq<char> {
    seq!['h', 't', 't', 'p', ':', '/', '/']
}

pub open spec fn www_label() -> Seq<char> {
    seq!['w', 'w', 'w', '.']
}

/// The provider's domain followed by the path separator.
pub open spec fn provider_host() -> Seq<char> {
    seq!['x', 'e', 'n', 'o', '-', 'c', 'a', 'n', 't', 'o', '.', 'o', 'r', 'g', '/']
}

pub open spec fn starts_with(s: Seq<char>, p: Seq<char>) -> bool {
    p.len() <= s.len() && s.subrange(0, p.len() as int) == p
}

/// `s` without the prefix `p`, or `s` itself when it does not start with `p`.
pub open spec fn strip(s: Seq<char>, p: Seq<char>) -> Seq<char> {
    if starts_with(s, p) {
        s.subrange(p.len() as int, s.len() as int)
    } else {
        s
    }
}

/// `t` without one leading `https://` or `http://`.
pub open spec fn strip_scheme(t: Seq<char>) -> Seq<char> {
    if starts_with(t, https_scheme()) {
        strip(t, https_scheme())
    } else {
        strip(t, http_scheme())
    }
}

/// An optional `http://` or `https://` scheme, an optional `www.`, then the
/// provider's domain and a `/`.
pub open spec fn is_provider_url(t: Seq<char>) -> bool {
    starts_with(strip(strip_scheme(t), www_label()), provider_host())
}

pub open spec fn has_xc_prefix(t: Seq<char>) -> bool {
    t.len() >= 2 && (t[0] == 'X' || t[0] == 'x') && (t[1] == 'C' || t[1] == 'c')
}

/// `s` with all trailing slashes removed.
pub open spec fn trim_slashes(s: Seq<char>) -> Seq<char>
    decreases s.len(),
{
    if s.len() > 0 && s.last() == '/' {
        trim_slashes(s.drop_last())
    } else {
        s
    }
}

/// How many decimal digits `s` ends with.
pub open spec fn digit_run(s: Seq<char>) -> nat
    decreases s.len(),
{
    if s.len() > 0 && is_digit(s.last()) {
        1 + digit_run(s.drop_last())
    } else {
        0
    }
}

/// Whether the last path segment of `u` (slashes at the end already removed)
/// is a non-empty run of digits.
pub open spec fn ends_in_number_segment(u: Seq<char>) -> bool {
    let k = digit_run(u);
    0 < k < u.len() && u[u.len() - k - 1] == '/'
}

pub open spec fn last_segment_digits(u: Seq<char>) -> Seq<char> {
    u.subrange(u.len() - digit_run(u), u.len() as int)
}

/// The digits that a trimmed identifier designates, trying the plain form,
/// the `XC` prefix and the provider URL in this order.
pub open spec fn designated_digits(t: Seq<char>) -> Option<Seq<char>> {
    if is_decimal(t) {
        Some(t)
    } else if has_xc_prefix(t) && is_decimal(t.subrange(2, t.len() as int)) {
        Some(t.subrange(2, t.len() as int))
    } else if is_provider_url(t) && ends_in_number_segment(trim_slashes(t)) {
        Some(last_segment_digits(trim_slashes(t)))
    } else {
        None
    }
}

/// The digits that an identifier designates once surrounding whitespace is removed.
pub open spec fn id_digits(input: Seq<char>) -> Option<Seq<char>> {
    designated_digits(trim(input))
}

/// What reading an identifier gives: `Some(Some(n))` for the number `n`,
/// `Some(None)` for digits beyond `u64::MAX`, `None` for no accepted form.
pub open spec fn read_id(input: Seq<char>) -> Option<Option<u64>> {
    match id_digits(input) {
        Some(d) => if decimal_value(d) <= u64::MAX {
            Some(Some(decimal_value(d) as u64))
        } else {
            Some(None)
        },
        None => None,
    }
}

fn sub_vec(v: &Vec<char>, from: usize, to: usize) -> (r: Vec<char>)
    requires
        from <= to <= v@.len(),
    ensures
        r@ == v@.subrange(from as int, to as int),
{
    let mut r: Vec<char> = Vec::new();
    let mut i: usize = from;
    while i < to
        invariant
            from <= i <= to <= v@.len(),
            r@ == v@.subrange(from as int, i as int),
        decreases to - i,
    {
        r.push(v[i]);
        i = i + 1;
    }
    r
}

fn is_digit_char(c: char) -> (r: bool)
    ensures
        r == is_digit(c),
{
    '0' <= c && c <= '9'
}

/// Whether `v[from..to]` is a non-empty run of digits.
fn is_decimal_range(v: &Vec<char>, from: usize, to: usize) -> (r: bool)
    requires
        from <= to <= v@.len(),
    ensures
        r == is_decimal(v@.subrange(from as int, to as int)),
{
    if from == to {
        return false;
    }
    let mut i: usize = from;
    while i < to
        invariant
            from <= i <= to <= v@.len(),
            forall|j: int| from <= j < i ==> is_digit(#[trigger] v@[j]),
        decreases to - i,
    {
        if !is_digit_char(v[i]) {
            assert(!is_digit(v@.subrange(from as int, to as int)[i - from]));
            return false;
        }
        i = i + 1;
    }
    assert(all_digits(v@.subrange(from as int, to as int))) by {
        assert forall|j: int| 0 <= j < to - from implies #[trigger] is_digit(
            v@.subrange(from as int, to as int)[j],
        ) by {
            assert(v@.subrange(from as int, to as int)[j] == v@[from + j]);
        }
    }
    true
}

/// The value of the digits `v[from..to]`, or `None` above `u64::MAX`.
fn decimal_range_value(v: &Vec<char>, from: usize, to: usize) -> (r: Option<u64>)
    requires
        from <= to <= v@.len(),
        all_digits(v@.subrange(from as int, to as int)),
    ensures
        r is Some <==> decimal_value(v@.subrange(from as int, to as int)) <= u64::MAX,
        r matches Some(n) ==> n == decimal_value(v@.subrange(from as int, to as int)),
{
    let mut acc: u64 = 0;
    let mut over = false;
    let mut i: usize = from;
    assert(v@.subrange(from as int, from as int) =~= Seq::<char>::empty());
    while i < to
        invariant
            from <= i <= to <= v@.len(),
            all_digits(v@.subrange(from as int, to as int)),
            over ==> decimal_value(v@.subrange(from as int, i as int)) > u64::MAX,
            !over ==> acc == decimal_value(v@.subrange(from as int, i as int)),
        decreases to - i,
    {
        let ghost prev = v@.subrange(from as int, i as int);
        let ghost next = v@.subrange(from as int, i + 1);
        assert(next.drop_last() =~= prev);
        assert(next.last() == v@.subrange(from as int, to as int)[i - from]);
        assert(is_digit(next.last()));
        let d: u64 = (v[i] as u32 - '0' as u32) as u64;
        assert(d == digit_value(next.last()));
        assert(decimal_value(next) == decimal_value(prev) * 10 + d);
        if !over {
            if acc > (u64::MAX - d) / 10 {
                over = true;
            } else {
                acc = acc * 10 + d;
            }
        }
        i = i + 1;
    }
    if over {
        None
    } else {
        Some(acc)
    }
}

fn has_prefix_at(t: &Vec<char>, at: usize, p: &Vec<char>) -> (r: bool)
    requires
        at <= t@.len(),
    ensures
        r == starts_with(t@.subrange(at as int, t@.len() as int), p@),
        r ==> at + p@.len() <= t.len(),
{
    let ghost s = t@.subrange(at as int, t@.len() as int);
    if p.len() > t.len() - at {
        return false;
    }
    let mut i: usize = 0;
    let m = p.len();
    while i < m
        invariant
            m == p@.len(),
            at + m <= t.len(),
            s == t@.subrange(at as int, t@.len() as int),
            i <= p@.len(),
            forall|j: int| 0 <= j < i ==> t@[at + j] == p@[j],
        decreases m - i,
    {
        if t[at + i] != p[i] {
            assert(s.subrange(0, p@.len() as int)[i as int] != p@[i as int]);
            return false;
        }
        i = i + 1;
    }
    assert(s.subrange(0, p@.len() as int) =~= p@);
    true
}

/// The offset past `p` in `t[at..]` when it starts there, else `at`.
fn skip_prefix(t: &Vec<char>, at: usize, p: &Vec<char>) -> (r: usize)
    requires
        at <= t@.len(),
    ensures
        at <= r <= t@.len(),
        r == at <==> !starts_with(t@.subrange(at as int, t@.len() as int), p@) || p@.len() == 0,
        t@.subrange(r as int, t@.len() as int) == strip(t@.subrange(at as int, t@.len() as int), p@),
{
    if has_prefix_at(t, at, p) {
        assert(t@.subrange(at as int, t@.len() as int).subrange(p@.len() as int, t@.len() - at)
            =~= t@.subrange(at + p@.len(), t@.len() as int));
        at + p.len()
    } else {
        at
    }
}

#[verifier::rlimit(60)]
fn whole_url_digits(t: &Vec<char>) -> (r: Option<(usize, usize)>)
    ensures
        r is Some <==> (is_provider_url(t@) && ends_in_number_segment(trim_slashes(t@))),
        r matches Some(b) ==> b.0 <= b.1 <= t@.len() && t@.subrange(b.0 as int, b.1 as int)
            == last_segment_digits(trim_slashes(t@)) && all_digits(
            t@.subrange(b.0 as int, b.1 as int),
        ),
{
    let https = vec!['h', 't', 't', 'p', 's', ':', '/', '/'];
    let http = vec!['h', 't', 't', 'p', ':', '/', '/'];
    let www = vec!['w', 'w', 'w', '.'];
    let host = vec!['x', 'e', 'n', 'o', '-', 'c', 'a', 'n', 't', 'o', '.', 'o', 'r', 'g', '/'];
    assert(https@ == https_scheme());
    assert(http@ == http_scheme());
    assert(www@ == www_label());
    assert(host@ == provider_host());
    assert(t@.subrange(0, t@.len() as int) =~= t@);
    let o1 = skip_prefix(t, 0, &https);
    let o2 = if o1 > 0 {
        o1
    } else {
        skip_prefix(t, 0, &http)
    };
    let o3 = skip_prefix(t, o2, &www);
    if !has_prefix_at(t, o3, &host) {
        return None;
    }
    let mut e: usize = t.len();
    while e > 0 && t[e - 1] == '/'
        invariant
            e <= t@.len(),
            trim_slashes(t@) == trim_slashes(t@.subrange(0, e as int)),
        decreases e,
    {
        assert(t@.subrange(0, e as int).drop_last() =~= t@.subrange(0, e - 1));
        e = e - 1;
    }
    let ghost u = t@.subrange(0, e as int);
    assert(trim_slashes(t@) == u);
    let mut j: usize = e;
    while j > 0 && is_digit_char(t[j - 1])
        invariant
            j <= e <= t@.len(),
            u == t@.subrange(0, e as int),
            digit_run(u) == (e - j) + digit_run(t@.subrange(0, j as int)),
            forall|i: int| j <= i < e ==> is_digit(#[trigger] t@[i]),
        decreases j,
    {
        assert(t@.subrange(0, j as int).drop_last() =~= t@.subrange(0, j - 1));
        j = j - 1;
    }
    assert(digit_run(u) == e - j);
    if j < e && j > 0 && t[j - 1] == '/' {
        assert(u.subrange(u.len() - digit_run(u), u.len() as int) =~= t@.subrange(j as int, e as int));
        assert forall|i: int| 0 <= i < e - j implies #[trigger] is_digit(
            t@.subrange(j as int, e as int)[i],
        ) by {
            assert(t@.subrange(j as int, e as int)[i] == t@[j + i]);
        }
        Some((j, e))
    } else {
        None
    }
}

/// Reads a catalogue number from a plain number (`928094`), an `XC` prefix in
/// any letter case (`XC928094`), or a provider URL with or without scheme and
/// `www.` (`https://www.xeno-canto.org/928094/`). Surrounding whitespace is
/// ignored.
#[verifier::rlimit(60)]
pub fn parse_xc_number(input: &str) -> (r: Result<u64, ParseError>)
    ensures
        read_id(input@) matches Some(Some(n)) ==> r == Ok::<u64, ParseError>(n),
        read_id(input@) matches Some(None) ==> r == Err::<u64, ParseError>(ParseError::Overflow),
        read_id(input@) is None ==> (r matches Err(ParseError::Unrecognized(s)) && s@ == input@),
{
    let v = chars_of(input);
    let (a, b) = trim_bounds(&v);
    let t = sub_vec(&v, a, b);
    let n = t.len();
    assert(t@.subrange(0, n as int) =~= t@);
    let digits = if is_decimal_range(&t, 0, n) {
        Some((0usize, n))
    } else if n >= 2 && (t[0] == 'X' || t[0] == 'x') && (t[1] == 'C' || t[1] == 'c')
        && is_decimal_range(&t, 2, n) {
        Some((2usize, n))
    } else {
        whole_url_digits(&t)
    };
    match digits {
        Some((from, to)) => {
            match decimal_range_value(&t, from, to) {
                Some(x) => Ok(x),
                None => Err(ParseError::Overflow),
            }
        },
        None => Err(ParseError::Unrecognized(input.to_string())),
    }
}

} // verus!

verus! {

/// The number that `s` spells in decimal, when it fits in a `u64`.
pub open spec fn decimal_number(s: Seq<char>) -> Option<u64> {
    if is_decimal(s) && decimal_value(s) <= u64::MAX {
        Some(decimal_value(s) as u64)
    } else {
        None
    }
}

/// Reads a `u64` written as plain decimal digits, with nothing around them.
pub fn parse_decimal(s: &str) -> (r: Option<u64>)
    ensures
        r == decimal_number(s@),
{
    let v = chars_of(s);
    let n = v.len();
    assert(v@.subrange(0, n as int) =~= v@);
    if is_decimal_range(&v, 0, n) {
        decimal_range_value(&v, 0, n)
    } else {
        None
    }
}

} // verus!

verus! {

/// A provider URL: a scheme (possibly empty), an optional `www.`, the domain,
/// `digits`, and an optional trailing slash.
pub open spec fn provider_url(
    scheme: Seq<char>,
    with_www: bool,
    digits: Seq<char>,
    trailing_slash: bool,
) -> Seq<char> {
    scheme + (if with_www {
        www_label()
    } else {
        Seq::empty()
    }) + provider_host() + digits + (if trailing_slash {
        seq!['/']
    } else {
        Seq::empty()
    })
}

proof fn lemma_trim_unchanged(s: Seq<char>)
    requires
        s.len() > 0,
        !crate::text::is_ws(s[0]),
        !crate::text::is_ws(s.last()),
    ensures
        trim(s) == s,
{
    assert(crate::text::trim_start(s) == s);
    assert(crate::text::trim_end(s) == s);
}

proof fn lemma_digit_run_append(p: Seq<char>, d: Seq<char>)
    requires
        all_digits(d),
    ensures
        digit_run(p + d) == d.len() + digit_run(p),
    decreases d.len(),
{
    if d.len() == 0 {
        assert(p + d =~= p);
    } else {
        assert((p + d).drop_last() =~= p + d.drop_last());
        assert(is_digit(d[d.len() - 1]));
        lemma_digit_run_append(p, d.drop_last());
    }
}

proof fn lemma_plain_and_prefixed(d: Seq<char>, prefix: Seq<char>)
    requires
        is_decimal(d),
        prefix.len() == 2,
        has_xc_prefix(prefix),
    ensures
        id_digits(d) == Some(d),
        id_digits(prefix + d) == Some(d),
{
    assert(is_digit(d[0]) && is_digit(d[d.len() - 1]));
    lemma_trim_unchanged(d);
    let x = prefix + d;
    assert(x[0] == prefix[0] && x.last() == d.last());
    lemma_trim_unchanged(x);
    assert(!is_digit(x[0]));
    assert(x.subrange(2, x.len() as int) =~= d);
}

#[verifier::rlimit(100)]
proof fn lemma_url_recognized(scheme: Seq<char>, with_www: bool, d: Seq<char>, trailing_slash: bool)
    requires
        is_decimal(d),
        scheme == Seq::<char>::empty() || scheme == http_scheme() || scheme == https_scheme(),
    ensures
        is_provider_url(provider_url(scheme, with_www, d, trailing_slash)),
{
    let w: Seq<char> = if with_www { www_label() } else { Seq::empty() };
    let tail: Seq<char> = if trailing_slash { seq!['/'] } else { Seq::empty() };
    let t = provider_url(scheme, with_www, d, trailing_slash);
    let r1 = strip_scheme(t);
    let r2 = strip(r1, www_label());
    let rest = provider_host() + d + tail;
    assert(t =~= scheme + (w + rest));
    assert((w + rest)[0] == 'w' || (w + rest)[0] == 'x') by {
        if with_www {
            assert((w + rest)[0] == w[0]);
        } else {
            assert((w + rest)[0] == rest[0]);
        }
    }
    if scheme == https_scheme() {
        assert(t.subrange(0, 8) =~= https_scheme());
        assert(r1 =~= w + rest);
    } else if scheme == http_scheme() {
        assert(t.subrange(0, 8)[4] != https_scheme()[4]);
        assert(t.subrange(0, 7) =~= http_scheme());
        assert(r1 =~= w + rest);
    } else {
        assert(t =~= w + rest);
        assert(t.subrange(0, 8)[0] != https_scheme()[0]);
        assert(t.subrange(0, 7)[0] != http_scheme()[0]);
        assert(r1 =~= w + rest);
    }
    if with_www {
        assert(r1.subrange(0, 4) =~= www_label());
        assert(r2 =~= rest);
    } else {
        assert(r1.subrange(0, 4)[0] != www_label()[0]);
        assert(r2 =~= rest);
    }
    assert(rest.subrange(0, 15) =~= provider_host());
}

#[verifier::rlimit(100)]
proof fn lemma_url_digits(scheme: Seq<char>, with_www: bool, d: Seq<char>, trailing_slash: bool)
    requires
        is_decimal(d),
        scheme == Seq::<char>::empty() || scheme == http_scheme() || scheme == https_scheme(),
    ensures
        id_digits(provider_url(scheme, with_www, d, trailing_slash)) == Some(d),
{
    let w: Seq<char> = if with_www { www_label() } else { Seq::empty() };
    let tail: Seq<char> = if trailing_slash { seq!['/'] } else { Seq::empty() };
    let head = scheme + w + provider_host();
    let u = head + d;
    let t = provider_url(scheme, with_www, d, trailing_slash);
    assert(t =~= u + tail);
    assert(is_digit(d[d.len() - 1]));
    assert(t.last() == '/' || t.last() == d.last());
    assert(t[0] == 'h' || t[0] == 'w' || t[0] == 'x') by {
        if scheme.len() > 0 {
            assert(t[0] == scheme[0]);
        } else if with_www {
            assert(t[0] == w[0]);
        } else {
            assert(t[0] == provider_host()[0]);
        }
    }
    lemma_trim_unchanged(t);
    assert(!is_digit(t[0]));
    assert(!has_xc_prefix(t)) by {
        if t[0] == 'x' {
            assert(scheme.len() == 0 && !with_www);
            assert(t[1] == provider_host()[1]);
        }
    }
    lemma_url_recognized(scheme, with_www, d, trailing_slash);
    assert(trim_slashes(t) == u) by {
        if trailing_slash {
            assert(t.drop_last() =~= u);
            assert(u.last() == d.last());
            assert(trim_slashes(u) == u);
        } else {
            assert(t =~= u);
        }
    }
    lemma_digit_run_append(head, d);
    assert(digit_run(head) == 0);
    assert(u[u.len() - d.len() - 1] == head.last());
    assert(last_segment_digits(u) =~= d);
}

/// The three forms of an identifier read as the same number: the plain
/// digits, the digits after an `XC` prefix in any letter case, and a provider
/// URL with or without scheme, `www.` and trailing slash.
pub proof fn lemma_forms_agree(
    n: u64,
    prefix: Seq<char>,
    scheme: Seq<char>,
    with_www: bool,
    trailing_slash: bool,
)
    requires
        prefix.len() == 2,
        has_xc_prefix(prefix),
        scheme == Seq::<char>::empty() || scheme == http_scheme() || scheme == https_scheme(),
    ensures
        read_id(crate::text::decimal(n as nat)) == Some(Some(n)),
        read_id(prefix + crate::text::decimal(n as nat)) == Some(Some(n)),
        read_id(provider_url(scheme, with_www, crate::text::decimal(n as nat), trailing_slash))
            == Some(Some(n)),
{
    let d = crate::text::decimal(n as nat);
    crate::text::lemma_decimal(n as nat);
    lemma_plain_and_prefixed(d, prefix);
    lemma_url_digits(scheme, with_www, d, trailing_slash);
}

} // verus!

verus! {

proof fn lemma_trim_start_shape(s: Seq<char>)
    ensures
        crate::text::trim_start(s).len() == 0 || !crate::text::is_ws(crate::text::trim_start(s)[0]),
    decreases s.len(),
{
    if s.len() > 0 && crate::text::is_ws(s[0]) {
        lemma_trim_start_shape(s.drop_first());
    }
}

proof fn lemma_trim_end_shape(s: Seq<char>)
    ensures
        crate::text::trim_end(s).len() <= s.len(),
        crate::text::trim_end(s) == s.subrange(0, crate::text::trim_end(s).len() as int),
        crate::text::trim_end(s).len() == 0 || !crate::text::is_ws(crate::text::trim_end(s).last()),
    decreases s.len(),
{
    if s.len() > 0 && crate::text::is_ws(s.last()) {
        lemma_trim_end_shape(s.drop_last());
        assert(s.drop_last().subrange(0, crate::text::trim_end(s).len() as int) =~= s.subrange(
            0,
            crate::text::trim_end(s).len() as int,
        ));
    } else {
        assert(s.subrange(0, s.len() as int) =~= s);
    }
}

/// Surrounding whitespace never changes how an identifier reads: the input
/// and the input with its surrounding whitespace removed read the same.
pub proof fn lemma_whitespace_ignored(input: Seq<char>)
    ensures
        read_id(trim(input)) == read_id(input),
{
    let a = crate::text::trim_start(input);
    let t = trim(input);
    lemma_trim_start_shape(input);
    lemma_trim_end_shape(a);
    if t.len() > 0 {
        assert(t[0] == a[0]);
        lemma_trim_unchanged(t);
    } else {
        assert(crate::text::trim_start(t) == t);
        assert(crate::text::trim_end(t) == t);
    }
}

} // verus!
