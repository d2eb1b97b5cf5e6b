use vstd::prelude::*;

verus! {

/// Number of leading bytes dropped from an `Authorization` value before the
/// token is read (room for a six-letter scheme such as `Bearer`).
pub const SCHEME_LEN: usize = 6;

/// A byte that a header value can hold and still read as text: visible ASCII
/// or a horizontal tab.
pub open spec fn is_visible_ascii(b: u8) -> bool {
    (32 <= b && b < 127) || b == 9
}

/// The value reads as text: every byte is visible ASCII or a tab.
pub open spec fn is_text(v: Seq<u8>) -> bool {
    forall|i: int| 0 <= i < v.len() ==> is_visible_ascii(#[trigger] v[i])
}

/// An ASCII whitespace byte: tab, line feed, vertical tab, form feed,
/// carriage return or space.
pub open spec fn is_ascii_space(b: u8) -> bool {
    (9 <= b && b <= 13) || b == 32
}

/// `s` without its leading whitespace.
pub open spec fn trim_front(s: Seq<u8>) -> Seq<u8>
    decreases s.len(),
{
    if s.len() > 0 && is_ascii_space(s[0]) {
        trim_front(s.drop_first())
    } else {
        s
    }
}

/// `s` without its trailing whitespace.
pub open spec fn trim_back(s: Seq<u8>) -> Seq<u8>
    decreases s.len(),
{
    if s.len() > 0 && is_ascii_space(s.last()) {
        trim_back(s.drop_last())
    } else {
        s
    }
}

/// `s` without whitespace at either end.
pub open spec fn trim(s: Seq<u8>) -> Seq<u8> {
    trim_back(trim_front(s))
}

/// The token that an `Authorization` value presents: the value must read as
/// text and hold at least `SCHEME_LEN` bytes; the first `SCHEME_LEN` are
/// dropped, whatever they are, and the rest is trimmed.
pub open spec fn presented_token(v: Seq<u8>) -> Option<Seq<u8>> {
    if is_text(v) && v.len() >= SCHEME_LEN {
        Some(trim(v.subrange(SCHEME_LEN as int, v.len() as int)))
    } else {
        None
    }
}

/// The value carries exactly the credential.
pub open spec fn grants(credential: Seq<u8>, v: Seq<u8>) -> bool {
    presented_token(v) == Some(credential)
}

/// Whether every byte of `v` is visible ASCII or a tab, the test by which
/// a header value is read as text.
pub fn is_text_value(v: &[u8]) -> (r: bool)
    ensures
        r == is_text(v@),
{
    let mut i: usize = 0;
    while i < v.len()
        invariant
            0 <= i <= v@.len(),
            forall|j: int| 0 <= j < i ==> is_visible_ascii(#[trigger] v@[j]),
        decreases v@.len() - i,
    {
        let b = v[i];
        if !((32 <= b && b < 127) || b == 9) {
            return false;
        }
        i = i + 1;
    }
    true
}

/// Whether a byte is ASCII whitespace.
fn is_space_byte(b: u8) -> (r: bool)
    ensures
        r == is_ascii_space(b),
{
    (9 <= b && b <= 13) || b == 32
}

/// The bounds, within `v`, of `v[start..]` once trimmed.
fn trimmed_bounds(v: &[u8], start: usize) -> (r: (usize, usize))
    requires
        start <= v@.len(),
    ensures
        start <= r.0 <= r.1 <= v@.len(),
        v@.subrange(r.0 as int, r.1 as int) == trim(v@.subrange(start as int, v@.len() as int)),
{
    let ghost whole = v@.subrange(start as int, v@.len() as int);
    let mut lo: usize = start;
    while lo < v.len() && is_space_byte(v[lo])
        invariant
            start <= lo <= v@.len(),
            trim_front(whole) == trim_front(v@.subrange(lo as int, v@.len() as int)),
        decreases v@.len() - lo,
    {
        assert(v@.subrange(lo as int, v@.len() as int).drop_first() =~= v@.subrange(
            lo + 1,
            v@.len() as int,
        ));
        lo = lo + 1;
    }
    assert(trim_front(whole) == v@.subrange(lo as int, v@.len() as int));
    let mut hi: usize = v.len();
    while hi > lo && is_space_byte(v[hi - 1])
        invariant
            start <= lo <= hi <= v@.len(),
            trim(whole) == trim_back(v@.subrange(lo as int, hi as int)),
        decreases hi,
    {
        assert(v@.subrange(lo as int, hi as int).drop_last() =~= v@.subrange(
            lo as int,
            hi - 1,
        ));
        hi = hi - 1;
    }
    (lo, hi)
}

/// The token that an `Authorization` value presents, if it presents one.
pub fn bearer_token(v: &[u8]) -> (r: Option<&[u8]>)
    ensures
        r matches Some(t) ==> presented_token(v@) == Some(t@),
        r is None ==> presented_token(v@) is None,
{
    if v.len() < SCHEME_LEN || !is_text_value(v) {
        return None;
    }
    let (lo, hi) = trimmed_bounds(v, SCHEME_LEN);
    Some(vstd::slice::slice_subrange(v, lo, hi))
}

/// Whether two byte strings are equal.
fn same_bytes(a: &[u8], b: &[u8]) -> (r: bool)
    ensures
        r == (a@ == b@),
{
    if a.len() != b.len() {
        return false;
    }
    let mut i: usize = 0;
    while i < a.len()
        invariant
            a@.len() == b@.len(),
            0 <= i <= a@.len(),
            forall|j: int| 0 <= j < i ==> a@[j] == b@[j],
        decreases a@.len() - i,
    {
        if a[i] != b[i] {
            return false;
        }
        i = i + 1;
    }
    assert(a@ =~= b@);
    true
}

/// Whether the `Authorization` value `v` carries exactly `credential`.
pub fn token_grants(credential: &[u8], v: &[u8]) -> (r: bool)
    ensures
        r == grants(credential@, v@),
{
    match bearer_token(v) {
        Some(t) => same_bytes(t, credential),
        None => false,
    }
}

} // verus!
