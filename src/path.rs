use vstd::prelude::*;
use vstd::string::StringSliceAdditionalSpecFns;

verus! {

/// The bytes of `/metrics`, the marker of a protected path.
pub open spec fn marker() -> Seq<u8> {
    seq![47u8, 109u8, 101u8, 116u8, 114u8, 105u8, 99u8, 115u8]
}

/// `path` holds `pattern` at offset `i`.
pub open spec fn occurs_at(path: Seq<u8>, pattern: Seq<u8>, i: int) -> bool {
    0 <= i && i + pattern.len() <= path.len() && path.subrange(i, i + pattern.len()) == pattern
}

/// The path holds `/metrics` somewhere.
pub open spec fn is_protected(path: Seq<u8>) -> bool {
    exists|i: int| occurs_at(path, marker(), i)
}

/// Whether `path` holds `pattern` at offset `i`.
fn matches_at(path: &[u8], pattern: &[u8], i: usize) -> (r: bool)
    requires
        i + pattern@.len() <= path@.len(),
    ensures
        r == occurs_at(path@, pattern@, i as int),
{
    let n: usize = path.len();
    let mut k: usize = 0;
    while k < pattern.len()
        invariant
            n == path@.len(),
            i + pattern@.len() <= path@.len(),
            0 <= k <= pattern@.len(),
            forall|j: int| 0 <= j < k ==> path@[i + j] == pattern@[j],
        decreases pattern@.len() - k,
    {
        if path[i + k] != pattern[k] {
            assert(path@.subrange(i as int, i + pattern@.len())[k as int] != pattern@[k as int]);
            return false;
        }
        k = k + 1;
    }
    assert(path@.subrange(i as int, i + pattern@.len()) =~= pattern@);
    true
}

/// Whether `pattern` occurs anywhere in `path`.
fn contains_bytes(path: &[u8], pattern: &[u8]) -> (r: bool)
    ensures
        r == exists|i: int| occurs_at(path@, pattern@, i),
{
    if pattern.len() > path.len() {
        return false;
    }
    let last: usize = path.len() - pattern.len();
    let mut i: usize = 0;
    while i < last
        invariant
            last + pattern@.len() == path@.len(),
            0 <= i <= last,
            forall|j: int| 0 <= j < i ==> !occurs_at(path@, pattern@, j),
        decreases last - i,
    {
        if matches_at(path, pattern, i) {
            return true;
        }
        i = i + 1;
    }
    if matches_at(path, pattern, last) {
        return true;
    }
    assert forall|j: int| !occurs_at(path@, pattern@, j) by {
        if 0 <= j && j + pattern@.len() <= path@.len() {
            assert(j <= last);
        }
    }
    false
}

/// Whether the request path falls under the guard: it holds `/metrics`
/// anywhere, as a prefix, in the middle or at the end.
pub fn is_protected_path(path: &str) -> (r: bool)
    ensures
        r == is_protected(path.spec_bytes()),
{
    let marker_bytes: [u8; 8] = [47u8, 109u8, 101u8, 116u8, 114u8, 105u8, 99u8, 115u8];
    let pattern: &[u8] = marker_bytes.as_slice();
    assert(pattern@ =~= marker());
    contains_bytes(path.as_bytes(), pattern)
}

} // verus!
