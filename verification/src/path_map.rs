//! The path mapper: turns filesystem paths into archive-safe relative names
//! and validates names found in a container. All decisions here are byte-level
//! and fully verified; this is the security-relevant part of the engine, since
//! extraction must never write outside its destination root.

use vstd::prelude::*;
use crate::entries::PathError;

verus! {

/// A byte after separator normalization: every backslash becomes a slash.
pub open spec fn norm_byte(b: u8) -> u8 {
    if b == 92 {
        47
    } else {
        b
    }
}

/// A path with its separators normalized to `/`.
pub open spec fn norm_seps(s: Seq<u8>) -> Seq<u8> {
    s.map_values(|b: u8| norm_byte(b))
}

/// Whether a byte sequence is valid UTF-8. Named after `core::str::from_utf8`,
/// whose verdict is a function of the bytes alone.
pub uninterp spec fn utf8_valid(s: Seq<u8>) -> bool;

/// Relies on `core::str::from_utf8`: decides whether the bytes are valid
/// UTF-8.
#[verifier::external_body]
fn check_utf8(v: &Vec<u8>) -> (b: bool)
    ensures
        b == utf8_valid(v@),
{
    core::str::from_utf8(v).is_ok()
}

/// A byte that may appear in an archive-safe name: not NUL, and not a
/// backslash (separators are normalized before names are formed, and a raw
/// backslash in a stored name is an alternate separator to some extractors).
pub open spec fn allowed_byte(b: u8) -> bool {
    b != 0 && b != 92
}

/// `s` has a `.` component starting at index `i`.
pub open spec fn dot_component_at(s: Seq<u8>, i: int) -> bool {
    &&& s[i] == 46
    &&& (i == 0 || s[i - 1] == 47)
    &&& (i + 1 == s.len() || s[i + 1] == 47)
}

/// `s` has a `..` component starting at index `i`.
pub open spec fn dotdot_component_at(s: Seq<u8>, i: int) -> bool {
    &&& i + 1 < s.len()
    &&& s[i] == 46
    &&& s[i + 1] == 46
    &&& (i == 0 || s[i - 1] == 47)
    &&& (i + 2 == s.len() || s[i + 2] == 47)
}

/// An archive-safe relative name: non-empty, valid UTF-8, all bytes allowed,
/// not absolute, no trailing separator, no empty component, and no `.` or
/// `..` component. A name with this shape, joined under any destination root,
/// resolves to a strictly deeper path inside that root.
pub open spec fn is_safe_name(s: Seq<u8>) -> bool {
    &&& s.len() > 0
    &&& utf8_valid(s)
    &&& (forall|i: int| 0 <= i < s.len() ==> allowed_byte(s[i]))
    &&& s[0] != 47
    &&& s[s.len() - 1] != 47
    &&& (forall|i: int| 0 <= i && i + 1 < s.len() ==> !(#[trigger] s[i] == 47 && s[i + 1] == 47))
    &&& (forall|i: int| 0 <= i < s.len() ==> !dot_component_at(s, i))
    &&& (forall|i: int| 0 <= i < s.len() ==> !dotdot_component_at(s, i))
}

/// Replaces every backslash with a slash.
pub fn normalize_seps(p: &Vec<u8>) -> (r: Vec<u8>)
    ensures
        r@ == norm_seps(p@),
{
    let mut r: Vec<u8> = Vec::new();
    let mut i: usize = 0;
    while i < p.len()
        invariant
            i <= p@.len(),
            r@.len() == i,
            forall|j: int| 0 <= j < i ==> r@[j] == norm_byte(p@[j]),
        decreases p@.len() - i,
    {
        let b = p[i];
        if b == 92 {
            r.push(47);
        } else {
            r.push(b);
        }
        i = i + 1;
    }
    assert(r@ =~= norm_seps(p@));
    r
}

/// Decides whether `name` is an archive-safe relative name.
pub fn check_name(name: &Vec<u8>) -> (b: bool)
    ensures
        b == is_safe_name(name@),
{
    let n = name.len();
    if n == 0 {
        return false;
    }
    if !check_utf8(name) {
        return false;
    }
    if name[0] == 47 || name[n - 1] == 47 {
        return false;
    }
    let mut i: usize = 0;
    while i < n
        invariant
            n == name@.len(),
            n > 0,
            utf8_valid(name@),
            name@[0] != 47,
            name@[n - 1] != 47,
            i <= n,
            forall|j: int| 0 <= j < i ==> allowed_byte(name@[j]),
            forall|j: int| 0 <= j < i && j + 1 < n ==> !(#[trigger] name@[j] == 47 && name@[j + 1]
                == 47),
            forall|j: int| 0 <= j < i ==> !dot_component_at(name@, j),
            forall|j: int| 0 <= j < i ==> !dotdot_component_at(name@, j),
        decreases n - i,
    {
        let b = name[i];
        if b == 0 || b == 92 {
            return false;
        }
        if i + 1 < n && b == 47 && name[i + 1] == 47 {
            return false;
        }
        if b == 46 {
            let open_left = i == 0 || name[i - 1] == 47;
            if open_left {
                if i + 1 == n || name[i + 1] == 47 {
                    assert(dot_component_at(name@, i as int));
                    return false;
                }
                if i + 2 == n && name[i + 1] == 46 {
                    assert(dotdot_component_at(name@, i as int));
                    return false;
                }
                if i + 2 < n && name[i + 1] == 46 && name[i + 2] == 47 {
                    assert(dotdot_component_at(name@, i as int));
                    return false;
                }
            }
        }
        i = i + 1;
    }
    true
}

/// A path with its trailing separators removed, so that a root written with
/// or without a trailing separator names the same directory.
pub open spec fn trim_slashes(s: Seq<u8>) -> Seq<u8>
    decreases s.len(),
{
    if s.len() > 0 && s[s.len() - 1] == 47 {
        trim_slashes(s.drop_last())
    } else {
        s
    }
}

/// The relative remainder of `path` under `root`, both taken with normalized
/// separators and trailing separators dropped: the root itself maps to the
/// empty name; otherwise the root followed by a separator is stripped; a path
/// elsewhere has no remainder.
pub open spec fn strip_root(root: Seq<u8>, path: Seq<u8>) -> Option<Seq<u8>> {
    let r = trim_slashes(norm_seps(root));
    let p = trim_slashes(norm_seps(path));
    if p == r {
        Some(Seq::empty())
    } else if r.len() == 0 {
        Some(p)
    } else if p.len() > r.len() + 1 && p.subrange(0, r.len() as int) == r && p[r.len() as int]
        == 47 {
        Some(p.subrange(r.len() as int + 1, p.len() as int))
    } else {
        None
    }
}

/// What the path mapper returns: the relative name when it exists and is
/// either empty (the root itself) or archive-safe; nothing otherwise.
pub open spec fn map_rel_spec(root: Seq<u8>, path: Seq<u8>) -> Option<Seq<u8>> {
    match strip_root(root, path) {
        Some(rel) => if rel.len() == 0 || is_safe_name(rel) {
            Some(rel)
        } else {
            None
        },
        None => None,
    }
}

/// Compares two byte vectors.
fn bytes_eq(a: &Vec<u8>, b: &Vec<u8>) -> (r: bool)
    ensures
        r == (a@ == b@),
{
    if a.len() != b.len() {
        assert(a@ !~= b@);
        return false;
    }
    let n = a.len();
    let mut i: usize = 0;
    while i < n
        invariant
            n == a@.len(),
            n == b@.len(),
            i <= n,
            forall|j: int| 0 <= j < i ==> a@[j] == b@[j],
        decreases n - i,
    {
        if a[i] != b[i] {
            assert(a@ !~= b@);
            return false;
        }
        i = i + 1;
    }
    assert(a@ =~= b@);
    true
}

/// The suffix of `v` from index `k` on.
fn tail_from(v: &Vec<u8>, k: usize) -> (r: Vec<u8>)
    requires
        k <= v@.len(),
    ensures
        r@ == v@.subrange(k as int, v@.len() as int),
{
    let mut r: Vec<u8> = Vec::new();
    let mut i: usize = k;
    while i < v.len()
        invariant
            k <= i <= v@.len(),
            r@.len() == i - k,
            forall|j: int| 0 <= j < i - k ==> r@[j] == v@[k + j],
        decreases v@.len() - i,
    {
        r.push(v[i]);
        i = i + 1;
    }
    assert(r@ =~= v@.subrange(k as int, v@.len() as int));
    r
}

/// Removes every trailing separator.
fn trim_trailing_slashes(v: &mut Vec<u8>)
    ensures
        final(v)@ == trim_slashes(old(v)@),
{
    loop
        invariant
            trim_slashes(v@) == trim_slashes(old(v)@),
        decreases v@.len(),
    {
        let n = v.len();
        if n > 0 && v[n - 1] == 47 {
            proof {
                assert(v@.subrange(0, n - 1) =~= v@.drop_last());
            }
            v.truncate(n - 1);
        } else {
            return ;
        }
    }
}

/// Maps a filesystem path to its archive name relative to the traversal root.
/// The empty name stands for the root itself, which the writer suppresses.
/// Every path that does not resolve to a safe name strictly inside the root
/// is rejected as an escape.
pub fn map_relative(root: &Vec<u8>, path: &Vec<u8>) -> (r: Result<Vec<u8>, PathError>)
    ensures
        match r {
            Ok(rel) => map_rel_spec(root@, path@) == Some(rel@),
            Err(e) => e == PathError::Escape && map_rel_spec(root@, path@) is None,
        },
{
    let mut nr = normalize_seps(root);
    trim_trailing_slashes(&mut nr);
    let mut np = normalize_seps(path);
    trim_trailing_slashes(&mut np);
    if bytes_eq(&np, &nr) {
        let empty: Vec<u8> = Vec::new();
        assert(empty@ =~= Seq::<u8>::empty());
        return Ok(empty);
    }
    let rel: Vec<u8>;
    if nr.len() == 0 {
        proof {
            if np@.len() == 0 {
                assert(np@ =~= nr@);
            }
        }
        rel = np;
    } else if nr.len() < np.len() && np.len() - nr.len() > 1 {
        let head = prefix_of(&np, nr.len());
        if !bytes_eq(&head, &nr) || np[nr.len()] != 47 {
            return Err(PathError::Escape);
        }
        rel = tail_from(&np, nr.len() + 1);
    } else {
        return Err(PathError::Escape);
    }
    assert(rel@.len() > 0);
    if check_name(&rel) {
        Ok(rel)
    } else {
        Err(PathError::Escape)
    }
}

/// The first `k` bytes of `v`.
fn prefix_of(v: &Vec<u8>, k: usize) -> (r: Vec<u8>)
    requires
        k <= v@.len(),
    ensures
        r@ == v@.subrange(0, k as int),
{
    let mut r: Vec<u8> = Vec::new();
    let mut i: usize = 0;
    while i < k
        invariant
            i <= k <= v@.len(),
            r@.len() == i,
            forall|j: int| 0 <= j < i ==> r@[j] == v@[j],
        decreases k - i,
    {
        r.push(v[i]);
        i = i + 1;
    }
    assert(r@ =~= v@.subrange(0, k as int));
    r
}

/// Joins an archive name under a destination root with a single separator.
pub fn join_under(dest: &Vec<u8>, name: &Vec<u8>) -> (r: Vec<u8>)
    ensures
        r@ == dest@ + seq![47u8] + name@,
{
    let mut r: Vec<u8> = Vec::new();
    let mut i: usize = 0;
    while i < dest.len()
        invariant
            i <= dest@.len(),
            r@.len() == i,
            forall|j: int| 0 <= j < i ==> r@[j] == dest@[j],
        decreases dest@.len() - i,
    {
        r.push(dest[i]);
        i = i + 1;
    }
    r.push(47);
    let mut k: usize = 0;
    while k < name.len()
        invariant
            k <= name@.len(),
            r@.len() == dest@.len() + 1 + k,
            forall|j: int| 0 <= j < dest@.len() ==> r@[j] == dest@[j],
            r@[dest@.len() as int] == 47u8,
            forall|j: int| 0 <= j < k ==> r@[dest@.len() + 1 + j] == name@[j],
        decreases name@.len() - k,
    {
        r.push(name[k]);
        k = k + 1;
    }
    assert(r@ =~= dest@ + seq![47u8] + name@);
    r
}

} // verus!
