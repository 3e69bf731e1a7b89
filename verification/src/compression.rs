//! Compressed-episode path conventions: compressed files carry the
//! archive extension appended to the original filename.

use vstd::prelude::*;

use crate::scanner::rfind_dot;
use crate::text::{chars_to_string, ends_with, ends_with_ex, to_chars};

verus! {

/// Position of the last path separator, scanning down from `j`.
pub open spec fn rfind_slash(s: Seq<char>, j: int) -> Option<int>
    decreases j + 1,
    when j < s.len()
{
    if j < 0 {
        None
    } else if s[j] == '/' {
        Some(j)
    } else {
        rfind_slash(s, j - 1)
    }
}

/// The final path component.
pub open spec fn file_name_of(p: Seq<char>) -> Seq<char> {
    match rfind_slash(p, p.len() - 1) {
        Some(q) => p.subrange(q + 1, p.len() as int),
        None => p,
    }
}

/// A path names a compressed episode: the extension of its final
/// component, which must leave a non-empty stem, is the archive
/// extension.
pub open spec fn spec_is_compressed(p: Seq<char>) -> bool {
    let f = file_name_of(p);
    match rfind_dot(f, f.len() - 1) {
        Some(q) => q > 0 && f.subrange(q + 1, f.len() as int) == "zst"@,
        None => false,
    }
}

/// Decides whether a path names a compressed episode.
pub fn is_compressed(path: &str) -> (r: bool)
    ensures
        r == spec_is_compressed(path@),
{
    let v = to_chars(path);
    let n = v.len();
    let mut j = n;
    while j > 0 && v[j - 1] != '/'
        invariant
            j <= n,
            n == v@.len(),
            rfind_slash(v@, n - 1) == rfind_slash(v@, j - 1),
        decreases j,
    {
        j -= 1;
        proof {
            assert(rfind_slash(v@, j as int) == rfind_slash(v@, j - 1));
        }
    }
    let fstart = j;
    proof {
        if fstart > 0 {
            assert(rfind_slash(v@, n - 1) == Some(fstart - 1));
        } else {
            assert(rfind_slash(v@, n - 1) is None);
            assert(v@.subrange(0, n as int) =~= v@);
        }
    }
    let ghost f = file_name_of(path@);
    proof {
        assert(f =~= v@.subrange(fstart as int, n as int));
    }
    let mut q = n;
    while q > fstart && v[q - 1] != '.'
        invariant
            fstart <= q <= n,
            n == v@.len(),
            f == v@.subrange(fstart as int, n as int),
            rfind_dot(f, f.len() - 1) == rfind_dot(f, q - fstart - 1),
        decreases q,
    {
        q -= 1;
        proof {
            assert(f[q - fstart] == v@[q as int]);
            assert(rfind_dot(f, q - fstart) == rfind_dot(f, q - fstart - 1));
        }
    }
    if q == fstart {
        proof {
            assert(rfind_dot(f, f.len() - 1) is None);
        }
        return false;
    }
    proof {
        assert(f[q - fstart - 1] == v@[q - 1]);
        assert(rfind_dot(f, f.len() - 1) == Some(q - fstart - 1));
    }
    if q - fstart == 1 {
        return false;
    }
    let mut ext: Vec<char> = Vec::new();
    let mut t = q;
    while t < n
        invariant
            q <= t <= n,
            n == v@.len(),
            ext@ == v@.subrange(q as int, t as int),
        decreases n - t,
    {
        ext.push(v[t]);
        t += 1;
        proof {
            assert(ext@ =~= v@.subrange(q as int, t as int));
        }
    }
    let zst = to_chars("zst");
    let r = ext.len() == zst.len() && crate::text::cs_lit_at(&ext, 0, &zst);
    proof {
        assert(f.subrange(q - fstart, f.len() as int) =~= v@.subrange(q as int, n as int));
        if r {
            assert(ext@ =~= "zst"@);
        } else {
            if f.subrange(q - fstart, f.len() as int) == "zst"@ {
                assert(forall|u: int| 0 <= u < zst@.len() ==> ext@[0 + u] == zst@[u]);
            }
        }
    }
    r
}

/// The compressed counterpart of a path: the archive extension
/// appended.
pub fn compressed_path(path: &String) -> (r: String)
    ensures
        r@ == path@ + ".zst"@,
{
    let mut out = path.clone();
    out.append(".zst");
    out
}

/// Every trailing archive extension stripped.
pub open spec fn strip_zst_all(s: Seq<char>) -> Seq<char>
    decreases s.len(),
{
    if ends_with(s, ".zst"@) && s.len() >= 4 {
        strip_zst_all(s.subrange(0, s.len() - 4))
    } else {
        s
    }
}

/// The original path of a compressed episode: every trailing archive
/// extension removed; a path that is not compressed has none.
pub fn decompressed_path(path: &str) -> (r: Option<String>)
    ensures
        r is Some <==> spec_is_compressed(path@),
        r is Some ==> r->0@ == strip_zst_all(path@),
{
    if !is_compressed(path) {
        return None;
    }
    let mut v = to_chars(path);
    let zst = to_chars(".zst");
    proof {
        reveal_strlit(".zst");
    }
    while ends_with_ex(&v, &zst)
        invariant
            zst@ == ".zst"@,
            zst@.len() == 4,
            strip_zst_all(path@) == strip_zst_all(v@),
        decreases v@.len(),
    {
        let m = v.len() - 4;
        v.truncate(m);
        proof {
            assert(strip_zst_all(path@) == strip_zst_all(v@));
        }
    }
    Some(chars_to_string(&v))
}

} // verus!
