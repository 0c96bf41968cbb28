//! User-facing spellings of paths.
//!
//! Windows' canonicalization returns verbatim paths such as `\\?\D:\Pictures`.
//! That spelling is an implementation detail and should never reach the UI,
//! saved scan records or the Worker protocol.
use vstd::prelude::*;
use crate::text::{to_chars, from_chars, is_prefix};

verus! {

pub open spec fn unc_verbatim() -> Seq<char> {
    seq!['\\', '\\', '?', '\\', 'U', 'N', 'C', '\\']
}

pub open spec fn verbatim() -> Seq<char> {
    seq!['\\', '\\', '?', '\\']
}

/// `\\?\UNC\server\share` becomes `\\server\share`, `\\?\D:\x` becomes
/// `D:\x`; every other spelling is kept.
pub open spec fn strip_verbatim(s: Seq<char>) -> Seq<char> {
    if is_prefix(unc_verbatim(), s) {
        seq!['\\', '\\'] + s.subrange(8, s.len() as int)
    } else if is_prefix(verbatim(), s) {
        s.subrange(4, s.len() as int)
    } else {
        s
    }
}

fn has_prefix(v: &[char], p: &[char]) -> (b: bool)
    ensures
        b == is_prefix(p@, v@),
{
    crate::text::starts_with_chars(v, p)
}

/// Return a user-facing spelling while preserving normal and non-Windows paths.
pub fn strip_verbatim_prefix(path: &str) -> (r: String)
    ensures
        r@ == strip_verbatim(path@),
{
    let v = to_chars(path);
    let unc = to_chars("\\\\?\\UNC\\");
    let plain = to_chars("\\\\?\\");
    proof {
        reveal_strlit("\\\\?\\UNC\\");
        reveal_strlit("\\\\?\\");
        assert(unc@ =~= unc_verbatim());
        assert(plain@ =~= verbatim());
    }
    if has_prefix(v.as_slice(), unc.as_slice()) {
        let mut out: Vec<char> = Vec::new();
        out.push('\\');
        out.push('\\');
        let mut i: usize = 8;
        while i < v.len()
            invariant
                8 <= i <= v@.len(),
                out@ == seq!['\\', '\\'] + v@.subrange(8, i as int),
            decreases v@.len() - i,
        {
            out.push(v[i]);
            i = i + 1;
            assert(out@ =~= seq!['\\', '\\'] + v@.subrange(8, i as int));
        }
        return from_chars(out.as_slice());
    }
    if has_prefix(v.as_slice(), plain.as_slice()) {
        let mut out: Vec<char> = Vec::new();
        let mut i: usize = 4;
        while i < v.len()
            invariant
                4 <= i <= v@.len(),
                out@ == v@.subrange(4, i as int),
            decreases v@.len() - i,
        {
            out.push(v[i]);
            i = i + 1;
            assert(out@ =~= v@.subrange(4, i as int));
        }
        return from_chars(out.as_slice());
    }
    from_chars(v.as_slice())
}

/// The spelling of a path shown to the user.
pub fn display_path(path: &str) -> (r: String)
    ensures
        r@ == strip_verbatim(path@),
{
    strip_verbatim_prefix(path)
}

} // verus!
