//! A model of Windows path strings, the platform the desktop package targets.
//!
//! Both `\` and `/` separate components; joining writes `\`. The helpers here
//! are the string operations the rest of the library uses in place of
//! `std::path::Path`, so their behaviour is the same on every host.
use vstd::prelude::*;
use crate::text::{to_chars, from_chars};

verus! {

pub open spec fn is_sep(c: char) -> bool {
    c == '\\' || c == '/'
}

/// Index of the last character satisfying `f`, or -1.
pub open spec fn last_index_where(s: Seq<char>, f: spec_fn(char) -> bool) -> int
    decreases s.len(),
{
    if s.len() == 0 {
        -1
    } else if f(s.last()) {
        s.len() - 1
    } else {
        last_index_where(s.drop_last(), f)
    }
}

pub open spec fn sep_pred() -> spec_fn(char) -> bool {
    |c: char| is_sep(c)
}

pub open spec fn char_pred(x: char) -> spec_fn(char) -> bool {
    |c: char| c == x
}

pub proof fn lemma_last_index_bounds(s: Seq<char>, f: spec_fn(char) -> bool)
    ensures
        -1 <= last_index_where(s, f) < s.len(),
        last_index_where(s, f) >= 0 ==> f(s[last_index_where(s, f)]),
        forall|j: int| last_index_where(s, f) < j < s.len() ==> !f(#[trigger] s[j]),
    decreases s.len(),
{
    if s.len() > 0 && !f(s.last()) {
        lemma_last_index_bounds(s.drop_last(), f);
        assert forall|j: int| last_index_where(s, f) < j < s.len() implies !f(#[trigger] s[j]) by {
            if j < s.len() - 1 {
                assert(s[j] == s.drop_last()[j]);
            }
        }
    }
}

/// The text without trailing separators.
pub open spec fn strip_seps(s: Seq<char>) -> Seq<char>
    decreases s.len(),
{
    if s.len() > 0 && is_sep(s.last()) {
        strip_seps(s.drop_last())
    } else {
        s
    }
}

pub open spec fn backslash() -> Seq<char> {
    seq!['\\']
}

/// `PathBuf::join` for a relative component: a separator is written between
/// the two parts unless the base is empty or already ends with one.
pub open spec fn join(base: Seq<char>, part: Seq<char>) -> Seq<char> {
    if base.len() == 0 {
        part
    } else if is_sep(base.last()) {
        base + part
    } else {
        base + backslash() + part
    }
}

pub open spec fn ends_with_colon(s: Seq<char>) -> bool {
    s.len() > 0 && s.last() == ':'
}

/// `Path::parent`: the path without its last component; `None` for an empty
/// path and for a bare root or drive such as `\` or `D:\`.
pub open spec fn parent(p: Seq<char>) -> Option<Seq<char>> {
    let t = strip_seps(p);
    let k = last_index_where(t, sep_pred());
    if t.len() == 0 {
        None
    } else if k < 0 {
        if ends_with_colon(t) {
            None
        } else {
            Some(Seq::empty())
        }
    } else {
        let head = t.subrange(0, k);
        if strip_seps(head).len() == 0 || ends_with_colon(head) {
            Some(t.subrange(0, k + 1))
        } else {
            Some(strip_seps(head))
        }
    }
}

/// `Path::file_name`: the last component; `None` for an empty path, a root,
/// a bare drive or `..`.
pub open spec fn file_name(p: Seq<char>) -> Option<Seq<char>> {
    let t = strip_seps(p);
    let k = last_index_where(t, sep_pred());
    let comp = t.subrange(k + 1, t.len() as int);
    if comp.len() == 0 || comp == seq!['.', '.'] || (k < 0 && ends_with_colon(comp)) {
        None
    } else {
        Some(comp)
    }
}

/// `Path::extension`: the text after the last `.` of the file name, unless
/// that dot starts the name.
pub open spec fn extension(p: Seq<char>) -> Option<Seq<char>> {
    match file_name(p) {
        None => None,
        Some(name) => {
            let d = last_index_where(name, char_pred('.'));
            if d <= 0 {
                None
            } else {
                Some(name.subrange(d + 1, name.len() as int))
            }
        },
    }
}

/// `Path::file_stem`: the file name without its extension.
pub open spec fn file_stem(p: Seq<char>) -> Option<Seq<char>> {
    match file_name(p) {
        None => None,
        Some(name) => {
            let d = last_index_where(name, char_pred('.'));
            if d <= 0 {
                Some(name)
            } else {
                Some(name.subrange(0, d))
            }
        },
    }
}

pub fn is_sep_exec(c: char) -> (b: bool)
    ensures
        b == is_sep(c),
{
    c == '\\' || c == '/'
}

/// Index just past the last character that is not a separator.
fn strip_seps_len(v: &[char], end: usize) -> (r: usize)
    requires
        end <= v@.len(),
    ensures
        r <= end,
        strip_seps(v@.subrange(0, end as int)) == v@.subrange(0, r as int),
{
    let mut e = end;
    while e > 0 && is_sep_exec(v[e - 1])
        invariant
            e <= end <= v@.len(),
            strip_seps(v@.subrange(0, end as int)) == strip_seps(v@.subrange(0, e as int)),
        decreases e,
    {
        assert(v@.subrange(0, e as int).drop_last() =~= v@.subrange(0, e - 1));
        e = e - 1;
    }
    e
}

/// Last index below `end` whose character is a separator, as an offset by
/// one (0 means none).
fn rfind_sep(v: &[char], end: usize) -> (r: usize)
    requires
        end <= v@.len(),
    ensures
        r <= end,
        r as int - 1 == last_index_where(v@.subrange(0, end as int), sep_pred()),
{
    let mut e = end;
    while e > 0 && !is_sep_exec(v[e - 1])
        invariant
            e <= end <= v@.len(),
            last_index_where(v@.subrange(0, end as int), sep_pred()) == last_index_where(
                v@.subrange(0, e as int),
                sep_pred(),
            ),
        decreases e,
    {
        assert(v@.subrange(0, e as int).drop_last() =~= v@.subrange(0, e - 1));
        e = e - 1;
    }
    e
}

fn rfind_char(v: &[char], end: usize, x: char) -> (r: usize)
    requires
        end <= v@.len(),
    ensures
        r <= end,
        r as int - 1 == last_index_where(v@.subrange(0, end as int), char_pred(x)),
{
    let mut e = end;
    while e > 0 && v[e - 1] != x
        invariant
            e <= end <= v@.len(),
            last_index_where(v@.subrange(0, end as int), char_pred(x)) == last_index_where(
                v@.subrange(0, e as int),
                char_pred(x),
            ),
        decreases e,
    {
        assert(v@.subrange(0, e as int).drop_last() =~= v@.subrange(0, e - 1));
        e = e - 1;
    }
    e
}

fn slice_to_vec(v: &[char], lo: usize, hi: usize) -> (r: Vec<char>)
    requires
        lo <= hi <= v@.len(),
    ensures
        r@ == v@.subrange(lo as int, hi as int),
{
    let mut r: Vec<char> = Vec::new();
    let mut i = lo;
    while i < hi
        invariant
            lo <= i <= hi <= v@.len(),
            r@ == v@.subrange(lo as int, i as int),
        decreases hi - i,
    {
        r.push(v[i]);
        i = i + 1;
        assert(r@ =~= v@.subrange(lo as int, i as int));
    }
    r
}

/// Join a relative component onto a base path.
pub fn join_path(base: &str, part: &str) -> (r: String)
    ensures
        r@ == join(base@, part@),
{
    let b = to_chars(base);
    let mut out = b.clone();
    if b.len() > 0 && !is_sep_exec(b[b.len() - 1]) {
        out.push('\\');
    }
    let p = to_chars(part);
    let mut i: usize = 0;
    let ghost start = out@;
    while i < p.len()
        invariant
            i <= p@.len(),
            out@ == start + p@.subrange(0, i as int),
        decreases p@.len() - i,
    {
        out.push(p[i]);
        i = i + 1;
        assert(out@ =~= start + p@.subrange(0, i as int));
    }
    assert(p@.subrange(0, p@.len() as int) =~= p@);
    proof {
        if b@.len() == 0 {
            assert(out@ =~= part@);
        } else if is_sep(b@.last()) {
            assert(out@ =~= base@ + part@);
        } else {
            assert(out@ =~= base@ + backslash() + part@);
        }
    }
    from_chars(out.as_slice())
}

/// Join several relative components in order.
pub open spec fn join_all(base: Seq<char>, parts: Seq<Seq<char>>) -> Seq<char>
    decreases parts.len(),
{
    if parts.len() == 0 {
        base
    } else {
        join(join_all(base, parts.drop_last()), parts.last())
    }
}

/// `Path::parent`.
pub fn parent_path(p: &str) -> (r: Option<String>)
    ensures
        r is Some <==> parent(p@) is Some,
        r matches Some(s) ==> s@ == parent(p@)->0,
{
    let v = to_chars(p);
    assert(v@.subrange(0, v@.len() as int) =~= v@);
    let t = strip_seps_len(v.as_slice(), v.len());
    let ghost tt = v@.subrange(0, t as int);
    if t == 0 {
        return None;
    }
    let k1 = rfind_sep(v.as_slice(), t);
    if k1 == 0 {
        if v[t - 1] == ':' {
            return None;
        }
        return Some(String::new());
    }
    let k = k1 - 1;
    assert(v@.subrange(0, t as int).subrange(0, k as int) =~= v@.subrange(0, k as int));
    let h = strip_seps_len(v.as_slice(), k);
    if h == 0 || v[k - 1] == ':' {
        proof {
            if k > 0 {
                assert(v@.subrange(0, k as int).last() == v@[k - 1]);
            }
        }
        assert(tt.subrange(0, k + 1) =~= v@.subrange(0, k + 1));
        let out = slice_to_vec(v.as_slice(), 0, k + 1);
        return Some(from_chars(out.as_slice()));
    }
    assert(v@.subrange(0, k as int).last() == v@[k - 1]);
    let out = slice_to_vec(v.as_slice(), 0, h);
    Some(from_chars(out.as_slice()))
}

/// `Path::file_name`.
pub fn file_name_of(p: &str) -> (r: Option<String>)
    ensures
        r is Some <==> file_name(p@) is Some,
        r matches Some(s) ==> s@ == file_name(p@)->0,
{
    let v = to_chars(p);
    assert(v@.subrange(0, v@.len() as int) =~= v@);
    let t = strip_seps_len(v.as_slice(), v.len());
    let ghost tt = v@.subrange(0, t as int);
    let k1 = rfind_sep(v.as_slice(), t);
    let comp = slice_to_vec(v.as_slice(), k1, t);
    assert(comp@ =~= tt.subrange(k1 as int, tt.len() as int));
    if comp.len() == 0 {
        return None;
    }
    if comp.len() == 2 && comp[0] == '.' && comp[1] == '.' {
        assert(comp@ =~= seq!['.', '.']);
        return None;
    }
    assert(comp@ != seq!['.', '.']) by {
        if comp@.len() == 2 {
            assert(comp@[0] != '.' || comp@[1] != '.');
        }
    }
    if k1 == 0 && comp[comp.len() - 1] == ':' {
        return None;
    }
    Some(from_chars(comp.as_slice()))
}

/// `Path::extension`.
pub fn extension_of(p: &str) -> (r: Option<String>)
    ensures
        r is Some <==> extension(p@) is Some,
        r matches Some(s) ==> s@ == extension(p@)->0,
{
    match file_name_of(p) {
        None => None,
        Some(name) => {
            let n = to_chars(name.as_str());
            assert(n@.subrange(0, n@.len() as int) =~= n@);
            let d1 = rfind_char(n.as_slice(), n.len(), '.');
            if d1 <= 1 {
                None
            } else {
                let e = slice_to_vec(n.as_slice(), d1, n.len());
                Some(from_chars(e.as_slice()))
            }
        },
    }
}

/// `Path::file_stem`.
pub fn file_stem_of(p: &str) -> (r: Option<String>)
    ensures
        r is Some <==> file_stem(p@) is Some,
        r matches Some(s) ==> s@ == file_stem(p@)->0,
{
    match file_name_of(p) {
        None => None,
        Some(name) => {
            let n = to_chars(name.as_str());
            assert(n@.subrange(0, n@.len() as int) =~= n@);
            let d1 = rfind_char(n.as_slice(), n.len(), '.');
            if d1 <= 1 {
                Some(name)
            } else {
                let e = slice_to_vec(n.as_slice(), 0, d1 - 1);
                Some(from_chars(e.as_slice()))
            }
        },
    }
}

} // verus!
