//! The order of `String`: lexicographic by character (which is the byte
//! order of UTF-8), and a sort of string lists by it.
use vstd::prelude::*;

verus! {

broadcast use vstd::seq_lib::to_multiset_build, vstd::seq_lib::to_multiset_insert, vstd::seq_lib::to_multiset_contains;

/// `a < b` for strings.
pub open spec fn seq_less(a: Seq<char>, b: Seq<char>) -> bool
    decreases a.len(),
{
    if a.len() == 0 {
        b.len() > 0
    } else if b.len() == 0 {
        false
    } else if a[0] != b[0] {
        (a[0] as int) < (b[0] as int)
    } else {
        seq_less(a.drop_first(), b.drop_first())
    }
}

pub open spec fn seq_le(a: Seq<char>, b: Seq<char>) -> bool {
    a == b || seq_less(a, b)
}

/// Ascending, by the views of the strings.
pub open spec fn sorted_views(v: Seq<String>) -> bool {
    forall|i: int, j: int| 0 <= i < j < v.len() ==> seq_le(#[trigger] v[i]@, #[trigger] v[j]@)
}

/// Exactly one of `a < b`, `a == b`, `b < a` holds.
pub proof fn lemma_trichotomy(a: Seq<char>, b: Seq<char>)
    ensures
        seq_less(a, b) || a == b || seq_less(b, a),
        !(seq_less(a, b) && seq_less(b, a)),
        !(seq_less(a, b) && a == b),
    decreases a.len(),
{
    if a.len() > 0 && b.len() > 0 && a[0] == b[0] {
        lemma_trichotomy(a.drop_first(), b.drop_first());
        if a.drop_first() == b.drop_first() {
            assert(a =~= seq![a[0]] + a.drop_first());
            assert(b =~= seq![b[0]] + b.drop_first());
        }
    }
    if a.len() == 0 && b.len() == 0 {
        assert(a =~= b);
    }
    if a == b && a.len() > 0 {
        lemma_irreflexive(a);
    }
}

proof fn lemma_irreflexive(a: Seq<char>)
    ensures
        !seq_less(a, a),
    decreases a.len(),
{
    if a.len() > 0 {
        lemma_irreflexive(a.drop_first());
    }
}

pub proof fn lemma_transitive(a: Seq<char>, b: Seq<char>, c: Seq<char>)
    requires
        seq_less(a, b),
        seq_less(b, c),
    ensures
        seq_less(a, c),
    decreases a.len(),
{
    if a.len() > 0 && b.len() > 0 && c.len() > 0 && a[0] == b[0] && b[0] == c[0] {
        lemma_transitive(a.drop_first(), b.drop_first(), c.drop_first());
    }
}

pub(crate) fn less_exec(a: &str, b: &str) -> (r: bool)
    ensures
        r == seq_less(a@, b@),
{
    let x = crate::text::to_chars(a);
    let y = crate::text::to_chars(b);
    let mut i: usize = 0;
    assert(x@.subrange(0, x@.len() as int) =~= x@);
    assert(y@.subrange(0, y@.len() as int) =~= y@);
    assert(x@.subrange(0, 0) =~= y@.subrange(0, 0));
    while i < x.len() && i < y.len()
        invariant
            i <= x@.len(),
            i <= y@.len(),
            x@ == a@,
            y@ == b@,
            x@.subrange(0, i as int) == y@.subrange(0, i as int),
            seq_less(a@, b@) == seq_less(x@.subrange(i as int, x@.len() as int), y@.subrange(i as int, y@.len() as int)),
        decreases x@.len() - i,
    {
        let ghost xs = x@.subrange(i as int, x@.len() as int);
        let ghost ys = y@.subrange(i as int, y@.len() as int);
        if x[i] != y[i] {
            return x[i] < y[i];
        }
        assert(xs.drop_first() =~= x@.subrange(i + 1, x@.len() as int));
        assert(ys.drop_first() =~= y@.subrange(i + 1, y@.len() as int));
        assert(x@.subrange(0, i + 1) =~= x@.subrange(0, i as int).push(x@[i as int]));
        assert(y@.subrange(0, i + 1) =~= y@.subrange(0, i as int).push(y@[i as int]));
        i = i + 1;
    }
    i < y.len()
}

/// Sort strings in ascending order (`slice::sort` on `String`); equal
/// strings keep their relative order.
pub fn sort_strings(v: Vec<String>) -> (r: Vec<String>)
    ensures
        sorted_views(r@),
        r@.to_multiset() == v@.to_multiset(),
        r@.len() == v@.len(),
{
    let mut out: Vec<String> = Vec::new();
    let mut i: usize = 0;
    assert(v@.subrange(0, 0) =~= out@);
    while i < v.len()
        invariant
            i <= v@.len(),
            sorted_views(out@),
            out@.to_multiset() == v@.subrange(0, i as int).to_multiset(),
            out@.len() == i,
        decreases v@.len() - i,
    {
        let x = v[i].clone();
        let mut p: usize = 0;
        while p < out.len() && !less_exec(x.as_str(), out[p].as_str())
            invariant
                p <= out@.len(),
                forall|k: int| 0 <= k < p ==> !seq_less(x@, #[trigger] out@[k]@),
            decreases out@.len() - p,
        {
            p = p + 1;
        }
        let ghost before = out@;
        proof {
            assert forall|k: int| 0 <= k < p implies seq_le(#[trigger] before[k]@, x@) by {
                lemma_trichotomy(x@, before[k]@);
            }
            assert forall|k: int| p <= k < before.len() implies seq_less(x@, #[trigger] before[k]@) by {
                if k > p {
                    assert(seq_le(before[p as int]@, before[k]@));
                    if before[p as int]@ != before[k]@ {
                        lemma_transitive(x@, before[p as int]@, before[k]@);
                    }
                }
            }
        }
        out.insert(p, x);
        proof {
            assert(out@ == before.insert(p as int, v@[i as int]));
            assert forall|a: int, b: int| 0 <= a < b < out@.len() implies seq_le(
                #[trigger] out@[a]@,
                #[trigger] out@[b]@,
            ) by {
                if a < p && b == p {
                } else if a < p && b > p {
                    assert(out@[b] == before[b - 1]);
                    if b - 1 >= p {
                        if before[a]@ != x@ {
                            lemma_transitive(before[a]@, x@, before[b - 1]@);
                        }
                    }
                } else if a == p {
                    assert(out@[b] == before[b - 1]);
                } else if a > p {
                    assert(out@[a] == before[a - 1]);
                    assert(out@[b] == before[b - 1]);
                } else {
                    assert(out@[a] == before[a]);
                    assert(out@[b] == before[b]);
                }
            }
            assert(v@.subrange(0, i + 1) =~= v@.subrange(0, i as int).push(v@[i as int]));
        }
        i = i + 1;
    }
    assert(v@.subrange(0, v@.len() as int) =~= v@);
    out
}

/// Strictly ascending views: sorted without repeats.
pub open spec fn strictly_sorted(v: Seq<String>) -> bool {
    forall|i: int, j: int| 0 <= i < j < v.len() ==> seq_less(#[trigger] v[i]@, #[trigger] v[j]@)
}

/// The strings in ascending order, each once (as a `BTreeSet` lists them).
pub fn sorted_unique(all: Vec<String>) -> (r: Vec<String>)
    ensures
        strictly_sorted(r@),
        forall|s: Seq<char>| crate::text::string_views(r@).contains(s) <==> crate::text::string_views(all@).contains(s),
{
    let ghost everything = all@;
    let sorted = sort_strings(all);
    let mut out: Vec<String> = Vec::new();
    let mut k: usize = 0;
    while k < sorted.len()
        invariant
            k <= sorted@.len(),
            sorted_views(sorted@),
            sorted@.to_multiset() == everything.to_multiset(),
            strictly_sorted(out@),
            out@.len() > 0 ==> k > 0 && out@.last()@ == sorted@[k - 1]@,
            out@.len() == 0 ==> k == 0,
            forall|s: Seq<char>| crate::text::string_views(out@).contains(s) <==> crate::text::string_views(sorted@.subrange(0, k as int)).contains(s),
        decreases sorted@.len() - k,
    {
        let ghost before = out@;
        assert(forall|s: Seq<char>| crate::text::string_views(before).contains(s) <==> crate::text::string_views(sorted@.subrange(0, k as int)).contains(s));
        let take = out.len() == 0 || !crate::text::str_eq(out[out.len() - 1].as_str(), sorted[k].as_str());
        proof {
            let pre = sorted@.subrange(0, k as int);
            let pre1 = sorted@.subrange(0, k + 1);
            assert(pre1 =~= pre.push(sorted@[k as int]));
            assert(crate::text::string_views(pre1) =~= crate::text::string_views(pre).push(sorted@[k as int]@));
        }
        if take {
            proof {
                if before.len() > 0 {
                    assert(seq_le(sorted@[k - 1]@, sorted@[k as int]@));
                    assert forall|a: int| 0 <= a < before.len() implies seq_less(#[trigger] before[a]@, sorted@[k as int]@) by {
                        if a < before.len() - 1 {
                            assert(seq_less(before[a]@, before.last()@));
                            lemma_transitive(before[a]@, before.last()@, sorted@[k as int]@);
                        }
                    }
                }
            }
            out.push(sorted[k].clone());
            proof {
                assert(crate::text::string_views(out@) =~= crate::text::string_views(before).push(sorted@[k as int]@));
                assert forall|a: int, b: int| 0 <= a < b < out@.len() implies seq_less(
                    #[trigger] out@[a]@,
                    #[trigger] out@[b]@,
                ) by {
                    if b == out@.len() - 1 {
                        assert(out@[a] == before[a]);
                    } else {
                        assert(out@[a] == before[a]);
                        assert(out@[b] == before[b]);
                    }
                }
                let pre1 = sorted@.subrange(0, k + 1);
                assert forall|s: Seq<char>| crate::text::string_views(out@).contains(s) <==> crate::text::string_views(pre1).contains(s) by {
                    let pre = sorted@.subrange(0, k as int);
                    if crate::text::string_views(out@).contains(s) {
                        let a = choose|a: int| 0 <= a < crate::text::string_views(out@).len() && crate::text::string_views(out@)[a] == s;
                        if a < before.len() {
                            assert(crate::text::string_views(before)[a] == s);
                            assert(crate::text::string_views(before).contains(s));
                            assert(crate::text::string_views(before).contains(s) <==> crate::text::string_views(pre).contains(s));
                            let b = choose|b: int| 0 <= b < crate::text::string_views(pre).len() && crate::text::string_views(pre)[b] == s;
                            assert(crate::text::string_views(pre1)[b] == s);
                        } else {
                            assert(crate::text::string_views(pre1)[k as int] == s);
                        }
                    }
                    if crate::text::string_views(pre1).contains(s) {
                        let b = choose|b: int| 0 <= b < crate::text::string_views(pre1).len() && crate::text::string_views(pre1)[b] == s;
                        if b < k {
                            assert(crate::text::string_views(pre)[b] == s);
                            assert(crate::text::string_views(pre).contains(s));
                            assert(crate::text::string_views(before).contains(s) <==> crate::text::string_views(pre).contains(s));
                            let a = choose|a: int| 0 <= a < crate::text::string_views(before).len() && crate::text::string_views(before)[a] == s;
                            assert(crate::text::string_views(out@)[a] == s);
                        } else {
                            assert(crate::text::string_views(out@)[before.len() as int] == s);
                        }
                    }
                }
            }
        } else {
            proof {
                let pre = sorted@.subrange(0, k as int);
                let pre1 = sorted@.subrange(0, k + 1);
                assert(out@.last()@ == sorted@[k as int]@);
                assert(crate::text::string_views(out@)[out@.len() - 1] == sorted@[k as int]@);
                assert forall|s: Seq<char>| crate::text::string_views(out@).contains(s) <==> crate::text::string_views(pre1).contains(s) by {
                    if crate::text::string_views(pre1).contains(s) {
                        let b = choose|b: int| 0 <= b < crate::text::string_views(pre1).len() && crate::text::string_views(pre1)[b] == s;
                        if b < k {
                            assert(crate::text::string_views(pre)[b] == s);
                        }
                    }
                    if crate::text::string_views(out@).contains(s) {
                        let a = choose|a: int| 0 <= a < crate::text::string_views(out@).len() && crate::text::string_views(out@)[a] == s;
                        assert(crate::text::string_views(pre).contains(s));
                        let b = choose|b: int| 0 <= b < crate::text::string_views(pre).len() && crate::text::string_views(pre)[b] == s;
                        assert(crate::text::string_views(pre1)[b] == s);
                    }
                }
            }
        }
        k = k + 1;
    }
    proof {
        assert(sorted@.subrange(0, sorted@.len() as int) =~= sorted@);
        assert forall|s: Seq<char>| crate::text::string_views(sorted@).contains(s) <==> crate::text::string_views(everything).contains(s) by {
            if crate::text::string_views(sorted@).contains(s) {
                let a = choose|a: int| 0 <= a < sorted@.len() && crate::text::string_views(sorted@)[a] == s;
                assert(sorted@.to_multiset().contains(sorted@[a]));
                assert(everything.contains(sorted@[a]));
                let b = choose|b: int| 0 <= b < everything.len() && everything[b] == sorted@[a];
                assert(crate::text::string_views(everything)[b] == s);
            }
            if crate::text::string_views(everything).contains(s) {
                let b = choose|b: int| 0 <= b < everything.len() && crate::text::string_views(everything)[b] == s;
                assert(everything.to_multiset().contains(everything[b]));
                assert(sorted@.contains(everything[b]));
                let a = choose|a: int| 0 <= a < sorted@.len() && sorted@[a] == everything[b];
                assert(crate::text::string_views(sorted@)[a] == s);
            }
        }
    }
    out
}

} // verus!
