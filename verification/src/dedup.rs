//! The determinism pass over generated enumerated-type declarations: a
//! lexicographic sort followed by removal of adjacent duplicates, so that
//! each declaration text survives once and in a fixed order. Deduplication
//! is by exact text, not by logical enumeration identity.

use vstd::prelude::*;
use crate::text::views_of;

verus! {

/// Lexicographic order on character sequences, by scalar value.
pub open spec fn lex_le(a: Seq<char>, b: Seq<char>) -> bool
    decreases a.len(),
{
    if a.len() == 0 {
        true
    } else if b.len() == 0 {
        false
    } else if (a[0] as u32) < (b[0] as u32) {
        true
    } else if (a[0] as u32) > (b[0] as u32) {
        false
    } else {
        lex_le(a.drop_first(), b.drop_first())
    }
}

/// Whether the strings come lexicographically ordered.
pub fn str_le(a: &str, b: &str) -> (r: bool)
    ensures
        r == lex_le(a@, b@),
{
    let an = a.unicode_len();
    let bn = b.unicode_len();
    let mut i: usize = 0;
    proof {
        assert(a@.skip(0) =~= a@);
        assert(b@.skip(0) =~= b@);
    }
    while i < an && i < bn
        invariant
            0 <= i <= an,
            0 <= i <= bn,
            an == a@.len(),
            bn == b@.len(),
            lex_le(a@, b@) == lex_le(a@.skip(i as int), b@.skip(i as int)),
        decreases an - i,
    {
        let ca = a.get_char(i);
        let cb = b.get_char(i);
        proof {
            assert(a@.skip(i as int)[0] == a@[i as int]);
            assert(b@.skip(i as int)[0] == b@[i as int]);
            assert(a@.skip(i as int).drop_first() =~= a@.skip(i as int + 1));
            assert(b@.skip(i as int).drop_first() =~= b@.skip(i as int + 1));
        }
        if (ca as u32) < (cb as u32) {
            proof {
                assert(lex_le(a@.skip(i as int), b@.skip(i as int)));
            }
            return true;
        }
        if (ca as u32) > (cb as u32) {
            proof {
                assert(!lex_le(a@.skip(i as int), b@.skip(i as int)));
            }
            return false;
        }
        i = i + 1;
    }
    proof {
        if i >= an {
            assert(a@.skip(i as int).len() == 0);
            assert(lex_le(a@.skip(i as int), b@.skip(i as int)));
        } else {
            assert(b@.skip(i as int).len() == 0);
            assert(a@.skip(i as int).len() > 0);
            assert(!lex_le(a@.skip(i as int), b@.skip(i as int)));
        }
    }
    i >= an
}

/// Inserts `x` into an ordered sequence, before the first element it does
/// not come after.
pub open spec fn insert_lex(x: Seq<char>, s: Seq<Seq<char>>) -> Seq<Seq<char>>
    decreases s.len(),
{
    if s.len() == 0 {
        seq![x]
    } else if lex_le(x, s[0]) {
        seq![x] + s
    } else {
        seq![s[0]] + insert_lex(x, s.drop_first())
    }
}

/// Insertion sort of text sequences, stable and deterministic.
pub open spec fn sort_lex(s: Seq<Seq<char>>) -> Seq<Seq<char>>
    decreases s.len(),
{
    if s.len() == 0 {
        Seq::empty()
    } else {
        insert_lex(s.last(), sort_lex(s.drop_last()))
    }
}

proof fn lemma_insert_lex_at(x: Seq<char>, s: Seq<Seq<char>>, j: int)
    requires
        0 <= j <= s.len(),
        forall|k: int| 0 <= k < j ==> !lex_le(x, #[trigger] s[k]),
        j < s.len() ==> lex_le(x, s[j]),
    ensures
        insert_lex(x, s) == s.take(j) + seq![x] + s.skip(j),
    decreases j,
{
    if j == 0 {
        if s.len() == 0 {
            assert(insert_lex(x, s) =~= s.take(0) + seq![x] + s.skip(0));
        } else {
            assert(insert_lex(x, s) =~= s.take(0) + seq![x] + s.skip(0));
        }
    } else {
        assert(!lex_le(x, s[0]));
        lemma_insert_lex_at(x, s.drop_first(), j - 1);
        assert(s.drop_first().take(j - 1) =~= s.take(j).drop_first());
        assert(s.drop_first().skip(j - 1) =~= s.skip(j));
        assert(insert_lex(x, s) =~= s.take(j) + seq![x] + s.skip(j));
    }
}

fn insert_sorted(v: &mut Vec<String>, x: String)
    ensures
        views_of(final(v)@) == insert_lex(x@, views_of(old(v)@)),
{
    let ghost sv = views_of(v@);
    let mut j: usize = 0;
    while j < v.len() && !str_le(x.as_str(), v[j].as_str())
        invariant
            0 <= j <= v@.len(),
            v@ == old(v)@,
            sv == views_of(v@),
            sv.len() == v@.len(),
            forall|k: int| 0 <= k < j ==> !lex_le(x@, #[trigger] sv[k]),
        decreases v@.len() - j,
    {
        proof {
            assert(sv[j as int] == v@[j as int]@);
        }
        j = j + 1;
    }
    proof {
        if j < v@.len() {
            assert(sv[j as int] == v@[j as int]@);
        }
        lemma_insert_lex_at(x@, sv, j as int);
    }
    v.insert(j, x);
    proof {
        assert(views_of(v@) =~= sv.take(j as int) + seq![x@] + sv.skip(j as int));
    }
}

/// Sorts the texts lexicographically; the result is a function of the input
/// sequence alone.
pub fn sort_strings(v: Vec<String>) -> (r: Vec<String>)
    ensures
        views_of(r@) == sort_lex(views_of(v@)),
{
    let ghost vv = views_of(v@);
    let mut out: Vec<String> = Vec::new();
    let mut i: usize = 0;
    proof {
        assert(views_of(out@) =~= sort_lex(vv.take(0)));
    }
    while i < v.len()
        invariant
            0 <= i <= v@.len(),
            vv == views_of(v@),
            vv.len() == v@.len(),
            views_of(out@) == sort_lex(vv.take(i as int)),
        decreases v@.len() - i,
    {
        proof {
            assert(vv[i as int] == v@[i as int]@);
            assert(vv.take(i as int + 1).drop_last() =~= vv.take(i as int));
            assert(vv.take(i as int + 1).last() == vv[i as int]);
        }
        insert_sorted(&mut out, v[i].clone());
        i = i + 1;
    }
    proof {
        assert(vv.take(vv.len() as int) =~= vv);
    }
    out
}

/// Removes adjacent duplicates, keeping the first of each run.
pub open spec fn dedup_adj(s: Seq<Seq<char>>) -> Seq<Seq<char>>
    decreases s.len(),
{
    if s.len() <= 1 {
        s
    } else if s.last() == s[s.len() - 2] {
        dedup_adj(s.drop_last())
    } else {
        dedup_adj(s.drop_last()).push(s.last())
    }
}

proof fn lemma_dedup_adj_last(s: Seq<Seq<char>>)
    requires
        s.len() > 0,
    ensures
        dedup_adj(s).len() > 0,
        dedup_adj(s).last() == s.last(),
    decreases s.len(),
{
    if s.len() > 1 {
        lemma_dedup_adj_last(s.drop_last());
        if s.last() == s[s.len() - 2] {
            assert(s.drop_last().last() == s[s.len() - 2]);
        }
    }
}

/// Drops adjacent duplicate texts; on a sorted input each distinct text
/// survives exactly once.
pub fn dedup_strings(v: Vec<String>) -> (r: Vec<String>)
    ensures
        views_of(r@) == dedup_adj(views_of(v@)),
{
    let ghost vv = views_of(v@);
    let mut out: Vec<String> = Vec::new();
    let mut i: usize = 0;
    proof {
        assert(views_of(out@) =~= dedup_adj(vv.take(0)));
    }
    while i < v.len()
        invariant
            0 <= i <= v@.len(),
            vv == views_of(v@),
            vv.len() == v@.len(),
            views_of(out@) == dedup_adj(vv.take(i as int)),
            i > 0 ==> views_of(out@).len() > 0 && views_of(out@).last() == vv[i - 1],
            out@.len() > 0 ==> i > 0,
        decreases v@.len() - i,
    {
        proof {
            assert(vv[i as int] == v@[i as int]@);
            assert(vv.take(i as int + 1).drop_last() =~= vv.take(i as int));
            assert(vv.take(i as int + 1).last() == vv[i as int]);
            if i > 0 {
                assert(vv.take(i as int + 1)[i - 1] == vv[i - 1]);
            }
            lemma_dedup_adj_last(vv.take(i as int + 1));
        }
        if out.len() == 0 || !crate::text::str_eq(out[out.len() - 1].as_str(), v[i].as_str()) {
            let ghost out0 = views_of(out@);
            proof {
                if out@.len() > 0 {
                    assert(out0.last() == out@[out@.len() - 1]@);
                }
            }
            out.push(v[i].clone());
            proof {
                assert(views_of(out@) =~= out0.push(vv[i as int]));
            }
        } else {
            proof {
                assert(views_of(out@).last() == out@[out@.len() - 1]@);
            }
        }
        i = i + 1;
    }
    proof {
        assert(vv.take(vv.len() as int) =~= vv);
    }
    out
}

} // verus!
