//! The orders that the report sorts by: lexicographic on character codes,
//! with or without ASCII case folding, and an insertion sort over them.

use vstd::prelude::*;
use vstd::seq_lib::*;
use vstd::multiset::Multiset;
use crate::text::chars_of;

verus! {

/// Lexicographic order on code sequences.
pub open spec fn lex_le(a: Seq<u32>, b: Seq<u32>) -> bool
    decreases a.len(),
{
    if a.len() == 0 {
        true
    } else if b.len() == 0 {
        false
    } else if a[0] < b[0] {
        true
    } else if a[0] > b[0] {
        false
    } else {
        lex_le(a.drop_first(), b.drop_first())
    }
}

pub proof fn lemma_lex_total(a: Seq<u32>, b: Seq<u32>)
    ensures
        lex_le(a, b) || lex_le(b, a),
    decreases a.len(),
{
    if a.len() > 0 && b.len() > 0 && a[0] == b[0] {
        lemma_lex_total(a.drop_first(), b.drop_first());
    }
}

pub proof fn lemma_lex_trans(a: Seq<u32>, b: Seq<u32>, c: Seq<u32>)
    requires
        lex_le(a, b),
        lex_le(b, c),
    ensures
        lex_le(a, c),
    decreases a.len(),
{
    if a.len() > 0 && b.len() > 0 && c.len() > 0 && a[0] == b[0] && b[0] == c[0] {
        lemma_lex_trans(a.drop_first(), b.drop_first(), c.drop_first());
    }
}

/// The code of a character.
pub open spec fn code(c: char) -> u32 {
    c as u32
}

/// The code of a character with ASCII upper case folded to lower case.
pub open spec fn folded_code(c: char) -> u32 {
    if 65 <= (c as u32) <= 90 {
        (c as u32 + 32) as u32
    } else {
        c as u32
    }
}

/// The codes of a string, folded or not.
pub open spec fn codes(s: Seq<char>, fold: bool) -> Seq<u32> {
    if fold {
        s.map_values(|c: char| folded_code(c))
    } else {
        s.map_values(|c: char| code(c))
    }
}

/// The codes of `s`, folded or not.
pub fn codes_of(s: &str, fold: bool) -> (r: Vec<u32>)
    ensures
        r@ == codes(s@, fold),
{
    let cs = chars_of(s);
    let mut r: Vec<u32> = Vec::new();
    let mut i: usize = 0;
    while i < cs.len()
        invariant
            i <= cs@.len(),
            cs@ == s@,
            r@ == codes(s@, fold).subrange(0, i as int),
        decreases cs@.len() - i,
    {
        let k = cs[i] as u32;
        let k2 = if fold && 65 <= k && k <= 90 {
            k + 32
        } else {
            k
        };
        r.push(k2);
        i += 1;
        assert(r@ =~= codes(s@, fold).subrange(0, i as int));
    }
    assert(r@ =~= codes(s@, fold));
    r
}

/// Compare two code sequences.
pub fn lex_le_exec(a: &Vec<u32>, b: &Vec<u32>) -> (r: bool)
    ensures
        r == lex_le(a@, b@),
{
    let mut i: usize = 0;
    assert(a@.subrange(0, a@.len() as int) =~= a@);
    assert(b@.subrange(0, b@.len() as int) =~= b@);
    while i < a.len() && i < b.len()
        invariant
            i <= a@.len(),
            i <= b@.len(),
            lex_le(a@, b@) == lex_le(a@.subrange(i as int, a@.len() as int), b@.subrange(i as int, b@.len() as int)),
        decreases a@.len() - i,
    {
        let ghost sa = a@.subrange(i as int, a@.len() as int);
        let ghost sb = b@.subrange(i as int, b@.len() as int);
        if a[i] < b[i] {
            return true;
        }
        if a[i] > b[i] {
            return false;
        }
        assert(sa.drop_first() =~= a@.subrange(i + 1, a@.len() as int));
        assert(sb.drop_first() =~= b@.subrange(i + 1, b@.len() as int));
        i += 1;
    }
    i == a.len()
}

/// A value sorted by the codes of a name.
pub trait Keyed {
    spec fn sort_key(&self) -> Seq<u32>;

    fn key_codes(&self) -> (r: Vec<u32>)
        ensures
            r@ == self.sort_key(),
    ;
}

/// `s` is ordered by its elements' keys.
pub open spec fn sorted_by_key<T: Keyed>(s: Seq<T>) -> bool {
    forall|i: int, j: int| 0 <= i < j < s.len() ==> lex_le(#[trigger] s[i].sort_key(), #[trigger] s[j].sort_key())
}

fn key_le_at<T: Keyed>(out: &Vec<T>, p: usize, kx: &Vec<u32>) -> (r: bool)
    requires
        p < out@.len(),
    ensures
        r == lex_le(out@[p as int].sort_key(), kx@),
{
    let ky = out[p].key_codes();
    lex_le_exec(&ky, kx)
}

/// Sort `v` by its elements' keys; equal keys keep no particular order.
pub fn sort_by_key<T: Keyed>(v: Vec<T>) -> (r: Vec<T>)
    ensures
        sorted_by_key(r@),
        r@.to_multiset() == v@.to_multiset(),
{
    broadcast use group_to_multiset_ensures;

    let mut rest = v;
    let mut out: Vec<T> = Vec::new();
    while rest.len() > 0
        invariant
            sorted_by_key(out@),
            out@.to_multiset().add(rest@.to_multiset()) == v@.to_multiset(),
        decreases rest@.len(),
    {
        let ghost before = rest@;
        let x = rest.pop().unwrap();
        assert(before =~= rest@.push(x));
        let kx = x.key_codes();
        let mut p: usize = 0;
        while p < out.len() && key_le_at(&out, p, &kx)
            invariant
                p <= out@.len(),
                kx@ == x.sort_key(),
                forall|t: int| 0 <= t < p ==> lex_le(#[trigger] out@[t].sort_key(), x.sort_key()),
            decreases out@.len() - p,
        {
            p += 1;
        }
        proof {
            if p < out@.len() {
                lemma_lex_total(out@[p as int].sort_key(), x.sort_key());
            }
        }
        let ghost old_out = out@;
        out.insert(p, x);
        proof {
            to_multiset_insert(old_out, p as int, x);
            to_multiset_build(rest@, x);
            assert(out@ == old_out.insert(p as int, x));
            assert(out@.to_multiset() == old_out.to_multiset().insert(x));
            assert(before.to_multiset() == rest@.to_multiset().insert(x));
            assert(out@.to_multiset().add(rest@.to_multiset()) =~= old_out.to_multiset().add(before.to_multiset()));
            assert forall|i: int, j: int| 0 <= i < j < out@.len() implies lex_le(
                #[trigger] out@[i].sort_key(),
                #[trigger] out@[j].sort_key(),
            ) by {
                if i < p && j == p {
                } else if i < p && j > p {
                    assert(lex_le(old_out[i].sort_key(), old_out[j - 1].sort_key()));
                } else if i == p && j > p {
                    if j - 1 > p {
                        assert(lex_le(old_out[p as int].sort_key(), old_out[j - 1].sort_key()));
                        lemma_lex_trans(x.sort_key(), old_out[p as int].sort_key(), old_out[j - 1].sort_key());
                    }
                } else if i > p {
                    assert(lex_le(old_out[i - 1].sort_key(), old_out[j - 1].sort_key()));
                }
            }
        }
    }
    assert(rest@.to_multiset() =~= Multiset::empty());
    out
}

} // verus!
