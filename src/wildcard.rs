//! Wildcard subpath patterns: splitting a key on `*`, matching a specifier
//! against it with captures, and substituting captures into a target.

use vstd::prelude::*;
use crate::text::{
    chars_of, find_char_from, first_index_from, is_prefix, lemma_first_index_from,
    occurs_at,
};

verus! {

/// The fragments of `k` between its `*`s, from position `pos` on.
pub open spec fn fragments_from(k: Seq<char>, pos: int) -> Seq<Seq<char>>
    decreases k.len() - pos,
{
    let j = first_index_from(k, '*', pos);
    if pos < 0 || pos > k.len() || j >= k.len() || j < pos {
        seq![k.subrange(pos, k.len() as int)]
    } else {
        seq![k.subrange(pos, j)] + fragments_from(k, j + 1)
    }
}

/// The fragments of `k` between its `*`s: one more than it has `*`s.
pub open spec fn fragments(k: Seq<char>) -> Seq<Seq<char>> {
    fragments_from(k, 0)
}

/// The earliest position at or after `pos` where `p` occurs in `s`, or -1.
pub open spec fn find_from(s: Seq<char>, p: Seq<char>, pos: int) -> int
    decreases s.len() + 1 - pos,
{
    if pos < 0 || pos + p.len() > s.len() {
        -1
    } else if is_prefix(p, s.subrange(pos, s.len() as int)) {
        pos
    } else {
        find_from(s, p, pos + 1)
    }
}

/// Matching `s` from position `pos` on against the fragments from index `i`
/// on: each fragment is found at its earliest occurrence, what precedes it is
/// captured; a final empty fragment (a trailing `*`) captures the rest, and
/// otherwise nothing may be left over.
pub open spec fn match_rest(fr: Seq<Seq<char>>, i: int, s: Seq<char>, pos: int) -> Option<Seq<Seq<char>>>
    decreases fr.len() - i,
{
    if i < 0 || i >= fr.len() {
        if pos == s.len() {
            Some(Seq::<Seq<char>>::empty())
        } else {
            None
        }
    } else if i == fr.len() - 1 && fr[i].len() == 0 {
        Some(seq![s.subrange(pos, s.len() as int)])
    } else {
        let j = find_from(s, fr[i], pos);
        if j < 0 {
            None
        } else {
            match match_rest(fr, i + 1, s, j + fr[i].len()) {
                Some(c) => Some(seq![s.subrange(pos, j)] + c),
                None => None,
            }
        }
    }
}

/// The captures of `s` against the wildcard key `k`, if it matches.
pub open spec fn wildcard_match(k: Seq<char>, s: Seq<char>) -> Option<Seq<Seq<char>>> {
    let fr = fragments(k);
    if is_prefix(fr[0], s) {
        match_rest(fr, 1, s, fr[0].len() as int)
    } else {
        None
    }
}

/// The fragments interleaved with the captures, from index `i` on:
/// `fr[i] + c[i] + fr[i+1] + ...`, ending with the last fragment.
pub open spec fn splice_from(fr: Seq<Seq<char>>, c: Seq<Seq<char>>, i: int) -> Seq<char>
    decreases fr.len() - i,
{
    if i < 0 || i >= fr.len() {
        Seq::<char>::empty()
    } else if i == fr.len() - 1 {
        fr[i]
    } else {
        fr[i] + c[i] + splice_from(fr, c, i + 1)
    }
}

/// `s` with its first `*` replaced by `w`, or `s` when it has none.
pub open spec fn replace_first_star(s: Seq<char>, w: Seq<char>) -> Seq<char> {
    let i = first_index_from(s, '*', 0);
    if i >= s.len() {
        s
    } else {
        s.subrange(0, i) + w + s.subrange(i + 1, s.len() as int)
    }
}

/// The captures substituted into `s` left to right, each replacing the first
/// `*` still present.
pub open spec fn substitute(s: Seq<char>, caps: Seq<Seq<char>>) -> Seq<char>
    decreases caps.len(),
{
    if caps.len() == 0 {
        s
    } else {
        replace_first_star(substitute(s, caps.subrange(0, caps.len() - 1)), caps[caps.len() - 1])
    }
}

pub proof fn lemma_fragments_from_len(k: Seq<char>, pos: int)
    ensures
        fragments_from(k, pos).len() >= 1,
    decreases k.len() - pos,
{
    let j = first_index_from(k, '*', pos);
    if !(pos < 0 || pos > k.len() || j >= k.len() || j < pos) {
        lemma_fragments_from_len(k, j + 1);
    }
}

/// The fragments of `k`, one vector each.
pub fn split_stars(k: &Vec<char>) -> (r: Vec<Vec<char>>)
    ensures
        r@.len() == fragments(k@).len(),
        forall|i: int| 0 <= i < r@.len() ==> #[trigger] r@[i]@ == fragments(k@)[i],
{
    let mut r: Vec<Vec<char>> = Vec::new();
    let mut pos: usize = 0;
    let ghost done: Seq<Seq<char>> = Seq::empty();
    loop
        invariant
            pos <= k@.len(),
            r@.len() == done.len(),
            forall|i: int| 0 <= i < r@.len() ==> #[trigger] r@[i]@ == done[i],
            done + fragments_from(k@, pos as int) == fragments(k@),
        decreases k@.len() - pos,
    {
        proof {
            lemma_first_index_from(k@, '*', pos as int);
        }
        let j = find_char_from(k, '*', pos);
        let mut piece: Vec<char> = Vec::new();
        let mut t: usize = pos;
        while t < j
            invariant
                pos <= t <= j <= k@.len(),
                piece@ == k@.subrange(pos as int, t as int),
            decreases j - t,
        {
            piece.push(k[t]);
            t += 1;
            assert(piece@ =~= k@.subrange(pos as int, t as int));
        }
        proof {
            done = done.push(piece@);
        }
        r.push(piece);
        if j >= k.len() {
            assert(done =~= fragments(k@));
            return r;
        }
        assert(done + fragments_from(k@, j + 1) =~= fragments(k@));
        pos = j + 1;
    }
}


pub proof fn lemma_find_from(s: Seq<char>, p: Seq<char>, pos: int)
    requires
        0 <= pos,
    ensures
        find_from(s, p, pos) == -1 || (pos <= find_from(s, p, pos) && find_from(s, p, pos)
            + p.len() <= s.len() && s.subrange(find_from(s, p, pos), find_from(s, p, pos)
            + p.len()) == p),
    decreases s.len() + 1 - pos,
{
    if pos + p.len() <= s.len() {
        if is_prefix(p, s.subrange(pos, s.len() as int)) {
            assert(s.subrange(pos, s.len() as int).subrange(0, p.len() as int) =~= s.subrange(
                pos,
                pos + p.len(),
            ));
        } else {
            lemma_find_from(s, p, pos + 1);
        }
    }
}

/// The earliest occurrence of `p` in `s` at or after `pos`.
pub fn find_in(s: &Vec<char>, p: &Vec<char>, pos: usize) -> (r: Option<usize>)
    requires
        pos <= s@.len(),
    ensures
        match r {
            Some(j) => find_from(s@, p@, pos as int) == j as int,
            None => find_from(s@, p@, pos as int) == -1,
        },
{
    let n = s.len();
    let mut i = pos;
    while i < n
        invariant
            pos <= i <= n,
            n == s@.len(),
            find_from(s@, p@, pos as int) == find_from(s@, p@, i as int),
        decreases n - i,
    {
        if p.len() > n - i {
            return None;
        }
        if occurs_at(s, p, i) {
            return Some(i);
        }
        i += 1;
    }
    if p.len() == 0 {
        assert(s@.subrange(i as int, s@.len() as int).subrange(0, 0) =~= p@);
        Some(i)
    } else {
        None
    }
}

/// Match `specifier` against the wildcard `key`; on a match, the captures as
/// slices of the specifier, one per `*` of the key.
pub fn wildcard_captures<'s>(key: &str, specifier: &'s str) -> (r: Option<Vec<&'s str>>)
    ensures
        match wildcard_match(key@, specifier@) {
            Some(c) => r is Some && r->0@.len() == c.len() && forall|i: int|
                0 <= i < c.len() ==> (#[trigger] r->0@[i])@ == c[i],
            None => r is None,
        },
{
    let kc = chars_of(key);
    let sc = chars_of(specifier);
    let fr = split_stars(&kc);
    proof {
        lemma_fragments_from_len(key@, 0);
    }
    let ghost frs = fragments(key@);
    let sn = sc.len();
    assert(fr@[0]@ == frs[0]);
    assert(sc@.subrange(0, sc@.len() as int) =~= sc@);
    if !occurs_at(&sc, &fr[0], 0) {
        return None;
    }
    assert(wildcard_match(key@, specifier@) == match_rest(frs, 1, specifier@, frs[0].len() as int));
    let mut caps: Vec<&'s str> = Vec::new();
    let mut pos: usize = fr[0].len();
    let mut i: usize = 1;
    let ghost acc: Seq<Seq<char>> = Seq::empty();
    // match_rest(frs, 1, s, |fr0|) == acc ++ match_rest(frs, i, s, pos)
    while i < fr.len()
        invariant
            fr@.len() == frs.len(),
            forall|t: int| 0 <= t < fr@.len() ==> #[trigger] fr@[t]@ == frs[t],
            1 <= i <= fr@.len(),
            pos <= sc@.len(),
            sc@ == specifier@,
            sn == sc@.len(),
            wildcard_match(key@, specifier@) == match_rest(frs, 1, specifier@, frs[0].len() as int),
            caps@.len() == acc.len(),
            forall|t: int| 0 <= t < acc.len() ==> (#[trigger] caps@[t])@ == acc[t],
            match_rest(frs, 1, specifier@, frs[0].len() as int) == match match_rest(
                frs,
                i as int,
                specifier@,
                pos as int,
            ) {
                Some(c) => Some(acc + c),
                None => None::<Seq<Seq<char>>>,
            },
        decreases fr@.len() - i,
    {
        assert(fr@[i as int]@ == frs[i as int]);
        if i == fr.len() - 1 && fr[i].len() == 0 {
            let ghost piece = specifier@.subrange(pos as int, specifier@.len() as int);
            let ghost old_acc = acc;
            caps.push(specifier.substring_char(pos, sc.len()));
            proof {
                acc = acc.push(piece);
                assert(old_acc + seq![piece] =~= acc);
            }
            assert(match_rest(frs, i as int, specifier@, pos as int) == Some(seq![piece]));
            return Some(caps);
        }
        proof {
            lemma_find_from(specifier@, frs[i as int], pos as int);
        }
        match find_in(&sc, &fr[i], pos) {
            None => {
                assert(match_rest(frs, i as int, specifier@, pos as int) is None);
                return None;
            },
            Some(j) => {
                assert(j + frs[i as int].len() <= specifier@.len());
                let ghost piece = specifier@.subrange(pos as int, j as int);
                let ghost old_acc = acc;
                caps.push(specifier.substring_char(pos, j));
                proof {
                    acc = acc.push(piece);
                    assert forall|c: Seq<Seq<char>>| old_acc + (seq![piece] + c) == acc + c by {
                        assert(old_acc + (seq![piece] + c) =~= acc + c);
                    }
                }
                pos = j + fr[i].len();
                i += 1;
            },
        }
    }
    if pos == sc.len() {
        assert(acc + Seq::<Seq<char>>::empty() =~= acc);
        Some(caps)
    } else {
        None
    }
}

/// `c[0] + fr[i] + c[1] + fr[i+1] + ...`: captures interleaved with the
/// fragments from index `i` on.
pub open spec fn interleave(fr: Seq<Seq<char>>, c: Seq<Seq<char>>, i: int) -> Seq<char>
    decreases fr.len() - i,
{
    if i < 0 || i >= fr.len() || c.len() == 0 {
        Seq::<char>::empty()
    } else {
        c[0] + fr[i] + interleave(fr, c.subrange(1, c.len() as int), i + 1)
    }
}

/// The key's fragments with the captures spliced back between them.
pub open spec fn splice(k: Seq<char>, c: Seq<Seq<char>>) -> Seq<char> {
    fragments(k)[0] + interleave(fragments(k), c, 1)
}

proof fn lemma_match_rest_interleave(fr: Seq<Seq<char>>, i: int, s: Seq<char>, pos: int)
    requires
        1 <= i <= fr.len(),
        0 <= pos <= s.len(),
        match_rest(fr, i, s, pos) is Some,
    ensures
        match_rest(fr, i, s, pos)->0.len() == fr.len() - i,
        interleave(fr, match_rest(fr, i, s, pos)->0, i) == s.subrange(pos, s.len() as int),
    decreases fr.len() - i,
{
    let c = match_rest(fr, i, s, pos)->0;
    if i >= fr.len() {
        assert(s.subrange(pos, s.len() as int) =~= Seq::<char>::empty());
    } else if i == fr.len() - 1 && fr[i].len() == 0 {
        let rest = c.subrange(1, c.len() as int);
        assert(interleave(fr, rest, i + 1) == Seq::<char>::empty());
        assert(c[0] + fr[i] + Seq::<char>::empty() =~= c[0]);
    } else {
        let j = find_from(s, fr[i], pos);
        lemma_find_from(s, fr[i], pos);
        let e = j + fr[i].len();
        lemma_match_rest_interleave(fr, i + 1, s, e);
        let c2 = match_rest(fr, i + 1, s, e)->0;
        assert(c == seq![s.subrange(pos, j)] + c2);
        assert(c.subrange(1, c.len() as int) =~= c2);
        assert(s.subrange(pos, s.len() as int) =~= s.subrange(pos, j) + s.subrange(j, e)
            + s.subrange(e, s.len() as int));
    }
}

/// Splicing the captures of a match back between the key's fragments gives
/// the specifier: a key with `k` stars has `k + 1` fragments and yields `k`
/// captures, and `fragment_0 + capture_1 + fragment_1 + ... + capture_k +
/// fragment_k` is the specifier that was matched.
pub proof fn lemma_wildcard_round_trip(k: Seq<char>, s: Seq<char>)
    requires
        wildcard_match(k, s) is Some,
    ensures
        wildcard_match(k, s)->0.len() == fragments(k).len() - 1,
        splice(k, wildcard_match(k, s)->0) == s,
{
    let fr = fragments(k);
    lemma_fragments_from_len(k, 0);
    lemma_match_rest_interleave(fr, 1, s, fr[0].len() as int);
    assert(s =~= s.subrange(0, fr[0].len() as int) + s.subrange(fr[0].len() as int, s.len() as int));
}

} // verus!
