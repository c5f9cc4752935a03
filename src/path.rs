//! Paths as strings with `/` separators.

use vstd::prelude::*;
use crate::text::{opt_view, chars_of, find_char_from, first_index_from, lemma_first_index_from};

verus! {

/// `rel` joined onto `base`: an absolute `rel` replaces `base`, otherwise the
/// two are put together with one `/` between them.
pub open spec fn join(base: Seq<char>, rel: Seq<char>) -> Seq<char> {
    if rel.len() > 0 && rel[0] == '/' {
        rel
    } else if base.len() == 0 || base[base.len() - 1] == '/' {
        base + rel
    } else {
        base + seq!['/'] + rel
    }
}

/// Join `rel` onto `base`.
pub fn join_path(base: &str, rel: &str) -> (r: String)
    ensures
        r@ == join(base@, rel@),
{
    let b = chars_of(base);
    let c = chars_of(rel);
    if c.len() > 0 && c[0] == '/' {
        return rel.to_owned();
    }
    let mut r = base.to_owned();
    if b.len() > 0 && b[b.len() - 1] != '/' {
        r.append("/");
        proof {
            reveal_strlit("/");
        }
    }
    r.append(rel);
    r
}


/// The `/`-separated segments of `p` from position `pos` on.
pub open spec fn segments_from(p: Seq<char>, pos: int) -> Seq<Seq<char>>
    decreases p.len() - pos,
{
    let j = first_index_from(p, '/', pos);
    if pos < 0 || pos > p.len() || j >= p.len() || j < pos {
        seq![p.subrange(pos, p.len() as int)]
    } else {
        seq![p.subrange(pos, j)] + segments_from(p, j + 1)
    }
}

/// The segments left after resolving `.`, `..` and empty segments, in order;
/// `..` at the root stays at the root.
pub open spec fn resolve_segments(segs: Seq<Seq<char>>) -> Seq<Seq<char>>
    decreases segs.len(),
{
    if segs.len() == 0 {
        Seq::empty()
    } else {
        let prev = resolve_segments(segs.drop_last());
        let s = segs.last();
        if s.len() == 0 || s == seq!['.'] {
            prev
        } else if s == seq!['.', '.'] {
            if prev.len() == 0 {
                prev
            } else {
                prev.drop_last()
            }
        } else {
            prev.push(s)
        }
    }
}

/// `/` followed by the segments joined with `/`.
pub open spec fn rooted_path(segs: Seq<Seq<char>>) -> Seq<char>
    decreases segs.len(),
{
    if segs.len() == 0 {
        seq!['/']
    } else if segs.len() == 1 {
        seq!['/'] + segs[0]
    } else {
        rooted_path(segs.drop_last()) + seq!['/'] + segs.last()
    }
}

/// The lexical normal form of a path: absolute, without `.`, `..` or empty
/// segments.
pub open spec fn normalize(p: Seq<char>) -> Seq<char> {
    rooted_path(resolve_segments(segments_from(p, 0)))
}

/// The normal form's segments.
pub open spec fn norm_segments(p: Seq<char>) -> Seq<Seq<char>> {
    resolve_segments(segments_from(p, 0))
}

/// The parent of a path in normal form, or none for the root.
pub open spec fn parent(p: Seq<char>) -> Option<Seq<char>> {
    let segs = norm_segments(p);
    if segs.len() == 0 {
        None
    } else {
        Some(rooted_path(segs.drop_last()))
    }
}

pub proof fn lemma_segments_from_len(p: Seq<char>, pos: int)
    ensures
        segments_from(p, pos).len() >= 1,
    decreases p.len() - pos,
{
    let j = first_index_from(p, '/', pos);
    if !(pos < 0 || pos > p.len() || j >= p.len() || j < pos) {
        lemma_segments_from_len(p, j + 1);
    }
}

/// The segments of `p`, one string each.
pub fn split_segments(p: &str) -> (r: Vec<String>)
    ensures
        r@.len() == segments_from(p@, 0).len(),
        forall|i: int| 0 <= i < r@.len() ==> #[trigger] r@[i]@ == segments_from(p@, 0)[i],
{
    let cs = chars_of(p);
    let mut r: Vec<String> = Vec::new();
    let mut pos: usize = 0;
    let ghost done: Seq<Seq<char>> = Seq::empty();
    loop
        invariant
            pos <= cs@.len(),
            cs@ == p@,
            r@.len() == done.len(),
            forall|i: int| 0 <= i < r@.len() ==> #[trigger] r@[i]@ == done[i],
            done + segments_from(p@, pos as int) == segments_from(p@, 0),
        decreases cs@.len() - pos,
    {
        proof {
            lemma_first_index_from(cs@, '/', pos as int);
        }
        let j = find_char_from(&cs, '/', pos);
        let piece = p.substring_char(pos, j).to_owned();
        proof {
            done = done.push(piece@);
        }
        r.push(piece);
        if j >= cs.len() {
            assert(done =~= segments_from(p@, 0));
            return r;
        }
        assert(done + segments_from(p@, j + 1) =~= segments_from(p@, 0));
        pos = j + 1;
    }
}

fn is_dot(s: &str) -> (r: bool)
    ensures
        r == (s@ == seq!['.']),
{
    let cs = chars_of(s);
    let r = cs.len() == 1 && cs[0] == '.';
    proof {
        if r {
            assert(s@ =~= seq!['.']);
        }
    }
    r
}

fn is_dot_dot(s: &str) -> (r: bool)
    ensures
        r == (s@ == seq!['.', '.']),
{
    let cs = chars_of(s);
    let r = cs.len() == 2 && cs[0] == '.' && cs[1] == '.';
    proof {
        if r {
            assert(s@ =~= seq!['.', '.']);
        }
    }
    r
}

/// The normal form's segments of `p`.
pub fn normal_segments(p: &str) -> (r: Vec<String>)
    ensures
        r@.len() == norm_segments(p@).len(),
        forall|i: int| 0 <= i < r@.len() ==> #[trigger] r@[i]@ == norm_segments(p@)[i],
{
    let segs = split_segments(p);
    let ghost all = segments_from(p@, 0);
    let mut out: Vec<String> = Vec::new();
    let mut i: usize = 0;
    while i < segs.len()
        invariant
            i <= segs@.len(),
            segs@.len() == all.len(),
            all == segments_from(p@, 0),
            forall|t: int| 0 <= t < segs@.len() ==> #[trigger] segs@[t]@ == all[t],
            out@.len() == resolve_segments(all.subrange(0, i as int)).len(),
            forall|t: int| 0 <= t < out@.len() ==> #[trigger] out@[t]@ == resolve_segments(all.subrange(0, i as int))[t],
        decreases segs@.len() - i,
    {
        let ghost prev = resolve_segments(all.subrange(0, i as int));
        let ghost next = all.subrange(0, i + 1);
        assert(next.drop_last() =~= all.subrange(0, i as int));
        assert(next.last() == segs@[i as int]@);
        let s = segs[i].as_str();
        if s.unicode_len() == 0 || is_dot(s) {
        } else if is_dot_dot(s) {
            if out.len() > 0 {
                out.pop();
            }
        } else {
            out.push(s.to_owned());
        }
        i += 1;
        assert(forall|t: int| 0 <= t < out@.len() ==> #[trigger] out@[t]@ == resolve_segments(next)[t]);
    }
    assert(all.subrange(0, i as int) =~= all);
    out
}

/// `/` followed by the segments joined with `/`.
pub fn build_rooted(segs: &Vec<String>, n: usize) -> (r: String)
    requires
        n <= segs@.len(),
    ensures
        r@ == rooted_path(segs@.subrange(0, n as int).map_values(|s: String| s@)),
{
    let mut r = "/".to_owned();
    proof {
        reveal_strlit("/");
        assert(segs@.subrange(0, 0).map_values(|s: String| s@) =~= Seq::<Seq<char>>::empty());
    }
    let mut i: usize = 0;
    while i < n
        invariant
            i <= n <= segs@.len(),
            r@ == rooted_path(segs@.subrange(0, i as int).map_values(|s: String| s@)),
        decreases n - i,
    {
        let ghost before = segs@.subrange(0, i as int).map_values(|s: String| s@);
        let ghost after = segs@.subrange(0, i + 1).map_values(|s: String| s@);
        assert(after.drop_last() =~= before);
        if i > 0 {
            r.append("/");
        }
        r.append(segs[i].as_str());
        proof {
            reveal_strlit("/");
            if i == 0 {
                assert(r@ =~= seq!['/'] + segs@[0]@);
            }
        }
        i += 1;
    }
    r
}

/// The lexical normal form of `p`.
pub fn normalize_path(p: &str) -> (r: String)
    ensures
        r@ == normalize(p@),
{
    let segs = normal_segments(p);
    let r = build_rooted(&segs, segs.len());
    assert(segs@.subrange(0, segs@.len() as int).map_values(|s: String| s@) =~= norm_segments(p@));
    r
}

/// The parent of `p`'s normal form, or none at the root.
pub fn parent_path(p: &str) -> (r: Option<String>)
    ensures
        opt_view(r) == parent(p@),
{
    let segs = normal_segments(p);
    if segs.len() == 0 {
        return None;
    }
    let r = build_rooted(&segs, segs.len() - 1);
    assert(segs@.subrange(0, segs@.len() - 1).map_values(|s: String| s@) =~= norm_segments(p@).drop_last());
    Some(r)
}


/// The last segment that is neither empty nor `.`, if there is one.
pub open spec fn last_component(segs: Seq<Seq<char>>) -> Option<Seq<char>>
    decreases segs.len(),
{
    if segs.len() == 0 {
        None
    } else if segs.last().len() == 0 || segs.last() == seq!['.'] {
        last_component(segs.drop_last())
    } else {
        Some(segs.last())
    }
}

/// The path ends in a file name: its normal form is not the root and its
/// last component is not `..`.
pub open spec fn has_file_name(p: Seq<char>) -> bool {
    norm_segments(p).len() > 0 && last_component(segments_from(p, 0)) != Some(seq!['.', '.'])
}

/// Whether `p` ends in a file name.
pub fn ends_in_file_name(p: &str) -> (r: bool)
    ensures
        r == has_file_name(p@),
{
    let normal = normal_segments(p);
    if normal.len() == 0 {
        return false;
    }
    let segs = split_segments(p);
    let ghost all = segments_from(p@, 0);
    assert(all.subrange(0, all.len() as int) =~= all);
    let mut k: usize = segs.len();
    while k > 0 && (segs[k - 1].as_str().unicode_len() == 0 || is_dot(segs[k - 1].as_str()))
        invariant
            k <= segs@.len(),
            segs@.len() == all.len(),
            forall|i: int| 0 <= i < segs@.len() ==> #[trigger] segs@[i]@ == all[i],
            last_component(all) == last_component(all.subrange(0, k as int)),
        decreases k,
    {
        let ghost sub = all.subrange(0, k as int);
        assert(sub.drop_last() =~= all.subrange(0, k - 1));
        k -= 1;
    }
    if k == 0 {
        return true;
    }
    proof {
        let sub = all.subrange(0, k as int);
        assert(sub.last() == all[k - 1]);
    }
    !is_dot_dot(segs[k - 1].as_str())
}

/// Segments that normalization keeps: non-empty, not `.` or `..`, without `/`.
pub open spec fn clean_segments(segs: Seq<Seq<char>>) -> bool {
    forall|i: int| 0 <= i < segs.len() ==> {
        &&& (#[trigger] segs[i]).len() > 0
        &&& segs[i] != seq!['.']
        &&& segs[i] != seq!['.', '.']
        &&& !crate::text::has_char(segs[i], '/')
    }
}

proof fn lemma_segments_have_no_slash(p: Seq<char>, pos: int)
    requires
        0 <= pos <= p.len(),
    ensures
        forall|i: int| 0 <= i < segments_from(p, pos).len() ==> !crate::text::has_char(#[trigger] segments_from(p, pos)[i], '/'),
    decreases p.len() - pos,
{
    let j = first_index_from(p, '/', pos);
    if pos <= p.len() {
        lemma_first_index_from(p, '/', pos);
        let piece = p.subrange(pos, j);
        assert forall|k: int| 0 <= k < piece.len() implies piece[k] != '/' by {
            assert(piece[k] == p[pos + k]);
        }
    }
    if !(pos < 0 || pos > p.len() || j >= p.len() || j < pos) {
        lemma_segments_have_no_slash(p, j + 1);
        let rest = segments_from(p, j + 1);
        assert forall|i: int| 0 <= i < segments_from(p, pos).len() implies !crate::text::has_char(#[trigger] segments_from(p, pos)[i], '/') by {
            if i > 0 {
                assert(segments_from(p, pos)[i] == rest[i - 1]);
            }
        }
    }
}

proof fn lemma_resolve_clean(segs: Seq<Seq<char>>)
    requires
        forall|i: int| 0 <= i < segs.len() ==> !crate::text::has_char(#[trigger] segs[i], '/'),
    ensures
        clean_segments(resolve_segments(segs)),
    decreases segs.len(),
{
    if segs.len() > 0 {
        let pre = segs.drop_last();
        assert forall|i: int| 0 <= i < pre.len() implies !crate::text::has_char(#[trigger] pre[i], '/') by {
            assert(pre[i] == segs[i]);
        }
        lemma_resolve_clean(pre);
        let prev = resolve_segments(pre);
        let r = resolve_segments(segs);
        assert forall|i: int| 0 <= i < r.len() implies {
            &&& (#[trigger] r[i]).len() > 0
            &&& r[i] != seq!['.']
            &&& r[i] != seq!['.', '.']
            &&& !crate::text::has_char(r[i], '/')
        } by {
            if i < prev.len() {
                assert(r[i] == prev[i]);
            }
        }
    }
}

proof fn lemma_first_index_concat(a: Seq<char>, b: Seq<char>, pos: int)
    requires
        0 <= pos <= a.len(),
    ensures
        first_index_from(a + seq!['/'] + b, '/', pos) == first_index_from(a, '/', pos),
    decreases a.len() - pos,
{
    let q = a + seq!['/'] + b;
    if pos < a.len() {
        assert(q[pos] == a[pos]);
        if a[pos] != '/' {
            lemma_first_index_concat(a, b, pos + 1);
        }
    } else {
        assert(q[pos] == '/');
    }
}

proof fn lemma_segments_concat(a: Seq<char>, b: Seq<char>, pos: int)
    requires
        0 <= pos <= a.len(),
        !crate::text::has_char(b, '/'),
    ensures
        segments_from(a + seq!['/'] + b, pos) == segments_from(a, pos).push(b),
    decreases a.len() - pos,
{
    let q = a + seq!['/'] + b;
    lemma_first_index_concat(a, b, pos);
    lemma_first_index_from(a, '/', pos);
    let j = first_index_from(a, '/', pos);
    if j < a.len() {
        assert(q.subrange(pos, j) =~= a.subrange(pos, j));
        lemma_segments_concat(a, b, j + 1);
        let x = seq![a.subrange(pos, j)];
        let y = segments_from(a, j + 1);
        assert(segments_from(q, pos) == x + segments_from(q, j + 1));
        assert(segments_from(a, pos) == x + y);
        assert((x + y).push(b) =~= x + y.push(b));
    } else {
        assert(q.subrange(pos, a.len() as int) =~= a.subrange(pos, a.len() as int));
        let e: int = a.len() + 1int;
        lemma_first_index_from(q, '/', e);
        let k = first_index_from(q, '/', e);
        if k < q.len() {
            assert(b[k - e] == q[k]);
        }
        assert(q.subrange(e, q.len() as int) =~= b);
        if k < q.len() {
            assert(crate::text::has_char(b, '/'));
        }
        assert(segments_from(q, e) == seq![b]);
        assert(segments_from(q, pos) == seq![a.subrange(pos, a.len() as int)] + seq![b]);
        assert(segments_from(a, pos) == seq![a.subrange(pos, a.len() as int)]);
        assert(seq![a.subrange(pos, a.len() as int)] + seq![b] =~= seq![a.subrange(pos, a.len() as int)].push(b));
    }
}

proof fn lemma_segments_of_rooted(segs: Seq<Seq<char>>)
    requires
        clean_segments(segs),
    ensures
        segs.len() == 0 ==> segments_from(rooted_path(segs), 0) == seq![Seq::<char>::empty(), Seq::<char>::empty()],
        segs.len() > 0 ==> segments_from(rooted_path(segs), 0) == seq![Seq::<char>::empty()] + segs,
    decreases segs.len(),
{
    let e = Seq::<char>::empty();
    assert(segments_from(e, 0) == seq![e]) by {
        assert(e.subrange(0, 0) =~= e);
    }
    if segs.len() == 0 {
        assert(rooted_path(segs) =~= e + seq!['/'] + e);
        lemma_segments_concat(e, e, 0);
        assert(seq![e].push(e) =~= seq![e, e]);
    } else if segs.len() == 1 {
        assert(rooted_path(segs) =~= e + seq!['/'] + segs[0]);
        lemma_segments_concat(e, segs[0], 0);
        assert(seq![e].push(segs[0]) =~= seq![e] + segs);
    } else {
        let pre = segs.drop_last();
        assert(clean_segments(pre)) by {
            assert forall|i: int| 0 <= i < pre.len() implies {
                &&& (#[trigger] pre[i]).len() > 0
                &&& pre[i] != seq!['.']
                &&& pre[i] != seq!['.', '.']
                &&& !crate::text::has_char(pre[i], '/')
            } by {
                assert(pre[i] == segs[i]);
            }
        }
        lemma_segments_of_rooted(pre);
        lemma_segments_concat(rooted_path(pre), segs.last(), 0);
        assert((seq![e] + pre).push(segs.last()) =~= seq![e] + segs);
    }
}

proof fn lemma_resolve_after_root(segs: Seq<Seq<char>>)
    requires
        clean_segments(segs),
    ensures
        resolve_segments(seq![Seq::<char>::empty()] + segs) == segs,
    decreases segs.len(),
{
    let e = Seq::<char>::empty();
    if segs.len() == 0 {
        assert(seq![e] + segs =~= seq![e]);
        assert(seq![e].drop_last() =~= Seq::<Seq<char>>::empty());
        assert(seq![e].last() == e);
        assert(resolve_segments(Seq::<Seq<char>>::empty()) == Seq::<Seq<char>>::empty());
        assert(resolve_segments(seq![e]) == resolve_segments(seq![e].drop_last()));
    } else {
        let pre = segs.drop_last();
        assert(clean_segments(pre)) by {
            assert forall|i: int| 0 <= i < pre.len() implies {
                &&& (#[trigger] pre[i]).len() > 0
                &&& pre[i] != seq!['.']
                &&& pre[i] != seq!['.', '.']
                &&& !crate::text::has_char(pre[i], '/')
            } by {
                assert(pre[i] == segs[i]);
            }
        }
        lemma_resolve_after_root(pre);
        let x = seq![e] + segs;
        assert(x.drop_last() =~= seq![e] + pre);
        assert(x.last() == segs.last());
        assert(segs.last() == segs[segs.len() - 1]);
        assert(pre.push(segs.last()) =~= segs);
    }
}

/// Normal form is a fixed point: normalizing a normal form changes nothing.
pub proof fn lemma_normalize_idempotent(p: Seq<char>)
    ensures
        normalize(normalize(p)) == normalize(p),
{
    let segs = norm_segments(p);
    lemma_segments_have_no_slash(p, 0);
    lemma_resolve_clean(segments_from(p, 0));
    lemma_segments_of_rooted(segs);
    let e = Seq::<char>::empty();
    if segs.len() == 0 {
        let two = seq![e, e];
        assert(two.drop_last() =~= seq![e]);
        assert(seq![e].drop_last() =~= Seq::<Seq<char>>::empty());
        assert(seq![e].last() == e);
        assert(two.last() == e);
        assert(resolve_segments(Seq::<Seq<char>>::empty()) == Seq::<Seq<char>>::empty());
        assert(resolve_segments(seq![e]) == resolve_segments(seq![e].drop_last()));
        assert(resolve_segments(seq![e]) == Seq::<Seq<char>>::empty());
        assert(resolve_segments(two) == Seq::<Seq<char>>::empty());
    } else {
        lemma_resolve_after_root(segs);
    }
}

} // verus!
