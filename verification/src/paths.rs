//! The crate's path model.
//!
//! A path is a plain string; both `/` and `\` separate segments.  Splitting is
//! literal: no collapsing of repeated separators and no special treatment of
//! `.` or `..` beyond what the individual functions state.  Directory paths
//! are expected without a trailing separator; `strip_trailing_seps` puts a
//! path into that form.

use vstd::prelude::*;

use crate::text::str_eq;

verus! {

pub open spec fn is_path_sep(c: char) -> bool {
    c == '/' || c == '\\'
}

/// The segments of `s`, splitting on every separator character.
/// The result always has at least one element; `""` splits to `[""]`.
pub open spec fn split_path(s: Seq<char>) -> Seq<Seq<char>>
    decreases s.len(),
{
    if s.len() == 0 {
        seq![Seq::<char>::empty()]
    } else if is_path_sep(s.last()) {
        split_path(s.drop_last()) + seq![Seq::<char>::empty()]
    } else {
        let rest = split_path(s.drop_last());
        rest.drop_last().push(rest.last().push(s.last()))
    }
}

pub proof fn lemma_split_path_len(s: Seq<char>)
    ensures
        split_path(s).len() >= 1,
    decreases s.len(),
{
    if s.len() == 0 {
    } else {
        lemma_split_path_len(s.drop_last());
    }
}

/// The view of a vector of segment strings.
pub open spec fn segs_view(v: Seq<String>) -> Seq<Seq<char>> {
    v.map_values(|x: String| x@)
}

/// The character position just past the `k`-th segment of a path whose
/// segments are `segs` (counting one separator between segments).
pub open spec fn seg_end(segs: Seq<Seq<char>>, k: int) -> int
    decreases k,
{
    if k <= 0 {
        0
    } else if k == 1 {
        segs[0].len() as int
    } else {
        seg_end(segs, k - 1) + 1 + segs[k - 1].len()
    }
}

pub proof fn lemma_seg_end_prefix(a: Seq<Seq<char>>, b: Seq<Seq<char>>, k: int)
    requires
        0 <= k <= a.len(),
        k <= b.len(),
        a.subrange(0, k) == b.subrange(0, k),
    ensures
        seg_end(a, k) == seg_end(b, k),
    decreases k,
{
    if k > 0 {
        assert(a.subrange(0, k - 1) =~= a.subrange(0, k).subrange(0, k - 1));
        assert(b.subrange(0, k - 1) =~= b.subrange(0, k).subrange(0, k - 1));
        lemma_seg_end_prefix(a, b, k - 1);
        assert(a[k - 1] == a.subrange(0, k)[k - 1]);
        assert(b[k - 1] == b.subrange(0, k)[k - 1]);
    }
}

/// Splits `s` into its segments.  Also returns, for each segment, the
/// character position just past it in `s`.
pub fn split_path_exec(s: &str) -> (r: (Vec<String>, Vec<usize>))
    ensures
        segs_view(r.0@) == split_path(s@),
        r.1@.len() == r.0@.len(),
        forall|i: int| 0 <= i < r.1@.len() ==> r.1@[i] as int == seg_end(split_path(s@), i + 1),
        forall|i: int| 0 <= i < r.1@.len() ==> r.1@[i] <= s@.len(),
{
    let n = s.unicode_len();
    let mut segs: Vec<String> = Vec::new();
    let mut ends: Vec<usize> = Vec::new();
    let mut start: usize = 0;
    let mut i: usize = 0;
    while i < n
        invariant
            n == s@.len(),
            start <= i <= n,
            ends@.len() == segs@.len(),
            split_path(s@.subrange(0, i as int)) =~~= segs_view(segs@).push(
                s@.subrange(start as int, i as int),
            ),
            forall|j: int|
                0 <= j < ends@.len() ==> ends@[j] as int == seg_end(
                    segs_view(segs@).push(s@.subrange(start as int, i as int)),
                    j + 1,
                ),
            forall|j: int| 0 <= j < ends@.len() ==> ends@[j] <= n,
            start as int == seg_end(
                segs_view(segs@).push(s@.subrange(start as int, i as int)),
                segs@.len() as int,
            ) + if segs@.len() == 0 {
                0int
            } else {
                1int
            },
        decreases n - i,
    {
        let ghost prev = segs_view(segs@).push(s@.subrange(start as int, i as int));
        let ghost m = segs@.len() as int;
        let c = s.get_char(i);
        proof {
            assert(s@.subrange(0, i + 1).drop_last() =~= s@.subrange(0, i as int));
            assert(s@.subrange(0, i + 1).last() == s@[i as int]);
        }
        if c == '/' || c == '\\' {
            let seg = s.substring_char(start, i).to_owned();
            segs.push(seg);
            ends.push(i);
            proof {
                let cur = segs_view(segs@).push(s@.subrange(i + 1, i + 1));
                assert(segs_view(segs@) =~~= prev);
                assert(split_path(s@.subrange(0, i + 1)) =~~= cur);
                assert forall|j: int| 0 <= j < ends@.len() - 1 implies ends@[j] as int == seg_end(
                    cur,
                    j + 1,
                ) by {
                    assert(prev.subrange(0, j + 1) =~= cur.subrange(0, j + 1));
                    lemma_seg_end_prefix(prev, cur, j + 1);
                }
                assert(prev.subrange(0, m + 1) =~= cur.subrange(0, m + 1));
                lemma_seg_end_prefix(prev, cur, m + 1);
                assert(seg_end(prev, m + 1) == i) by {
                    if m == 0 {
                        assert(seg_end(prev, 1) == prev[0].len());
                    } else {
                        assert(seg_end(prev, m + 1) == seg_end(prev, m) + 1 + prev[m].len());
                    }
                }
                assert(seg_end(cur, m + 1) == i);
            }
            start = i + 1;
        } else {
            proof {
                let cur = segs_view(segs@).push(s@.subrange(start as int, i + 1));
                assert(s@.subrange(start as int, i + 1) =~= s@.subrange(start as int, i as int).push(
                    s@[i as int],
                ));
                assert(split_path(s@.subrange(0, i + 1)) =~~= prev.drop_last().push(
                    prev.last().push(s@[i as int]),
                ));
                assert(split_path(s@.subrange(0, i + 1)) =~~= cur);
                assert forall|j: int| 0 <= j < ends@.len() implies ends@[j] as int == seg_end(
                    cur,
                    j + 1,
                ) by {
                    assert(prev.subrange(0, j + 1) =~= cur.subrange(0, j + 1));
                    lemma_seg_end_prefix(prev, cur, j + 1);
                }
                if m > 0 {
                    assert(prev.subrange(0, m) =~= cur.subrange(0, m));
                    lemma_seg_end_prefix(prev, cur, m);
                }
            }
        }
        i += 1;
    }
    let seg = s.substring_char(start, n).to_owned();
    proof {
        assert(s@.subrange(0, n as int) =~= s@);
    }
    let ghost prev = segs_view(segs@).push(s@.subrange(start as int, n as int));
    let ghost m = segs@.len() as int;
    segs.push(seg);
    ends.push(n);
    proof {
        let cur = segs_view(segs@);
        assert(cur =~~= prev);
        assert(split_path(s@) =~~= cur);
        assert forall|j: int| 0 <= j < ends@.len() implies ends@[j] as int == seg_end(
            split_path(s@),
            j + 1,
        ) by {
            if j < ends@.len() - 1 {
                assert(ends@[j] as int == seg_end(prev, j + 1));
            } else {
                assert(seg_end(prev, m + 1) == n) by {
                    if m == 0 {
                        assert(seg_end(prev, 1) == prev[0].len());
                    } else {
                        assert(seg_end(prev, m + 1) == seg_end(prev, m) + 1 + prev[m].len());
                    }
                }
            }
        }
    }
    (segs, ends)
}

/// `a` is a segment-wise prefix of `b`.
pub open spec fn seg_prefix(a: Seq<Seq<char>>, b: Seq<Seq<char>>) -> bool {
    a.len() <= b.len() && a == b.subrange(0, a.len() as int)
}

pub fn is_seg_prefix(a: &Vec<String>, b: &Vec<String>) -> (r: bool)
    ensures
        r == seg_prefix(segs_view(a@), segs_view(b@)),
{
    if a.len() > b.len() {
        return false;
    }
    let mut i: usize = 0;
    while i < a.len()
        invariant
            i <= a@.len() <= b@.len(),
            forall|j: int| 0 <= j < i ==> a@[j]@ == b@[j]@,
        decreases a@.len() - i,
    {
        if !str_eq(a[i].as_str(), b[i].as_str()) {
            proof {
                assert(segs_view(b@).subrange(0, a@.len() as int)[i as int] == b@[i as int]@);
            }
            return false;
        }
        i += 1;
    }
    proof {
        assert(segs_view(a@) =~~= segs_view(b@).subrange(0, a@.len() as int));
    }
    true
}

/// Segment-wise `starts_with`: every segment of `q` is matched in order at
/// the start of `p`.
pub open spec fn spec_path_starts_with(p: Seq<char>, q: Seq<char>) -> bool {
    seg_prefix(split_path(q), split_path(p))
}

pub fn path_starts_with(p: &str, q: &str) -> (r: bool)
    ensures
        r == spec_path_starts_with(p@, q@),
{
    let (ps, _ends_p) = split_path_exec(p);
    let (qs, _ends_q) = split_path_exec(q);
    is_seg_prefix(&qs, &ps)
}

/// Joining always uses `/`; the callers keep `base` free of a trailing
/// separator.
pub open spec fn spec_join(base: Seq<char>, child: Seq<char>) -> Seq<char> {
    base + seq!['/'] + child
}

pub fn path_join(base: &str, child: &str) -> (r: String)
    ensures
        r@ == spec_join(base@, child@),
{
    let mut out = base.to_owned();
    out.append("/");
    out.append(child);
    proof {
        reveal_strlit("/");
        assert(out@ =~= spec_join(base@, child@));
    }
    out
}

fn sep_at(s: &str, i: usize) -> (r: bool)
    requires
        i < s@.len(),
    ensures
        r == is_path_sep(s@[i as int]),
{
    let c = s.get_char(i);
    c == '/' || c == '\\'
}

pub proof fn lemma_seg_end_nonneg(segs: Seq<Seq<char>>, k: int)
    ensures
        seg_end(segs, k) >= 0,
    decreases k,
{
    if k > 1 {
        lemma_seg_end_nonneg(segs, k - 1);
    }
}

pub proof fn lemma_seg_end_mono(segs: Seq<Seq<char>>, k1: int, k2: int)
    requires
        0 <= k1 <= k2,
    ensures
        seg_end(segs, k1) <= seg_end(segs, k2),
    decreases k2 - k1,
{
    if k1 < k2 {
        lemma_seg_end_mono(segs, k1, k2 - 1);
        if k2 == 1 {
            lemma_seg_end_nonneg(segs, k1);
            assert(seg_end(segs, k1) == 0);
        }
    }
}

/// The end of the last segment is the end of the path.
pub proof fn lemma_seg_end_total(s: Seq<char>)
    ensures
        seg_end(split_path(s), split_path(s).len() as int) == s.len(),
    decreases s.len(),
{
    lemma_split_path_len(s);
    if s.len() == 0 {
    } else {
        let s1 = s.drop_last();
        lemma_seg_end_total(s1);
        lemma_split_path_len(s1);
        let r = split_path(s1);
        let m = r.len() as int;
        if is_path_sep(s.last()) {
            assert(r.subrange(0, m) =~= (r + seq![Seq::<char>::empty()]).subrange(0, m));
            lemma_seg_end_prefix(r, r + seq![Seq::<char>::empty()], m);
            assert(seg_end(split_path(s), m + 1) == seg_end(split_path(s), m) + 1
                + split_path(s)[m].len());
        } else {
            let sp = split_path(s);
            assert(sp.len() == m);
            if m == 1 {
                assert(seg_end(sp, 1) == sp[0].len());
                assert(sp[0] == r.last().push(s.last()));
            } else {
                assert(r.subrange(0, m - 1) =~= sp.subrange(0, m - 1));
                lemma_seg_end_prefix(r, sp, m - 1);
                assert(seg_end(sp, m) == seg_end(sp, m - 1) + 1 + sp[m - 1].len());
                assert(seg_end(r, m) == seg_end(r, m - 1) + 1 + r[m - 1].len());
                assert(sp[m - 1] == r.last().push(s.last()));
            }
        }
    }
}

/// Cutting a path at a segment boundary keeps exactly the first `k` segments.
pub proof fn lemma_split_boundary(s: Seq<char>, k: int)
    requires
        1 <= k <= split_path(s).len(),
    ensures
        0 <= seg_end(split_path(s), k) <= s.len(),
        split_path(s.subrange(0, seg_end(split_path(s), k))) == split_path(s).subrange(0, k),
    decreases s.len(),
{
    lemma_split_path_len(s);
    lemma_seg_end_nonneg(split_path(s), k);
    lemma_seg_end_mono(split_path(s), k, split_path(s).len() as int);
    lemma_seg_end_total(s);
    let sp = split_path(s);
    if k == sp.len() {
        assert(s.subrange(0, s.len() as int) =~= s);
        assert(sp.subrange(0, k) =~= sp);
    } else {
        let s1 = s.drop_last();
        let r = split_path(s1);
        lemma_split_path_len(s1);
        if is_path_sep(s.last()) {
            assert(r.subrange(0, k) =~= sp.subrange(0, k));
            lemma_seg_end_prefix(sp, r, k);
            lemma_split_boundary(s1, k);
            assert(s.subrange(0, seg_end(r, k)) =~= s1.subrange(0, seg_end(r, k)));
        } else {
            assert(r.subrange(0, k) =~= sp.subrange(0, k));
            lemma_seg_end_prefix(sp, r, k);
            lemma_split_boundary(s1, k);
            assert(s.subrange(0, seg_end(r, k)) =~= s1.subrange(0, seg_end(r, k)));
        }
    }
}

/// Joining concatenates the segment lists.
pub proof fn lemma_split_join(a: Seq<char>, b: Seq<char>)
    ensures
        split_path(spec_join(a, b)) == split_path(a) + split_path(b),
    decreases b.len(),
{
    lemma_split_path_len(a);
    lemma_split_path_len(b);
    let j = spec_join(a, b);
    if b.len() == 0 {
        assert(j.last() == '/');
        assert(j.drop_last() =~= a);
        assert(split_path(j) =~~= split_path(a) + split_path(b));
    } else {
        let b1 = b.drop_last();
        lemma_split_join(a, b1);
        lemma_split_path_len(b1);
        assert(j.last() == b.last());
        assert(j.drop_last() =~= spec_join(a, b1));
        if is_path_sep(b.last()) {
            assert(split_path(j) =~~= split_path(a) + split_path(b));
        } else {
            let r = split_path(a) + split_path(b1);
            assert(r.last() == split_path(b1).last());
            assert(r.drop_last() =~~= split_path(a) + split_path(b1).drop_last());
            assert(split_path(j) =~~= split_path(a) + split_path(b));
        }
    }
}

pub proof fn lemma_strip_idempotent(s: Seq<char>)
    ensures
        spec_strip_trailing_seps(spec_strip_trailing_seps(s)) == spec_strip_trailing_seps(s),
    decreases s.len(),
{
    if s.len() > 0 && is_path_sep(s.last()) {
        lemma_strip_idempotent(s.drop_last());
    }
}

/// A normalized root stays a segment prefix of any joined-then-normalized
/// path beneath it.
pub proof fn lemma_strip_join_prefix(root: Seq<char>, q: Seq<char>)
    requires
        spec_strip_trailing_seps(root) == root,
    ensures
        seg_prefix(split_path(root), split_path(spec_strip_trailing_seps(spec_join(root, q)))),
    decreases q.len(),
{
    lemma_split_path_len(root);
    let j = spec_join(root, q);
    if q.len() == 0 {
        assert(j.last() == '/');
        assert(j.drop_last() =~= root);
        assert(spec_strip_trailing_seps(j) == root);
        assert(split_path(root).subrange(0, split_path(root).len() as int) =~= split_path(root));
    } else {
        if is_path_sep(q.last()) {
            assert(j.last() == q.last());
            assert(j.drop_last() =~= spec_join(root, q.drop_last()));
            lemma_strip_join_prefix(root, q.drop_last());
        } else {
            assert(j.last() == q.last());
            assert(spec_strip_trailing_seps(j) == j);
            lemma_split_join(root, q);
            assert(split_path(root) =~= (split_path(root) + split_path(q)).subrange(
                0,
                split_path(root).len() as int,
            ));
        }
    }
}

/// The parent directory in this model: the path cut just before its last
/// segment; a single-segment path is its own parent.
pub open spec fn spec_parent_dir(p: Seq<char>) -> Seq<char> {
    let segs = split_path(p);
    if segs.len() >= 2 {
        p.subrange(0, seg_end(segs, segs.len() - 1))
    } else {
        p
    }
}

pub fn parent_dir(p: &str) -> (r: String)
    ensures
        r@ == spec_parent_dir(p@),
        split_path(p@).len() >= 2 ==> split_path(r@) == split_path(p@).drop_last(),
{
    let (segs, ends) = split_path_exec(p);
    proof {
        lemma_split_path_len(p@);
    }
    if segs.len() >= 2 {
        proof {
            lemma_split_boundary(p@, split_path(p@).len() - 1);
            assert(split_path(p@).subrange(0, split_path(p@).len() - 1) =~~= split_path(
                p@,
            ).drop_last());
        }
        p.substring_char(0, ends[segs.len() - 2]).to_owned()
    } else {
        p.to_owned()
    }
}

/// The length of the common segment prefix exists.
pub proof fn lemma_common_prefix_exists(a: Seq<Seq<char>>, b: Seq<Seq<char>>)
    ensures
        exists|k: int| is_common_prefix_len(a, b, k),
    decreases a.len(),
{
    if a.len() == 0 || b.len() == 0 {
        assert(a.subrange(0, 0) =~= b.subrange(0, 0));
        assert(is_common_prefix_len(a, b, 0));
    } else if a.first() == b.first() {
        lemma_common_prefix_exists(a.drop_first(), b.drop_first());
        let k0 = choose|k: int| is_common_prefix_len(a.drop_first(), b.drop_first(), k);
        assert(a.subrange(0, k0 + 1) =~= seq![a.first()] + a.drop_first().subrange(0, k0));
        assert(b.subrange(0, k0 + 1) =~= seq![b.first()] + b.drop_first().subrange(0, k0));
        if k0 + 1 < a.len() && k0 + 1 < b.len() {
            assert(a[k0 + 1] == a.drop_first()[k0]);
            assert(b[k0 + 1] == b.drop_first()[k0]);
        }
        assert(is_common_prefix_len(a, b, k0 + 1));
    } else {
        assert(a.subrange(0, 0) =~= b.subrange(0, 0));
        assert(is_common_prefix_len(a, b, 0));
    }
}

/// `k` is the length of the longest common segment prefix of `a` and `b`.
pub open spec fn is_common_prefix_len(a: Seq<Seq<char>>, b: Seq<Seq<char>>, k: int) -> bool {
    &&& 0 <= k <= a.len()
    &&& k <= b.len()
    &&& a.subrange(0, k) == b.subrange(0, k)
    &&& (k == a.len() || k == b.len() || a[k] != b[k])
}

pub proof fn lemma_common_prefix_len_unique(a: Seq<Seq<char>>, b: Seq<Seq<char>>, k1: int, k2: int)
    requires
        is_common_prefix_len(a, b, k1),
        is_common_prefix_len(a, b, k2),
    ensures
        k1 == k2,
{
    if k1 < k2 {
        assert(a.subrange(0, k2)[k1] == b.subrange(0, k2)[k1]);
    }
    if k2 < k1 {
        assert(a.subrange(0, k1)[k2] == b.subrange(0, k1)[k2]);
    }
}

pub fn common_prefix_len(a: &Vec<String>, b: &Vec<String>) -> (k: usize)
    ensures
        is_common_prefix_len(segs_view(a@), segs_view(b@), k as int),
{
    let na = a.len();
    let nb = b.len();
    let mut i: usize = 0;
    while i < na
        invariant
            na == a@.len(),
            nb == b@.len(),
            i <= na,
            i <= nb,
            forall|j: int| 0 <= j < i ==> a@[j]@ == b@[j]@,
        decreases na - i,
    {
        if i >= nb {
            proof {
                assert(segs_view(a@).subrange(0, i as int) =~~= segs_view(b@).subrange(
                    0,
                    i as int,
                ));
            }
            return i;
        }
        if !str_eq(a[i].as_str(), b[i].as_str()) {
            proof {
                assert(segs_view(a@).subrange(0, i as int) =~~= segs_view(b@).subrange(
                    0,
                    i as int,
                ));
            }
            return i;
        }
        i += 1;
    }
    proof {
        assert(segs_view(a@).subrange(0, i as int) =~~= segs_view(b@).subrange(0, i as int));
    }
    i
}

/// The name part of a path: its last segment, ignoring trailing separators;
/// none when that segment is empty, `.` or `..`.
pub open spec fn spec_file_name(s: Seq<char>) -> Option<Seq<char>> {
    let t = spec_strip_trailing_seps(s);
    let last = split_path(t).last();
    if last.len() == 0 || last == seq!['.'] || last == seq!['.', '.'] {
        Option::None
    } else {
        Option::Some(last)
    }
}

/// The index of the last `.` in `f`, or `-1` when there is none.
pub open spec fn last_dot_index(f: Seq<char>) -> int
    decreases f.len(),
{
    if f.len() == 0 {
        -1
    } else if f.last() == '.' {
        f.len() - 1
    } else {
        last_dot_index(f.drop_last())
    }
}

fn dot_at(s: &str, i: usize) -> (r: bool)
    requires
        i < s@.len(),
    ensures
        r == (s@[i as int] == '.'),
{
    let c = s.get_char(i);
    c == '.'
}

/// The position of the last `.` of `f`, if any.
pub fn last_dot_exec(f: &str) -> (r: Option<usize>)
    ensures
        match r {
            Option::Some(j) => last_dot_index(f@) == j as int && (j as int) < f@.len(),
            Option::None => last_dot_index(f@) == -1,
        },
{
    let n = f.unicode_len();
    let mut end: usize = n;
    proof {
        assert(f@.subrange(0, n as int) =~= f@);
    }
    while end > 0 && !dot_at(f, end - 1)
        invariant
            end <= n,
            n == f@.len(),
            last_dot_index(f@) == last_dot_index(f@.subrange(0, end as int)),
        decreases end,
    {
        proof {
            assert(f@.subrange(0, end as int).last() == f@[end - 1]);
            assert(f@.subrange(0, end as int).drop_last() =~= f@.subrange(0, end - 1));
        }
        end = end - 1;
    }
    if end == 0 {
        None
    } else {
        proof {
            assert(f@.subrange(0, end as int).last() == f@[end - 1]);
        }
        Some(end - 1)
    }
}

/// The extension of the name part of `p`: what follows its last `.`, when
/// that dot is not the name's first character.
pub open spec fn spec_extension(p: Seq<char>) -> Option<Seq<char>> {
    match spec_file_name(p) {
        Option::None => Option::None,
        Option::Some(f) => {
            let j = last_dot_index(f);
            if j >= 1 {
                Option::Some(f.subrange(j + 1, f.len() as int))
            } else {
                Option::None
            }
        },
    }
}

/// The last segment of a path is a suffix of it.
pub proof fn lemma_split_last_suffix(s: Seq<char>)
    ensures
        split_path(s).last().len() <= s.len(),
        split_path(s).last() == s.subrange(s.len() - split_path(s).last().len(), s.len() as int),
    decreases s.len(),
{
    if s.len() == 0 {
        assert(split_path(s).last() =~= s.subrange(0, 0));
    } else if is_path_sep(s.last()) {
        assert(split_path(s).last() =~= s.subrange(s.len() as int, s.len() as int));
    } else {
        lemma_split_last_suffix(s.drop_last());
        lemma_split_path_len(s.drop_last());
        let l0 = split_path(s.drop_last()).last();
        let l = split_path(s).last();
        assert(l == l0.push(s.last()));
        assert(s.drop_last().subrange(s.len() - 1 - l0.len(), s.len() - 1) =~= s.subrange(
            s.len() - 1 - l0.len(),
            s.len() - 1,
        ));
        assert(l =~= s.subrange(s.len() - l.len(), s.len() as int));
    }
}

/// Replaces the extension of the name part of `p` with `ext`, or removes it
/// when `ext` is empty.  `p` is expected without a trailing separator.
pub open spec fn spec_set_extension(p: Seq<char>, ext: Seq<char>) -> Seq<char> {
    let f = split_path(p).last();
    let j = last_dot_index(f);
    let stem = if j >= 1 {
        f.subrange(0, j)
    } else {
        f
    };
    let dir = p.subrange(0, p.len() - f.len());
    if ext.len() == 0 {
        dir + stem
    } else {
        dir + stem + seq!['.'] + ext
    }
}

pub fn set_extension(p: &str, ext: &str) -> (r: String)
    ensures
        r@ == spec_set_extension(p@, ext@),
{
    let (segs, _ends) = split_path_exec(p);
    proof {
        lemma_split_path_len(p@);
        lemma_split_last_suffix(p@);
    }
    let f = &segs[segs.len() - 1];
    proof {
        assert(f@ == segs_view(segs@).last());
    }
    let flen = f.unicode_len();
    let n = p.unicode_len();
    let mut out = p.substring_char(0, n - flen).to_owned();
    let stem_end: usize = match last_dot_exec(f.as_str()) {
        Some(j) => if j >= 1 {
            j
        } else {
            flen
        },
        None => flen,
    };
    let stem = f.as_str().substring_char(0, stem_end);
    out.append(stem);
    if ext.unicode_len() > 0 {
        out.append(".");
        out.append(ext);
        proof {
            reveal_strlit(".");
            assert(f@.subrange(0, f@.len() as int) =~= f@);
            assert(out@ =~= spec_set_extension(p@, ext@));
        }
    } else {
        proof {
            assert(f@.subrange(0, f@.len() as int) =~= f@);
            assert(out@ =~= spec_set_extension(p@, ext@));
        }
    }
    out
}

pub open spec fn spec_strip_trailing_seps(s: Seq<char>) -> Seq<char>
    decreases s.len(),
{
    if s.len() > 0 && is_path_sep(s.last()) {
        spec_strip_trailing_seps(s.drop_last())
    } else {
        s
    }
}

pub fn strip_trailing_seps(s: &str) -> (r: String)
    ensures
        r@ == spec_strip_trailing_seps(s@),
{
    let n = s.unicode_len();
    let mut end: usize = n;
    proof {
        assert(s@.subrange(0, n as int) =~= s@);
    }
    while end > 0 && sep_at(s, end - 1)
        invariant
            end <= n,
            n == s@.len(),
            spec_strip_trailing_seps(s@) == spec_strip_trailing_seps(s@.subrange(0, end as int)),
        decreases end,
    {
        proof {
            assert(s@.subrange(0, end as int).last() == s@[end - 1]);
            assert(s@.subrange(0, end as int).drop_last() =~= s@.subrange(0, end - 1));
        }
        end = end - 1;
    }
    let r = s.substring_char(0, end).to_owned();
    proof {
        if end > 0 {
            assert(!is_path_sep(s@.subrange(0, end as int).last()));
        }
        assert(spec_strip_trailing_seps(s@.subrange(0, end as int)) == s@.subrange(0, end as int));
    }
    r
}

} // verus!
