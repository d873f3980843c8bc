//! Path templates: splitting on `/`, parameter segments, matching,
//! parameter capture and literal-before-parameter precedence.

use vstd::prelude::*;
use crate::assoc::chars_eq;
use crate::text::string_of;

verus! {

/// The views of a vector of segments.
pub open spec fn seg_views(v: Seq<Vec<char>>) -> Seq<Seq<char>> {
    v.map_values(|s: Vec<char>| s@)
}

/// The views of captured `(name, value)` pairs.
pub open spec fn params_view(p: Seq<(String, String)>) -> Seq<(Seq<char>, Seq<char>)> {
    p.map_values(|q: (String, String)| (q.0@, q.1@))
}

/// The segments of a path: the runs between `/` characters, empty runs
/// included (`"/a/b"` gives `""`, `"a"`, `"b"`).
pub open spec fn split_path(s: Seq<char>) -> Seq<Seq<char>>
    decreases s.len(),
{
    if s.len() == 0 {
        seq![Seq::<char>::empty()]
    } else {
        let r = split_path(s.drop_last());
        if s.last() == '/' {
            r.push(Seq::<char>::empty())
        } else {
            r.update(r.len() - 1, r.last().push(s.last()))
        }
    }
}

/// A parameter segment is written `{name}`.
pub open spec fn is_param(seg: Seq<char>) -> bool {
    seg.len() >= 2 && seg[0] == '{' && seg.last() == '}'
}

/// The name of a parameter segment.
pub open spec fn param_name(seg: Seq<char>) -> Seq<char> {
    seg.subrange(1, seg.len() - 1)
}

/// A template matches a path when both have the same number of segments
/// and each literal segment of the template equals the path's segment.
pub open spec fn segments_match(t: Seq<Seq<char>>, p: Seq<Seq<char>>) -> bool {
    &&& t.len() == p.len()
    &&& forall|i: int| 0 <= i < t.len() ==> is_param(#[trigger] t[i]) || t[i] == p[i]
}

/// The `(name, value)` pairs that the first `n` template segments capture.
pub open spec fn captures_upto(t: Seq<Seq<char>>, p: Seq<Seq<char>>, n: nat) -> Seq<(Seq<char>, Seq<char>)>
    decreases n,
{
    if n == 0 {
        seq![]
    } else {
        let r = captures_upto(t, p, (n - 1) as nat);
        if is_param(t[n - 1]) {
            r.push((param_name(t[n - 1]), p[n - 1]))
        } else {
            r
        }
    }
}

/// The parameters that template `t` captures from path segments `p`, in
/// template order.
pub open spec fn captures(t: Seq<Seq<char>>, p: Seq<Seq<char>>) -> Seq<(Seq<char>, Seq<char>)> {
    captures_upto(t, p, t.len())
}

/// `a` and `b` have the same kind (literal or parameter) before depth `k`.
pub open spec fn kinds_agree_before(a: Seq<Seq<char>>, b: Seq<Seq<char>>, k: int) -> bool {
    forall|j: int| 0 <= j < k ==> is_param(#[trigger] a[j]) == is_param(b[j])
}

/// `a` takes precedence over `b`: at the first depth where their kinds
/// differ, `a` has a literal segment and `b` a parameter.
pub open spec fn beats(a: Seq<Seq<char>>, b: Seq<Seq<char>>) -> bool {
    exists|k: int|
        0 <= k < a.len() && k < b.len() && kinds_agree_before(a, b, k) && !is_param(#[trigger] a[k])
            && is_param(b[k])
}

/// Precedence is transitive.
pub proof fn lemma_beats_transitive(a: Seq<Seq<char>>, b: Seq<Seq<char>>, c: Seq<Seq<char>>)
    requires
        beats(a, b),
        beats(b, c),
    ensures
        beats(a, c),
{
    let k1 = choose|k: int|
        0 <= k < a.len() && k < b.len() && kinds_agree_before(a, b, k) && !is_param(#[trigger] a[k])
            && is_param(b[k]);
    let k2 = choose|k: int|
        0 <= k < b.len() && k < c.len() && kinds_agree_before(b, c, k) && !is_param(#[trigger] b[k])
            && is_param(c[k]);
    if k1 < k2 {
        assert(is_param(b[k1]) == is_param(c[k1]));
        assert(kinds_agree_before(a, c, k1));
    } else {
        assert(k1 != k2);
        assert(is_param(a[k2]) == is_param(b[k2]));
        assert(kinds_agree_before(a, c, k2));
    }
}

/// Precedence is asymmetric.
pub proof fn lemma_beats_asymmetric(a: Seq<Seq<char>>, b: Seq<Seq<char>>)
    requires
        beats(a, b),
    ensures
        !beats(b, a),
{
    if beats(b, a) {
        let k1 = choose|k: int|
            0 <= k < a.len() && k < b.len() && kinds_agree_before(a, b, k) && !is_param(#[trigger] a[k])
                && is_param(b[k]);
        let k2 = choose|k: int|
            0 <= k < b.len() && k < a.len() && kinds_agree_before(b, a, k) && !is_param(#[trigger] b[k])
                && is_param(a[k]);
        if k1 < k2 {
            assert(is_param(b[k1]) == is_param(a[k1]));
        } else if k2 < k1 {
            assert(is_param(a[k2]) == is_param(b[k2]));
        }
    }
}

proof fn lemma_split_nonempty(s: Seq<char>)
    ensures
        split_path(s).len() >= 1,
    decreases s.len(),
{
    if s.len() > 0 {
        lemma_split_nonempty(s.drop_last());
    }
}

/// Splits a path into its segments.
pub fn split_segments(s: &Vec<char>) -> (r: Vec<Vec<char>>)
    ensures
        seg_views(r@) == split_path(s@),
{
    let mut segs: Vec<Vec<char>> = Vec::new();
    let mut cur: Vec<char> = Vec::new();
    let mut i: usize = 0;
    assert(s@.subrange(0, 0) =~= Seq::<char>::empty());
    assert(seg_views(segs@).push(cur@) =~= split_path(s@.subrange(0, 0)));
    while i < s.len()
        invariant
            i <= s@.len(),
            seg_views(segs@).push(cur@) == split_path(s@.subrange(0, i as int)),
        decreases s@.len() - i,
    {
        let ghost prev = s@.subrange(0, i as int);
        let ghost next = s@.subrange(0, i + 1);
        assert(next.drop_last() =~= prev);
        assert(next.last() == s@[i as int]);
        proof {
            lemma_split_nonempty(prev);
        }
        let c = s[i];
        if c == '/' {
            let done = cur;
            segs.push(done);
            cur = Vec::new();
            assert(seg_views(segs@).push(cur@) =~= split_path(prev).push(Seq::<char>::empty()));
        } else {
            cur.push(c);
            assert(seg_views(segs@).push(cur@) =~= split_path(prev).update(
                split_path(prev).len() - 1,
                split_path(prev).last().push(c),
            ));
        }
        i = i + 1;
    }
    assert(s@.subrange(0, s@.len() as int) =~= s@);
    segs.push(cur);
    assert(seg_views(segs@) =~= split_path(s@));
    segs
}

/// Whether a segment is a parameter.
pub fn is_param_segment(seg: &Vec<char>) -> (r: bool)
    ensures
        r == is_param(seg@),
{
    seg.len() >= 2 && seg[0] == '{' && seg[seg.len() - 1] == '}'
}

/// Whether template segments `t` match path segments `p`.
pub fn matches_segments(t: &Vec<Vec<char>>, p: &Vec<Vec<char>>) -> (r: bool)
    ensures
        r == segments_match(seg_views(t@), seg_views(p@)),
{
    if t.len() != p.len() {
        return false;
    }
    let mut i: usize = 0;
    while i < t.len()
        invariant
            t@.len() == p@.len(),
            i <= t@.len(),
            forall|j: int| 0 <= j < i ==> is_param(#[trigger] seg_views(t@)[j]) || seg_views(t@)[j] == seg_views(p@)[j],
        decreases t@.len() - i,
    {
        if !is_param_segment(&t[i]) && !chars_eq(&t[i], &p[i]) {
            assert(!(is_param(seg_views(t@)[i as int]) || seg_views(t@)[i as int] == seg_views(p@)[i as int]));
            return false;
        }
        i = i + 1;
    }
    true
}

/// Whether template `a` takes precedence over template `b`.
pub fn beats_segments(a: &Vec<Vec<char>>, b: &Vec<Vec<char>>) -> (r: bool)
    ensures
        r == beats(seg_views(a@), seg_views(b@)),
{
    let ghost av = seg_views(a@);
    let ghost bv = seg_views(b@);
    let mut i: usize = 0;
    while i < a.len() && i < b.len()
        invariant
            av == seg_views(a@),
            bv == seg_views(b@),
            i <= a@.len(),
            i <= b@.len(),
            kinds_agree_before(av, bv, i as int),
        decreases a@.len() - i,
    {
        let pa = is_param_segment(&a[i]);
        let pb = is_param_segment(&b[i]);
        if pa != pb {
            if !pa {
                assert(!is_param(av[i as int]) && is_param(bv[i as int]));
                return true;
            } else {
                assert forall|k: int|
                    0 <= k < av.len() && k < bv.len() && kinds_agree_before(av, bv, k) implies !(!is_param(
                    #[trigger] av[k]) && is_param(bv[k])) by {
                    if k > i {
                        assert(is_param(av[i as int]) == is_param(bv[i as int]));
                    }
                }
                return false;
            }
        }
        i = i + 1;
    }
    assert forall|k: int|
        0 <= k < av.len() && k < bv.len() && kinds_agree_before(av, bv, k) implies !(!is_param(
        #[trigger] av[k]) && is_param(bv[k])) by {
        assert(is_param(av[k]) == is_param(bv[k]));
    }
    false
}

/// The parameters that template `t` captures from path segments `p`.
pub fn capture_params(t: &Vec<Vec<char>>, p: &Vec<Vec<char>>) -> (r: Vec<(String, String)>)
    requires
        t@.len() == p@.len(),
    ensures
        params_view(r@) == captures(seg_views(t@), seg_views(p@)),
{
    let ghost tv = seg_views(t@);
    let ghost pv = seg_views(p@);
    let mut r: Vec<(String, String)> = Vec::new();
    let mut i: usize = 0;
    while i < t.len()
        invariant
            tv == seg_views(t@),
            pv == seg_views(p@),
            t@.len() == p@.len(),
            i <= t@.len(),
            params_view(r@) == captures_upto(tv, pv, i as nat),
        decreases t@.len() - i,
    {
        let ghost before = r@;
        if is_param_segment(&t[i]) {
            let seg = &t[i];
            let mut name: Vec<char> = Vec::new();
            let mut j: usize = 1;
            while j < seg.len() - 1
                invariant
                    seg@.len() >= 2,
                    1 <= j <= seg@.len() - 1,
                    name@ == seg@.subrange(1, j as int),
                decreases seg@.len() - j,
            {
                name.push(seg[j]);
                j = j + 1;
                assert(name@ =~= seg@.subrange(1, j as int));
            }
            let n = string_of(&name);
            let v = string_of(&p[i]);
            r.push((n, v));
            assert(params_view(r@) =~= params_view(before).push((param_name(tv[i as int]), pv[i as int])));
        }
        i = i + 1;
    }
    r
}

/// Each captured pair is the name of a parameter segment of the template
/// and the path segment at the same position.
pub proof fn lemma_captures_are_segments(t: Seq<Seq<char>>, p: Seq<Seq<char>>, n: nat)
    requires
        n <= t.len(),
        n <= p.len(),
    ensures
        forall|j: int| 0 <= j < captures_upto(t, p, n).len() ==> #[trigger] capture_source(t, p, n, j),
    decreases n,
{
    if n > 0 {
        lemma_captures_are_segments(t, p, (n - 1) as nat);
        assert forall|j: int| 0 <= j < captures_upto(t, p, n).len() implies #[trigger] capture_source(t, p, n, j) by {
            let prev = captures_upto(t, p, (n - 1) as nat);
            if j < prev.len() {
                assert(capture_source(t, p, (n - 1) as nat, j));
                let i = choose|i: int| 0 <= i < n - 1 && is_param(t[i]) && prev[j] == (param_name(t[i]), p[i]);
                assert(0 <= i < n && is_param(t[i]) && captures_upto(t, p, n)[j] == (param_name(t[i]), p[i]));
            } else {
                assert(captures_upto(t, p, n)[j] == (param_name(t[n - 1]), p[n - 1]));
            }
        }
    }
}

/// The `j`-th pair captured from the first `n` segments comes from a
/// parameter segment among them.
pub open spec fn capture_source(t: Seq<Seq<char>>, p: Seq<Seq<char>>, n: nat, j: int) -> bool {
    exists|i: int| 0 <= i < n && is_param(t[i]) && captures_upto(t, p, n)[j] == (param_name(t[i]), p[i])
}

/// Captures keep template order: what the first `m` segments capture is a
/// prefix of what the first `n` capture, for `m <= n`.
pub proof fn lemma_captures_in_order(t: Seq<Seq<char>>, p: Seq<Seq<char>>, m: nat, n: nat)
    requires
        m <= n,
    ensures
        captures_upto(t, p, m).len() <= captures_upto(t, p, n).len(),
        captures_upto(t, p, m) == captures_upto(t, p, n).take(captures_upto(t, p, m).len() as int),
    decreases n,
{
    if m < n {
        lemma_captures_in_order(t, p, m, (n - 1) as nat);
        assert(captures_upto(t, p, (n - 1) as nat) =~= captures_upto(t, p, n).take(
            captures_upto(t, p, (n - 1) as nat).len() as int,
        ));
        assert(captures_upto(t, p, m) =~= captures_upto(t, p, n).take(captures_upto(t, p, m).len() as int));
    } else {
        assert(captures_upto(t, p, m) =~= captures_upto(t, p, n).take(captures_upto(t, p, m).len() as int));
    }
}

} // verus!
