//! Path patterns: splitting paths into segments, parsing patterns, matching
//! a concrete path against a pattern and binding its parameters.
use vstd::prelude::*;
use crate::text::{copy_chars, push_chars, same_chars};

verus! {

/// One segment of a path pattern.
pub enum Segment {
    /// Matches exactly this text.
    Literal(Vec<char>),
    /// `:name`: matches any single non-empty segment and binds it to `name`.
    Param(Vec<char>),
    /// `*name`: as the last segment, matches the rest of the path.
    Wildcard(Vec<char>),
}

/// The mathematical value of a segment.
pub ghost enum SegView {
    Lit(Seq<char>),
    Param(Seq<char>),
    Wild(Seq<char>),
}

impl View for Segment {
    type V = SegView;

    open spec fn view(&self) -> SegView {
        match self {
            Segment::Literal(t) => SegView::Lit(t@),
            Segment::Param(n) => SegView::Param(n@),
            Segment::Wildcard(n) => SegView::Wild(n@),
        }
    }
}

/// The value of a pattern: its segments, in order.
pub open spec fn pattern_view(p: Seq<Segment>) -> Seq<SegView> {
    p.map_values(|s: Segment| s@)
}

/// The text of each segment of a sequence of character vectors.
pub open spec fn texts_view(v: Seq<Vec<char>>) -> Seq<Seq<char>> {
    v.map_values(|s: Vec<char>| s@)
}

/// `t` cut at every `/`: always at least one (possibly empty) piece.
pub open spec fn split_slashes(t: Seq<char>) -> Seq<Seq<char>>
    decreases t.len(),
{
    if t.len() == 0 {
        seq![Seq::<char>::empty()]
    } else {
        let rest = split_slashes(t.drop_last());
        if t.last() == '/' {
            rest.push(Seq::<char>::empty())
        } else {
            rest.update(rest.len() - 1, rest.last().push(t.last()))
        }
    }
}

/// A path without its leading `/`.
pub open spec fn path_body(s: Seq<char>) -> Seq<char> {
    if s.len() > 0 && s[0] == '/' {
        s.drop_first()
    } else {
        s
    }
}

/// The segments of a path: `/` alone (or the empty path) has none,
/// `/users/42` has `users` and `42`.
pub open spec fn path_segments(s: Seq<char>) -> Seq<Seq<char>> {
    let body = path_body(s);
    if body.len() == 0 {
        Seq::empty()
    } else {
        split_slashes(body)
    }
}

proof fn lemma_split_nonempty(t: Seq<char>)
    ensures
        split_slashes(t).len() >= 1,
    decreases t.len(),
{
    if t.len() > 0 {
        lemma_split_nonempty(t.drop_last());
    }
}

/// The segments of `path`, as [`path_segments`] states them.
pub fn split_path(path: &Vec<char>) -> (r: Vec<Vec<char>>)
    ensures
        texts_view(r@) == path_segments(path@),
{
    let n = path.len();
    let start: usize = if n > 0 && path[0] == '/' { 1 } else { 0 };
    let ghost body = path_body(path@);
    assert(body =~= path@.subrange(start as int, n as int));
    if start == n {
        let r: Vec<Vec<char>> = Vec::new();
        assert(texts_view(r@) =~= path_segments(path@));
        return r;
    }
    let mut done: Vec<Vec<char>> = Vec::new();
    let mut cur: Vec<char> = Vec::new();
    let mut i: usize = start;
    proof {
        assert(body.subrange(0, 0) =~= Seq::<char>::empty());
        assert(texts_view(done@).push(cur@) =~= split_slashes(body.subrange(0, 0)));
    }
    while i < n
        invariant
            start <= i <= n,
            n == path@.len(),
            body =~= path@.subrange(start as int, n as int),
            texts_view(done@).push(cur@) == split_slashes(body.subrange(0, i - start)),
        decreases n - i,
    {
        let c = path[i];
        let ghost pre = body.subrange(0, i - start);
        let ghost post = body.subrange(0, i + 1 - start);
        assert(post.drop_last() =~= pre);
        assert(post.last() == c);
        if c == '/' {
            let finished = cur;
            done.push(finished);
            cur = Vec::new();
            assert(texts_view(done@).push(cur@) =~= split_slashes(pre).push(Seq::<char>::empty()));
        } else {
            let ghost old_done = texts_view(done@);
            let ghost old_cur = cur@;
            cur.push(c);
            proof {
                lemma_split_nonempty(pre);
                let sp = split_slashes(pre);
                assert(sp == old_done.push(old_cur));
                assert(sp.last() == old_cur);
                assert(texts_view(done@).push(cur@) =~= sp.update(sp.len() - 1, sp.last().push(c)));
            }
        }
        i = i + 1;
    }
    assert(body.subrange(0, n - start) =~= body);
    done.push(cur);
    assert(texts_view(done@) =~= path_segments(path@));
    done
}

} // verus!

verus! {

/// The segment that the text `t` of a pattern stands for.
pub open spec fn parsed_segment(t: Seq<char>) -> SegView {
    if t.len() > 0 && t[0] == ':' {
        SegView::Param(t.drop_first())
    } else if t.len() > 0 && t[0] == '*' {
        SegView::Wild(t.drop_first())
    } else {
        SegView::Lit(t)
    }
}

/// The segments of the pattern written as `s`.
pub open spec fn pattern_of(s: Seq<char>) -> Seq<SegView> {
    path_segments(s).map_values(|t: Seq<char>| parsed_segment(t))
}

/// A wildcard stands nowhere but last.
pub open spec fn wild_last(p: Seq<SegView>) -> bool {
    forall|i: int| 0 <= i < p.len() - 1 ==> !(#[trigger] p[i] is Wild)
}

pub open spec fn ends_in_wild(p: Seq<SegView>) -> bool {
    p.len() > 0 && p.last() is Wild
}

/// How many segments of a path the pattern compares one by one.
pub open spec fn fixed_len(p: Seq<SegView>) -> int {
    if ends_in_wild(p) {
        p.len() - 1
    } else {
        p.len() as int
    }
}

/// Whether the pattern segment `p` accepts the path segment `s`.
pub open spec fn seg_accepts(p: SegView, s: Seq<char>) -> bool {
    match p {
        SegView::Lit(t) => t == s,
        SegView::Param(_) => s.len() > 0,
        SegView::Wild(_) => true,
    }
}

/// Whether the pattern `p` matches the path segments `segs`: literals
/// exactly, parameters any non-empty segment, a trailing wildcard one or
/// more remaining segments.
pub open spec fn pattern_matches(p: Seq<SegView>, segs: Seq<Seq<char>>) -> bool {
    &&& if ends_in_wild(p) {
        segs.len() >= p.len()
    } else {
        segs.len() == p.len()
    }
    &&& forall|i: int| 0 <= i < fixed_len(p) ==> seg_accepts(#[trigger] p[i], segs[i])
}

/// Segments joined with `/` between them.
pub open spec fn join_slashes(s: Seq<Seq<char>>) -> Seq<char>
    decreases s.len(),
{
    if s.len() == 0 {
        Seq::empty()
    } else if s.len() == 1 {
        s[0]
    } else {
        join_slashes(s.drop_last()) + seq!['/'] + s.last()
    }
}

/// The (name, value) pairs that `p` binds on `segs`, in pattern order: a
/// parameter binds its segment, a wildcard the rest of the path.
pub open spec fn bindings(p: Seq<SegView>, segs: Seq<Seq<char>>) -> Seq<(Seq<char>, Seq<char>)>
    decreases p.len(),
{
    if p.len() == 0 {
        Seq::empty()
    } else {
        let prev = bindings(p.drop_last(), segs);
        let k = p.len() - 1;
        match p.last() {
            SegView::Lit(_) => prev,
            SegView::Param(n) => prev.push((n, segs[k])),
            SegView::Wild(n) => prev.push((n, join_slashes(segs.subrange(k, segs.len() as int)))),
        }
    }
}

/// The value of a list of bound parameters.
pub open spec fn pairs_view(v: Seq<(Vec<char>, Vec<char>)>) -> Seq<(Seq<char>, Seq<char>)> {
    v.map_values(|b: (Vec<char>, Vec<char>)| (b.0@, b.1@))
}

/// The pattern segment written as `t`.
pub fn parse_segment(t: &Vec<char>) -> (r: Segment)
    ensures
        r@ == parsed_segment(t@),
{
    let n = t.len();
    if n > 0 && (t[0] == ':' || t[0] == '*') {
        let mut name: Vec<char> = Vec::new();
        let mut i: usize = 1;
        while i < n
            invariant
                1 <= i <= n,
                n == t@.len(),
                name@ == t@.subrange(1, i as int),
            decreases n - i,
        {
            name.push(t[i]);
            i = i + 1;
            assert(name@ =~= t@.subrange(1, i as int));
        }
        assert(name@ =~= t@.drop_first());
        if t[0] == ':' {
            Segment::Param(name)
        } else {
            Segment::Wildcard(name)
        }
    } else {
        Segment::Literal(copy_chars(t))
    }
}

/// The segments of the pattern written as `s`, or `None` where a wildcard
/// stands before the last segment.
pub fn parse_pattern(s: &Vec<char>) -> (r: Option<Vec<Segment>>)
    ensures
        r is Some <==> wild_last(pattern_of(s@)),
        r matches Some(p) ==> pattern_view(p@) == pattern_of(s@),
{
    let texts = split_path(s);
    let ghost tv = texts_view(texts@);
    let mut out: Vec<Segment> = Vec::new();
    let mut i: usize = 0;
    while i < texts.len()
        invariant
            i <= texts@.len(),
            tv == texts_view(texts@),
            tv == path_segments(s@),
            pattern_view(out@) =~= pattern_of(s@).subrange(0, i as int),
            forall|j: int| 0 <= j < i && j + 1 < texts@.len() ==> !(#[trigger] pattern_of(s@)[j] is Wild),
        decreases texts@.len() - i,
    {
        let seg = parse_segment(&texts[i]);
        if i + 1 < texts.len() {
            if let Segment::Wildcard(_) = &seg {
                assert(pattern_of(s@)[i as int] is Wild);
                return None;
            }
        }
        assert(pattern_of(s@)[i as int] == seg@);
        let ghost prev = pattern_view(out@);
        out.push(seg);
        assert(pattern_view(out@) =~= prev.push(pattern_of(s@)[i as int]));
        i = i + 1;
        assert(pattern_view(out@) =~= pattern_of(s@).subrange(0, i as int));
    }
    assert(pattern_view(out@) =~= pattern_of(s@));
    Some(out)
}

} // verus!

verus! {

/// The segments `segs[k..]` joined with `/`.
fn join_rest(segs: &Vec<Vec<char>>, k: usize) -> (r: Vec<char>)
    requires
        k < segs@.len(),
    ensures
        r@ == join_slashes(texts_view(segs@).subrange(k as int, segs@.len() as int)),
{
    let ghost sv = texts_view(segs@);
    let n = segs.len();
    let mut out = copy_chars(&segs[k]);
    let mut j: usize = k + 1;
    assert(sv.subrange(k as int, j as int) =~= seq![sv[k as int]]);
    while j < segs.len()
        invariant
            k < j <= segs@.len(),
            sv == texts_view(segs@),
            out@ == join_slashes(sv.subrange(k as int, j as int)),
        decreases segs@.len() - j,
    {
        let ghost before = out@;
        out.push('/');
        push_chars(&mut out, &segs[j]);
        let ghost next = sv.subrange(k as int, j + 1);
        assert(next.drop_last() =~= sv.subrange(k as int, j as int));
        assert(out@ =~= before + seq!['/'] + sv[j as int]);
        j = j + 1;
    }
    assert(sv.subrange(k as int, segs@.len() as int) =~= sv.subrange(k as int, j as int));
    out
}

/// Matches the path segments `segs` against the pattern `pat`: the bound
/// parameters where it matches, `None` where it does not.
pub fn match_pattern(pat: &Vec<Segment>, segs: &Vec<Vec<char>>) -> (r: Option<Vec<(Vec<char>, Vec<char>)>>)
    requires
        wild_last(pattern_view(pat@)),
    ensures
        r is Some <==> pattern_matches(pattern_view(pat@), texts_view(segs@)),
        r matches Some(b) ==> pairs_view(b@) == bindings(pattern_view(pat@), texts_view(segs@)),
{
    let ghost pv = pattern_view(pat@);
    let ghost sv = texts_view(segs@);
    let mut out: Vec<(Vec<char>, Vec<char>)> = Vec::new();
    let mut i: usize = 0;
    assert(pv.subrange(0, 0) =~= Seq::<SegView>::empty());
    while i < pat.len()
        invariant
            i <= pat@.len(),
            pv == pattern_view(pat@),
            sv == texts_view(segs@),
            wild_last(pv),
            i <= segs@.len(),
            forall|j: int| 0 <= j < i ==> seg_accepts(#[trigger] pv[j], sv[j]),
            forall|j: int| 0 <= j < i ==> !(#[trigger] pv[j] is Wild),
            pairs_view(out@) == bindings(pv.subrange(0, i as int), sv),
        decreases pat@.len() - i,
    {
        let ghost pre = pv.subrange(0, i as int);
        let ghost post = pv.subrange(0, i + 1);
        assert(post.drop_last() =~= pre);
        assert(post.last() == pv[i as int]);
        let ghost prev = pairs_view(out@);
        if i >= segs.len() {
            assert(!pattern_matches(pv, sv)) by {
                if ends_in_wild(pv) {
                    if i == pv.len() - 1 {
                    } else {
                        assert(!(pv[i as int] is Wild));
                    }
                }
            }
            return None;
        }
        match &pat[i] {
            Segment::Literal(t) => {
                if !same_chars(t, &segs[i]) {
                    assert(!pattern_matches(pv, sv)) by {
                        if ends_in_wild(pv) {
                            assert(i < pv.len() - 1);
                        }
                        assert(!seg_accepts(pv[i as int], sv[i as int]));
                    }
                    return None;
                }
            },
            Segment::Param(n) => {
                if segs[i].len() == 0 {
                    assert(!pattern_matches(pv, sv)) by {
                        if ends_in_wild(pv) {
                            assert(i < pv.len() - 1);
                        }
                        assert(!seg_accepts(pv[i as int], sv[i as int]));
                    }
                    return None;
                }
                out.push((copy_chars(n), copy_chars(&segs[i])));
                assert(pairs_view(out@) =~= prev.push((n@, sv[i as int])));
            },
            Segment::Wildcard(n) => {
                let rest = join_rest(segs, i);
                out.push((copy_chars(n), rest));
                assert(pairs_view(out@) =~= prev.push((n@, join_slashes(sv.subrange(i as int, sv.len() as int)))));
                assert(i == pat@.len() - 1);
                assert(post =~= pv);
                assert(pattern_matches(pv, sv));
                return Some(out);
            },
        }
        i = i + 1;
    }
    assert(pv.subrange(0, i as int) =~= pv);
    if segs.len() != pat.len() {
        assert(!ends_in_wild(pv)) by {
            if pv.len() > 0 {
                assert(!(pv[pv.len() - 1] is Wild));
            }
        }
        return None;
    }
    assert(!ends_in_wild(pv)) by {
        if pv.len() > 0 {
            assert(!(pv[pv.len() - 1] is Wild));
        }
    }
    Some(out)
}

} // verus!

verus! {

/// Number of literal segments of `p`.
pub open spec fn count_lits(p: Seq<SegView>) -> nat
    decreases p.len(),
{
    if p.len() == 0 {
        0
    } else {
        count_lits(p.drop_last()) + if p.last() is Lit { 1nat } else { 0nat }
    }
}

/// Number of parameter and wildcard segments of `p`.
pub open spec fn count_dynamic(p: Seq<SegView>) -> nat
    decreases p.len(),
{
    if p.len() == 0 {
        0
    } else {
        count_dynamic(p.drop_last()) + if p.last() is Lit { 0nat } else { 1nat }
    }
}

/// `p` is strictly more specific than `q`: more literal segments; or as
/// many, and fewer parameters; or the same counts, and `q` alone ends in a
/// wildcard.
pub open spec fn outranks(p: Seq<SegView>, q: Seq<SegView>) -> bool {
    ||| count_lits(p) > count_lits(q)
    ||| count_lits(p) == count_lits(q) && count_dynamic(p) < count_dynamic(q)
    ||| count_lits(p) == count_lits(q) && count_dynamic(p) == count_dynamic(q) && !ends_in_wild(p)
        && ends_in_wild(q)
}

/// Neither of `p` and `q` is more specific than the other.
pub open spec fn same_rank(p: Seq<SegView>, q: Seq<SegView>) -> bool {
    &&& count_lits(p) == count_lits(q)
    &&& count_dynamic(p) == count_dynamic(q)
    &&& ends_in_wild(p) == ends_in_wild(q)
}

/// Whether two pattern segments at one position can accept the same text.
pub open spec fn seg_compatible(a: SegView, b: SegView) -> bool {
    match (a, b) {
        (SegView::Lit(x), SegView::Lit(y)) => x == y,
        (SegView::Lit(x), SegView::Param(_)) => x.len() > 0,
        (SegView::Param(_), SegView::Lit(y)) => y.len() > 0,
        _ => true,
    }
}

/// Whether the segment counts of `p` and `q` admit a common path.
pub open spec fn lengths_compatible(p: Seq<SegView>, q: Seq<SegView>) -> bool {
    if ends_in_wild(p) && ends_in_wild(q) {
        true
    } else if ends_in_wild(p) {
        q.len() >= p.len()
    } else if ends_in_wild(q) {
        p.len() >= q.len()
    } else {
        p.len() == q.len()
    }
}

/// Whether some path could match both `p` and `q`.
pub open spec fn may_overlap(p: Seq<SegView>, q: Seq<SegView>) -> bool {
    &&& lengths_compatible(p, q)
    &&& forall|i: int|
        0 <= i < fixed_len(p) && i < fixed_len(q) ==> seg_compatible(#[trigger] p[i], q[i])
}

/// Two patterns that a path could match with neither more specific than
/// the other: such a pair cannot be told apart at request time.
pub open spec fn ambiguous(p: Seq<SegView>, q: Seq<SegView>) -> bool {
    same_rank(p, q) && may_overlap(p, q)
}

/// A path that matches two patterns shows that they overlap.
pub proof fn lemma_common_match_overlaps(p: Seq<SegView>, q: Seq<SegView>, segs: Seq<Seq<char>>)
    requires
        pattern_matches(p, segs),
        pattern_matches(q, segs),
    ensures
        may_overlap(p, q),
{
    assert forall|i: int| 0 <= i < fixed_len(p) && i < fixed_len(q) implies seg_compatible(
        #[trigger] p[i],
        q[i],
    ) by {
        assert(seg_accepts(p[i], segs[i]));
        assert(seg_accepts(q[i], segs[i]));
    }
}

fn seg_is_lit(s: &Segment) -> (r: bool)
    ensures
        r == (s@ is Lit),
{
    match s {
        Segment::Literal(_) => true,
        _ => false,
    }
}

fn seg_is_wild(s: &Segment) -> (r: bool)
    ensures
        r == (s@ is Wild),
{
    match s {
        Segment::Wildcard(_) => true,
        _ => false,
    }
}

/// The counts that decide specificity: literal segments, dynamic segments,
/// and whether the pattern ends in a wildcard.
pub fn rank_of(pat: &Vec<Segment>) -> (r: (usize, usize, bool))
    ensures
        r.0 == count_lits(pattern_view(pat@)),
        r.1 == count_dynamic(pattern_view(pat@)),
        r.2 == ends_in_wild(pattern_view(pat@)),
{
    let ghost pv = pattern_view(pat@);
    let mut lits: usize = 0;
    let mut dynamic: usize = 0;
    let mut i: usize = 0;
    assert(pv.subrange(0, 0) =~= Seq::<SegView>::empty());
    while i < pat.len()
        invariant
            i <= pat@.len(),
            pv == pattern_view(pat@),
            lits == count_lits(pv.subrange(0, i as int)),
            dynamic == count_dynamic(pv.subrange(0, i as int)),
            lits + dynamic == i,
        decreases pat@.len() - i,
    {
        let ghost post = pv.subrange(0, i + 1);
        assert(post.drop_last() =~= pv.subrange(0, i as int));
        if seg_is_lit(&pat[i]) {
            lits = lits + 1;
        } else {
            dynamic = dynamic + 1;
        }
        i = i + 1;
    }
    assert(pv.subrange(0, i as int) =~= pv);
    let n = pat.len();
    let wild = n > 0 && seg_is_wild(&pat[n - 1]);
    (lits, dynamic, wild)
}

/// Whether `a` is strictly more specific than `b`, from their ranks.
pub fn rank_outranks(a: (usize, usize, bool), b: (usize, usize, bool)) -> (r: bool)
    ensures
        r == (a.0 > b.0 || (a.0 == b.0 && a.1 < b.1) || (a.0 == b.0 && a.1 == b.1 && !a.2 && b.2)),
{
    a.0 > b.0 || (a.0 == b.0 && a.1 < b.1) || (a.0 == b.0 && a.1 == b.1 && !a.2 && b.2)
}

fn segs_compatible(a: &Segment, b: &Segment) -> (r: bool)
    ensures
        r == seg_compatible(a@, b@),
{
    match (a, b) {
        (Segment::Literal(x), Segment::Literal(y)) => same_chars(x, y),
        (Segment::Literal(x), Segment::Param(_)) => x.len() > 0,
        (Segment::Param(_), Segment::Literal(y)) => y.len() > 0,
        _ => true,
    }
}

/// Whether some path could match both `p` and `q`.
pub fn overlap(p: &Vec<Segment>, q: &Vec<Segment>) -> (r: bool)
    ensures
        r == may_overlap(pattern_view(p@), pattern_view(q@)),
{
    let ghost pv = pattern_view(p@);
    let ghost qv = pattern_view(q@);
    let rp = rank_of(p);
    let rq = rank_of(q);
    let lp = p.len();
    let lq = q.len();
    let lengths_ok = if rp.2 && rq.2 {
        true
    } else if rp.2 {
        lq >= lp
    } else if rq.2 {
        lp >= lq
    } else {
        lp == lq
    };
    if !lengths_ok {
        return false;
    }
    let fp = if rp.2 { lp - 1 } else { lp };
    let fq = if rq.2 { lq - 1 } else { lq };
    let m = if fp < fq { fp } else { fq };
    let mut i: usize = 0;
    while i < m
        invariant
            i <= m,
            m as int == fixed_len(pv) || m as int == fixed_len(qv),
            m <= fixed_len(pv) && m <= fixed_len(qv),
            fixed_len(pv) <= pv.len(),
            fixed_len(qv) <= qv.len(),
            pv == pattern_view(p@),
            qv == pattern_view(q@),
            forall|j: int| 0 <= j < i ==> seg_compatible(#[trigger] pv[j], qv[j]),
        decreases m - i,
    {
        if !segs_compatible(&p[i], &q[i]) {
            assert(!seg_compatible(pv[i as int], qv[i as int]));
            return false;
        }
        i = i + 1;
    }
    true
}

} // verus!
