//! The compiled routing table: route sets keyed by path pattern, each with
//! its handlers by method, and the resolution of a request path.
use vstd::prelude::*;
use crate::method::Method;
use crate::path::{
    SegView, Segment, ambiguous, bindings, lemma_common_match_overlaps, match_pattern,
    outranks, overlap, parse_pattern, pattern_matches, path_segments, pattern_of, pattern_view, rank_of,
    rank_outranks, split_path, texts_view, wild_last, pairs_view,
};
use crate::text::{chars_of, string_of};

verus! {

/// The handler registered for one method of a route set, with the combined
/// middleware that run before it, outermost first.
pub struct MethodEntry {
    pub method: Method,
    pub handler: usize,
    pub middlewares: Vec<usize>,
}

/// One path pattern with its handlers by method.
pub struct PathEntry {
    pub pattern: Vec<Segment>,
    pub methods: Vec<MethodEntry>,
}

/// The value of a [`MethodEntry`].
pub ghost struct HandlerView {
    pub method: Method,
    pub handler: usize,
    pub middlewares: Seq<usize>,
}

/// The value of a [`PathEntry`].
pub ghost struct EntryView {
    pub pattern: Seq<SegView>,
    pub methods: Seq<HandlerView>,
}

impl View for MethodEntry {
    type V = HandlerView;

    open spec fn view(&self) -> HandlerView {
        HandlerView { method: self.method, handler: self.handler, middlewares: self.middlewares@ }
    }
}

impl View for PathEntry {
    type V = EntryView;

    open spec fn view(&self) -> EntryView {
        EntryView {
            pattern: pattern_view(self.pattern@),
            methods: self.methods@.map_values(|m: MethodEntry| m@),
        }
    }
}

/// Why a route could not be registered.
#[derive(Clone, Copy, PartialEq, Eq, Structural, Debug)]
pub enum RouteError {
    /// A wildcard stands before the last segment of the pattern.
    InvalidPattern,
    /// The same pattern is already registered for the same method.
    Duplicate,
    /// Another pattern matches some path equally specifically.
    Ambiguous,
}

/// The outcome of resolving a request.
#[derive(Debug)]
pub enum Resolution {
    /// The route set at `entry` matched and has a handler for the method.
    Found {
        entry: usize,
        handler: usize,
        middlewares: Vec<usize>,
        params: Vec<(String, String)>,
    },
    /// The route set at `entry` matched, but not for the method: `allowed`
    /// lists its methods.
    MethodNotAllowed { entry: usize, allowed: Vec<Method> },
    /// No pattern matches the path.
    NotFound,
}

/// The compiled routing table.
pub struct RouteTable {
    entries: Vec<PathEntry>,
}

/// Whether `m` is among the methods of `e`.
pub open spec fn has_method(e: EntryView, m: Method) -> bool {
    exists|k: int| 0 <= k < e.methods.len() && (#[trigger] e.methods[k]).method == m
}

/// Whether `h` is among the handlers of `e`.
pub open spec fn has_handler(e: EntryView, h: HandlerView) -> bool {
    exists|k: int| 0 <= k < e.methods.len() && #[trigger] e.methods[k] == h
}

/// The methods of `e`, in registration order.
pub open spec fn methods_of(e: EntryView) -> Seq<Method> {
    e.methods.map_values(|h: HandlerView| h.method)
}

/// A table whose patterns hold wildcards only last, whose route sets are
/// pairwise unambiguous, and whose methods are unique in each set.
pub open spec fn table_wf(v: Seq<EntryView>) -> bool {
    &&& forall|i: int| 0 <= i < v.len() ==> wild_last(#[trigger] v[i].pattern)
    &&& forall|i: int, j: int|
        0 <= i < v.len() && 0 <= j < v.len() && i != j ==> !ambiguous(
            #[trigger] v[i].pattern,
            #[trigger] v[j].pattern,
        )
    &&& forall|i: int, a: int, b: int|
        0 <= i < v.len() && 0 <= a < v[i].methods.len() && 0 <= b < v[i].methods.len() && a
            != b ==> (#[trigger] v[i].methods[a]).method != (#[trigger] v[i].methods[b]).method
}

/// The route set at `e` matches `segs` and is more specific than every
/// other one that does.
pub open spec fn winner(v: Seq<EntryView>, e: int, segs: Seq<Seq<char>>) -> bool {
    &&& 0 <= e < v.len()
    &&& pattern_matches(v[e].pattern, segs)
    &&& forall|j: int|
        0 <= j < v.len() && j != e && pattern_matches(#[trigger] v[j].pattern, segs) ==> outranks(
            v[e].pattern,
            v[j].pattern,
        )
}

/// The route set at `e` is the only one that matches `segs`.
pub open spec fn sole_match(v: Seq<EntryView>, e: int, segs: Seq<Seq<char>>) -> bool {
    &&& 0 <= e < v.len()
    &&& pattern_matches(v[e].pattern, segs)
    &&& forall|j: int| 0 <= j < v.len() && j != e ==> !pattern_matches(#[trigger] v[j].pattern, segs)
}

/// The value of a list of bound parameters held as strings.
pub open spec fn params_view(v: Seq<(String, String)>) -> Seq<(Seq<char>, Seq<char>)> {
    v.map_values(|b: (String, String)| (b.0@, b.1@))
}

/// A copy of a list of identifiers.
pub fn copy_ids(v: &Vec<usize>) -> (r: Vec<usize>)
    ensures
        r@ == v@,
{
    let mut out: Vec<usize> = Vec::new();
    let mut i: usize = 0;
    while i < v.len()
        invariant
            i <= v@.len(),
            out@ == v@.subrange(0, i as int),
        decreases v@.len() - i,
    {
        out.push(v[i]);
        i = i + 1;
        assert(out@ =~= v@.subrange(0, i as int));
    }
    assert(out@ =~= v@);
    out
}

/// A copy of a list of bytes.
pub fn copy_bytes(v: &Vec<u8>) -> (r: Vec<u8>)
    ensures
        r@ == v@,
{
    let mut out: Vec<u8> = Vec::new();
    let mut i: usize = 0;
    while i < v.len()
        invariant
            i <= v@.len(),
            out@ == v@.subrange(0, i as int),
        decreases v@.len() - i,
    {
        out.push(v[i]);
        i = i + 1;
        assert(out@ =~= v@.subrange(0, i as int));
    }
    assert(out@ =~= v@);
    out
}

fn to_string_pairs(v: &Vec<(Vec<char>, Vec<char>)>) -> (r: Vec<(String, String)>)
    ensures
        params_view(r@) == pairs_view(v@),
{
    let mut out: Vec<(String, String)> = Vec::new();
    let mut i: usize = 0;
    while i < v.len()
        invariant
            i <= v@.len(),
            params_view(out@) == pairs_view(v@).subrange(0, i as int),
        decreases v@.len() - i,
    {
        let ghost prev = params_view(out@);
        out.push((string_of(&v[i].0), string_of(&v[i].1)));
        assert(params_view(out@) =~= prev.push(pairs_view(v@)[i as int]));
        i = i + 1;
        assert(params_view(out@) =~= pairs_view(v@).subrange(0, i as int));
    }
    assert(pairs_view(v@).subrange(0, i as int) =~= pairs_view(v@));
    out
}

/// Whether two patterns are the same, segment for segment.
pub fn same_pattern(a: &Vec<Segment>, b: &Vec<Segment>) -> (r: bool)
    ensures
        r == (pattern_view(a@) == pattern_view(b@)),
{
    let ghost av = pattern_view(a@);
    let ghost bv = pattern_view(b@);
    if a.len() != b.len() {
        assert(av.len() != bv.len());
        return false;
    }
    let mut i: usize = 0;
    while i < a.len()
        invariant
            i <= a@.len(),
            a@.len() == b@.len(),
            av == pattern_view(a@),
            bv == pattern_view(b@),
            forall|j: int| 0 <= j < i ==> av[j] == bv[j],
        decreases a@.len() - i,
    {
        let same = match (&a[i], &b[i]) {
            (Segment::Literal(x), Segment::Literal(y)) => crate::text::same_chars(x, y),
            (Segment::Param(x), Segment::Param(y)) => crate::text::same_chars(x, y),
            (Segment::Wildcard(x), Segment::Wildcard(y)) => crate::text::same_chars(x, y),
            _ => false,
        };
        if !same {
            assert(av[i as int] != bv[i as int]);
            return false;
        }
        i = i + 1;
    }
    assert(av =~= bv);
    true
}

impl View for RouteTable {
    type V = Seq<EntryView>;

    closed spec fn view(&self) -> Seq<EntryView> {
        self.entries@.map_values(|e: PathEntry| e@)
    }
}

impl RouteTable {
    /// An empty table.
    pub fn new() -> (r: RouteTable)
        ensures
            r@ == Seq::<EntryView>::empty(),
            table_wf(r@),
    {
        let r = RouteTable { entries: Vec::new() };
        assert(r@ =~= Seq::<EntryView>::empty());
        r
    }

    /// The number of route sets (distinct patterns).
    pub fn len(&self) -> (r: usize)
        ensures
            r == self@.len(),
    {
        self.entries.len()
    }
}

/// Ambiguity does not depend on the order of the two patterns.
pub proof fn lemma_ambiguous_symmetric(p: Seq<SegView>, q: Seq<SegView>)
    ensures
        ambiguous(p, q) == ambiguous(q, p),
{
    if ambiguous(p, q) {
        assert forall|i: int|
            0 <= i < crate::path::fixed_len(q) && i < crate::path::fixed_len(p) implies crate::path::seg_compatible(
            #[trigger] q[i],
            p[i],
        ) by {
            assert(crate::path::seg_compatible(p[i], q[i]));
        }
    }
    if ambiguous(q, p) {
        assert forall|i: int|
            0 <= i < crate::path::fixed_len(p) && i < crate::path::fixed_len(q) implies crate::path::seg_compatible(
            #[trigger] p[i],
            q[i],
        ) by {
            assert(crate::path::seg_compatible(q[i], p[i]));
        }
    }
}

/// Whether `p` and `q` are ambiguous.
pub fn is_ambiguous(p: &Vec<Segment>, q: &Vec<Segment>) -> (r: bool)
    ensures
        r == ambiguous(pattern_view(p@), pattern_view(q@)),
{
    let rp = rank_of(p);
    let rq = rank_of(q);
    rp.0 == rq.0 && rp.1 == rq.1 && rp.2 == rq.2 && overlap(p, q)
}

impl RouteTable {
    /// Registers `handler`, preceded by `middlewares`, for `method` on the
    /// pattern written as `path`. A pattern already present gains the
    /// method; a new pattern becomes a new route set. Fails, leaving the
    /// table as it was, on a wildcard before the last segment, on a pattern
    /// and method registered before, and on a new pattern that is ambiguous
    /// with one present.
    pub fn register(&mut self, method: Method, path: &str, handler: usize, middlewares: Vec<usize>) -> (r: Result<(), RouteError>)
        requires
            table_wf(old(self)@),
        ensures
            table_wf(final(self)@),
            (r matches Err(RouteError::InvalidPattern)) <==> !wild_last(pattern_of(path@)),
            wild_last(pattern_of(path@)) ==> ((r matches Err(RouteError::Duplicate)) <==> exists|i: int|
                0 <= i < old(self)@.len() && (#[trigger] old(self)@[i]).pattern == pattern_of(path@)
                    && has_method(old(self)@[i], method)),
            wild_last(pattern_of(path@)) ==> ((r matches Err(RouteError::Ambiguous)) <==> (
            (forall|i: int| 0 <= i < old(self)@.len() ==> (#[trigger] old(self)@[i]).pattern != pattern_of(path@))
                && exists|i: int| 0 <= i < old(self)@.len() && ambiguous(#[trigger] old(self)@[i].pattern, pattern_of(path@)))),
            r is Err ==> final(self)@ == old(self)@,
            r is Ok ==> forall|i: int| 0 <= i < old(self)@.len() && (#[trigger] old(self)@[i]).pattern == pattern_of(path@)
                ==> final(self)@ == old(self)@.update(i, EntryView {
                    pattern: old(self)@[i].pattern,
                    methods: old(self)@[i].methods.push(HandlerView { method, handler, middlewares: middlewares@ }),
                }),
            r is Ok && (forall|i: int| 0 <= i < old(self)@.len() ==> (#[trigger] old(self)@[i]).pattern != pattern_of(path@))
                ==> final(self)@ == old(self)@.push(EntryView {
                    pattern: pattern_of(path@),
                    methods: seq![HandlerView { method, handler, middlewares: middlewares@ }],
                }),
    {
        let ghost v = self@;
        let ghost hv = HandlerView { method, handler, middlewares: middlewares@ };
        let chars = chars_of(path);
        let pat = match parse_pattern(&chars) {
            Some(p) => p,
            None => {
                return Err(RouteError::InvalidPattern);
            },
        };
        let ghost p = pattern_of(path@);
        assert(pattern_view(pat@) == p);
        assert(wild_last(p));
        let n = self.entries.len();
        let mut i: usize = 0;
        let mut found = false;
        while i < n && !found
            invariant
                i <= n,
                n == self.entries@.len(),
                v == self@,
                v == old(self)@,
                p == pattern_of(path@),
                v.len() == n,
                table_wf(v),
                wild_last(p),
                pattern_view(pat@) == p,
                found ==> i < n && v[i as int].pattern == p,
                forall|j: int| 0 <= j < i ==> (#[trigger] v[j]).pattern != p,
            decreases n - i + (if found { 0int } else { 1int }),
        {
            assert(self.entries@[i as int]@ == v[i as int]);
            if same_pattern(&self.entries[i].pattern, &pat) {
                found = true;
            } else {
                i = i + 1;
            }
        }
        if found {
            assert(v[i as int].pattern == p);
            let m = self.entries[i].methods.len();
            let mut k: usize = 0;
            while k < m
                invariant
                    k <= m,
                    i < n,
                    n == self.entries@.len(),
                    v == self@,
                    v == old(self)@,
                    p == pattern_of(path@),
                    table_wf(v),
                    wild_last(p),
                    v[i as int].pattern == p,
                    m == v[i as int].methods.len(),
                    forall|j: int| 0 <= j < k ==> (#[trigger] v[i as int].methods[j]).method != method,
                decreases m - k,
            {
                assert(self.entries@[i as int]@ == v[i as int]);
                assert(self.entries@[i as int].methods@[k as int]@ == v[i as int].methods[k as int]);
                if self.entries[i].methods[k].method == method {
                    assert(has_method(v[i as int], method));
                    return Err(RouteError::Duplicate);
                }
                k = k + 1;
            }
            assert(!has_method(v[i as int], method));
            let mut e = self.entries.remove(i);
            assert(e@ == v[i as int]);
            let ghost em = e.methods@;
            e.methods.push(MethodEntry { method, handler, middlewares });
            assert(e@.methods =~= v[i as int].methods.push(hv)) by {
                assert(e.methods@ == em.push(MethodEntry { method, handler, middlewares }));
            }
            self.entries.insert(i, e);
            assert(self@ =~= v.update(i as int, EntryView { pattern: v[i as int].pattern, methods: v[i as int].methods.push(hv) }));
            assert forall|j: int| 0 <= j < v.len() && (#[trigger] v[j]).pattern == p implies j == i by {
                if j != i {
                    assert(ambiguous(v[j].pattern, v[i as int].pattern)) by {
                        lemma_common_overlap_self(p);
                    }
                }
            }
            let ghost nv = self@;
            assert forall|x: int, a: int, b: int|
                0 <= x < nv.len() && 0 <= a < nv[x].methods.len() && 0 <= b < nv[x].methods.len() && a != b
                implies (#[trigger] nv[x].methods[a]).method != (#[trigger] nv[x].methods[b]).method by {
                if x == i {
                    if a < v[x].methods.len() && b < v[x].methods.len() {
                    } else if a < v[x].methods.len() {
                        assert(v[x].methods[a].method != method);
                    } else {
                        assert(v[x].methods[b].method != method);
                    }
                }
            }
            return Ok(());
        }
        let mut j: usize = 0;
        while j < n
            invariant
                j <= n,
                n == self.entries@.len(),
                v == self@,
                v == old(self)@,
                p == pattern_of(path@),
                table_wf(v),
                wild_last(p),
                pattern_view(pat@) == p,
                forall|x: int| 0 <= x < n ==> (#[trigger] v[x]).pattern != p,
                forall|x: int| 0 <= x < j ==> !ambiguous(#[trigger] v[x].pattern, p),
            decreases n - j,
        {
            assert(self.entries@[j as int]@ == v[j as int]);
            if is_ambiguous(&self.entries[j].pattern, &pat) {
                assert(ambiguous(v[j as int].pattern, p));
                return Err(RouteError::Ambiguous);
            }
            j = j + 1;
        }
        let mut methods: Vec<MethodEntry> = Vec::new();
        methods.push(MethodEntry { method, handler, middlewares });
        let entry = PathEntry { pattern: pat, methods };
        assert(entry@.methods =~= seq![hv]);
        self.entries.push(entry);
        let ghost nv = self@;
        assert(nv =~= v.push(EntryView { pattern: p, methods: seq![hv] }));
        assert forall|x: int, y: int| 0 <= x < nv.len() && 0 <= y < nv.len() && x != y
            implies !ambiguous(#[trigger] nv[x].pattern, #[trigger] nv[y].pattern) by {
            if x == n {
                lemma_ambiguous_symmetric(v[y].pattern, p);
            }
        }
        Ok(())
    }
}

impl RouteTable {
    /// Resolves a request for `method` on `path`: the most specific route
    /// set whose pattern matches the path decides. Its handler for the
    /// method, with the parameters that its pattern binds, where it has one;
    /// else the methods it has. `NotFound` exactly when no pattern matches.
    pub fn resolve(&self, method: Method, path: &str) -> (r: Resolution)
        requires
            table_wf(self@),
        ensures
            (r is NotFound) <==> (forall|i: int| 0 <= i < self@.len() ==> !pattern_matches(
                (#[trigger] self@[i]).pattern,
                path_segments(path@),
            )),
            r matches Resolution::Found { entry, .. } ==> winner(self@, entry as int, path_segments(path@)),
            r matches Resolution::Found { entry, handler: h, middlewares: mw, .. } ==> has_handler(
                self@[entry as int],
                HandlerView { method: method, handler: h, middlewares: mw@ },
            ),
            r matches Resolution::Found { entry, params, .. } ==> params_view(params@) == bindings(
                self@[entry as int].pattern,
                path_segments(path@),
            ),
            r matches Resolution::MethodNotAllowed { entry, allowed } ==> {
                &&& winner(self@, entry as int, path_segments(path@))
                &&& !has_method(self@[entry as int], method)
                &&& allowed@ == methods_of(self@[entry as int])
            },
            forall|e: int, k: int|
                sole_match(self@, e, path_segments(path@)) && 0 <= k < self@[e].methods.len()
                    && (#[trigger] self@[e].methods[k]).method == method ==> (r matches Resolution::Found {
                    entry, handler, middlewares, params } && entry == e
                    && handler == self@[e].methods[k].handler
                    && middlewares@ == self@[e].methods[k].middlewares
                    && params_view(params@) == bindings(self@[e].pattern, path_segments(path@))),
            forall|e: int|
                sole_match(self@, e, path_segments(path@)) && !has_method(#[trigger] self@[e], method)
                    ==> (r matches Resolution::MethodNotAllowed { entry, allowed } && entry == e
                    && allowed@ == methods_of(self@[e])),
    {
        let ghost v = self@;
        let chars = chars_of(path);
        let segs = split_path(&chars);
        let ghost sv = texts_view(segs@);
        assert(sv == path_segments(path@));
        let n = self.entries.len();
        let mut has_best = false;
        let mut best: usize = 0;
        let mut best_rank: (usize, usize, bool) = (0, 0, false);
        let mut best_binds: Vec<(Vec<char>, Vec<char>)> = Vec::new();
        let mut i: usize = 0;
        while i < n
            invariant
                i <= n,
                n == self.entries@.len(),
                v == self@,
                v.len() == n,
                table_wf(v),
                sv == texts_view(segs@),
                has_best ==> {
                    &&& best < i
                    &&& pattern_matches(v[best as int].pattern, sv)
                    &&& forall|j: int| 0 <= j < i && j != best && pattern_matches(#[trigger] v[j].pattern, sv)
                        ==> outranks(v[best as int].pattern, v[j].pattern)
                    &&& pairs_view(best_binds@) == bindings(v[best as int].pattern, sv)
                    &&& best_rank.0 == crate::path::count_lits(v[best as int].pattern)
                    &&& best_rank.1 == crate::path::count_dynamic(v[best as int].pattern)
                    &&& best_rank.2 == crate::path::ends_in_wild(v[best as int].pattern)
                },
                !has_best ==> forall|j: int| 0 <= j < i ==> !pattern_matches(#[trigger] v[j].pattern, sv),
            decreases n - i,
        {
            assert(self.entries@[i as int]@ == v[i as int]);
            assert(wild_last(v[i as int].pattern));
            match match_pattern(&self.entries[i].pattern, &segs) {
                Some(b) => {
                    let rk = rank_of(&self.entries[i].pattern);
                    if !has_best || rank_outranks(rk, best_rank) {
                        proof {
                            if has_best {
                                assert forall|j: int| 0 <= j < i + 1 && j != i && pattern_matches(#[trigger] v[j].pattern, sv)
                                    implies outranks(v[i as int].pattern, v[j].pattern) by {
                                    if j != best {
                                        assert(outranks(v[best as int].pattern, v[j].pattern));
                                    }
                                }
                            }
                        }
                        has_best = true;
                        best = i;
                        best_rank = rk;
                        best_binds = b;
                    } else {
                        proof {
                            lemma_common_match_overlaps(v[best as int].pattern, v[i as int].pattern, sv);
                            assert(!ambiguous(v[best as int].pattern, v[i as int].pattern));
                            assert(outranks(v[best as int].pattern, v[i as int].pattern));
                        }
                    }
                },
                None => {},
            }
            i = i + 1;
        }
        if !has_best {
            return Resolution::NotFound;
        }
        assert(self.entries@[best as int]@ == v[best as int]);
        assert(winner(v, best as int, sv));
        let m = self.entries[best].methods.len();
        let mut k: usize = 0;
        while k < m
            invariant
                k <= m,
                best < n,
                n == self.entries@.len(),
                v == self@,
                m == v[best as int].methods.len(),
                forall|j: int| 0 <= j < k ==> (#[trigger] v[best as int].methods[j]).method != method,
                table_wf(v),
                sv == path_segments(path@),
                winner(v, best as int, sv),
                pairs_view(best_binds@) == bindings(v[best as int].pattern, sv),
            decreases m - k,
        {
            assert(self.entries@[best as int]@ == v[best as int]);
            assert(self.entries@[best as int].methods@[k as int]@ == v[best as int].methods[k as int]);
            if self.entries[best].methods[k].method == method {
                let handler = self.entries[best].methods[k].handler;
                let middlewares = copy_ids(&self.entries[best].methods[k].middlewares);
                let params = to_string_pairs(&best_binds);
                assert(v[best as int].methods[k as int] == (HandlerView { method, handler, middlewares: middlewares@ }));
                proof {
                    assert forall|e: int, k2: int|
                        sole_match(v, e, sv) && 0 <= k2 < v[e].methods.len()
                            && (#[trigger] v[e].methods[k2]).method == method implies e == best && k2 == k by {
                        if e != best {
                            assert(pattern_matches(v[best as int].pattern, sv));
                        }
                    }
                }
                assert(params_view(params@) == bindings(self@[best as int].pattern, path_segments(path@)));
                assert(has_handler(self@[best as int], HandlerView { method: method, handler: handler, middlewares: middlewares@ }));
                return Resolution::Found { entry: best, handler, middlewares, params };
            }
            k = k + 1;
        }
        assert(!has_method(v[best as int], method));
        let mut allowed: Vec<Method> = Vec::new();
        let mut a: usize = 0;
        while a < m
            invariant
                a <= m,
                best < n,
                n == self.entries@.len(),
                v == self@,
                m == v[best as int].methods.len(),
                allowed@ == methods_of(v[best as int]).subrange(0, a as int),
                table_wf(v),
                sv == path_segments(path@),
                winner(v, best as int, sv),
                pairs_view(best_binds@) == bindings(v[best as int].pattern, sv),
            decreases m - a,
        {
            assert(self.entries@[best as int]@ == v[best as int]);
            assert(self.entries@[best as int].methods@[a as int]@ == v[best as int].methods[a as int]);
            allowed.push(self.entries[best].methods[a].method);
            a = a + 1;
            assert(allowed@ =~= methods_of(v[best as int]).subrange(0, a as int));
        }
        assert(allowed@ =~= methods_of(v[best as int]));
        proof {
            assert forall|e: int| sole_match(v, e, sv) implies e == best by {
                if e != best {
                    assert(pattern_matches(v[best as int].pattern, sv));
                }
            }
        }
        Resolution::MethodNotAllowed { entry: best, allowed }
    }
}

impl RouteTable {
    /// The methods of the route set at `entry`, in registration order.
    pub fn methods_at(&self, entry: usize) -> (r: Vec<Method>)
        requires
            entry < self@.len(),
        ensures
            r@ == methods_of(self@[entry as int]),
    {
        let ghost v = self@;
        assert(self.entries@[entry as int]@ == v[entry as int]);
        let m = self.entries[entry].methods.len();
        let mut out: Vec<Method> = Vec::new();
        let mut a: usize = 0;
        while a < m
            invariant
                a <= m,
                entry < self.entries@.len(),
                v == self@,
                m == v[entry as int].methods.len(),
                out@ == methods_of(v[entry as int]).subrange(0, a as int),
            decreases m - a,
        {
            assert(self.entries@[entry as int]@ == v[entry as int]);
            assert(self.entries@[entry as int].methods@[a as int]@ == v[entry as int].methods[a as int]);
            out.push(self.entries[entry].methods[a].method);
            a = a + 1;
            assert(out@ =~= methods_of(v[entry as int]).subrange(0, a as int));
        }
        assert(out@ =~= methods_of(v[entry as int]));
        out
    }
}

/// The only route set that matches a path is the one resolution picks:
/// every clause of `resolve` and `App::dispatch` stated for the winner
/// holds for it.
pub proof fn lemma_sole_match_wins(v: Seq<EntryView>, e: int, segs: Seq<Seq<char>>)
    requires
        sole_match(v, e, segs),
    ensures
        winner(v, e, segs),
        forall|x: int| winner(v, x, segs) ==> x == e,
{
}

/// A pattern is ambiguous with itself.
pub proof fn lemma_common_overlap_self(p: Seq<SegView>)
    ensures
        ambiguous(p, p),
{
    assert forall|i: int| 0 <= i < crate::path::fixed_len(p) && i < crate::path::fixed_len(p)
        implies crate::path::seg_compatible(#[trigger] p[i], p[i]) by {
    }
}

} // verus!
