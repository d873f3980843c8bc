//! The route table: registered `(method, template)` pairs under their
//! route keys, resolved by exact match first and by template match second.

use vstd::prelude::*;
use crate::assoc::{Assoc, chars_eq};
use crate::key::{route_key_of, upper, create_route_key_fast, normalize_method};
use crate::path::{
    beats, beats_segments, capture_params, captures, is_param, kinds_agree_before, lemma_beats_asymmetric,
    lemma_beats_transitive, matches_segments, params_view, seg_views, segments_match, split_path,
    split_segments,
};
use crate::text::{chars_of, string_of};

verus! {

/// A registered route: upper-cased method, template and its segments.
pub struct Route {
    pub method: Vec<char>,
    pub template: Vec<char>,
    pub segments: Vec<Vec<char>>,
}

/// The result of resolving a request: the route key and the captured
/// parameters in template order.
pub struct RouteMatch {
    pub key: String,
    pub params: Vec<(String, String)>,
}

/// The routes of a table: route key to `(method, template)`.
pub type RouteMap = Map<Seq<char>, (Seq<char>, Seq<char>)>;

/// Route `k` serves method `m` and its template matches path segments `ps`.
pub open spec fn is_candidate(v: RouteMap, k: Seq<char>, m: Seq<char>, ps: Seq<Seq<char>>) -> bool {
    &&& v.contains_key(k)
    &&& v[k].0 == m
    &&& segments_match(split_path(v[k].1), ps)
}

/// What resolving `method` and `path` against routes `v` yields: the exact
/// route when one is registered; else the template match that no other
/// matching template takes precedence over, with its captures; else none.
pub open spec fn resolves_to(
    v: RouteMap,
    method: Seq<char>,
    path: Seq<char>,
    r: Option<(Seq<char>, Seq<(Seq<char>, Seq<char>)>)>,
) -> bool {
    let ek = route_key_of(method, path);
    let m = upper(method);
    let ps = split_path(path);
    if v.contains_key(ek) {
        r == Some((ek, Seq::<(Seq<char>, Seq<char>)>::empty()))
    } else {
        match r {
            None => forall|k: Seq<char>| !#[trigger] is_candidate(v, k, m, ps),
            Some(found) => {
                &&& is_candidate(v, found.0, m, ps)
                &&& found.1 == captures(split_path(v[found.0].1), ps)
                &&& forall|k: Seq<char>| #[trigger]
                    is_candidate(v, k, m, ps) ==> !beats(split_path(v[k].1), split_path(v[found.0].1))
            },
        }
    }
}

/// The view of a resolution result.
pub open spec fn match_view(r: Option<RouteMatch>) -> Option<(Seq<char>, Seq<(Seq<char>, Seq<char>)>)> {
    match r {
        Some(rm) => Some((rm.key@, params_view(rm.params@))),
        None => None,
    }
}

pub open spec fn route_ok(r: Route) -> bool {
    seg_views(r.segments@) == split_path(r.template@)
}

/// Registered routes, keyed by route key.
pub struct RouteTable {
    table: Assoc<Route>,
}

impl RouteTable {
    /// Route key to `(method, template)`.
    pub closed spec fn view(&self) -> RouteMap {
        self.table.view().map_values(|r: Route| (r.method@, r.template@))
    }

    pub closed spec fn wf(&self) -> bool {
        &&& self.table.wf()
        &&& forall|k: Seq<char>| #[trigger] self.table.view().contains_key(k) ==> route_ok(self.table.view()[k])
    }

    /// An empty table.
    pub fn new() -> (r: Self)
        ensures
            r.wf(),
            r.view() == RouteMap::empty(),
    {
        let r = RouteTable { table: Assoc::new() };
        assert(r.view() =~= RouteMap::empty());
        r
    }

    /// Registers `template` for `method`, replacing a route with the same
    /// method and template.
    pub fn register(&mut self, method: &str, template: &str)
        requires
            old(self).wf(),
        ensures
            final(self).wf(),
            final(self).view() == old(self).view().insert(
                route_key_of(method@, template@),
                (upper(method@), template@),
            ),
    {
        let key = create_route_key_fast(method, template);
        let kc = chars_of(key.as_str());
        let m = normalize_method(method);
        let mc = chars_of(m.as_str());
        let tc = chars_of(template);
        let segs = split_segments(&tc);
        let route = Route { method: mc, template: tc, segments: segs };
        self.table.insert(kc, route);
        assert(self.view() =~= old(self).view().insert(
            route_key_of(method@, template@),
            (upper(method@), template@),
        ));
    }

    /// Resolves a request's method and path.
    pub fn resolve(&self, method: &str, path: &str) -> (r: Option<RouteMatch>)
        requires
            self.wf(),
        ensures
            resolves_to(self.view(), method@, path@, match_view(r)),
    {
        let ek = create_route_key_fast(method, path);
        let ekc = chars_of(ek.as_str());
        if self.table.position(&ekc).is_some() {
            let rm = RouteMatch { key: ek, params: Vec::new() };
            assert(params_view(rm.params@) =~= Seq::<(Seq<char>, Seq<char>)>::empty());
            return Some(rm);
        }
        let ghost v = self.view();
        let m = normalize_method(method);
        let mc = chars_of(m.as_str());
        let pc = chars_of(path);
        let ps = split_segments(&pc);
        let ghost psv = split_path(path@);
        let ghost mv = upper(method@);
        proof {
            self.table.lemma_positions();
        }
        let mut best: Option<usize> = None;
        let mut i: usize = 0;
        while i < self.table.len()
            invariant
                self.wf(),
                v == self.view(),
                mc@ == mv,
                seg_views(ps@) == psv,
                i <= self.table.size(),
                match best {
                    None => forall|j: int| 0 <= j < i ==> !#[trigger] is_candidate(v, self.table.key_at(j), mv, psv),
                    Some(b) => {
                        &&& b < i
                        &&& is_candidate(v, self.table.key_at(b as int), mv, psv)
                        &&& forall|j: int| 0 <= j < i && #[trigger] is_candidate(v, self.table.key_at(j), mv, psv)
                            ==> !beats(split_path(v[self.table.key_at(j)].1), split_path(v[self.table.key_at(b as int)].1))
                    },
                },
            decreases self.table.size() - i,
        {
            let route = self.table.value(i);
            let ghost ki = self.table.key_at(i as int);
            assert(route_ok(*route));
            if chars_eq(&route.method, &mc) && matches_segments(&route.segments, &ps) {
                assert(is_candidate(v, ki, mv, psv));
                match best {
                    None => {
                        proof {
                            if beats(split_path(v[ki].1), split_path(v[ki].1)) {
                                lemma_beats_asymmetric(split_path(v[ki].1), split_path(v[ki].1));
                            }
                        }
                        best = Some(i);
                    },
                    Some(b) => {
                        let cur = self.table.value(b);
                        let ghost kb = self.table.key_at(b as int);
                        assert(route_ok(*cur));
                        if beats_segments(&route.segments, &cur.segments) {
                            proof {
                                assert forall|j: int| 0 <= j < i + 1 && #[trigger] is_candidate(v, self.table.key_at(j), mv, psv)
                                    implies !beats(split_path(v[self.table.key_at(j)].1), split_path(v[ki].1)) by {
                                    let sj = split_path(v[self.table.key_at(j)].1);
                                    if beats(sj, split_path(v[ki].1)) {
                                        if j == i {
                                            lemma_beats_asymmetric(sj, sj);
                                        } else {
                                            lemma_beats_transitive(sj, split_path(v[ki].1), split_path(v[kb].1));
                                        }
                                    }
                                }
                            }
                            best = Some(i);
                        }
                    },
                }
            }
            i = i + 1;
        }
        match best {
            None => {
                assert forall|k: Seq<char>| !#[trigger] is_candidate(v, k, mv, psv) by {
                    if is_candidate(v, k, mv, psv) {
                        let j = choose|j: int| 0 <= j < self.table.size() && self.table.key_at(j) == k;
                        assert(is_candidate(v, self.table.key_at(j), mv, psv));
                    }
                }
                None
            },
            Some(b) => {
                let route = self.table.value(b);
                assert(route_ok(*route));
                let key = string_of(self.table.key(b));
                let params = capture_params(&route.segments, &ps);
                assert forall|k: Seq<char>| #[trigger] is_candidate(v, k, mv, psv)
                    implies !beats(split_path(v[k].1), split_path(v[key@].1)) by {
                    let j = choose|j: int| 0 <= j < self.table.size() && self.table.key_at(j) == k;
                    assert(is_candidate(v, self.table.key_at(j), mv, psv));
                }
                Some(RouteMatch { key, params })
            },
        }
    }
}

/// A registered route resolves to its own key: after `register(method,
/// template)`, resolving `method` and `template` yields the route key with
/// no parameters, and later registrations under other keys keep it so.
pub proof fn lemma_resolve_after_register(
    v: RouteMap,
    method: Seq<char>,
    template: Seq<char>,
    later: Seq<(Seq<char>, Seq<char>)>,
    r: Option<(Seq<char>, Seq<(Seq<char>, Seq<char>)>)>,
)
    requires
        forall|i: int| 0 <= i < later.len() ==> route_key_of((#[trigger] later[i]).0, later[i].1)
            != route_key_of(method, template),
        resolves_to(register_all(v.insert(route_key_of(method, template), (upper(method), template)), later), method, template, r),
    ensures
        r == Some((route_key_of(method, template), Seq::<(Seq<char>, Seq<char>)>::empty())),
{
    lemma_register_all_keeps(v.insert(route_key_of(method, template), (upper(method), template)), later, route_key_of(method, template));
}

/// The routes after registering each `(method, template)` of `regs` in order.
pub open spec fn register_all(v: RouteMap, regs: Seq<(Seq<char>, Seq<char>)>) -> RouteMap
    decreases regs.len(),
{
    if regs.len() == 0 {
        v
    } else {
        let last = regs.last();
        register_all(v, regs.drop_last()).insert(route_key_of(last.0, last.1), (upper(last.0), last.1))
    }
}

proof fn lemma_register_all_keeps(v: RouteMap, regs: Seq<(Seq<char>, Seq<char>)>, k: Seq<char>)
    requires
        v.contains_key(k),
        forall|i: int| 0 <= i < regs.len() ==> route_key_of((#[trigger] regs[i]).0, regs[i].1) != k,
    ensures
        register_all(v, regs).contains_key(k),
        register_all(v, regs)[k] == v[k],
    decreases regs.len(),
{
    if regs.len() > 0 {
        let last = regs.last();
        assert(route_key_of(regs[regs.len() - 1].0, regs[regs.len() - 1].1) != k);
        assert forall|i: int| 0 <= i < regs.drop_last().len() implies route_key_of((#[trigger] regs.drop_last()[i]).0, regs.drop_last()[i].1) != k by {
            assert(regs.drop_last()[i] == regs[i]);
        }
        lemma_register_all_keeps(v, regs.drop_last(), k);
    }
}

/// Registering the same route twice leaves the same routes as registering
/// it once.
pub proof fn lemma_register_idempotent(v: RouteMap, method: Seq<char>, template: Seq<char>)
    ensures
        v.insert(route_key_of(method, template), (upper(method), template)).insert(
            route_key_of(method, template),
            (upper(method), template),
        ) == v.insert(route_key_of(method, template), (upper(method), template)),
{
    assert(v.insert(route_key_of(method, template), (upper(method), template)).insert(
        route_key_of(method, template),
        (upper(method), template),
    ) =~= v.insert(route_key_of(method, template), (upper(method), template)));
}

/// Literal segments take precedence: when two matching templates agree in
/// kind before depth `k`, and at depth `k` the first is literal and the
/// second a parameter, the second is never the one resolved.
pub proof fn lemma_literal_precedence(
    v: RouteMap,
    method: Seq<char>,
    path: Seq<char>,
    lit: Seq<char>,
    par: Seq<char>,
    k: int,
    r: Option<(Seq<char>, Seq<(Seq<char>, Seq<char>)>)>,
)
    requires
        resolves_to(v, method, path, r),
        !v.contains_key(route_key_of(method, path)),
        is_candidate(v, lit, upper(method), split_path(path)),
        is_candidate(v, par, upper(method), split_path(path)),
        0 <= k < split_path(v[lit].1).len(),
        kinds_agree_before(split_path(v[lit].1), split_path(v[par].1), k),
        !is_param(split_path(v[lit].1)[k]),
        is_param(split_path(v[par].1)[k]),
    ensures
        match r {
            Some(found) => found.0 != par,
            None => false,
        },
{
    assert(split_path(v[par].1).len() == split_path(path).len());
    assert(beats(split_path(v[lit].1), split_path(v[par].1)));
    match r {
        None => {
            assert(!is_candidate(v, lit, upper(method), split_path(path)));
        },
        Some(found) => {
            if found.0 == par {
                assert(!beats(split_path(v[lit].1), split_path(v[par].1)));
            }
        },
    }
}

} // verus!
