//! Route resolution and model allowlist enforcement. Local models are
//! reached directly; cloud routes go through the intercepting proxy, which
//! swaps the secret. Nothing here touches secrets.

use vstd::prelude::*;
use crate::proto::config::{InferenceConfig, InferenceRoute, RouteTarget};
use crate::proto::error::{QwanCode, QwanError, QwanResult, is_error};
use crate::text::{owned, push_str, str_eq};

verus! {

/// A resolved route for a model.
#[derive(Debug, Clone)]
pub struct ResolvedRoute {
    pub model: String,
    pub target: RouteTarget,
    /// The base URL the guest's client should use: the local server URL for
    /// local routes, the provider URL for cloud routes.
    pub base_url: String,
}

/// Resolves models against the configured routes.
pub struct RouteResolver {
    cfg: InferenceConfig,
}

/// Some configured route serves `name`.
pub open spec fn configured(routes: Seq<InferenceRoute>, name: Seq<char>) -> bool {
    exists|j: int| 0 <= j < routes.len() && #[trigger] routes[j].model@ == name
}

/// The models of `s` that some route serves, in order.
pub open spec fn keep_configured(routes: Seq<InferenceRoute>, s: Seq<String>) -> Seq<String>
    decreases s.len(),
{
    if s.len() == 0 {
        s
    } else {
        let rest = keep_configured(routes, s.drop_last());
        if configured(routes, s.last()@) {
            rest.push(s.last())
        } else {
            rest
        }
    }
}

/// `name` is in the case's allowed list.
pub open spec fn listed(allowed: Seq<String>, name: Seq<char>) -> bool {
    exists|j: int| 0 <= j < allowed.len() && #[trigger] allowed[j]@ == name
}

/// Route `i` is the first route for `name`.
pub open spec fn first_route(routes: Seq<InferenceRoute>, name: Seq<char>, i: int) -> bool {
    0 <= i < routes.len() && routes[i].model@ == name && forall|j: int|
        0 <= j < i ==> #[trigger] routes[j].model@ != name
}

/// The base URL a route resolves to.
pub open spec fn route_url(cfg: InferenceConfig, route: InferenceRoute) -> Seq<char> {
    match route.target {
        RouteTarget::Lmstudio => cfg.lmstudio_url@,
        RouteTarget::Cloud => match route.base_url {
            Some(u) => u@,
            None => Seq::empty(),
        },
    }
}

/// Is `name` in `allowed`?
fn is_listed(allowed: &[String], name: &str) -> (r: bool)
    ensures
        r == listed(allowed@, name@),
{
    let mut k: usize = 0;
    while k < allowed.len()
        invariant
            k <= allowed@.len(),
            forall|j: int| 0 <= j < k ==> #[trigger] allowed@[j]@ != name@,
        decreases allowed.len() - k,
    {
        if str_eq(allowed[k].as_str(), name) {
            return true;
        }
        k = k + 1;
    }
    false
}

impl RouteResolver {
    /// The configuration this resolver reads.
    pub closed spec fn config(&self) -> InferenceConfig {
        self.cfg
    }

    /// A resolver over `cfg`.
    pub fn new(cfg: InferenceConfig) -> (r: Self)
        ensures
            r.config() == cfg,
    {
        RouteResolver { cfg }
    }

    /// Does some route serve `name`?
    fn is_configured(&self, name: &str) -> (r: bool)
        ensures
            r == configured(self.cfg.routes@, name@),
    {
        let mut j: usize = 0;
        while j < self.cfg.routes.len()
            invariant
                j <= self.cfg.routes@.len(),
                forall|k: int| 0 <= k < j ==> #[trigger] self.cfg.routes@[k].model@ != name@,
            decreases self.cfg.routes.len() - j,
        {
            if str_eq(self.cfg.routes[j].model.as_str(), name) {
                return true;
            }
            j = j + 1;
        }
        false
    }

    /// The models listed models endpoint offers: the case's allowed models
    /// that some route serves, in the case's order.
    pub fn allowed_models(&self, case_allowed: &[String]) -> (r: Vec<String>)
        ensures
            r@ == keep_configured(self.config().routes@, case_allowed@),
    {
        let ghost routes = self.cfg.routes@;
        let mut out: Vec<String> = Vec::new();
        let mut i: usize = 0;
        assert(case_allowed@.take(0) =~= Seq::<String>::empty());
        while i < case_allowed.len()
            invariant
                routes == self.cfg.routes@,
                i <= case_allowed@.len(),
                out@ == keep_configured(routes, case_allowed@.take(i as int)),
            decreases case_allowed.len() - i,
        {
            let m = &case_allowed[i];
            let ghost t = case_allowed@.take(i + 1);
            assert(t.drop_last() =~= case_allowed@.take(i as int));
            assert(t.last() == case_allowed@[i as int]);
            if self.is_configured(m.as_str()) {
                out.push(m.clone());
            }
            i = i + 1;
        }
        assert(case_allowed@.take(case_allowed@.len() as int) =~= case_allowed@);
        out
    }

    /// Resolve a model requested by the guest against the case's allowed
    /// list: refused with `PermissionDenied` when not allowed, `NotFound`
    /// when no route serves it, otherwise the first route for it.
    pub fn resolve(&self, model: &str, case_allowed: &[String]) -> (r: QwanResult<ResolvedRoute>)
        ensures
            !listed(case_allowed@, model@) ==> (r matches Err(e) && is_error(
                e,
                QwanCode::PermissionDenied,
                "model "@ + model@ + " not allowed for this case"@,
            )),
            listed(case_allowed@, model@) && !configured(self.config().routes@, model@) ==> (
            r matches Err(e) && is_error(
                e,
                QwanCode::NotFound,
                "no route configured for "@ + model@,
            )),
            listed(case_allowed@, model@) && configured(self.config().routes@, model@) ==> (
            r matches Ok(route) && exists|i: int|
                first_route(self.config().routes@, model@, i) && route.model@ == model@
                    && route.target == self.config().routes@[i].target && route.base_url@
                    == route_url(self.config(), self.config().routes@[i])),
    {
        let found = is_listed(case_allowed, model);
        if !found {
            let mut m = owned("model ");
            push_str(&mut m, model);
            push_str(&mut m, " not allowed for this case");
            return Err(QwanError::new(QwanCode::PermissionDenied, m.as_str()));
        }
        let mut i: usize = 0;
        while i < self.cfg.routes.len()
            invariant
                i <= self.cfg.routes@.len(),
                listed(case_allowed@, model@),
                forall|j: int| 0 <= j < i ==> #[trigger] self.cfg.routes@[j].model@ != model@,
            decreases self.cfg.routes.len() - i,
        {
            let route = &self.cfg.routes[i];
            if str_eq(route.model.as_str(), model) {
                let base_url = match route.target {
                    RouteTarget::Lmstudio => self.cfg.lmstudio_url.clone(),
                    RouteTarget::Cloud => match &route.base_url {
                        Some(u) => u.clone(),
                        None => String::new(),
                    },
                };
                assert(first_route(self.cfg.routes@, model@, i as int));
                return Ok(ResolvedRoute { model: route.model.clone(), target: route.target, base_url });
            }
            i = i + 1;
        }
        let mut m = owned("no route configured for ");
        push_str(&mut m, model);
        Err(QwanError::new(QwanCode::NotFound, m.as_str()))
    }
}

/// The models offered to a case are exactly the ones both in the case's
/// allowed list and served by some route: a model is offered if and only
/// if the case may use it and a route serves it.
pub proof fn lemma_offered_iff_allowed_and_routed(
    routes: Seq<InferenceRoute>,
    allowed: Seq<String>,
    m: Seq<char>,
)
    ensures
        listed(keep_configured(routes, allowed), m) <==> listed(allowed, m) && configured(
            routes,
            m,
        ),
    decreases allowed.len(),
{
    if allowed.len() > 0 {
        let p = allowed.drop_last();
        let x = allowed.last();
        let kp = keep_configured(routes, p);
        lemma_offered_iff_allowed_and_routed(routes, p, m);
        assert(allowed =~= p.push(x));
        lemma_listed_push(p, x, m);
        if configured(routes, x@) {
            lemma_listed_push(kp, x, m);
        }
    }
}

/// `pos` picks `kept` out of `s` in order: increasing positions of `s`
/// that hold `kept`'s entries one after another.
pub open spec fn picked_in_order(s: Seq<String>, kept: Seq<String>, pos: Seq<int>) -> bool {
    &&& pos.len() == kept.len()
    &&& forall|k: int| 0 <= k < pos.len() ==> 0 <= #[trigger] pos[k] < s.len() && s[pos[k]] == kept[k]
    &&& forall|a: int, b: int| 0 <= a < b < pos.len() ==> #[trigger] pos[a] < #[trigger] pos[b]
}

/// Every position of `s` whose model some route serves is among `pos`.
pub open spec fn covers_configured(routes: Seq<InferenceRoute>, s: Seq<String>, pos: Seq<int>) -> bool {
    forall|j: int|
        0 <= j < s.len() && configured(routes, #[trigger] s[j]@) ==> exists|k: int|
            0 <= k < pos.len() && #[trigger] pos[k] == j
}

/// The models offered to a case come in the order of the case's allowed
/// list: each offered model is taken from a later place in that list than
/// the one offered before it, and every place of the list whose model a
/// route serves is offered (a model listed twice is offered twice).
pub proof fn lemma_offered_in_case_order(routes: Seq<InferenceRoute>, allowed: Seq<String>)
    ensures
        exists|pos: Seq<int>|
            #[trigger] picked_in_order(allowed, keep_configured(routes, allowed), pos)
                && covers_configured(routes, allowed, pos),
    decreases allowed.len(),
{
    let kept = keep_configured(routes, allowed);
    if allowed.len() == 0 {
        let pos = Seq::<int>::empty();
        assert(picked_in_order(allowed, kept, pos));
        assert(covers_configured(routes, allowed, pos));
    } else {
        let p = allowed.drop_last();
        let x = allowed.last();
        lemma_offered_in_case_order(routes, p);
        let kp = keep_configured(routes, p);
        let pp = choose|pos: Seq<int>|
            picked_in_order(p, kp, pos) && covers_configured(routes, p, pos);
        assert(picked_in_order(p, kp, pp) && covers_configured(routes, p, pp));
        if configured(routes, x@) {
            let pos = pp.push(p.len() as int);
            assert(kept == kp.push(x));
            assert forall|k: int| 0 <= k < pos.len() implies 0 <= #[trigger] pos[k] < allowed.len()
                && allowed[pos[k]] == kept[k] by {
                if k < pp.len() {
                    assert(pos[k] == pp[k]);
                    assert(p[pp[k]] == allowed[pp[k]]);
                }
            }
            assert forall|a: int, b: int| 0 <= a < b < pos.len() implies #[trigger] pos[a]
                < #[trigger] pos[b] by {
                assert(pos[a] == pp[a]);
                if b < pp.len() {
                    assert(pos[b] == pp[b]);
                }
            }
            assert(picked_in_order(allowed, kept, pos));
            assert forall|j: int|
                0 <= j < allowed.len() && configured(routes, #[trigger] allowed[j]@) implies exists|
                k: int,
            | 0 <= k < pos.len() && #[trigger] pos[k] == j by {
                if j < p.len() {
                    assert(p[j] == allowed[j]);
                    let k = choose|k: int| 0 <= k < pp.len() && #[trigger] pp[k] == j;
                    assert(pos[k] == pp[k]);
                } else {
                    assert(pos[pp.len() as int] == j);
                }
            }
            assert(covers_configured(routes, allowed, pos));
        } else {
            assert(kept == kp);
            assert forall|k: int| 0 <= k < pp.len() implies 0 <= #[trigger] pp[k] < allowed.len()
                && allowed[pp[k]] == kept[k] by {
                assert(p[pp[k]] == allowed[pp[k]]);
            }
            assert(picked_in_order(allowed, kept, pp));
            assert forall|j: int|
                0 <= j < allowed.len() && configured(routes, #[trigger] allowed[j]@) implies exists|
                k: int,
            | 0 <= k < pp.len() && #[trigger] pp[k] == j by {
                assert(j != p.len());
                assert(p[j] == allowed[j]);
            }
            assert(covers_configured(routes, allowed, pp));
        }
    }
}

proof fn lemma_listed_push(s: Seq<String>, x: String, m: Seq<char>)
    ensures
        listed(s.push(x), m) <==> listed(s, m) || x@ == m,
{
    let t = s.push(x);
    if listed(s, m) {
        let j = choose|j: int| 0 <= j < s.len() && #[trigger] s[j]@ == m;
        assert(t[j] == s[j]);
    }
    if x@ == m {
        assert(t[s.len() as int] == x);
    }
    if listed(t, m) {
        let j = choose|j: int| 0 <= j < t.len() && #[trigger] t[j]@ == m;
        if j < s.len() {
            assert(t[j] == s[j]);
        }
    }
}

} // verus!
