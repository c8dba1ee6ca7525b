//! Per-request decisions: which rule a URL routes to, how each header is
//! forwarded, and what the proxy does with the request.

use vstd::prelude::*;
use crate::pattern::{pattern_matches, pattern_replace};
use crate::rules::{
    ActionSpec, HeaderAction, ProxyRule, RuleDefinition, RuleSpec, compiled, default_key,
    definitions_table, lemma_fallback_without_default,
};
use crate::text::lower_of;

verus! {

/// How many redirects are followed for a rule that follows them.
pub const REDIRECT_LIMIT: usize = 10;

/// The redirect limit that a rule's flag gives: none when it does not follow.
pub open spec fn redirect_limit_for(follow_redirect: bool) -> usize {
    if follow_redirect {
        REDIRECT_LIMIT
    } else {
        0
    }
}

/// `r` is the index of the first rule whose pattern matches `url`, or `None`
/// when no rule matches.
pub open spec fn routes_to(rules: Seq<ProxyRule>, url: Seq<char>, r: Option<usize>) -> bool {
    match r {
        Some(i) => {
            &&& i < rules.len()
            &&& pattern_matches(rules[i as int]@.pattern, url)
            &&& forall|j: int| 0 <= j < i ==> !pattern_matches(#[trigger] rules[j]@.pattern, url)
        },
        None => forall|j: int| 0 <= j < rules.len() ==> !pattern_matches(#[trigger] rules[j]@.pattern, url),
    }
}

/// The first rule, in compiled order, whose pattern matches anywhere in `url`.
pub fn route(rules: &Vec<ProxyRule>, url: &str) -> (r: Option<usize>)
    ensures
        routes_to(rules@, url@, r),
{
    let mut i: usize = 0;
    while i < rules.len()
        invariant
            i <= rules@.len(),
            forall|j: int| 0 <= j < i ==> !pattern_matches(#[trigger] rules@[j]@.pattern, url@),
        decreases rules@.len() - i,
    {
        if rules[i].pattern().is_match(url) {
            return Some(i);
        }
        i = i + 1;
    }
    None
}

/// A header of the inbound request: its name, and its value as text when the
/// value is visible ASCII.
pub struct InboundHeader {
    pub name: String,
    pub text: Option<String>,
}

/// One header of the outbound request, by the index of the inbound header it
/// comes from.
pub enum HeaderOp {
    /// Copy the inbound header unchanged.
    Copy { index: usize },
    /// Send the inbound header's name with a new value.
    Replace { index: usize, value: String },
}

/// A `HeaderOp` on plain values.
pub enum OpSpec {
    Copy { index: usize },
    Replace { index: usize, value: Seq<char> },
}

impl View for HeaderOp {
    type V = OpSpec;

    open spec fn view(&self) -> OpSpec {
        match self {
            HeaderOp::Copy { index } => OpSpec::Copy { index: *index },
            HeaderOp::Replace { index, value } => OpSpec::Replace { index: *index, value: value@ },
        }
    }
}

/// Why a request's headers cannot be forwarded, with the offending header's
/// index.
#[derive(PartialEq, Eq, Structural, Clone, Copy, Debug)]
pub enum HeaderFailure {
    /// A `Replace` pattern does not match the header's value.
    Unmatched { index: usize },
    /// A `Replace` action met a value that is not visible ASCII.
    NotText { index: usize },
}

/// What the header at `index` contributes to the outbound request.
pub open spec fn header_step(rule: RuleSpec, h: InboundHeader, index: usize) -> Result<Option<OpSpec>, HeaderFailure> {
    match rule.action_for(lower_of(h.name@)) {
        ActionSpec::Passthrough => Ok(Some(OpSpec::Copy { index })),
        ActionSpec::Ignore => Ok(None),
        ActionSpec::Replace { pattern, replace } => match h.text {
            None => Err(HeaderFailure::NotText { index }),
            Some(t) => if pattern_matches(pattern, t@) {
                Ok(Some(OpSpec::Replace { index, value: pattern_replace(pattern, t@, replace) }))
            } else {
                Err(HeaderFailure::Unmatched { index })
            },
        },
    }
}

/// The outbound headers for the first `n` inbound headers, in order, or the
/// first failure among them.
pub open spec fn planned(rule: RuleSpec, hs: Seq<InboundHeader>, n: int) -> Result<Seq<OpSpec>, HeaderFailure>
    decreases n,
{
    if n <= 0 {
        Ok(Seq::empty())
    } else {
        match planned(rule, hs, n - 1) {
            Err(e) => Err(e),
            Ok(ops) => match header_step(rule, hs[n - 1], (n - 1) as usize) {
                Err(e) => Err(e),
                Ok(None) => Ok(ops),
                Ok(Some(op)) => Ok(ops.push(op)),
            },
        }
    }
}

/// Once the headers fail, later headers do not change the failure.
proof fn lemma_planned_failure_persists(rule: RuleSpec, hs: Seq<InboundHeader>, n: int, m: int)
    requires
        0 <= n <= m,
        planned(rule, hs, n) is Err,
    ensures
        planned(rule, hs, m) == planned(rule, hs, n),
    decreases m - n,
{
    if m > n {
        lemma_planned_failure_persists(rule, hs, n, m - 1);
    }
}

/// The outbound headers of a request routed to `rule`, or why there are none.
pub fn plan_headers(rule: &ProxyRule, headers: &Vec<InboundHeader>) -> (r: Result<Vec<HeaderOp>, HeaderFailure>)
    ensures
        match r {
            Ok(ops) => planned(rule@, headers@, headers@.len() as int) == Ok::<Seq<OpSpec>, HeaderFailure>(
                ops@.map_values(|o: HeaderOp| o@),
            ),
            Err(e) => planned(rule@, headers@, headers@.len() as int) == Err::<Seq<OpSpec>, HeaderFailure>(e),
        },
{
    let mut ops: Vec<HeaderOp> = Vec::new();
    let mut i: usize = 0;
    proof {
        assert(ops@.map_values(|o: HeaderOp| o@) =~= Seq::<OpSpec>::empty());
    }
    while i < headers.len()
        invariant
            i <= headers@.len(),
            planned(rule@, headers@, i as int) == Ok::<Seq<OpSpec>, HeaderFailure>(
                ops@.map_values(|o: HeaderOp| o@),
            ),
        decreases headers@.len() - i,
    {
        let h = &headers[i];
        let ghost before = ops@;
        match rule.resolve(h.name.as_str()) {
            HeaderAction::Passthrough => {
                ops.push(HeaderOp::Copy { index: i });
            },
            HeaderAction::Ignore => {},
            HeaderAction::Replace { pattern, replace } => match &h.text {
                None => {
                    proof {
                        lemma_planned_failure_persists(rule@, headers@, i + 1, headers@.len() as int);
                    }
                    return Err(HeaderFailure::NotText { index: i });
                },
                Some(t) => {
                    if pattern.is_match(t.as_str()) {
                        let value = pattern.replace(t.as_str(), replace);
                        ops.push(HeaderOp::Replace { index: i, value });
                    } else {
                        proof {
                            lemma_planned_failure_persists(rule@, headers@, i + 1, headers@.len() as int);
                        }
                        return Err(HeaderFailure::Unmatched { index: i });
                    }
                },
            },
        }
        proof {
            if ops@.len() > before.len() {
                assert(ops@.map_values(|o: HeaderOp| o@) =~= before.map_values(|o: HeaderOp| o@).push(
                    ops@.last()@,
                ));
            }
        }
        i = i + 1;
    }
    Ok(ops)
}

/// What the proxy does with one request.
pub enum Decision {
    /// No rule matches: answer 404 with an empty body.
    NotFound,
    /// A `Replace` pattern of the matched rule does not match a header value:
    /// answer 400 with an empty body.
    Rejected { rule: usize, header: usize },
    /// A header value that a `Replace` action needs is not text: answer 500
    /// with an empty body.
    Failed { rule: usize, header: usize },
    /// Send the request to `target` with `headers`, following at most
    /// `redirect_limit` redirects.
    Forward { rule: usize, target: String, headers: Vec<HeaderOp>, redirect_limit: usize },
}

/// `d` is what the proxy does with a request whose routing key is `url` and
/// whose headers are `hs`.
pub open spec fn decided(rules: Seq<ProxyRule>, url: Seq<char>, hs: Seq<InboundHeader>, d: Decision) -> bool {
    match d {
        Decision::NotFound => routes_to(rules, url, None),
        Decision::Rejected { rule, header } => {
            &&& routes_to(rules, url, Some(rule))
            &&& planned(rules[rule as int]@, hs, hs.len() as int) == Err::<Seq<OpSpec>, HeaderFailure>(
                HeaderFailure::Unmatched { index: header },
            )
        },
        Decision::Failed { rule, header } => {
            &&& routes_to(rules, url, Some(rule))
            &&& planned(rules[rule as int]@, hs, hs.len() as int) == Err::<Seq<OpSpec>, HeaderFailure>(
                HeaderFailure::NotText { index: header },
            )
        },
        Decision::Forward { rule, target, headers, redirect_limit } => {
            let r = rules[rule as int]@;
            &&& routes_to(rules, url, Some(rule))
            &&& target@ == pattern_replace(r.pattern, url, r.target)
            &&& planned(r, hs, hs.len() as int) == Ok::<Seq<OpSpec>, HeaderFailure>(
                headers@.map_values(|o: HeaderOp| o@),
            )
            &&& redirect_limit == redirect_limit_for(r.follow_redirect)
        },
    }
}

/// Decides what to do with a request: route it by `url`, rewrite the target
/// with the matched rule's template, and plan its headers.
pub fn decide(rules: &Vec<ProxyRule>, url: &str, headers: &Vec<InboundHeader>) -> (d: Decision)
    ensures
        decided(rules@, url@, headers@, d),
{
    match route(rules, url) {
        None => Decision::NotFound,
        Some(i) => {
            let rule = &rules[i];
            match plan_headers(rule, headers) {
                Err(HeaderFailure::Unmatched { index }) => Decision::Rejected { rule: i, header: index },
                Err(HeaderFailure::NotText { index }) => Decision::Failed { rule: i, header: index },
                Ok(ops) => {
                    let target = rule.pattern().replace(url, rule.target());
                    let redirect_limit = if rule.follow_redirect() {
                        REDIRECT_LIMIT
                    } else {
                        0
                    };
                    Decision::Forward { rule: i, target, headers: ops, redirect_limit }
                },
            }
        },
    }
}

impl Decision {
    /// The status the proxy answers with by itself, or `None` when the
    /// upstream's status is passed on.
    pub open spec fn own_status(&self) -> Option<u16> {
        match self {
            Decision::NotFound => Some(404u16),
            Decision::Rejected { .. } => Some(400u16),
            Decision::Failed { .. } => Some(500u16),
            Decision::Forward { .. } => None,
        }
    }

    /// The status the proxy answers with by itself, or `None` when the
    /// upstream's status is passed on.
    pub fn status(&self) -> (r: Option<u16>)
        ensures
            r == self.own_status(),
    {
        match self {
            Decision::NotFound => Some(404),
            Decision::Rejected { .. } => Some(400),
            Decision::Failed { .. } => Some(500),
            Decision::Forward { .. } => None,
        }
    }
}

/// Routing is deterministic: for fixed rules and a fixed URL, any two results
/// of `route` are the same.
pub proof fn lemma_route_deterministic(rules: Seq<ProxyRule>, url: Seq<char>, a: Option<usize>, b: Option<usize>)
    requires
        routes_to(rules, url, a),
        routes_to(rules, url, b),
    ensures
        a == b,
{
    match (a, b) {
        (Some(i), Some(j)) => {
            if i < j {
                assert(!pattern_matches(rules[i as int]@.pattern, url));
            } else if j < i {
                assert(!pattern_matches(rules[j as int]@.pattern, url));
            }
        },
        (Some(i), None) => {
            assert(!pattern_matches(rules[i as int]@.pattern, url));
        },
        (None, Some(j)) => {
            assert(!pattern_matches(rules[j as int]@.pattern, url));
        },
        (None, None) => {},
    }
}

/// The first match wins: when the definitions at `i < j` both match `url`,
/// the rules compiled from them route `url` to `i` or to an earlier rule,
/// never to `j`.
pub proof fn lemma_first_match_wins(
    defs: Seq<RuleDefinition>,
    rules: Seq<ProxyRule>,
    url: Seq<char>,
    i: int,
    j: int,
    r: Option<usize>,
)
    requires
        rules.len() == defs.len(),
        forall|k: int| 0 <= k < defs.len() ==> #[trigger] rules[k]@ == compiled(defs[k]),
        0 <= i < j < defs.len(),
        pattern_matches(defs[i].pattern@, url),
        pattern_matches(defs[j].pattern@, url),
        routes_to(rules, url, r),
    ensures
        r is Some,
        r->Some_0 <= i,
        r->Some_0 != j,
{
    assert(rules[i]@ == compiled(defs[i]));
    assert(rules[j]@ == compiled(defs[j]));
    if let Some(k) = r {
        if k > i {
            assert(!pattern_matches(rules[i]@.pattern, url));
        }
    } else {
        assert(!pattern_matches(rules[i]@.pattern, url));
    }
}

/// A rule configured without a `"$default"` entry drops every header that it
/// does not list: such a header adds nothing to the outbound request.
pub proof fn lemma_unlisted_header_dropped(d: RuleDefinition, hs: Seq<InboundHeader>, n: int)
    requires
        forall|k: int| 0 <= k < d.headers@.len() ==> (#[trigger] d.headers@[k]).name@ != default_key(),
        0 <= n < hs.len(),
        !definitions_table(d.headers@).contains_key(lower_of(hs[n].name@)),
    ensures
        compiled(d).action_for(lower_of(hs[n].name@)) == ActionSpec::Ignore,
        header_step(compiled(d), hs[n], n as usize) == Ok::<Option<OpSpec>, HeaderFailure>(None),
        planned(compiled(d), hs, n + 1) == planned(compiled(d), hs, n),
{
    lemma_fallback_without_default(d.headers@);
}

proof fn lemma_planned_fails_at(rule: RuleSpec, hs: Seq<InboundHeader>, k: int, n: int)
    requires
        0 <= k < n <= hs.len(),
        header_step(rule, hs[k], k as usize) is Err,
    ensures
        planned(rule, hs, n) is Err,
{
    lemma_planned_failure_persists(rule, hs, k + 1, n);
}

proof fn lemma_planned_failure_is_unmatched(rule: RuleSpec, hs: Seq<InboundHeader>, n: int)
    requires
        0 <= n <= hs.len(),
        forall|m: int| 0 <= m < hs.len() ==> (#[trigger] hs[m]).text is Some,
        planned(rule, hs, n) is Err,
    ensures
        planned(rule, hs, n)->Err_0 is Unmatched,
    decreases n,
{
    if n > 0 && planned(rule, hs, n - 1) is Err {
        lemma_planned_failure_is_unmatched(rule, hs, n - 1);
    } else if n > 0 {
        assert(hs[n - 1].text is Some);
    }
}

/// A `Replace` action whose pattern does not match the header's value makes
/// the request rejected with 400: it is never forwarded.
pub proof fn lemma_unmatched_replace_rejects(
    rules: Seq<ProxyRule>,
    url: Seq<char>,
    hs: Seq<InboundHeader>,
    i: usize,
    k: int,
    d: Decision,
)
    requires
        routes_to(rules, url, Some(i)),
        0 <= k < hs.len(),
        forall|m: int| 0 <= m < hs.len() ==> (#[trigger] hs[m]).text is Some,
        rules[i as int]@.action_for(lower_of(hs[k].name@)) is Replace,
        !pattern_matches(
            rules[i as int]@.action_for(lower_of(hs[k].name@))->Replace_pattern,
            hs[k].text->Some_0@,
        ),
        decided(rules, url, hs, d),
    ensures
        d is Rejected,
        d->Rejected_rule == i,
        d.own_status() == Some(400u16),
{
    assert(hs[k].text is Some);
    lemma_planned_fails_at(rules[i as int]@, hs, k, hs.len() as int);
    lemma_planned_failure_is_unmatched(rules[i as int]@, hs, hs.len() as int);
    match d {
        Decision::NotFound => lemma_route_deterministic(rules, url, None, Some(i)),
        Decision::Rejected { rule, .. } => lemma_route_deterministic(rules, url, Some(rule), Some(i)),
        Decision::Failed { rule, .. } => lemma_route_deterministic(rules, url, Some(rule), Some(i)),
        Decision::Forward { rule, .. } => lemma_route_deterministic(rules, url, Some(rule), Some(i)),
    }
}

/// A URL that no rule matches is answered 404 and never forwarded.
pub proof fn lemma_no_match_not_found(rules: Seq<ProxyRule>, url: Seq<char>, hs: Seq<InboundHeader>, d: Decision)
    requires
        forall|j: int| 0 <= j < rules.len() ==> !pattern_matches(#[trigger] rules[j]@.pattern, url),
        decided(rules, url, hs, d),
    ensures
        d is NotFound,
        d.own_status() == Some(404u16),
{
    match d {
        Decision::NotFound => {},
        Decision::Rejected { rule, .. } => lemma_route_deterministic(rules, url, Some(rule), None),
        Decision::Failed { rule, .. } => lemma_route_deterministic(rules, url, Some(rule), None),
        Decision::Forward { rule, .. } => lemma_route_deterministic(rules, url, Some(rule), None),
    }
}

} // verus!
