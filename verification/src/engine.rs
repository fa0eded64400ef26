//! The authorization engine: a pure decision function from claim scopes,
//! subject, forwarded method and URI, and the policy table to ALLOW / DENY.
//! Selection is by longest matching path prefix; with distinct configured
//! paths that prefix is unique, so no tie-break is needed (proved below).

use vstd::prelude::*;

use crate::config::MethodRule;
use crate::config::MethodRuleV;
use crate::config::PolicyEntry;
use crate::config::PolicyEntryV;
use crate::config::policy_wf;
use crate::strutil::is_prefix_of;
use crate::strutil::starts_with_str;
use crate::strutil::str_eq;

verus! {

/// Why a request was denied. Internal taxonomy, never sent to the client.
#[derive(Clone, Copy, Debug, PartialEq, Eq, Structural)]
pub enum DenyReason {
    MissingAuthorization,
    CacheUnavailable,
    KeysFetchFailed,
    MalformedToken,
    UnknownKey,
    ValidationFailed,
    MissingSubject,
    MissingForwardedMethod,
    MissingForwardedUri,
    NoPolicyForPath,
    MethodNotAllowed,
    InsufficientScope,
}

/// The engine's verdict for one request.
pub enum AuthDecision {
    Allow { subject: String, granted: Vec<String> },
    Deny { reason: DenyReason },
}

/// Spec-level image of an `AuthDecision`.
pub enum DecisionV {
    Allow { subject: Seq<char>, granted: Seq<Seq<char>> },
    Deny { reason: DenyReason },
}

impl View for AuthDecision {
    type V = DecisionV;

    open spec fn view(&self) -> DecisionV {
        match self {
            AuthDecision::Allow { subject, granted } => DecisionV::Allow {
                subject: subject@,
                granted: granted.deep_view(),
            },
            AuthDecision::Deny { reason } => DecisionV::Deny { reason: *reason },
        }
    }
}

/// Entry `i` exists and its path is a prefix of `uri`.
pub open spec fn matches_at(p: Seq<PolicyEntryV>, uri: Seq<char>, i: int) -> bool {
    0 <= i < p.len() && is_prefix_of(p[i].path, uri)
}

/// The first longest matching entry among the first `n`, scanning forward and
/// replacing the candidate only on a strictly longer match.
pub open spec fn best_upto(p: Seq<PolicyEntryV>, uri: Seq<char>, n: int) -> Option<int>
    decreases n,
{
    if n <= 0 {
        None
    } else {
        let prev = best_upto(p, uri, n - 1);
        if !matches_at(p, uri, n - 1) {
            prev
        } else {
            match prev {
                None => Some(n - 1),
                Some(k) => if p[k].path.len() < p[n - 1].path.len() {
                    Some(n - 1)
                } else {
                    Some(k)
                },
            }
        }
    }
}

/// The selected policy entry for `uri`, if any path prefix matches.
pub open spec fn best_match(p: Seq<PolicyEntryV>, uri: Seq<char>) -> Option<int> {
    best_upto(p, uri, p.len() as int)
}

/// What `best_upto` selects: a match whose path no other match among the
/// first `n` exceeds in length, and the first such entry.
pub proof fn lemma_best_upto_props(p: Seq<PolicyEntryV>, uri: Seq<char>, n: int)
    requires
        0 <= n <= p.len(),
    ensures
        (match best_upto(p, uri, n) {
            None => forall|j: int| 0 <= j < n ==> !matches_at(p, uri, j),
            Some(k) => {
                &&& 0 <= k < n
                &&& matches_at(p, uri, k)
                &&& forall|j: int| 0 <= j < n && matches_at(p, uri, j) ==> p[j].path.len()
                    <= p[k].path.len()
                &&& forall|j: int| 0 <= j < k && matches_at(p, uri, j) ==> p[j].path.len()
                    < p[k].path.len()
            },
        }),
    decreases n,
{
    if n > 0 {
        lemma_best_upto_props(p, uri, n - 1);
    }
}

/// Longest-prefix determinism: two matching prefixes of equal length are both
/// equal to the start of the URI, hence the same string; with pairwise
/// distinct configured paths they are therefore the same entry, so the
/// longest matching prefix is unique and needs no tie-break rule.
pub proof fn lemma_longest_match_deterministic(
    p: Seq<PolicyEntryV>,
    uri: Seq<char>,
    i: int,
    j: int,
)
    requires
        policy_wf(p),
        matches_at(p, uri, i),
        matches_at(p, uri, j),
        p[i].path.len() == p[j].path.len(),
    ensures
        i == j,
{
    assert(p[i].path =~= p[j].path);
    if i < j {
        assert(crate::config::has_dup_path(p));
    } else if j < i {
        assert(crate::config::has_dup_path(p));
    }
}

/// The selected entry is the unique longest match: any match whose path is at
/// least as long as every other match is the one `best_match` picks.
pub proof fn lemma_best_match_unique(p: Seq<PolicyEntryV>, uri: Seq<char>, k: int)
    requires
        policy_wf(p),
        matches_at(p, uri, k),
        forall|j: int| 0 <= j < p.len() && matches_at(p, uri, j) ==> p[j].path.len()
            <= p[k].path.len(),
    ensures
        best_match(p, uri) == Some(k),
{
    lemma_best_upto_props(p, uri, p.len() as int);
    let b = best_match(p, uri).unwrap();
    assert(p[b].path.len() == p[k].path.len());
    lemma_longest_match_deterministic(p, uri, b, k);
}

/// The required scopes of the first rule for `method`, if one exists.
pub open spec fn scopes_for(rs: Seq<MethodRuleV>, method: Seq<char>) -> Option<Seq<Seq<char>>>
    decreases rs.len(),
{
    if rs.len() == 0 {
        None
    } else if rs[0].method == method {
        Some(rs[0].scopes)
    } else {
        scopes_for(rs.drop_first(), method)
    }
}

/// The subsequence of `req` whose elements also occur in `have`, in the
/// order of `req`.
pub open spec fn inter(req: Seq<Seq<char>>, have: Seq<Seq<char>>) -> Seq<Seq<char>>
    decreases req.len(),
{
    if req.len() == 0 {
        Seq::empty()
    } else {
        let init = inter(req.drop_last(), have);
        if have.contains(req.last()) {
            init.push(req.last())
        } else {
            init
        }
    }
}

/// Scope intersection picks exactly the common scopes: a scope is granted
/// if and only if it is both required and claimed.
pub proof fn lemma_inter_is_intersection(req: Seq<Seq<char>>, have: Seq<Seq<char>>)
    ensures
        forall|x: Seq<char>| #[trigger] inter(req, have).contains(x) <==> req.contains(x)
            && have.contains(x),
    decreases req.len(),
{
    if req.len() > 0 {
        let init = inter(req.drop_last(), have);
        lemma_inter_is_intersection(req.drop_last(), have);
        assert forall|x: Seq<char>| #[trigger] inter(req, have).contains(x) implies req.contains(
            x,
        ) && have.contains(x) by {
            let ii = choose|ii: int| 0 <= ii < inter(req, have).len() && inter(req, have)[ii] == x;
            if 0 <= ii < init.len() {
                assert(init[ii] == x);
                assert(init.contains(x));
                assert(req.drop_last().contains(x));
                let jj = choose|jj: int| 0 <= jj < req.drop_last().len() && req.drop_last()[jj] == x;
                assert(req[jj] == x);
                assert(req.contains(x));
            } else {
                assert(x == req.last());
                assert(req[req.len() - 1] == x);
                assert(req.contains(x));
            }
        }
        assert forall|x: Seq<char>| req.contains(x) && have.contains(x) implies #[trigger] inter(
            req,
            have,
        ).contains(x) by {
            let jj = choose|jj: int| 0 <= jj < req.len() && req[jj] == x;
            if jj < req.len() - 1 {
                assert(req.drop_last()[jj] == x);
                assert(req.drop_last().contains(x));
                assert(init.contains(x));
                let ii = choose|ii: int| 0 <= ii < init.len() && init[ii] == x;
                assert(inter(req, have)[ii] == x);
                assert(inter(req, have).contains(x));
            } else {
                assert(req.last() == x);
                assert(inter(req, have) == init.push(x));
                assert(inter(req, have)[init.len() as int] == x);
                assert(inter(req, have).contains(x));
            }
        }
    }
}

/// The engine's decision, as a function of the policy, the claimed scopes,
/// the subject and the forwarded method and URI.
pub open spec fn spec_authorize(
    p: Seq<PolicyEntryV>,
    scopes: Seq<Seq<char>>,
    subject: Seq<char>,
    method: Seq<char>,
    uri: Seq<char>,
) -> DecisionV {
    match best_match(p, uri) {
        None => DecisionV::Deny { reason: DenyReason::NoPolicyForPath },
        Some(k) => match scopes_for(p[k].rules, method) {
            None => DecisionV::Deny { reason: DenyReason::MethodNotAllowed },
            Some(req) => {
                let granted = inter(req, scopes);
                if granted.len() == 0 {
                    DecisionV::Deny { reason: DenyReason::InsufficientScope }
                } else {
                    DecisionV::Allow { subject, granted }
                }
            },
        },
    }
}

/// Whether some element of `v` views to the same string as `s`.
pub fn contains_string(v: &Vec<String>, s: &String) -> (r: bool)
    ensures
        r == v.deep_view().contains(s@),
{
    let n = v.len();
    let mut i: usize = 0;
    while i < n
        invariant
            i <= n == v.deep_view().len(),
            forall|j: int| 0 <= j < i ==> v.deep_view()[j] != s@,
        decreases n - i,
    {
        if v[i].eq(s) {
            proof {
                assert(v.deep_view()[i as int] == s@);
            }
            return true;
        }
        i = i + 1;
    }
    proof {
        assert(forall|j: int| 0 <= j < v.deep_view().len() ==> v.deep_view()[j] != s@);
    }
    false
}

/// The required scopes that are also claimed, in required order.
fn intersect_scopes(required: &Vec<String>, claimed: &Vec<String>) -> (r: Vec<String>)
    ensures
        r.deep_view() == inter(required.deep_view(), claimed.deep_view()),
{
    let n = required.len();
    let mut out: Vec<String> = Vec::new();
    let mut i: usize = 0;
    while i < n
        invariant
            i <= n == required.deep_view().len(),
            out.deep_view() == inter(
                required.deep_view().subrange(0, i as int),
                claimed.deep_view(),
            ),
        decreases n - i,
    {
        proof {
            assert(required.deep_view().subrange(0, i as int + 1).drop_last() =~= required
                .deep_view()
                .subrange(0, i as int));
            assert(required.deep_view().subrange(0, i as int + 1).last() == required.deep_view()[i as int]);
        }
        if contains_string(claimed, &required[i]) {
            out.push(required[i].clone());
            proof {
                assert(out.deep_view() =~= inter(
                    required.deep_view().subrange(0, i as int + 1),
                    claimed.deep_view(),
                ));
            }
        } else {
            proof {
                assert(out.deep_view() =~= inter(
                    required.deep_view().subrange(0, i as int + 1),
                    claimed.deep_view(),
                ));
            }
        }
        i = i + 1;
    }
    proof {
        assert(required.deep_view().subrange(0, n as int) =~= required.deep_view());
    }
    out
}

/// Finds the first longest policy entry whose path is a prefix of `uri`.
fn longest_match(policy: &Vec<PolicyEntry>, uri: &String) -> (r: Option<usize>)
    ensures
        (match r {
            None => best_match(policy.deep_view(), uri@) is None,
            Some(k) => k < policy.len() && best_match(policy.deep_view(), uri@) == Some(k as int),
        }),
{
    let n = policy.len();
    let mut best: Option<usize> = None;
    let mut i: usize = 0;
    while i < n
        invariant
            i <= n == policy.deep_view().len(),
            (match best {
                None => best_upto(policy.deep_view(), uri@, i as int) is None,
                Some(k) => k < n && best_upto(policy.deep_view(), uri@, i as int) == Some(
                    k as int,
                ),
            }),
        decreases n - i,
    {
        if starts_with_str(uri.as_str(), policy[i].path.as_str()) {
            match best {
                None => {
                    best = Some(i);
                },
                Some(k) => {
                    if policy[k].path.as_str().unicode_len()
                        < policy[i].path.as_str().unicode_len() {
                        best = Some(i);
                    }
                },
            }
        }
        i = i + 1;
    }
    best
}

/// Finds the required scopes for `method` in the selected entry's table.
fn required_scopes<'a>(rules: &'a Vec<MethodRule>, method: &String) -> (r: Option<&'a Vec<String>>)
    ensures
        (match r {
            None => scopes_for(rules.deep_view(), method@) is None,
            Some(v) => scopes_for(rules.deep_view(), method@) == Some(v.deep_view()),
        }),
{
    let n = rules.len();
    proof {
        assert(rules.deep_view().subrange(0, n as int) =~= rules.deep_view());
    }
    let mut i: usize = 0;
    while i < n
        invariant
            i <= n == rules.deep_view().len(),
            scopes_for(rules.deep_view(), method@) == scopes_for(
                rules.deep_view().subrange(i as int, n as int),
                method@,
            ),
        decreases n - i,
    {
        proof {
            assert(rules.deep_view().subrange(i as int, n as int).drop_first() =~= rules
                .deep_view()
                .subrange(i as int + 1, n as int));
            assert(rules.deep_view().subrange(i as int, n as int)[0] == rules.deep_view()[i as int]);
        }
        if str_eq(rules[i].method.as_str(), method.as_str()) {
            return Some(&rules[i].scopes);
        }
        i = i + 1;
    }
    None
}

/// The authorization engine: pure, deterministic, no I/O and no shared state.
pub fn authorize(
    claim_scopes: &Vec<String>,
    subject: &String,
    method: &String,
    uri: &String,
    policy: &Vec<PolicyEntry>,
) -> (d: AuthDecision)
    ensures
        d@ == spec_authorize(policy.deep_view(), claim_scopes.deep_view(), subject@, method@, uri@),
{
    match longest_match(policy, uri) {
        None => AuthDecision::Deny { reason: DenyReason::NoPolicyForPath },
        Some(k) => match required_scopes(&policy[k].rules, method) {
            None => AuthDecision::Deny { reason: DenyReason::MethodNotAllowed },
            Some(req) => {
                let granted = intersect_scopes(req, claim_scopes);
                if granted.len() == 0 {
                    AuthDecision::Deny { reason: DenyReason::InsufficientScope }
                } else {
                    AuthDecision::Allow { subject: subject.clone(), granted }
                }
            },
        },
    }
}

} // verus!
