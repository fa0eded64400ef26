//! Per-request orchestration: extract the bearer token, take the key-set
//! snapshot, validate the token, extract the forwarded context, authorize,
//! and render the response. Every failure is terminal and collapses to a
//! deny; the response never names the cause.

use vstd::prelude::*;
use vstd::string::StringExecFns;

use crate::config::ConfigModel;
use crate::engine::AuthDecision;
use crate::engine::DecisionV;
use crate::engine::DenyReason;
use crate::engine::authorize;
use crate::engine::matches_at;
use crate::engine::spec_authorize;
use crate::keys::TokenClaims;
use crate::keys::find_key;
use crate::keys::token_kid_w;
use crate::keys::validate_token;
use crate::strutil::bearer_token;
use crate::strutil::joined_comma;
use crate::strutil::join_comma;
use crate::strutil::split_sp;
use crate::strutil::split_spaces;
use crate::strutil::str_eq;

verus! {

/// One request or response header: a name and a value.
pub struct HeaderPair {
    pub name: String,
    pub value: String,
}

/// Spec-level image of a `HeaderPair`.
pub struct HeaderPairV {
    pub name: Seq<char>,
    pub value: Seq<char>,
}

impl View for HeaderPair {
    type V = HeaderPairV;

    open spec fn view(&self) -> HeaderPairV {
        HeaderPairV { name: self.name@, value: self.value@ }
    }
}

impl DeepView for HeaderPair {
    type V = HeaderPairV;

    open spec fn deep_view(&self) -> HeaderPairV {
        self.view()
    }
}

/// The value of the first header named `name`, if any.
pub open spec fn spec_lookup(hs: Seq<HeaderPairV>, name: Seq<char>) -> Option<Seq<char>>
    decreases hs.len(),
{
    if hs.len() == 0 {
        None
    } else if hs[0].name == name {
        Some(hs[0].value)
    } else {
        spec_lookup(hs.drop_first(), name)
    }
}

/// Finds the first header with the given name.
pub fn lookup_header(headers: &Vec<HeaderPair>, name: &str) -> (r: Option<String>)
    ensures
        r.deep_view() == spec_lookup(headers.deep_view(), name@),
{
    let n = headers.len();
    proof {
        assert(headers.deep_view().subrange(0, n as int) =~= headers.deep_view());
    }
    let mut i: usize = 0;
    while i < n
        invariant
            i <= n == headers.deep_view().len(),
            spec_lookup(headers.deep_view(), name@) == spec_lookup(
                headers.deep_view().subrange(i as int, n as int),
                name@,
            ),
        decreases n - i,
    {
        proof {
            assert(headers.deep_view().subrange(i as int, n as int).drop_first() =~= headers
                .deep_view()
                .subrange(i as int + 1, n as int));
            assert(headers.deep_view().subrange(i as int, n as int)[0] == headers.deep_view()[i as int]);
        }
        if str_eq(headers[i].name.as_str(), name) {
            return Some(headers[i].value.clone());
        }
        i = i + 1;
    }
    None
}

/// The key-set snapshot a request obtained from the cache loop.
pub enum KeysReply {
    Keys(alcoholic_jwt::JWKS),
    FetchFailed,
    CacheUnavailable,
}

/// The decision once validated claims are in hand: missing subject denies,
/// a missing scope claim is an empty scope set, then the engine decides.
pub open spec fn spec_decide(
    p: Seq<crate::config::PolicyEntryV>,
    method: Seq<char>,
    uri: Seq<char>,
    subject: Option<Seq<char>>,
    scope: Option<Seq<char>>,
) -> DecisionV {
    match subject {
        None => DecisionV::Deny { reason: DenyReason::MissingSubject },
        Some(sub) => {
            let scopes = match scope {
                None => Seq::<Seq<char>>::empty(),
                Some(s) => split_sp(s),
            };
            spec_authorize(p, scopes, sub, method, uri)
        },
    }
}

/// Decides a request from validated claims and forwarded context: the
/// verified remainder of the pipeline after the trusted validation call.
pub fn decide(config: &ConfigModel, method: &String, uri: &String, claims: &TokenClaims) -> (d:
    AuthDecision)
    ensures
        d@ == spec_decide(
            config.policy.deep_view(),
            method@,
            uri@,
            claims.subject.deep_view(),
            claims.scope.deep_view(),
        ),
{
    match &claims.subject {
        None => AuthDecision::Deny { reason: DenyReason::MissingSubject },
        Some(subject) => {
            let scopes: Vec<String> = match &claims.scope {
                None => Vec::new(),
                Some(s) => split_spaces(s.as_str()),
            };
            proof {
                if claims.scope is None {
                    assert(Seq::<Seq<char>>::empty() =~= scopes.deep_view());
                }
            }
            authorize(&scopes, subject, method, uri, &config.policy)
        },
    }
}

/// A decision over claims never carries a pre-validation reason: every
/// denial it yields is a missing subject, an unmatched path, a method not in
/// the table, or an insufficient scope set.
pub proof fn lemma_decide_reasons(
    p: Seq<crate::config::PolicyEntryV>,
    method: Seq<char>,
    uri: Seq<char>,
    subject: Option<Seq<char>>,
    scope: Option<Seq<char>>,
)
    ensures
        (match spec_decide(p, method, uri, subject, scope) {
            DecisionV::Deny { reason } => reason is MissingSubject || reason is NoPolicyForPath
                || reason is MethodNotAllowed || reason is InsufficientScope,
            DecisionV::Allow { .. } => true,
        }),
{
}

/// Handles one request from its plain parts: the configured model, the
/// readable request headers, and the key-set snapshot. The denials the
/// library itself decides before the validation call — missing header,
/// unavailable cache, failed fetch, undecodable key id — are pinned if and
/// only if; an allow is always an engine allow for some claims.
pub fn handle_request(config: &ConfigModel, headers: &Vec<HeaderPair>, keys: &KeysReply) -> (d:
    AuthDecision)
    ensures
        d@ == (DecisionV::Deny { reason: DenyReason::MissingAuthorization }) <==> spec_lookup(
            headers.deep_view(),
            "authorization"@,
        ) is None,
        spec_lookup(headers.deep_view(), "authorization"@) is Some ==> (d@ == (DecisionV::Deny {
            reason: DenyReason::CacheUnavailable,
        }) <==> keys is CacheUnavailable),
        spec_lookup(headers.deep_view(), "authorization"@) is Some ==> (d@ == (DecisionV::Deny {
            reason: DenyReason::KeysFetchFailed,
        }) <==> keys is FetchFailed),
        (match spec_lookup(headers.deep_view(), "authorization"@) {
            Some(a) => keys is Keys ==> (d@ == (DecisionV::Deny {
                reason: DenyReason::MalformedToken,
            }) <==> crate::keys::kid_of(crate::strutil::after_last_space(a)) is None),
            None => true,
        }),
        d@ is Allow ==> keys is Keys && spec_lookup(headers.deep_view(), config.method_header@)
            is Some && spec_lookup(headers.deep_view(), config.uri_header@) is Some,
        d@ is Allow ==> (exists|subject: Seq<char>, scope: Option<Seq<char>>|
            d@ == spec_decide(
                config.policy.deep_view(),
                spec_lookup(headers.deep_view(), config.method_header@).unwrap(),
                spec_lookup(headers.deep_view(), config.uri_header@).unwrap(),
                Some(subject),
                scope,
            )),
        (match spec_lookup(headers.deep_view(), config.uri_header@) {
            Some(u) => (forall|j: int| !matches_at(config.policy.deep_view(), u, j)) ==> d@
                is Deny,
            None => d@ is Deny,
        }),
        (match d@ {
            DecisionV::Allow { subject, granted } => granted.len() > 0,
            DecisionV::Deny { reason } => true,
        }),
{
    let auth = match lookup_header(headers, "authorization") {
        Some(a) => a,
        None => {
            return AuthDecision::Deny { reason: DenyReason::MissingAuthorization };
        },
    };
    let token = bearer_token(auth.as_str());
    let jwks = match keys {
        KeysReply::Keys(j) => j,
        KeysReply::FetchFailed => {
            return AuthDecision::Deny { reason: DenyReason::KeysFetchFailed };
        },
        KeysReply::CacheUnavailable => {
            return AuthDecision::Deny { reason: DenyReason::CacheUnavailable };
        },
    };
    let kid = match token_kid_w(token) {
        Some(k) => k,
        None => {
            return AuthDecision::Deny { reason: DenyReason::MalformedToken };
        },
    };
    let jwk = match find_key(jwks, &kid) {
        Some(j) => j,
        None => {
            return AuthDecision::Deny { reason: DenyReason::UnknownKey };
        },
    };
    let claims = match validate_token(token, jwk, &config.issuer, &config.audience) {
        Some(c) => c,
        None => {
            return AuthDecision::Deny { reason: DenyReason::ValidationFailed };
        },
    };
    let method = match lookup_header(headers, config.method_header.as_str()) {
        Some(m) => m,
        None => {
            return AuthDecision::Deny { reason: DenyReason::MissingForwardedMethod };
        },
    };
    let uri = match lookup_header(headers, config.uri_header.as_str()) {
        Some(u) => u,
        None => {
            return AuthDecision::Deny { reason: DenyReason::MissingForwardedUri };
        },
    };
    let d = decide(config, &method, &uri, &claims);
    proof {
        lemma_decide_reasons(
            config.policy.deep_view(),
            method@,
            uri@,
            claims.subject.deep_view(),
            claims.scope.deep_view(),
        );
        if d@ is Allow {
            assert(d@ == spec_decide(
                config.policy.deep_view(),
                spec_lookup(headers.deep_view(), config.method_header@).unwrap(),
                spec_lookup(headers.deep_view(), config.uri_header@).unwrap(),
                Some(claims.subject.deep_view().unwrap()),
                claims.scope.deep_view(),
            ));
            if (match spec_lookup(headers.deep_view(), config.uri_header@) {
                Some(u) => forall|j: int| !matches_at(config.policy.deep_view(), u, j),
                None => false,
            }) {
                crate::engine::lemma_best_upto_props(
                    config.policy.deep_view(),
                    uri@,
                    config.policy.deep_view().len() as int,
                );
            }
        }
    }
    d
}

/// A rendered HTTP response: a status code and response headers.
pub struct RenderedResponse {
    pub status: u16,
    pub headers: Vec<HeaderPair>,
}

/// Renders the decision: 200 with the groups and id headers on allow, 403
/// with no identifying headers on any deny.
pub fn render_response(config: &ConfigModel, d: &AuthDecision) -> (r: RenderedResponse)
    ensures
        d@ is Deny ==> r.status == 403 && r.headers@.len() == 0,
        (match d@ {
            DecisionV::Allow { subject, granted } => {
                &&& r.status == 200
                &&& r.headers.deep_view() == seq![
                    HeaderPairV { name: config.groups_header@, value: joined_comma(granted) },
                    HeaderPairV { name: config.id_header@, value: subject },
                ]
            },
            DecisionV::Deny { reason } => true,
        }),
{
    match d {
        AuthDecision::Deny { reason: _ } => RenderedResponse { status: 403, headers: Vec::new() },
        AuthDecision::Allow { subject, granted } => {
            let mut headers: Vec<HeaderPair> = Vec::new();
            headers.push(
                HeaderPair { name: config.groups_header.clone(), value: join_comma(granted) },
            );
            headers.push(HeaderPair { name: config.id_header.clone(), value: subject.clone() });
            proof {
                assert(headers.deep_view() =~= seq![
                    HeaderPairV {
                        name: config.groups_header@,
                        value: joined_comma(granted.deep_view()),
                    },
                    HeaderPairV { name: config.id_header@, value: subject@ },
                ]);
            }
            RenderedResponse { status: 200, headers }
        },
    }
}

} // verus!
