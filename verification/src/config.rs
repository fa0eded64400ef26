//! Immutable configuration: audience, issuer, resolved header names and the
//! path / method / scope policy table.

use vstd::prelude::*;
use vstd::string::StrSliceExecFns;
use vstd::string::StringExecFns;

verus! {

/// Required scopes for one HTTP method under a path prefix.
pub struct MethodRule {
    pub method: String,
    pub scopes: Vec<String>,
}

/// Spec-level image of a `MethodRule`.
pub struct MethodRuleV {
    pub method: Seq<char>,
    pub scopes: Seq<Seq<char>>,
}

impl View for MethodRule {
    type V = MethodRuleV;

    open spec fn view(&self) -> MethodRuleV {
        MethodRuleV { method: self.method@, scopes: self.scopes.deep_view() }
    }
}

impl DeepView for MethodRule {
    type V = MethodRuleV;

    open spec fn deep_view(&self) -> MethodRuleV {
        self.view()
    }
}

/// The method table configured for one path prefix.
pub struct PolicyEntry {
    pub path: String,
    pub rules: Vec<MethodRule>,
}

/// Spec-level image of a `PolicyEntry`.
pub struct PolicyEntryV {
    pub path: Seq<char>,
    pub rules: Seq<MethodRuleV>,
}

impl View for PolicyEntry {
    type V = PolicyEntryV;

    open spec fn view(&self) -> PolicyEntryV {
        PolicyEntryV { path: self.path@, rules: self.rules.deep_view() }
    }
}

impl DeepView for PolicyEntry {
    type V = PolicyEntryV;

    open spec fn deep_view(&self) -> PolicyEntryV {
        self.view()
    }
}

/// The methods of one entry are pairwise distinct.
pub open spec fn rules_wf(rs: Seq<MethodRuleV>) -> bool {
    forall|i: int, j: int| #![trigger rs[i], rs[j]] 0 <= i < j < rs.len() ==> rs[i].method != rs[j].method
}

/// Some configured path prefix is the empty string.
pub open spec fn has_empty_path(p: Seq<PolicyEntryV>) -> bool {
    exists|i: int| 0 <= i < p.len() && (#[trigger] p[i]).path.len() == 0
}

/// Two entries share the same path prefix.
pub open spec fn has_dup_path(p: Seq<PolicyEntryV>) -> bool {
    exists|i: int, j: int| #![trigger p[i], p[j]] 0 <= i < j < p.len() && p[i].path == p[j].path
}

/// Some entry lists the same method twice.
pub open spec fn has_dup_method(p: Seq<PolicyEntryV>) -> bool {
    exists|i: int| 0 <= i < p.len() && !rules_wf(#[trigger] p[i].rules)
}

/// Policy invariant: nonempty, pairwise-distinct path prefixes, and within
/// each entry pairwise-distinct methods.
pub open spec fn policy_wf(p: Seq<PolicyEntryV>) -> bool {
    !has_empty_path(p) && !has_dup_path(p) && !has_dup_method(p)
}

/// The override if present, the default otherwise.
pub open spec fn opt_or(o: Option<Seq<char>>, d: Seq<char>) -> Seq<char> {
    match o {
        Some(s) => s,
        None => d,
    }
}

/// Optional overrides for the four forwarded / response header names.
pub struct HeaderOverrides {
    pub method: Option<String>,
    pub uri: Option<String>,
    pub id: Option<String>,
    pub groups: Option<String>,
}

/// Why a configuration was rejected.
#[derive(Clone, Copy, Debug, PartialEq, Eq, Structural)]
pub enum ConfigError {
    EmptyPath,
    DuplicatePath,
    DuplicateMethod,
}

/// Validated configuration, shared read-only across requests.
pub struct ConfigModel {
    pub audience: String,
    pub issuer: String,
    pub method_header: String,
    pub uri_header: String,
    pub id_header: String,
    pub groups_header: String,
    pub policy: Vec<PolicyEntry>,
}

impl ConfigModel {
    pub open spec fn wf(&self) -> bool {
        policy_wf(self.policy.deep_view())
    }
}

fn rules_distinct(rules: &Vec<MethodRule>) -> (r: bool)
    ensures
        r == rules_wf(rules.deep_view()),
{
    let n = rules.len();
    let mut i: usize = 1;
    while i < n
        invariant
            1 <= i <= n || n == 0,
            n == rules.deep_view().len(),
            forall|a: int, b: int|
                0 <= a < b < i ==> rules.deep_view()[a].method != rules.deep_view()[b].method,
        decreases n - i,
    {
        let mut j: usize = 0;
        while j < i
            invariant
                0 <= j <= i < n,
                n == rules.deep_view().len(),
                forall|b: int| 0 <= b < j ==> rules.deep_view()[b].method != rules.deep_view()[i as int].method,
        decreases i - j,
        {
            if rules[j].method == rules[i].method {
                proof {
                    assert(rules.deep_view()[j as int].method == rules.deep_view()[i as int].method);
                }
                return false;
            }
            j = j + 1;
        }
        i = i + 1;
    }
    true
}

impl ConfigModel {
    fn resolve(o: Option<String>, d: &str) -> (r: String)
        ensures
            r@ == opt_or(o.deep_view(), d@),
    {
        match o {
            Some(s) => s,
            None => String::from_str(d),
        }
    }

    /// Validates a policy table and resolves header-name defaults; succeeds
    /// exactly on well-formed tables.
    pub fn new(
        audience: String,
        issuer: String,
        names: HeaderOverrides,
        policy: Vec<PolicyEntry>,
    ) -> (r: Result<ConfigModel, ConfigError>)
        ensures
            r is Err <==> !policy_wf(policy.deep_view()),
            (match r {
                Ok(c) => {
                    &&& c.wf()
                    &&& c.policy == policy
                    &&& c.audience == audience
                    &&& c.issuer == issuer
                    &&& c.method_header@ == opt_or(names.method.deep_view(), "x-original-method"@)
                    &&& c.uri_header@ == opt_or(names.uri.deep_view(), "x-original-uri"@)
                    &&& c.id_header@ == opt_or(names.id.deep_view(), "x-id"@)
                    &&& c.groups_header@ == opt_or(names.groups.deep_view(), "x-groups"@)
                },
                Err(e) => match e {
                    ConfigError::EmptyPath => has_empty_path(policy.deep_view()),
                    ConfigError::DuplicatePath => !has_empty_path(policy.deep_view())
                        && has_dup_path(policy.deep_view()),
                    ConfigError::DuplicateMethod => !has_empty_path(policy.deep_view())
                        && !has_dup_path(policy.deep_view()) && has_dup_method(policy.deep_view()),
                },
            }),
    {
        let n = policy.len();
        let mut i: usize = 0;
        while i < n
            invariant
                i <= n,
                n == policy.deep_view().len(),
                forall|a: int| 0 <= a < i ==> (#[trigger] policy.deep_view()[a]).path.len() > 0,
            decreases n - i,
        {
            if policy[i].path.as_str().is_empty() {
                proof {
                    assert(policy.deep_view()[i as int].path.len() == 0);
                }
                return Err(ConfigError::EmptyPath);
            }
            i = i + 1;
        }
        let mut i: usize = 1;
        while i < n
            invariant
                1 <= i <= n || n == 0,
                n == policy.deep_view().len(),
                !has_empty_path(policy.deep_view()),
                forall|a: int, b: int|
                    0 <= a < b < i ==> policy.deep_view()[a].path != policy.deep_view()[b].path,
            decreases n - i,
        {
            let mut j: usize = 0;
            while j < i
                invariant
                    0 <= j <= i < n,
                    n == policy.deep_view().len(),
                    !has_empty_path(policy.deep_view()),
                    forall|b: int| 0 <= b < j ==> policy.deep_view()[b].path != policy.deep_view()[i as int].path,
                decreases i - j,
            {
                if policy[j].path == policy[i].path {
                    proof {
                        assert(policy.deep_view()[j as int].path == policy.deep_view()[i as int].path);
                    }
                    return Err(ConfigError::DuplicatePath);
                }
                j = j + 1;
            }
            i = i + 1;
        }
        let mut i: usize = 0;
        while i < n
            invariant
                i <= n,
                n == policy.deep_view().len(),
                !has_empty_path(policy.deep_view()),
                !has_dup_path(policy.deep_view()),
                forall|a: int| 0 <= a < i ==> rules_wf((#[trigger] policy.deep_view()[a]).rules),
            decreases n - i,
        {
            if !rules_distinct(&policy[i].rules) {
                proof {
                    assert(!rules_wf(policy.deep_view()[i as int].rules));
                }
                return Err(ConfigError::DuplicateMethod);
            }
            i = i + 1;
        }
        Ok(ConfigModel {
            audience,
            issuer,
            method_header: Self::resolve(names.method, "x-original-method"),
            uri_header: Self::resolve(names.uri, "x-original-uri"),
            id_header: Self::resolve(names.id, "x-id"),
            groups_header: Self::resolve(names.groups, "x-groups"),
            policy,
        })
    }
}

} // verus!
