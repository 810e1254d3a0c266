//! The access decision handed to the gateway: allow or deny one request, with
//! the resource reference and the caller's identity that the gateway needs.

use vstd::prelude::*;
use crate::strset::{set_of, contains_str, str_eq};
use crate::token::{AuthError, TokenClaims};

verus! {

#[derive(PartialEq, Eq, Structural, Clone, Copy, Debug)]
pub enum Effect {
    Allow,
    Deny,
}

/// A method and path that the members of `group` may call.
pub struct RouteRule {
    pub group: String,
    pub method: String,
    pub path: String,
}

/// What the decision engine is configured with: the administrative group,
/// the routes that each group may call, and the identifiers that make up
/// the resource reference.
pub struct AccessPolicy {
    pub admin_group: String,
    pub routes: Vec<RouteRule>,
    pub region: String,
    pub account_id: String,
    pub api_id: String,
}

/// One key and value handed to the gateway beside the decision.
pub struct ContextEntry {
    pub key: String,
    pub value: String,
}

pub struct PolicyDecision {
    pub principal_id: String,
    pub effect: Effect,
    pub resource_arn: String,
    pub context: Vec<ContextEntry>,
}

/// Some route of `p` lets a member of `groups` call `method` on `path`.
pub open spec fn route_permits(p: AccessPolicy, groups: Set<Seq<char>>, method: Seq<char>, path: Seq<char>) -> bool {
    exists|i: int| 0 <= i < p.routes@.len() && groups.contains(#[trigger] p.routes@[i].group@)
        && p.routes@[i].method@ == method && p.routes@[i].path@ == path
}

/// The members of `groups` may call `method` on `path`.
pub open spec fn allows(p: AccessPolicy, groups: Set<Seq<char>>, method: Seq<char>, path: Seq<char>) -> bool {
    groups.contains(p.admin_group@) || route_permits(p, groups, method, path)
}

/// `arn:aws:execute-api:<region>:<account>:<api>/*/<method>`.
pub open spec fn resource_arn_spec(p: AccessPolicy, method: Seq<char>) -> Seq<char> {
    "arn:aws:execute-api:"@ + p.region@ + ":"@ + p.account_id@ + ":"@ + p.api_id@ + "/*/"@ + method
}

/// The context key under which the caller's subject is handed on.
pub open spec fn user_key_spec() -> Seq<char> {
    "user"@
}

/// The principal named in a decision for a caller with no valid token.
pub open spec fn anonymous_spec() -> Seq<char> {
    "anonymous"@
}

/// `d` names `principal` and hands it on as the only context entry.
pub open spec fn names_principal(d: PolicyDecision, principal: Seq<char>) -> bool {
    &&& d.principal_id@ == principal
    &&& d.context@.len() == 1
    &&& d.context@[0].key@ == user_key_spec()
    &&& d.context@[0].value@ == principal
}

impl AccessPolicy {
    /// Whether some route lets a member of `groups` call `method` on `path`.
    pub fn permits_route(&self, groups: &Vec<String>, method: &str, path: &str) -> (r: bool)
        ensures
            r == route_permits(*self, set_of(groups@), method@, path@),
    {
        let mut i: usize = 0;
        while i < self.routes.len()
            invariant
                i <= self.routes@.len(),
                forall|k: int| 0 <= k < i ==> !(set_of(groups@).contains(#[trigger] self.routes@[k].group@)
                    && self.routes@[k].method@ == method@ && self.routes@[k].path@ == path@),
            decreases self.routes.len() - i,
        {
            let rule = &self.routes[i];
            if str_eq(rule.method.as_str(), method) && str_eq(rule.path.as_str(), path)
                && contains_str(groups, rule.group.as_str()) {
                return true;
            }
            i = i + 1;
        }
        false
    }

    /// The resource reference for `method`, the same whether the request
    /// is allowed or denied.
    pub fn resource_arn(&self, method: &str) -> (r: String)
        ensures
            r@ == resource_arn_spec(*self, method@),
    {
        let mut r = String::from_str("arn:aws:execute-api:");
        r.append(self.region.as_str());
        r.append(":");
        r.append(self.account_id.as_str());
        r.append(":");
        r.append(self.api_id.as_str());
        r.append("/*/");
        r.append(method);
        r
    }

    fn decision_for(&self, principal: &str, effect: Effect, method: &str) -> (r: PolicyDecision)
        ensures
            r.effect == effect,
            r.resource_arn@ == resource_arn_spec(*self, method@),
            names_principal(r, principal@),
    {
        let mut context: Vec<ContextEntry> = Vec::new();
        context.push(ContextEntry { key: String::from_str("user"), value: String::from_str(principal) });
        PolicyDecision {
            principal_id: String::from_str(principal),
            effect,
            resource_arn: self.resource_arn(method),
            context,
        }
    }

    /// Decides whether the holder of `claims` may call `method` on `path`:
    /// allowed for members of the administrative group and for members of a
    /// group that a route names for that method and path, denied otherwise.
    pub fn decide(&self, claims: &TokenClaims, method: &str, path: &str) -> (r: PolicyDecision)
        ensures
            r.effect == (if allows(*self, set_of(claims.groups@), method@, path@) {
                Effect::Allow
            } else {
                Effect::Deny
            }),
            r.resource_arn@ == resource_arn_spec(*self, method@),
            names_principal(r, claims.subject@),
    {
        let allowed = contains_str(&claims.groups, self.admin_group.as_str())
            || self.permits_route(&claims.groups, method, path);
        let effect = if allowed { Effect::Allow } else { Effect::Deny };
        self.decision_for(claims.subject.as_str(), effect, method)
    }

    /// Decides on the outcome of token validation: any failure is a denial
    /// naming no caller, a success is decided as `decide` does.
    pub fn decide_outcome(&self, outcome: &Result<TokenClaims, AuthError>, method: &str, path: &str) -> (r: PolicyDecision)
        ensures
            r.resource_arn@ == resource_arn_spec(*self, method@),
            match outcome {
                Ok(claims) => {
                    &&& r.effect == (if allows(*self, set_of(claims.groups@), method@, path@) {
                        Effect::Allow
                    } else {
                        Effect::Deny
                    })
                    &&& names_principal(r, claims.subject@)
                },
                Err(_) => r.effect == Effect::Deny && names_principal(r, anonymous_spec()),
            },
    {
        match outcome {
            Ok(claims) => self.decide(claims, method, path),
            Err(_) => self.decision_for("anonymous", Effect::Deny, method),
        }
    }
}

/// The blog API's access policy: members of `admin_group` may call
/// everything, and members of `Author` may create posts.
pub fn blog_access_policy(admin_group: &str, region: &str, account_id: &str, api_id: &str) -> (r: AccessPolicy)
    ensures
        r.admin_group@ == admin_group@,
        r.region@ == region@,
        r.account_id@ == account_id@,
        r.api_id@ == api_id@,
        r.routes@.len() == 1,
        r.routes@[0].group@ == "Author"@,
        r.routes@[0].method@ == "POST"@,
        r.routes@[0].path@ == "/post"@,
{
    let mut routes: Vec<RouteRule> = Vec::new();
    routes.push(RouteRule {
        group: String::from_str("Author"),
        method: String::from_str("POST"),
        path: String::from_str("/post"),
    });
    AccessPolicy {
        admin_group: String::from_str(admin_group),
        routes,
        region: String::from_str(region),
        account_id: String::from_str(account_id),
        api_id: String::from_str(api_id),
    }
}

/// One statement of an IAM-style policy document.
pub struct PolicyStatement {
    pub action: Vec<String>,
    pub effect: Effect,
    pub resource: Vec<String>,
}

pub struct PolicyDocument {
    pub version: String,
    pub statement: Vec<PolicyStatement>,
}

/// A decision in the shape that the gateway reads.
pub struct AuthorizerResponse {
    pub principal_id: String,
    pub policy_document: PolicyDocument,
    pub context: Vec<ContextEntry>,
}

pub open spec fn policy_version_spec() -> Seq<char> {
    "2012-10-17"@
}

pub open spec fn invoke_action_spec() -> Seq<char> {
    "execute-api:Invoke"@
}

/// Lays `d` out as a policy document of one statement: the invoke action,
/// the decision's effect, and its resource.
pub fn authorizer_response(d: PolicyDecision) -> (r: AuthorizerResponse)
    ensures
        r.principal_id == d.principal_id,
        r.context == d.context,
        r.policy_document.version@ == policy_version_spec(),
        r.policy_document.statement@.len() == 1,
        r.policy_document.statement@[0].effect == d.effect,
        r.policy_document.statement@[0].action@.len() == 1,
        r.policy_document.statement@[0].action@[0]@ == invoke_action_spec(),
        r.policy_document.statement@[0].resource@.len() == 1,
        r.policy_document.statement@[0].resource@[0] == d.resource_arn,
{
    let mut action: Vec<String> = Vec::new();
    action.push(String::from_str("execute-api:Invoke"));
    let mut resource: Vec<String> = Vec::new();
    resource.push(d.resource_arn);
    let mut statement: Vec<PolicyStatement> = Vec::new();
    statement.push(PolicyStatement { action, effect: d.effect, resource });
    AuthorizerResponse {
        principal_id: d.principal_id,
        policy_document: PolicyDocument { version: String::from_str("2012-10-17"), statement },
        context: d.context,
    }
}

} // verus!
