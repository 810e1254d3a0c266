//! The scope override applied when the identity provider mints a token: the
//! scopes that the caller's groups justify are added, and every requested
//! scope that they do not justify is suppressed.

use vstd::prelude::*;
use crate::strset::{set_of, no_dups, contains_str, insert_str, lemma_set_of_empty, lemma_set_of_prefix};
use crate::mapping::{CapabilityMapping, scopes_for_spec};

verus! {

/// The provider-reserved scope that every token carries.
pub open spec fn baseline_scope_spec() -> Seq<char> {
    "aws.cognito.signin.user.admin"@
}

/// The provider-reserved scope that every token carries.
pub fn baseline_scope() -> (r: String)
    ensures
        r@ == baseline_scope_spec(),
{
    String::from_str("aws.cognito.signin.user.admin")
}

/// The scopes granted to the members of `groups`: the baseline scope and
/// whatever their groups grant.
pub open spec fn granted_spec(m: Map<Seq<char>, Set<Seq<char>>>, groups: Set<Seq<char>>) -> Set<Seq<char>> {
    scopes_for_spec(m, groups).insert(baseline_scope_spec())
}

/// The requested scopes that the groups do not grant.
pub open spec fn suppressed_spec(
    m: Map<Seq<char>, Set<Seq<char>>>,
    groups: Set<Seq<char>>,
    requested: Set<Seq<char>>,
) -> Set<Seq<char>> {
    requested.difference(granted_spec(m, groups))
}

/// The scope patch handed back to the identity provider.
pub struct ScopeOverride {
    pub scopes_to_add: Vec<String>,
    pub scopes_to_suppress: Vec<String>,
}

/// Computes the scope patch for a caller in `groups` who asked for
/// `requested`. Each list holds every scope once.
pub fn compute_override(mapping: &CapabilityMapping, groups: &Vec<String>, requested: &Vec<String>) -> (r: ScopeOverride)
    ensures
        no_dups(r.scopes_to_add@),
        no_dups(r.scopes_to_suppress@),
        set_of(r.scopes_to_add@) == granted_spec(mapping@, set_of(groups@)),
        set_of(r.scopes_to_suppress@) == suppressed_spec(mapping@, set_of(groups@), set_of(requested@)),
{
    let mut to_add = mapping.scopes_for(groups);
    let baseline = baseline_scope();
    insert_str(&mut to_add, baseline.as_str());
    let ghost granted = granted_spec(mapping@, set_of(groups@));
    let mut to_suppress: Vec<String> = Vec::new();
    proof { lemma_set_of_empty(to_suppress@); }
    let mut i: usize = 0;
    while i < requested.len()
        invariant
            i <= requested@.len(),
            set_of(to_add@) == granted,
            no_dups(to_suppress@),
            set_of(to_suppress@) == set_of(requested@.subrange(0, i as int)).difference(granted),
        decreases requested.len() - i,
    {
        proof { lemma_set_of_prefix(requested@, i as int); }
        if !contains_str(&to_add, requested[i].as_str()) {
            insert_str(&mut to_suppress, requested[i].as_str());
        }
        assert(set_of(to_suppress@) =~= set_of(requested@.subrange(0, i + 1)).difference(granted));
        i = i + 1;
    }
    assert(requested@.subrange(0, requested@.len() as int) =~= requested@);
    ScopeOverride { scopes_to_add: to_add, scopes_to_suppress: to_suppress }
}

/// The baseline scope is always added and never suppressed.
pub proof fn lemma_baseline_always_granted(
    m: Map<Seq<char>, Set<Seq<char>>>,
    groups: Set<Seq<char>>,
    requested: Set<Seq<char>>,
)
    ensures
        granted_spec(m, groups).contains(baseline_scope_spec()),
        !suppressed_spec(m, groups, requested).contains(baseline_scope_spec()),
{
}

/// No scope is both added and suppressed.
pub proof fn lemma_add_and_suppress_disjoint(
    m: Map<Seq<char>, Set<Seq<char>>>,
    groups: Set<Seq<char>>,
    requested: Set<Seq<char>>,
)
    ensures
        granted_spec(m, groups).intersect(suppressed_spec(m, groups, requested)) == Set::<Seq<char>>::empty(),
{
    assert(granted_spec(m, groups).intersect(suppressed_spec(m, groups, requested)) =~= Set::<Seq<char>>::empty());
}

} // verus!
