//! The group to scope mapping shared by the access decision and the scope
//! override: a read-only table built once when the process starts.

use vstd::prelude::*;
use crate::strset::{str_eq, set_of, no_dups, extend_unique, lemma_set_of_empty, lemma_set_of_prefix};

verus! {

/// The scopes that one group grants.
pub struct GroupScopes {
    pub group: String,
    pub scopes: Vec<String>,
}

/// Which scopes each group grants. A group named by several entries grants
/// the scopes of all of them.
pub struct CapabilityMapping {
    pub entries: Vec<GroupScopes>,
}

/// The scopes granted to the members of `groups`: the union of the entries
/// of those groups, unknown groups contributing nothing.
pub open spec fn scopes_for_spec(m: Map<Seq<char>, Set<Seq<char>>>, groups: Set<Seq<char>>) -> Set<Seq<char>> {
    Set::new(|s: Seq<char>| exists|g: Seq<char>| groups.contains(g) && m.contains_key(g) && m[g].contains(s))
}

impl CapabilityMapping {
    pub open spec fn names(&self, g: Seq<char>) -> bool {
        exists|i: int| 0 <= i < self.entries@.len() && self.entries@[i].group@ == g
    }

    pub open spec fn grants(&self, g: Seq<char>, s: Seq<char>) -> bool {
        exists|i: int| 0 <= i < self.entries@.len() && self.entries@[i].group@ == g
            && set_of(self.entries@[i].scopes@).contains(s)
    }

    pub open spec fn scopes_of(&self, g: Seq<char>) -> Set<Seq<char>> {
        Set::new(|s: Seq<char>| self.grants(g, s))
    }
}

impl View for CapabilityMapping {
    type V = Map<Seq<char>, Set<Seq<char>>>;

    open spec fn view(&self) -> Map<Seq<char>, Set<Seq<char>>> {
        Map::new(|g: Seq<char>| self.names(g), |g: Seq<char>| self.scopes_of(g))
    }
}

impl CapabilityMapping {
    /// A mapping that names no group.
    pub fn new() -> (r: CapabilityMapping)
        ensures
            r@ == Map::<Seq<char>, Set<Seq<char>>>::empty(),
    {
        let r = CapabilityMapping { entries: Vec::new() };
        assert(r@ =~= Map::<Seq<char>, Set<Seq<char>>>::empty());
        r
    }

    /// Lets `group` grant `scopes` as well as whatever it granted before.
    pub fn add(&mut self, group: &str, scopes: Vec<String>)
        ensures
            final(self)@ == old(self)@.insert(
                group@,
                if old(self)@.contains_key(group@) {
                    old(self)@[group@].union(set_of(scopes@))
                } else {
                    set_of(scopes@)
                },
            ),
    {
        let ghost before = *self;
        let ghost added = scopes@;
        self.entries.push(GroupScopes { group: String::from_str(group), scopes });
        let ghost last = self.entries@.len() - 1;
        assert forall|g: Seq<char>| #[trigger] self.names(g) == (before.names(g) || g == group@) by {
            if self.names(g) {
                let i = choose|i: int| 0 <= i < self.entries@.len() && self.entries@[i].group@ == g;
                if i < last {
                    assert(self.entries@[i] == before.entries@[i]);
                }
            }
            if before.names(g) {
                let i = choose|i: int| 0 <= i < before.entries@.len() && before.entries@[i].group@ == g;
                assert(self.entries@[i] == before.entries@[i]);
            }
            if g == group@ {
                assert(self.entries@[last].group@ == g);
            }
        }
        assert forall|g: Seq<char>, s: Seq<char>| #[trigger] self.grants(g, s)
            == (before.grants(g, s) || (g == group@ && set_of(added).contains(s))) by {
            if self.grants(g, s) {
                let i = choose|i: int| 0 <= i < self.entries@.len() && self.entries@[i].group@ == g
                    && set_of(self.entries@[i].scopes@).contains(s);
                if i < last {
                    assert(self.entries@[i] == before.entries@[i]);
                }
            }
            if before.grants(g, s) {
                let i = choose|i: int| 0 <= i < before.entries@.len() && before.entries@[i].group@ == g
                    && set_of(before.entries@[i].scopes@).contains(s);
                assert(self.entries@[i] == before.entries@[i]);
            }
            if g == group@ && set_of(added).contains(s) {
                assert(self.entries@[last].group@ == g);
                assert(self.entries@[last].scopes@ == added);
            }
        }
        let ghost expect = before@.insert(
            group@,
            if before@.contains_key(group@) { before@[group@].union(set_of(added)) } else { set_of(added) },
        );
        assert forall|g: Seq<char>| #[trigger] expect.contains_key(g) implies self@[g] =~= expect[g] by {
            if g == group@ {
                if before@.contains_key(group@) {
                    assert(self.scopes_of(g) =~= before.scopes_of(g).union(set_of(added)));
                } else {
                    assert(self.scopes_of(g) =~= set_of(added));
                }
            } else {
                assert(self.scopes_of(g) =~= before.scopes_of(g));
            }
        }
        assert(self@ =~= expect);
    }

    /// Adds to `out` every scope that `group` grants.
    fn add_scopes_of(&self, group: &str, out: &mut Vec<String>)
        requires
            no_dups(old(out)@),
        ensures
            no_dups(final(out)@),
            set_of(final(out)@) == set_of(old(out)@).union(
                if self@.contains_key(group@) { self@[group@] } else { Set::empty() },
            ),
    {
        let mut j: usize = 0;
        while j < self.entries.len()
            invariant
                j <= self.entries@.len(),
                no_dups(out@),
                set_of(out@) == set_of(old(out)@).union(self.granted_by_first(group@, j as int)),
            decreases self.entries.len() - j,
        {
            proof { self.lemma_granted_step(group@, j as int); }
            if str_eq(self.entries[j].group.as_str(), group) {
                extend_unique(out, &self.entries[j].scopes);
            }
            assert(set_of(out@) =~= set_of(old(out)@).union(self.granted_by_first(group@, j + 1)));
            j = j + 1;
        }
        assert(self.granted_by_first(group@, j as int) =~=
            (if self@.contains_key(group@) { self@[group@] } else { Set::empty() }));
    }

    spec fn granted_by_first(&self, g: Seq<char>, j: int) -> Set<Seq<char>> {
        Set::new(|s: Seq<char>| exists|i: int| 0 <= i < j && self.entries@[i].group@ == g
            && #[trigger] set_of(self.entries@[i].scopes@).contains(s))
    }

    proof fn lemma_granted_step(&self, g: Seq<char>, j: int)
        requires
            0 <= j < self.entries@.len(),
        ensures
            self.granted_by_first(g, j + 1) == self.granted_by_first(g, j).union(
                if self.entries@[j].group@ == g { set_of(self.entries@[j].scopes@) } else { Set::empty() },
            ),
    {
        assert(self.granted_by_first(g, j + 1) =~= self.granted_by_first(g, j).union(
            if self.entries@[j].group@ == g { set_of(self.entries@[j].scopes@) } else { Set::empty() },
        ));
    }

    /// The scopes that the members of `groups` are granted, each once.
    pub fn scopes_for(&self, groups: &Vec<String>) -> (r: Vec<String>)
        ensures
            no_dups(r@),
            set_of(r@) == scopes_for_spec(self@, set_of(groups@)),
    {
        let mut out: Vec<String> = Vec::new();
        proof { lemma_set_of_empty(out@); }
        let mut i: usize = 0;
        while i < groups.len()
            invariant
                i <= groups@.len(),
                no_dups(out@),
                set_of(out@) == scopes_for_spec(self@, set_of(groups@.subrange(0, i as int))),
            decreases groups.len() - i,
        {
            self.add_scopes_of(groups[i].as_str(), &mut out);
            let ghost g = groups@[i as int]@;
            proof { lemma_set_of_prefix(groups@, i as int); }
            proof { lemma_scopes_for_insert(self@, set_of(groups@.subrange(0, i as int)), g); }
            i = i + 1;
        }
        assert(groups@.subrange(0, groups@.len() as int) =~= groups@);
        out
    }
}

proof fn lemma_scopes_for_insert(m: Map<Seq<char>, Set<Seq<char>>>, groups: Set<Seq<char>>, g: Seq<char>)
    ensures
        scopes_for_spec(m, groups.insert(g)) == scopes_for_spec(m, groups).union(
            if m.contains_key(g) { m[g] } else { Set::empty() },
        ),
{
    let extra: Set<Seq<char>> = if m.contains_key(g) { m[g] } else { Set::empty() };
    assert forall|s: Seq<char>| scopes_for_spec(m, groups.insert(g)).contains(s)
        implies scopes_for_spec(m, groups).union(extra).contains(s) by {
        let h = choose|h: Seq<char>| groups.insert(g).contains(h) && m.contains_key(h) && m[h].contains(s);
        if h != g {
            assert(groups.contains(h));
        }
    }
    assert forall|s: Seq<char>| scopes_for_spec(m, groups).union(extra).contains(s)
        implies scopes_for_spec(m, groups.insert(g)).contains(s) by {
        if scopes_for_spec(m, groups).contains(s) {
            let h = choose|h: Seq<char>| groups.contains(h) && m.contains_key(h) && m[h].contains(s);
            assert(groups.insert(g).contains(h));
        } else {
            assert(groups.insert(g).contains(g));
        }
    }
    assert(scopes_for_spec(m, groups.insert(g)) =~= scopes_for_spec(m, groups).union(extra));
}

/// The scope `https://<domain>/<group>.<action>` of the blog API.
pub open spec fn blog_scope(domain: Seq<char>, group: Seq<char>, action: Seq<char>) -> Seq<char> {
    "https://"@ + domain + "/"@ + group + "."@ + action
}

/// The read, write and delete scopes of one group of the blog API.
pub open spec fn blog_group_scopes(domain: Seq<char>, group: Seq<char>) -> Set<Seq<char>> {
    set![
        blog_scope(domain, group, "read"@),
        blog_scope(domain, group, "write"@),
        blog_scope(domain, group, "delete"@),
    ]
}

/// The blog API's mapping: each of its four groups grants its own read,
/// write and delete scopes.
pub open spec fn blog_mapping_spec(domain: Seq<char>) -> Map<Seq<char>, Set<Seq<char>>> {
    map![
        "admin"@ => blog_group_scopes(domain, "admin"@),
        "author"@ => blog_group_scopes(domain, "author"@),
        "commenter"@ => blog_group_scopes(domain, "commenter"@),
        "guest"@ => blog_group_scopes(domain, "guest"@),
    ]
}

fn blog_scope_name(domain: &str, group: &str, action: &str) -> (r: String)
    ensures
        r@ == blog_scope(domain@, group@, action@),
{
    let mut r = String::from_str("https://");
    r.append(domain);
    r.append("/");
    r.append(group);
    r.append(".");
    r.append(action);
    r
}

fn blog_group_scope_list(domain: &str, group: &str) -> (r: Vec<String>)
    ensures
        set_of(r@) == blog_group_scopes(domain@, group@),
{
    let mut r: Vec<String> = Vec::new();
    r.push(blog_scope_name(domain, group, "read"));
    r.push(blog_scope_name(domain, group, "write"));
    r.push(blog_scope_name(domain, group, "delete"));
    assert(r@[0]@ == blog_scope(domain@, group@, "read"@));
    assert(r@[1]@ == blog_scope(domain@, group@, "write"@));
    assert(r@[2]@ == blog_scope(domain@, group@, "delete"@));
    assert(set_of(r@) =~= blog_group_scopes(domain@, group@));
    r
}

/// The mapping of the blog API served under `domain`.
pub fn blog_mapping(domain: &str) -> (r: CapabilityMapping)
    ensures
        r@ == blog_mapping_spec(domain@),
{
    let mut r = CapabilityMapping::new();
    proof {
        reveal_strlit("admin");
        reveal_strlit("author");
        reveal_strlit("commenter");
        reveal_strlit("guest");
    }
    r.add("admin", blog_group_scope_list(domain, "admin"));
    r.add("author", blog_group_scope_list(domain, "author"));
    assert("author"@ != "admin"@) by { assert("author"@[1] != "admin"@[1]); }
    r.add("commenter", blog_group_scope_list(domain, "commenter"));
    assert("commenter"@ != "admin"@) by { assert("commenter"@[0] != "admin"@[0]); }
    assert("commenter"@ != "author"@) by { assert("commenter"@[0] != "author"@[0]); }
    r.add("guest", blog_group_scope_list(domain, "guest"));
    assert("guest"@ != "admin"@) by { assert("guest"@[0] != "admin"@[0]); }
    assert("guest"@ != "author"@) by { assert("guest"@[0] != "author"@[0]); }
    assert("guest"@ != "commenter"@) by { assert("guest"@[0] != "commenter"@[0]); }
    assert(r@ =~= blog_mapping_spec(domain@));
    r
}

/// No groups grant no scopes.
pub proof fn lemma_scopes_for_no_groups(m: Map<Seq<char>, Set<Seq<char>>>)
    ensures
        scopes_for_spec(m, Set::empty()) == Set::<Seq<char>>::empty(),
{
    assert(scopes_for_spec(m, Set::empty()) =~= Set::<Seq<char>>::empty());
}

/// A group that the mapping does not name grants nothing.
pub proof fn lemma_scopes_for_unknown_group(m: Map<Seq<char>, Set<Seq<char>>>, g: Seq<char>)
    requires
        !m.contains_key(g),
    ensures
        scopes_for_spec(m, set![g]) == Set::<Seq<char>>::empty(),
{
    assert(scopes_for_spec(m, set![g]) =~= Set::<Seq<char>>::empty());
}

/// The scopes of a union of groups are the union of their scopes.
pub proof fn lemma_scopes_for_union(m: Map<Seq<char>, Set<Seq<char>>>, a: Set<Seq<char>>, b: Set<Seq<char>>)
    ensures
        scopes_for_spec(m, a.union(b)) == scopes_for_spec(m, a).union(scopes_for_spec(m, b)),
{
    assert forall|s: Seq<char>| scopes_for_spec(m, a.union(b)).contains(s)
        implies scopes_for_spec(m, a).union(scopes_for_spec(m, b)).contains(s) by {
        let h = choose|h: Seq<char>| a.union(b).contains(h) && m.contains_key(h) && m[h].contains(s);
        if a.contains(h) {
            assert(scopes_for_spec(m, a).contains(s));
        } else {
            assert(scopes_for_spec(m, b).contains(s));
        }
    }
    assert forall|s: Seq<char>| scopes_for_spec(m, a).union(scopes_for_spec(m, b)).contains(s)
        implies scopes_for_spec(m, a.union(b)).contains(s) by {
        if scopes_for_spec(m, a).contains(s) {
            let h = choose|h: Seq<char>| a.contains(h) && m.contains_key(h) && m[h].contains(s);
            assert(a.union(b).contains(h));
        } else {
            let h = choose|h: Seq<char>| b.contains(h) && m.contains_key(h) && m[h].contains(s);
            assert(a.union(b).contains(h));
        }
    }
    assert(scopes_for_spec(m, a.union(b)) =~= scopes_for_spec(m, a).union(scopes_for_spec(m, b)));
}

} // verus!
