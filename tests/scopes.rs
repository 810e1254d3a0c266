use blog_auth::mapping::{blog_mapping, CapabilityMapping};
use blog_auth::scopes::{baseline_scope, compute_override};

fn strings(items: &[&str]) -> Vec<String> {
    items.iter().map(|s| s.to_string()).collect()
}

fn sorted(mut v: Vec<String>) -> Vec<String> {
    v.sort();
    v
}

fn author_mapping() -> CapabilityMapping {
    let mut m = CapabilityMapping::new();
    m.add("author", strings(&["post.read", "post.write"]));
    m.add("admin", strings(&["admin.read", "admin.delete"]));
    m
}

#[test]
fn scopes_for_no_groups_is_empty() {
    let m = author_mapping();
    assert!(m.scopes_for(&Vec::new()).is_empty());
}

#[test]
fn scopes_for_unknown_group_is_empty() {
    let m = author_mapping();
    assert!(m.scopes_for(&strings(&["stranger"])).is_empty());
}

#[test]
fn scopes_for_two_groups_is_union() {
    let m = author_mapping();
    let both = sorted(m.scopes_for(&strings(&["author", "admin"])));
    let mut parts = m.scopes_for(&strings(&["author"]));
    parts.extend(m.scopes_for(&strings(&["admin"])));
    assert_eq!(both, sorted(parts));
    assert_eq!(both, strings(&["admin.delete", "admin.read", "post.read", "post.write"]));
}

#[test]
fn scopes_for_repeated_groups_lists_each_scope_once() {
    let mut m = author_mapping();
    m.add("author", strings(&["post.write", "post.delete"]));
    let r = sorted(m.scopes_for(&strings(&["author", "author"])));
    assert_eq!(r, strings(&["post.delete", "post.read", "post.write"]));
}

#[test]
fn blog_mapping_scopes() {
    let m = blog_mapping("api.example.com");
    let r = sorted(m.scopes_for(&strings(&["commenter", "Commenter"])));
    assert_eq!(
        r,
        strings(&[
            "https://api.example.com/commenter.delete",
            "https://api.example.com/commenter.read",
            "https://api.example.com/commenter.write",
        ])
    );
    assert_eq!(m.entries.len(), 4);
}

#[test]
fn override_author_scenario() {
    let m = author_mapping();
    let o = compute_override(&m, &strings(&["author"]), &strings(&["post.write", "admin.delete"]));
    let add = sorted(o.scopes_to_add);
    assert_eq!(add, strings(&["aws.cognito.signin.user.admin", "post.read", "post.write"]));
    assert_eq!(o.scopes_to_suppress, strings(&["admin.delete"]));
}

#[test]
fn override_always_adds_baseline() {
    let m = author_mapping();
    let o = compute_override(&m, &Vec::new(), &strings(&["aws.cognito.signin.user.admin", "x"]));
    assert_eq!(o.scopes_to_add, vec![baseline_scope()]);
    assert_eq!(o.scopes_to_suppress, strings(&["x"]));
}

#[test]
fn override_add_and_suppress_are_disjoint() {
    let m = author_mapping();
    let o = compute_override(
        &m,
        &strings(&["admin", "guest"]),
        &strings(&["admin.read", "post.read", "post.read", "other"]),
    );
    for s in &o.scopes_to_suppress {
        assert!(!o.scopes_to_add.contains(s));
    }
    assert_eq!(sorted(o.scopes_to_suppress), strings(&["other", "post.read"]));
}

#[test]
fn override_with_nothing_requested_suppresses_nothing() {
    let m = blog_mapping("blog.test");
    let o = compute_override(&m, &strings(&["guest"]), &Vec::new());
    assert!(o.scopes_to_suppress.is_empty());
    assert_eq!(o.scopes_to_add.len(), 4);
}
