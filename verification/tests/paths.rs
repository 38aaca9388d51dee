use project_show::path::AbsPath;

fn abs(components: &[&str]) -> AbsPath {
    let mut p = AbsPath::root();
    for c in components {
        p = p.join(c);
    }
    p
}

#[test]
fn root_displays_as_slash() {
    assert_eq!(AbsPath::root().to_display(), "/");
}

#[test]
fn join_and_display() {
    let p = abs(&["repo", "pkgs", "foo"]);
    assert_eq!(p.to_display(), "/repo/pkgs/foo");
    assert_eq!(p.depth(), 3);
}

#[test]
fn parent_walks_upward() {
    let p = abs(&["repo", "a"]);
    let up = p.parent().unwrap();
    assert_eq!(up.to_display(), "/repo");
    let top = up.parent().unwrap();
    assert_eq!(top.to_display(), "/");
    assert!(top.parent().is_none());
}

#[test]
fn equality_is_by_components() {
    let a = abs(&["repo", "a"]);
    let b = abs(&["repo", "a"]);
    let c = abs(&["repo", "b"]);
    assert!(a.eq_path(&b));
    assert!(!a.eq_path(&c));
    assert!(a.eq_path(&a.duplicate()));
}

#[test]
fn starts_with_ancestors() {
    let ws = abs(&["repo"]);
    let member = abs(&["repo", "pkgs", "foo"]);
    let other = abs(&["elsewhere"]);
    assert!(member.starts_with(&ws));
    assert!(member.starts_with(&AbsPath::root()));
    assert!(member.starts_with(&member));
    assert!(!member.starts_with(&other));
    assert!(!ws.starts_with(&member));
}

#[test]
fn strip_prefix_returns_the_rest() {
    let ws = abs(&["repo"]);
    let member = abs(&["repo", "pkgs", "foo"]);
    let rest = member.strip_prefix(&ws).unwrap();
    assert_eq!(rest, vec!["pkgs".to_string(), "foo".to_string()]);
    assert!(member.strip_prefix(&abs(&["other"])).is_none());
}

#[test]
fn nested_member_displays_relative_path() {
    let ws = abs(&["repo"]);
    let member = abs(&["repo", "pkgs", "foo"]);
    assert_eq!(member.rel_display(&ws), "./pkgs/foo");
}

#[test]
fn foreign_member_displays_absolute_path() {
    let ws = abs(&["repo"]);
    let member = abs(&["somewhere", "else"]);
    assert_eq!(member.rel_display(&ws), "/somewhere/else");
}

#[test]
fn member_equal_to_root_displays_dot() {
    let ws = abs(&["repo"]);
    assert_eq!(ws.rel_display(&ws), ".");
}

#[test]
fn path_order_is_lexicographic() {
    let a = abs(&["repo", "a"]);
    let b = abs(&["repo", "b"]);
    let ab = abs(&["repo", "a", "b"]);
    assert!(a.lt_path(&b));
    assert!(!b.lt_path(&a));
    assert!(a.lt_path(&ab));
    assert!(!a.lt_path(&a));
    assert!(a.le_path(&a));
    assert!(a.le_path(&b));
}
