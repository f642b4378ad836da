use prism_console::models::DependencyEdge;
use prism_console::resolver::resolve_module_dependencies;

fn names(list: &[&str]) -> Vec<String> {
    list.iter().map(|s| s.to_string()).collect()
}

fn edges(list: &[(&str, &str)]) -> Vec<DependencyEdge> {
    list.iter()
        .map(|(s, t)| DependencyEdge { source: s.to_string(), target: t.to_string() })
        .collect()
}

#[test]
fn closure_adds_what_the_selection_needs() {
    let e = edges(&[
        ("modules/auth/routes.py", "modules/users/models.py"),
        ("modules/users/models.py", "modules/audit/log.py"),
        ("modules/billing/routes.py", "modules/auth/routes.py"),
    ]);
    let all = names(&["audit", "auth", "billing", "users"]);
    let r = resolve_module_dependencies(&e, "modules", &names(&["auth"]), &all);
    assert_eq!(r.modules, names(&["auth", "users", "audit"]));
    assert_eq!(r.auto_added, names(&["users", "audit"]));
    assert!(r.missing.is_empty());
}

#[test]
fn closure_holds_the_selection() {
    let e = edges(&[("modules/a/x.py", "modules/b/y.py")]);
    let all = names(&["a", "b", "c"]);
    let selected = names(&["c", "a", "ghost"]);
    let r = resolve_module_dependencies(&e, "modules", &selected, &all);
    for m in &selected {
        assert!(r.modules.contains(m));
    }
    assert_eq!(r.modules, names(&["c", "a", "ghost", "b"]));
    assert_eq!(r.auto_added, names(&["b"]));
    assert_eq!(r.missing, names(&["ghost"]));
}

#[test]
fn closure_of_a_closure_is_the_same() {
    let e = edges(&[
        ("modules/a/x.py", "modules/b/y.py"),
        ("modules/b/y.py", "modules/c/z.py"),
        ("modules/c/z.py", "modules/a/x.py"),
        ("modules/d/w.py", "modules/e/v.py"),
    ]);
    let all = names(&["a", "b", "c", "d", "e"]);
    let first = resolve_module_dependencies(&e, "modules", &names(&["b"]), &all);
    assert_eq!(first.modules, names(&["b", "c", "a"]));
    let second = resolve_module_dependencies(&e, "modules", &first.modules, &all);
    assert_eq!(second.modules, first.modules);
    assert!(second.auto_added.is_empty());
}

#[test]
fn imports_inside_one_module_count_for_nothing() {
    let e = edges(&[
        ("modules/a/x.py", "modules/a/y.py"),
        ("modules/a/x.py", "core/base.py"),
        ("main.py", "modules/b/y.py"),
        ("modules/a/x.py", "modules/__init__.py"),
    ]);
    let all = names(&["a", "b"]);
    let r = resolve_module_dependencies(&e, "modules", &names(&["a"]), &all);
    assert_eq!(r.modules, names(&["a"]));
    assert!(r.auto_added.is_empty());
}

#[test]
fn neighbours_come_in_the_order_of_the_module_list() {
    let e = edges(&[
        ("src/views/home/index.vue", "src/views/zeta/a.ts"),
        ("src/views/home/index.vue", "src/views/alpha/a.ts"),
        ("src/views/zeta/a.ts", "src/views/mid/a.ts"),
    ]);
    let all = names(&["alpha", "home", "mid", "zeta"]);
    let r = resolve_module_dependencies(&e, "src/views", &names(&["home"]), &all);
    assert_eq!(r.modules, names(&["home", "alpha", "zeta", "mid"]));
    let all = names(&["zeta", "mid", "home", "alpha"]);
    let r = resolve_module_dependencies(&e, "src/views", &names(&["home"]), &all);
    assert_eq!(r.modules, names(&["home", "zeta", "alpha", "mid"]));
}

#[test]
fn selection_is_listed_once() {
    let all = names(&["a", "b"]);
    let r = resolve_module_dependencies(&[], "modules", &names(&["b", "a", "b"]), &all);
    assert_eq!(r.modules, names(&["b", "a"]));
    assert!(r.auto_added.is_empty());
    let r = resolve_module_dependencies(&[], "modules", &[], &all);
    assert!(r.modules.is_empty());
}

#[test]
fn a_module_outside_the_list_is_not_added() {
    let e = edges(&[("modules/a/x.py", "modules/__pycache__/y.py")]);
    let all = names(&["a"]);
    let r = resolve_module_dependencies(&e, "modules", &names(&["a"]), &all);
    assert_eq!(r.modules, names(&["a"]));
}
