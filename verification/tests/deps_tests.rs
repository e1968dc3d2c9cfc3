use mlang::deps::{cache_dir_for, go_platform, ls_remote_candidates, record_dependency, sources_need_tidy, LockEntry};

fn entry(import: &str, commit: &str) -> LockEntry {
    LockEntry {
        import: import.to_string(),
        git: format!("https://example.invalid/{}.git", import),
        git_ref: "main".to_string(),
        commit: commit.to_string(),
        entry: "lib.ml".to_string(),
        cache_dir: format!(".mlang/deps/{}", commit),
    }
}

fn imports(v: &[LockEntry]) -> Vec<(String, String)> {
    v.iter().map(|e| (e.import.clone(), e.commit.clone())).collect()
}

#[test]
fn refs_are_tried_in_order() {
    assert_eq!(
        ls_remote_candidates("v1"),
        vec!["v1", "refs/heads/v1", "refs/tags/v1", "refs/tags/v1^{}"]
    );
    assert_eq!(cache_dir_for("ABC123"), ".mlang/deps/abc123");
}

#[test]
fn recorded_dependencies_replace_and_stay_sorted() {
    let deps = vec![entry("zeta", "1"), entry("alpha", "2")];
    let out = record_dependency(deps, entry("beta", "3"));
    assert_eq!(
        imports(&out),
        vec![(s("alpha"), s("2")), (s("beta"), s("3")), (s("zeta"), s("1"))]
    );
    let out = record_dependency(out, entry("zeta", "9"));
    assert_eq!(
        imports(&out),
        vec![(s("alpha"), s("2")), (s("beta"), s("3")), (s("zeta"), s("9"))]
    );
    let out = record_dependency(vec![entry("b", "1"), entry("a", "2"), entry("b", "3")], entry("c", "4"));
    assert_eq!(
        imports(&out),
        vec![(s("a"), s("2")), (s("b"), s("1")), (s("b"), s("3")), (s("c"), s("4"))]
    );
    let out = record_dependency(vec![entry("ab", "1"), entry("a", "2"), entry("B", "3")], entry("b", "4"));
    assert_eq!(imports(&out).into_iter().map(|p| p.0).collect::<Vec<_>>(), vec!["B", "a", "ab", "b"]);
}

fn s(x: &str) -> String {
    x.to_string()
}

#[test]
fn host_platforms_use_go_names() {
    assert_eq!(go_platform("macos", "aarch64"), (s("darwin"), s("arm64")));
    assert_eq!(go_platform("linux", "x86_64"), (s("linux"), s("amd64")));
    assert_eq!(go_platform("windows", "x86"), (s("windows"), s("386")));
    assert_eq!(go_platform("freebsd", "riscv64"), (s("freebsd"), s("riscv64")));
}

#[test]
fn workspaces_with_postgres_need_tidy() {
    assert!(sources_need_tidy(&vec![s("package main\n"), s("import (\n\t_ \"github.com/lib/pq\"\n)\n")]));
    assert!(!sources_need_tidy(&vec![s("import \"github.com/lib/pqx\"")]));
    assert!(!sources_need_tidy(&vec![]));
}
